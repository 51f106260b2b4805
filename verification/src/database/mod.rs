//! A strongly-typed model of the catalog and of the material files it names.
pub mod catalog;
pub mod material;
pub mod parsers;
pub mod readers;

pub use catalog::{BookContent, Catalog, Shelf, ShelfContent};
pub use material::{Data, Material};
pub use parsers::{Columns, ParseError};
pub use readers::{Page, PageView};

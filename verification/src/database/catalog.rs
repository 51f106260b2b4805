//! The catalog: shelves of books of pages.
use vstd::prelude::*;
use std::path::PathBuf;

verus! {

/// `std::path::PathBuf`, a path in the file system. The library hands paths
/// on and never looks into one.
#[verifier::external_type_specification]
#[verifier::external_body]
pub struct ExPathBuf(PathBuf);

/// The catalog, in the order of the document.
pub type Catalog = Vec<Shelf>;

/// What a book holds: a divider, or a page that names a material file.
#[derive(Debug)]
#[allow(inconsistent_fields)]
pub enum BookContent {
    /// A label between pages. It holds no data.
    Divider { divider: String },
    /// A page: its key, its name, and the path of its material file.
    Page { page: String, name: String, data: PathBuf },
    /// A page whose key the catalog wrote as a number.
    PageNumberName { page: u64, name: String, data: PathBuf },
}

/// What a shelf holds: a divider, or a book.
#[derive(Debug)]
pub enum ShelfContent {
    /// A label between books. It holds no data.
    Divider { divider: String },
    /// A book: its key, its name, the path of a file about it, and its
    /// dividers and pages in order.
    Book { book: String, name: String, info: PathBuf, content: Vec<BookContent> },
}

/// A shelf: its key, its name, and its dividers and books in order.
#[derive(Debug)]
pub struct Shelf {
    pub shelf: String,
    pub name: String,
    pub content: Vec<ShelfContent>,
}

} // verus!

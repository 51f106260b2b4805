//! The choices of the command line.
use vstd::prelude::*;

verus! {

/// The format of the file that holds the serialized store.
#[derive(Clone, Copy, Debug, PartialEq, Eq, Structural)]
pub enum Format {
    Json,
    Bitcode,
}

/// The catalog to parse.
#[derive(Clone, Copy, Debug, PartialEq, Eq, Structural)]
pub enum CatalogChoice {
    N2,
    NK,
}

impl Format {
    /// The name of the format on the command line.
    pub fn name(&self) -> (r: &'static str)
        ensures
            r@ == match self {
                Format::Json => "json"@,
                Format::Bitcode => "bitcode"@,
            },
    {
        match self {
            Format::Json => "json",
            Format::Bitcode => "bitcode",
        }
    }
}

impl Default for Format {
    fn default() -> (r: Format)
        ensures
            r == Format::Json,
    {
        Format::Json
    }
}

impl CatalogChoice {
    /// The name of the catalog on the command line.
    pub fn name(&self) -> (r: &'static str)
        ensures
            r@ == match self {
                CatalogChoice::N2 => "n2"@,
                CatalogChoice::NK => "nk"@,
            },
    {
        match self {
            CatalogChoice::N2 => "n2",
            CatalogChoice::NK => "nk",
        }
    }

    /// The file of the catalog, below the path of the database.
    pub fn catalog_file(&self) -> (r: &'static str)
        ensures
            r@ == match self {
                CatalogChoice::N2 => "catalog-n2.yml"@,
                CatalogChoice::NK => "catalog-nk.yml"@,
            },
    {
        match self {
            CatalogChoice::N2 => "catalog-n2.yml",
            CatalogChoice::NK => "catalog-nk.yml",
        }
    }

    /// The directory that the paths of the catalog's pages start from, below
    /// the path of the database.
    pub fn data_directory(&self) -> (r: &'static str)
        ensures
            r@ == match self {
                CatalogChoice::N2 => "data-n2"@,
                CatalogChoice::NK => "data-nk"@,
            },
    {
        match self {
            CatalogChoice::N2 => "data-n2",
            CatalogChoice::NK => "data-nk",
        }
    }
}

impl Default for CatalogChoice {
    fn default() -> (r: CatalogChoice)
        ensures
            r == CatalogChoice::NK,
    {
        CatalogChoice::NK
    }
}

} // verus!

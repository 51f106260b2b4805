//! A material file, as it is read: every number still text.
use vstd::prelude::*;
use serde_yaml::Value;
use crate::dispersion::Kind;

verus! {

/// `serde_yaml::Value`, any YAML value. The library hands such a value on
/// and never looks into one.
#[verifier::external_type_specification]
#[verifier::external_body]
pub struct ExValue(Value);

/// One dispersion entry of a material file.
///
/// A tabulated entry holds one row per line, a formula entry the two ends of
/// its wavelength range and its coefficients, each separated by whitespace.
#[derive(Debug)]
pub enum Data {
    TabulatedK { data: String },
    TabulatedN { data: String },
    TabulatedNK { data: String },
    Formula1 { wavelength_range: String, coefficients: String },
    Formula2 { wavelength_range: String, coefficients: String },
    Formula3 { wavelength_range: String, coefficients: String },
    Formula4 { wavelength_range: String, coefficients: String },
    Formula5 { wavelength_range: String, coefficients: String },
    Formula6 { wavelength_range: String, coefficients: String },
    Formula7 { wavelength_range: String, coefficients: String },
    Formula8 { wavelength_range: String, coefficients: String },
    Formula9 { wavelength_range: String, coefficients: String },
}

/// A material file: its texts, its dispersion entries in order, and what
/// else it says of the material.
#[derive(Debug)]
pub struct Material {
    pub references: String,
    pub comments: String,
    pub data: Vec<Data>,
    /// Further details of the material, such as its density. They are not
    /// interpreted.
    pub specs: Option<Value>,
}

impl Data {
    /// The tag of the entry.
    pub open spec fn kind(&self) -> Kind {
        match self {
            Data::TabulatedK { .. } => Kind::TabulatedK,
            Data::TabulatedN { .. } => Kind::TabulatedN,
            Data::TabulatedNK { .. } => Kind::TabulatedNK,
            Data::Formula1 { .. } => Kind::Formula1,
            Data::Formula2 { .. } => Kind::Formula2,
            Data::Formula3 { .. } => Kind::Formula3,
            Data::Formula4 { .. } => Kind::Formula4,
            Data::Formula5 { .. } => Kind::Formula5,
            Data::Formula6 { .. } => Kind::Formula6,
            Data::Formula7 { .. } => Kind::Formula7,
            Data::Formula8 { .. } => Kind::Formula8,
            Data::Formula9 { .. } => Kind::Formula9,
        }
    }

    /// The rows of a tabulated entry, as text; empty for a formula entry.
    pub open spec fn table(&self) -> Seq<char> {
        match self {
            Data::TabulatedK { data } => data@,
            Data::TabulatedN { data } => data@,
            Data::TabulatedNK { data } => data@,
            _ => Seq::empty(),
        }
    }

    /// The wavelength range of a formula entry, as text; empty for a
    /// tabulated entry.
    pub open spec fn range(&self) -> Seq<char> {
        match self {
            Data::Formula1 { wavelength_range, .. } => wavelength_range@,
            Data::Formula2 { wavelength_range, .. } => wavelength_range@,
            Data::Formula3 { wavelength_range, .. } => wavelength_range@,
            Data::Formula4 { wavelength_range, .. } => wavelength_range@,
            Data::Formula5 { wavelength_range, .. } => wavelength_range@,
            Data::Formula6 { wavelength_range, .. } => wavelength_range@,
            Data::Formula7 { wavelength_range, .. } => wavelength_range@,
            Data::Formula8 { wavelength_range, .. } => wavelength_range@,
            Data::Formula9 { wavelength_range, .. } => wavelength_range@,
            _ => Seq::empty(),
        }
    }

    /// The coefficients of a formula entry, as text; empty for a tabulated
    /// entry.
    pub open spec fn coefficients(&self) -> Seq<char> {
        match self {
            Data::Formula1 { coefficients, .. } => coefficients@,
            Data::Formula2 { coefficients, .. } => coefficients@,
            Data::Formula3 { coefficients, .. } => coefficients@,
            Data::Formula4 { coefficients, .. } => coefficients@,
            Data::Formula5 { coefficients, .. } => coefficients@,
            Data::Formula6 { coefficients, .. } => coefficients@,
            Data::Formula7 { coefficients, .. } => coefficients@,
            Data::Formula8 { coefficients, .. } => coefficients@,
            Data::Formula9 { coefficients, .. } => coefficients@,
            _ => Seq::empty(),
        }
    }
}

} // verus!

//! Dispersion data and the closed forms of the refractive index.
use vstd::prelude::*;
use crate::expr::Expr;
use crate::number::{Number, ONE_BITS, TWO_BITS, ZERO_BITS};

verus! {

/// The bit pattern of `0.028`, the offset in the Herzberger formula.
pub const HERZBERGER_OFFSET_BITS: u64 = 0x3F9C_AC08_3126_E979;

/// The exponent of the inverse square.
pub const INVERSE_SQUARE: i32 = -2;

/// The refractive index data associated with a material.
///
/// A tabulated entry holds sampled rows, wavelength first. A formula entry
/// holds the wavelength range `[min, max]` in which the formula is valid and
/// the coefficients `c`, indexed from 0.
#[derive(Debug)]
#[allow(inconsistent_fields)]
pub enum DispersionData {
    TabulatedK { data: Vec<[Number; 2]> },
    TabulatedN { data: Vec<[Number; 2]> },
    TabulatedNK { data: Vec<[Number; 3]> },
    /// The Sellmeier formula.
    Formula1 { wavelength_range: [Number; 2], c: Vec<Number> },
    /// The Sellmeier-2 formula.
    Formula2 { wavelength_range: [Number; 2], c: Vec<Number> },
    /// Polynomial
    Formula3 { wavelength_range: [Number; 2], c: Vec<Number> },
    /// RefractiveIndex.INFO
    Formula4 { wavelength_range: [Number; 2], c: Vec<Number> },
    /// Cauchy
    Formula5 { wavelength_range: [Number; 2], c: Vec<Number> },
    /// Gases
    Formula6 { wavelength_range: [Number; 2], c: Vec<Number> },
    /// Herzberger
    Formula7 { wavelength_range: [Number; 2], c: Vec<Number> },
    /// Retro
    Formula8 { wavelength_range: [Number; 2], c: Vec<Number> },
    /// Exotic
    Formula9 { wavelength_range: [Number; 2], c: Vec<Number> },
}

/// The tag of a dispersion entry.
#[derive(Clone, Copy, Debug, PartialEq, Eq, Structural)]
pub enum Kind {
    TabulatedK,
    TabulatedN,
    TabulatedNK,
    Formula1,
    Formula2,
    Formula3,
    Formula4,
    Formula5,
    Formula6,
    Formula7,
    Formula8,
    Formula9,
}

/// Which part of the complex refractive index an entry supplies.
#[derive(Clone, Copy, Debug, PartialEq, Eq, Structural)]
pub enum DataType {
    Real,
    Imaginary,
    Both,
}

/// Why a query for the refractive index failed.
#[derive(Clone, Copy, Debug, PartialEq, Eq, Structural)]
pub enum EvalError {
    /// The wavelength is below the minimum or above the maximum of the entry.
    OutOfRange,
    /// The entry is tabulated; sampled data are not interpolated.
    NotImplemented,
    /// The formula reads a coefficient that the entry does not hold.
    MissingCoefficients,
    /// The material has no entry that supplies the real part.
    NoRealData,
    /// The material has no entry that supplies the imaginary part.
    NoImaginaryData,
}

impl EvalError {
    /// A sentence that says what is wrong.
    pub fn message(&self) -> (r: &'static str)
        ensures
            r@ == match self {
                EvalError::OutOfRange => "The wavelength is outside the range of the dispersion data."@,
                EvalError::NotImplemented => "Tabulated dispersion data are not implemented."@,
                EvalError::MissingCoefficients => "The formula reads a coefficient that is missing."@,
                EvalError::NoRealData => "No real data found for item."@,
                EvalError::NoImaginaryData => "No imaginary data found for item."@,
            },
    {
        match self {
            EvalError::OutOfRange => "The wavelength is outside the range of the dispersion data.",
            EvalError::NotImplemented => "Tabulated dispersion data are not implemented.",
            EvalError::MissingCoefficients => "The formula reads a coefficient that is missing.",
            EvalError::NoRealData => "No real data found for item.",
            EvalError::NoImaginaryData => "No imaginary data found for item.",
        }
    }
}

impl Kind {
    /// Whether the entry holds sampled rows, not a formula.
    pub open spec fn is_tabulated(self) -> bool {
        self == Kind::TabulatedK || self == Kind::TabulatedN || self == Kind::TabulatedNK
    }

    /// The classification rule: `TabulatedK` is the imaginary part,
    /// `TabulatedNK` is both parts, everything else is the real part.
    pub open spec fn data_type(self) -> DataType {
        match self {
            Kind::TabulatedK => DataType::Imaginary,
            Kind::TabulatedNK => DataType::Both,
            _ => DataType::Real,
        }
    }

    /// The number of leading coefficients that the formula reads by name.
    pub open spec fn head(self) -> int {
        match self {
            Kind::TabulatedK | Kind::TabulatedN | Kind::TabulatedNK => 0,
            Kind::Formula7 => 3,
            Kind::Formula8 => 4,
            Kind::Formula9 => 6,
            _ => 1,
        }
    }

    /// Whether the formula has a series of terms at all.
    pub open spec fn has_series(self) -> bool {
        !self.is_tabulated() && self != Kind::Formula8 && self != Kind::Formula9
    }

    /// The index of the coefficient that starts term number `j` of the
    /// series, counted from 0.
    ///
    /// The terms of formula 7 start at 3 and take every second coefficient.
    /// Those of the other formulas start at 1 and take two coefficients
    /// each; but the first two terms of formula 4 take four each, so that
    /// its third term starts at 9.
    pub open spec fn term_index(self, j: int) -> int {
        match self {
            Kind::Formula4 => if j < 2 {
                1 + 4 * j
            } else {
                5 + 2 * j
            },
            Kind::Formula7 => 3 + 2 * j,
            _ => 1 + 2 * j,
        }
    }

    /// The number of coefficients from the start of the term at `i` to the
    /// start of the next.
    pub open spec fn step(self, i: int) -> int {
        match self {
            Kind::Formula4 => if i < 9 {
                4
            } else {
                2
            },
            _ => 2,
        }
    }

    /// The highest coefficient index that the term starting at `i` reads.
    pub open spec fn reach(self, i: int) -> int {
        match self {
            Kind::Formula4 => if i < 9 {
                i + 3
            } else {
                i + 1
            },
            Kind::Formula7 => i,
            _ => i + 1,
        }
    }

    /// The number of terms of the series over `len` coefficients: one for
    /// each term that starts below `len`.
    pub open spec fn term_count(self, len: int) -> int {
        if !self.has_series() {
            0
        } else {
            match self {
                Kind::Formula4 => if len <= 1 {
                    0
                } else if len <= 5 {
                    1
                } else if len <= 9 {
                    2
                } else {
                    (len - 10) / 2 + 3
                },
                Kind::Formula7 => if len <= 3 {
                    0
                } else {
                    (len - 4) / 2 + 1
                },
                _ => if len <= 1 {
                    0
                } else {
                    (len - 2) / 2 + 1
                },
            }
        }
    }

    /// Whether `len` coefficients hold every coefficient that the formula
    /// reads.
    pub open spec fn complete(self, len: int) -> bool {
        &&& self.head() <= len
        &&& forall|j: int|
            0 <= j < self.term_count(len) ==> #[trigger] self.reach(self.term_index(j)) < len
    }
}

/// The coefficient `c[i]` as an expression.
pub open spec fn coefficient(c: Seq<Number>, i: int) -> Expr {
    Expr::Const(c[i])
}

/// The squared wavelength.
pub open spec fn wavelength_squared(w: Number) -> Expr {
    Expr::square(Expr::Const(w))
}

/// `c[i] * w^c[i + 1]`
pub open spec fn power_term(c: Seq<Number>, w: Number, i: int) -> Expr {
    Expr::product(coefficient(c, i), Expr::real_power(Expr::Const(w), coefficient(c, i + 1)))
}

/// The term of the series that starts at coefficient `i`.
///
/// | kind | term |
/// |---|---|
/// | 1 | `c[i] * w^2 / (w^2 - c[i+1]^2)` |
/// | 2 | `c[i] * w^2 / (w^2 - c[i+1])` |
/// | 3, 5 | `c[i] * w^c[i+1]` |
/// | 4, `i < 9` | `c[i] * w^c[i+1] / (w^2 - c[i+2]^c[i+3])` |
/// | 4, `i >= 9` | `c[i] * w^c[i+1]` |
/// | 6 | `c[i] / (c[i+1] - w^-2)` |
/// | 7 | `c[i] * w^(i-1)` |
pub open spec fn term(kind: Kind, c: Seq<Number>, w: Number, i: int) -> Expr {
    match kind {
        Kind::Formula1 => Expr::quotient(
            Expr::product(coefficient(c, i), wavelength_squared(w)),
            Expr::difference(wavelength_squared(w), Expr::square(coefficient(c, i + 1))),
        ),
        Kind::Formula2 => Expr::quotient(
            Expr::product(coefficient(c, i), wavelength_squared(w)),
            Expr::difference(wavelength_squared(w), coefficient(c, i + 1)),
        ),
        Kind::Formula4 => if i < 9 {
            Expr::quotient(
                power_term(c, w, i),
                Expr::difference(
                    wavelength_squared(w),
                    Expr::real_power(coefficient(c, i + 2), coefficient(c, i + 3)),
                ),
            )
        } else {
            power_term(c, w, i)
        },
        Kind::Formula6 => Expr::quotient(
            coefficient(c, i),
            Expr::difference(coefficient(c, i + 1), Expr::int_power(Expr::Const(w), INVERSE_SQUARE)),
        ),
        Kind::Formula7 => Expr::product(
            coefficient(c, i),
            Expr::int_power(Expr::Const(w), (i - 1) as i32),
        ),
        _ => power_term(c, w, i),
    }
}

/// The sum of the first `count` terms, added one by one to `0.0` in the order
/// of their indices.
pub open spec fn series(kind: Kind, c: Seq<Number>, w: Number, count: int) -> Expr
    decreases count,
{
    if count <= 0 {
        Expr::Const(Number { bits: ZERO_BITS })
    } else {
        Expr::sum(series(kind, c, w, count - 1), term(kind, c, w, kind.term_index(count - 1)))
    }
}

/// `w^2 - 0.028`
pub open spec fn herzberger_denominator(w: Number) -> Expr {
    Expr::difference(wavelength_squared(w), Expr::Const(Number { bits: HERZBERGER_OFFSET_BITS }))
}

/// `c[0] + c[1] * w^2 / (w^2 - c[2]) + c[3] * w^2`
pub open spec fn retro_sum(c: Seq<Number>, w: Number) -> Expr {
    Expr::sum(
        Expr::sum(
            coefficient(c, 0),
            Expr::quotient(
                Expr::product(coefficient(c, 1), wavelength_squared(w)),
                Expr::difference(wavelength_squared(w), coefficient(c, 2)),
            ),
        ),
        Expr::product(coefficient(c, 3), wavelength_squared(w)),
    )
}

/// `w - c[4]`
pub open spec fn exotic_offset(c: Seq<Number>, w: Number) -> Expr {
    Expr::difference(Expr::Const(w), coefficient(c, 4))
}

/// The real refractive index of a formula entry at wavelength `w`, with `S`
/// for the whole series of the kind:
///
/// | kind | n |
/// |---|---|
/// | 1, 2 | `sqrt(1 + c[0] + S)` |
/// | 3, 4 | `sqrt(c[0] + S)` |
/// | 5 | `c[0] + S` |
/// | 6 | `1 + c[0] + S` |
/// | 7 | `c[0] + c[1] / (w^2 - 0.028) + c[2] / (w^2 - 0.028)^2 + S` |
/// | 8 | `sqrt((2 * s + 1) / (1 - s))`, `s` the retro sum |
/// | 9 | `sqrt(c[0] + c[1] / (w^2 - c[2]) + c[3] * (w - c[4]) / ((w - c[4])^2 + c[5]))` |
///
/// Sums associate to the left, and a product or quotient binds before a sum.
pub open spec fn refractive_index(kind: Kind, c: Seq<Number>, w: Number) -> Expr {
    let s = series(kind, c, w, kind.term_count(c.len() as int));
    let one = Expr::Const(Number { bits: ONE_BITS });
    match kind {
        Kind::Formula1 | Kind::Formula2 => Expr::square_root(
            Expr::sum(Expr::sum(one, coefficient(c, 0)), s),
        ),
        Kind::Formula3 | Kind::Formula4 => Expr::square_root(Expr::sum(coefficient(c, 0), s)),
        Kind::Formula5 => Expr::sum(coefficient(c, 0), s),
        Kind::Formula6 => Expr::sum(Expr::sum(one, coefficient(c, 0)), s),
        Kind::Formula7 => Expr::sum(
            Expr::sum(
                Expr::sum(
                    coefficient(c, 0),
                    Expr::quotient(coefficient(c, 1), herzberger_denominator(w)),
                ),
                Expr::quotient(coefficient(c, 2), Expr::square(herzberger_denominator(w))),
            ),
            s,
        ),
        Kind::Formula8 => Expr::square_root(
            Expr::quotient(
                Expr::sum(
                    Expr::product(Expr::Const(Number { bits: TWO_BITS }), retro_sum(c, w)),
                    one,
                ),
                Expr::difference(one, retro_sum(c, w)),
            ),
        ),
        Kind::Formula9 => Expr::square_root(
            Expr::sum(
                Expr::sum(
                    coefficient(c, 0),
                    Expr::quotient(
                        coefficient(c, 1),
                        Expr::difference(wavelength_squared(w), coefficient(c, 2)),
                    ),
                ),
                Expr::quotient(
                    Expr::product(coefficient(c, 3), exotic_offset(c, w)),
                    Expr::sum(Expr::square(exotic_offset(c, w)), coefficient(c, 5)),
                ),
            ),
        ),
        _ => s,
    }
}

/// What a query of an entry of the given kind returns: the real part as an
/// expression, and no imaginary part.
///
/// A tabulated entry is not interpolated. A formula entry fails outside its
/// range, then on a coefficient that it lacks.
pub open spec fn index_at(kind: Kind, min: Number, max: Number, c: Seq<Number>, w: Number) -> Result<
    (Expr, Option<Expr>),
    EvalError,
> {
    if kind.is_tabulated() {
        Err(EvalError::NotImplemented)
    } else if !w.within(min, max) {
        Err(EvalError::OutOfRange)
    } else if !kind.complete(c.len() as int) {
        Err(EvalError::MissingCoefficients)
    } else {
        Ok((refractive_index(kind, c, w), None))
    }
}

impl DispersionData {
    pub open spec fn spec_kind(&self) -> Kind {
        match self {
            DispersionData::TabulatedK { .. } => Kind::TabulatedK,
            DispersionData::TabulatedN { .. } => Kind::TabulatedN,
            DispersionData::TabulatedNK { .. } => Kind::TabulatedNK,
            DispersionData::Formula1 { .. } => Kind::Formula1,
            DispersionData::Formula2 { .. } => Kind::Formula2,
            DispersionData::Formula3 { .. } => Kind::Formula3,
            DispersionData::Formula4 { .. } => Kind::Formula4,
            DispersionData::Formula5 { .. } => Kind::Formula5,
            DispersionData::Formula6 { .. } => Kind::Formula6,
            DispersionData::Formula7 { .. } => Kind::Formula7,
            DispersionData::Formula8 { .. } => Kind::Formula8,
            DispersionData::Formula9 { .. } => Kind::Formula9,
        }
    }

    /// The wavelength range of a formula entry, as `[min, max]`; empty for a
    /// tabulated entry.
    pub open spec fn range(&self) -> Seq<Number> {
        match self {
            DispersionData::Formula1 { wavelength_range, .. } => wavelength_range@,
            DispersionData::Formula2 { wavelength_range, .. } => wavelength_range@,
            DispersionData::Formula3 { wavelength_range, .. } => wavelength_range@,
            DispersionData::Formula4 { wavelength_range, .. } => wavelength_range@,
            DispersionData::Formula5 { wavelength_range, .. } => wavelength_range@,
            DispersionData::Formula6 { wavelength_range, .. } => wavelength_range@,
            DispersionData::Formula7 { wavelength_range, .. } => wavelength_range@,
            DispersionData::Formula8 { wavelength_range, .. } => wavelength_range@,
            DispersionData::Formula9 { wavelength_range, .. } => wavelength_range@,
            _ => Seq::empty(),
        }
    }

    /// The coefficients of a formula entry; empty for a tabulated entry.
    pub open spec fn coefficients(&self) -> Seq<Number> {
        match self {
            DispersionData::Formula1 { c, .. } => c@,
            DispersionData::Formula2 { c, .. } => c@,
            DispersionData::Formula3 { c, .. } => c@,
            DispersionData::Formula4 { c, .. } => c@,
            DispersionData::Formula5 { c, .. } => c@,
            DispersionData::Formula6 { c, .. } => c@,
            DispersionData::Formula7 { c, .. } => c@,
            DispersionData::Formula8 { c, .. } => c@,
            DispersionData::Formula9 { c, .. } => c@,
            _ => Seq::empty(),
        }
    }

    /// The rows of a tabulated entry; empty for a formula entry.
    pub open spec fn rows(&self) -> Seq<Seq<Number>> {
        match self {
            DispersionData::TabulatedK { data } => Seq::new(data@.len(), |i: int| data@[i]@),
            DispersionData::TabulatedN { data } => Seq::new(data@.len(), |i: int| data@[i]@),
            DispersionData::TabulatedNK { data } => Seq::new(data@.len(), |i: int| data@[i]@),
            _ => Seq::empty(),
        }
    }

    /// What `interpolate` returns at wavelength `w`.
    pub open spec fn at(&self, w: Number) -> Result<(Expr, Option<Expr>), EvalError> {
        index_at(self.spec_kind(), self.range()[0], self.range()[1], self.coefficients(), w)
    }

    pub open spec fn spec_data_type(&self) -> DataType {
        self.spec_kind().data_type()
    }

    /// The tag of the entry.
    #[verifier::when_used_as_spec(spec_kind)]
    pub fn kind(&self) -> (r: Kind)
        ensures
            r == self.spec_kind(),
    {
        match self {
            DispersionData::TabulatedK { .. } => Kind::TabulatedK,
            DispersionData::TabulatedN { .. } => Kind::TabulatedN,
            DispersionData::TabulatedNK { .. } => Kind::TabulatedNK,
            DispersionData::Formula1 { .. } => Kind::Formula1,
            DispersionData::Formula2 { .. } => Kind::Formula2,
            DispersionData::Formula3 { .. } => Kind::Formula3,
            DispersionData::Formula4 { .. } => Kind::Formula4,
            DispersionData::Formula5 { .. } => Kind::Formula5,
            DispersionData::Formula6 { .. } => Kind::Formula6,
            DispersionData::Formula7 { .. } => Kind::Formula7,
            DispersionData::Formula8 { .. } => Kind::Formula8,
            DispersionData::Formula9 { .. } => Kind::Formula9,
        }
    }

    /// Returns the type of data stored in the entry.
    ///
    /// An item may have one or two dispersion data sets. With two, the type
    /// tells which is real and which is imaginary:
    ///
    /// 1. `TabulatedN` is the real part.
    /// 2. `TabulatedK` is the imaginary part.
    /// 3. A formula is the real part.
    /// 4. `TabulatedNK` is both the real and the imaginary part.
    #[verifier::when_used_as_spec(spec_data_type)]
    pub fn data_type(&self) -> (r: DataType)
        ensures
            r == self.spec_data_type(),
    {
        match self {
            DispersionData::TabulatedK { .. } => DataType::Imaginary,
            DispersionData::TabulatedN { .. } => DataType::Real,
            DispersionData::TabulatedNK { .. } => DataType::Both,
            _ => DataType::Real,
        }
    }

    /// The range and the coefficients of a formula entry.
    fn formula(&self) -> (r: Option<(&[Number; 2], &Vec<Number>)>)
        ensures
            r is None <==> self.spec_kind().is_tabulated(),
            r matches Some((range, c)) ==> range@ == self.range() && c@ == self.coefficients(),
    {
        match self {
            DispersionData::Formula1 { wavelength_range, c } => Some((wavelength_range, c)),
            DispersionData::Formula2 { wavelength_range, c } => Some((wavelength_range, c)),
            DispersionData::Formula3 { wavelength_range, c } => Some((wavelength_range, c)),
            DispersionData::Formula4 { wavelength_range, c } => Some((wavelength_range, c)),
            DispersionData::Formula5 { wavelength_range, c } => Some((wavelength_range, c)),
            DispersionData::Formula6 { wavelength_range, c } => Some((wavelength_range, c)),
            DispersionData::Formula7 { wavelength_range, c } => Some((wavelength_range, c)),
            DispersionData::Formula8 { wavelength_range, c } => Some((wavelength_range, c)),
            DispersionData::Formula9 { wavelength_range, c } => Some((wavelength_range, c)),
            _ => None,
        }
    }

    /// Computes the value of the dispersion curve at the given wavelength.
    ///
    /// The first value is the real part of the refractive index, the second
    /// the imaginary part. Both are expressions over doubles: evaluating one
    /// from the leaves up gives the number. No formula resolves an imaginary
    /// part.
    ///
    /// # Errors
    /// - `NotImplemented` for a tabulated entry.
    /// - `OutOfRange` if the wavelength is below the minimum or above the
    ///   maximum of the entry's range.
    /// - `MissingCoefficients` if the formula reads a coefficient that the
    ///   entry does not hold.
    pub fn interpolate(&self, wavelength: Number) -> (r: Result<(Expr, Option<Expr>), EvalError>)
        ensures
            r == self.at(wavelength),
            self.spec_kind().is_tabulated() ==> r == Err::<(Expr, Option<Expr>), EvalError>(
                EvalError::NotImplemented,
            ),
            !self.spec_kind().is_tabulated() && (wavelength.lt(self.range()[0]) || wavelength.gt(
                self.range()[1],
            )) ==> r == Err::<(Expr, Option<Expr>), EvalError>(EvalError::OutOfRange),
            !self.spec_kind().is_tabulated() && self.range()[0].lt(wavelength) && wavelength.lt(
                self.range()[1],
            ) && self.spec_kind().complete(self.coefficients().len() as int) ==> r == Ok::<
                (Expr, Option<Expr>),
                EvalError,
            >((refractive_index(self.spec_kind(), self.coefficients(), wavelength), None)),
    {
        let kind = self.kind();
        let (range, c) = match self.formula() {
            Some(parts) => parts,
            None => {
                return Err(EvalError::NotImplemented);
            },
        };
        if wavelength.less(range[0]) || wavelength.greater(range[1]) {
            return Err(EvalError::OutOfRange);
        }
        let sum = match build_series(kind, c, wavelength) {
            Some(sum) => sum,
            None => {
                return Err(EvalError::MissingCoefficients);
            },
        };
        if c.len() < head_of(kind) {
            return Err(EvalError::MissingCoefficients);
        }
        let n = match kind {
            Kind::Formula1 | Kind::Formula2 => Expr::sqrt(
                Expr::plus(Expr::plus(Expr::number(Number::one()), Expr::number(c[0])), sum),
            ),
            Kind::Formula3 | Kind::Formula4 => Expr::sqrt(Expr::plus(Expr::number(c[0]), sum)),
            Kind::Formula5 => Expr::plus(Expr::number(c[0]), sum),
            Kind::Formula6 => Expr::plus(
                Expr::plus(Expr::number(Number::one()), Expr::number(c[0])),
                sum,
            ),
            Kind::Formula7 => Expr::plus(
                Expr::plus(
                    Expr::plus(
                        Expr::number(c[0]),
                        Expr::over(Expr::number(c[1]), build_herzberger_denominator(wavelength)),
                    ),
                    Expr::over(
                        Expr::number(c[2]),
                        Expr::powi(build_herzberger_denominator(wavelength), 2),
                    ),
                ),
                sum,
            ),
            Kind::Formula8 => Expr::sqrt(
                Expr::over(
                    Expr::plus(
                        Expr::times(Expr::number(Number::two()), build_retro_sum(c, wavelength)),
                        Expr::number(Number::one()),
                    ),
                    Expr::minus(Expr::number(Number::one()), build_retro_sum(c, wavelength)),
                ),
            ),
            Kind::Formula9 => Expr::sqrt(
                Expr::plus(
                    Expr::plus(
                        Expr::number(c[0]),
                        Expr::over(
                            Expr::number(c[1]),
                            Expr::minus(build_wavelength_squared(wavelength), Expr::number(c[2])),
                        ),
                    ),
                    Expr::over(
                        Expr::times(Expr::number(c[3]), build_exotic_offset(c, wavelength)),
                        Expr::plus(
                            Expr::powi(build_exotic_offset(c, wavelength), 2),
                            Expr::number(c[5]),
                        ),
                    ),
                ),
            ),
            _ => sum,
        };
        Ok((n, None))
    }
}

fn head_of(kind: Kind) -> (r: usize)
    ensures
        r == kind.head(),
{
    match kind {
        Kind::TabulatedK | Kind::TabulatedN | Kind::TabulatedNK => 0,
        Kind::Formula7 => 3,
        Kind::Formula8 => 4,
        Kind::Formula9 => 6,
        _ => 1,
    }
}

fn build_wavelength_squared(w: Number) -> (e: Expr)
    ensures
        e == wavelength_squared(w),
{
    Expr::powi(Expr::number(w), 2)
}

fn build_herzberger_denominator(w: Number) -> (e: Expr)
    ensures
        e == herzberger_denominator(w),
{
    Expr::minus(
        build_wavelength_squared(w),
        Expr::number(Number::from_bits(HERZBERGER_OFFSET_BITS)),
    )
}

fn build_retro_sum(c: &Vec<Number>, w: Number) -> (e: Expr)
    requires
        c.len() >= 4,
    ensures
        e == retro_sum(c@, w),
{
    Expr::plus(
        Expr::plus(
            Expr::number(c[0]),
            Expr::over(
                Expr::times(Expr::number(c[1]), build_wavelength_squared(w)),
                Expr::minus(build_wavelength_squared(w), Expr::number(c[2])),
            ),
        ),
        Expr::times(Expr::number(c[3]), build_wavelength_squared(w)),
    )
}

fn build_exotic_offset(c: &Vec<Number>, w: Number) -> (e: Expr)
    requires
        c.len() >= 5,
    ensures
        e == exotic_offset(c@, w),
{
    Expr::minus(Expr::number(w), Expr::number(c[4]))
}

fn build_power_term(c: &Vec<Number>, w: Number, i: usize) -> (e: Expr)
    requires
        i + 1 < c.len(),
    ensures
        e == power_term(c@, w, i as int),
{
    Expr::times(Expr::number(c[i]), Expr::powf(Expr::number(w), Expr::number(c[i + 1])))
}

/// The term that starts at coefficient `i`, or `None` if it reads past the
/// last coefficient.
fn build_term(kind: Kind, c: &Vec<Number>, w: Number, i: usize) -> (r: Option<Expr>)
    requires
        kind.has_series(),
        1 <= i < c.len(),
    ensures
        r is Some <==> kind.reach(i as int) < c.len(),
        r matches Some(e) ==> e == term(kind, c@, w, i as int),
{
    let len = c.len();
    match kind {
        Kind::Formula7 => {
            let exponent: i32 = #[verifier::truncate]
            ((i - 1) as i32);
            Some(Expr::times(Expr::number(c[i]), Expr::powi(Expr::number(w), exponent)))
        },
        Kind::Formula4 => {
            if i < 9 {
                if len - i <= 3 {
                    return None;
                }
                Some(
                    Expr::over(
                        build_power_term(c, w, i),
                        Expr::minus(
                            build_wavelength_squared(w),
                            Expr::powf(Expr::number(c[i + 2]), Expr::number(c[i + 3])),
                        ),
                    ),
                )
            } else {
                if len - i <= 1 {
                    return None;
                }
                Some(build_power_term(c, w, i))
            }
        },
        _ => {
            if len - i <= 1 {
                return None;
            }
            match kind {
                Kind::Formula1 => Some(
                    Expr::over(
                        Expr::times(Expr::number(c[i]), build_wavelength_squared(w)),
                        Expr::minus(
                            build_wavelength_squared(w),
                            Expr::powi(Expr::number(c[i + 1]), 2),
                        ),
                    ),
                ),
                Kind::Formula2 => Some(
                    Expr::over(
                        Expr::times(Expr::number(c[i]), build_wavelength_squared(w)),
                        Expr::minus(build_wavelength_squared(w), Expr::number(c[i + 1])),
                    ),
                ),
                Kind::Formula6 => Some(
                    Expr::over(
                        Expr::number(c[i]),
                        Expr::minus(Expr::number(c[i + 1]), Expr::powi(Expr::number(w), INVERSE_SQUARE)),
                    ),
                ),
                _ => Some(build_power_term(c, w, i)),
            }
        },
    }
}

/// The whole series of the kind over `c`, or `None` if one of its terms reads
/// past the last coefficient.
fn build_series(kind: Kind, c: &Vec<Number>, w: Number) -> (r: Option<Expr>)
    requires
        !kind.is_tabulated(),
    ensures
        r is Some <==> forall|j: int|
            0 <= j < kind.term_count(c.len() as int) ==> #[trigger] kind.reach(kind.term_index(j))
                < c.len(),
        r matches Some(e) ==> e == series(kind, c@, w, kind.term_count(c.len() as int)),
{
    let mut sum = Expr::number(Number::zero());
    let first: usize = match kind {
        Kind::Formula8 | Kind::Formula9 => {
            return Some(sum);
        },
        Kind::Formula7 => 3,
        _ => 1,
    };
    let len = c.len();
    if len <= first {
        return Some(sum);
    }
    let mut i: usize = first;
    let ghost mut j: int = 0;
    loop
        invariant
            kind.has_series(),
            len == c.len(),
            0 <= j < kind.term_count(len as int),
            i == kind.term_index(j),
            1 <= i < len,
            sum == series(kind, c@, w, j),
            forall|k: int| 0 <= k < j ==> #[trigger] kind.reach(kind.term_index(k)) < len,
        decreases len - i,
    {
        match build_term(kind, c, w, i) {
            Some(t) => {
                sum = Expr::plus(sum, t);
            },
            None => {
                return None;
            },
        }
        let step: usize = match kind {
            Kind::Formula4 => if i < 9 {
                4
            } else {
                2
            },
            _ => 2,
        };
        proof {
            lemma_next_term(kind, len as int, j);
            j = j + 1;
        }
        if len - i <= step {
            return Some(sum);
        }
        i += step;
    }
}

/// The term after term `j` starts `step` coefficients later, and it is a
/// term of the series over `len` coefficients just when it starts below
/// `len`.
proof fn lemma_next_term(kind: Kind, len: int, j: int)
    requires
        kind.has_series(),
        0 <= j < kind.term_count(len),
    ensures
        kind.term_index(j) < len,
        kind.term_index(j + 1) == kind.term_index(j) + kind.step(kind.term_index(j)),
        kind.term_index(j + 1) < len <==> j + 1 < kind.term_count(len),
        kind.term_index(j + 1) >= len ==> kind.term_count(len) == j + 1,
{
}

/// The lengths at which a formula holds every coefficient that it reads.
///
/// | kind | lengths |
/// |---|---|
/// | 1, 2, 3, 5, 6 | the odd ones |
/// | 4 | 1, 5, and from 9 on the odd ones |
/// | 7 | from 3 on |
/// | 8 | from 4 on |
/// | 9 | from 6 on |
pub proof fn lemma_complete_lengths(kind: Kind, len: int)
    requires
        0 <= len,
        !kind.is_tabulated(),
    ensures
        kind.complete(len) <==> match kind {
            Kind::Formula4 => len == 1 || len == 5 || (len >= 9 && len % 2 == 1),
            Kind::Formula7 => len >= 3,
            Kind::Formula8 => len >= 4,
            Kind::Formula9 => len >= 6,
            _ => len % 2 == 1,
        },
{
    let count = kind.term_count(len);
    let fits = match kind {
        Kind::Formula4 => len == 1 || len == 5 || (len >= 9 && len % 2 == 1),
        Kind::Formula7 => len >= 3,
        Kind::Formula8 => len >= 4,
        Kind::Formula9 => len >= 6,
        _ => len % 2 == 1,
    };
    if fits {
        assert forall|j: int| 0 <= j < count implies #[trigger] kind.reach(kind.term_index(j))
            < len by {}
    } else if count > 0 {
        let j = count - 1;
        assert(0 <= j < count);
        assert(kind.reach(kind.term_index(j)) >= len);
    }
}

} // verus!

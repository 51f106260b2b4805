//! From the text of a material file to numbers.
//!
//! The text is split here. What number a token stands for is not decided
//! here: every function takes a reader, `number`, that is handed one token
//! and answers with the number, or with `None` for a token that is none. The
//! contracts say what is returned for whatever the reader answers.
use vstd::prelude::*;
use vstd::string::StringExecFns;
use crate::database::material::{Data, Material};
use crate::dispersion::{DispersionData, Kind};
use crate::number::Number;
use crate::text::{lines, split_lines, split_whitespace, tokens, views};

verus! {

/// Why the text of a material file is not dispersion data.
#[derive(Clone, Copy, Debug, PartialEq, Eq, Structural)]
pub enum ParseError {
    /// A wavelength range without a first token.
    MissingMinimum,
    /// A wavelength range without a second token.
    MissingMaximum,
    /// A row without a first token.
    MissingWavelength,
    /// A row of two columns without a second token.
    MissingValue,
    /// A row of three columns without a second token.
    MissingReal,
    /// A row of three columns without a third token.
    MissingImaginary,
    /// A token that is no number.
    InvalidNumber,
}

/// The columns that a piece of text is read for.
#[derive(Clone, Copy, Debug, PartialEq, Eq, Structural)]
pub enum Columns {
    /// Every token is a coefficient.
    Coefficients,
    /// The first two tokens are the minimum and the maximum.
    Range,
    /// The first two tokens are the wavelength and a value.
    Pair,
    /// The first three tokens are the wavelength, `n` and `k`.
    Triple,
}

impl Columns {
    /// The number of tokens that are read, of `len` tokens.
    pub open spec fn width(self, len: int) -> int {
        match self {
            Columns::Coefficients => len,
            Columns::Range => 2,
            Columns::Pair => 2,
            Columns::Triple => 3,
        }
    }

    /// The error for a text that ends before column `i`.
    pub open spec fn missing(self, i: int) -> ParseError {
        match self {
            Columns::Range => if i == 0 {
                ParseError::MissingMinimum
            } else {
                ParseError::MissingMaximum
            },
            Columns::Triple => if i == 0 {
                ParseError::MissingWavelength
            } else if i == 1 {
                ParseError::MissingReal
            } else {
                ParseError::MissingImaginary
            },
            _ => if i == 0 {
                ParseError::MissingWavelength
            } else {
                ParseError::MissingValue
            },
        }
    }

    /// The columns of the rows of a tabulated entry.
    pub open spec fn of(kind: Kind) -> Columns {
        if kind == Kind::TabulatedNK {
            Columns::Triple
        } else {
            Columns::Pair
        }
    }
}

/// Whether the reader may answer `r` when it is handed the token.
pub open spec fn reads<N: Fn(&str) -> Option<Number>>(
    number: &N,
    token: Seq<char>,
    r: Option<Number>,
) -> bool {
    exists|t: &str| t@ == token && call_ensures(number, (t,), r)
}

/// Whether the reader may answer with a number when it is handed the token.
pub open spec fn accepts<N: Fn(&str) -> Option<Number>>(number: &N, token: Seq<char>) -> bool {
    exists|x: Number| reads(number, token, Some(x))
}

/// Whether reading the tokens may stop at token `m` with the error `e`:
/// the reader accepted the tokens before it, and either refuses this one
/// or there is none.
pub open spec fn row_stops_at<N: Fn(&str) -> Option<Number>>(
    number: &N,
    tokens: Seq<Seq<char>>,
    columns: Columns,
    m: int,
    e: ParseError,
) -> bool {
    &&& 0 <= m < columns.width(tokens.len() as int)
    &&& m <= tokens.len()
    &&& forall|i: int| 0 <= i < m ==> accepts(number, #[trigger] tokens[i])
    &&& if m < tokens.len() {
        reads(number, tokens[m], None) && e == ParseError::InvalidNumber
    } else {
        e == columns.missing(m)
    }
}

/// Whether reading the columns from the tokens, one by one from the first,
/// may end in `r`. Tokens after the last column are not looked at.
pub open spec fn row_outcome<N: Fn(&str) -> Option<Number>>(
    number: &N,
    tokens: Seq<Seq<char>>,
    columns: Columns,
    r: Result<Seq<Number>, ParseError>,
) -> bool {
    match r {
        Ok(row) => {
            &&& columns.width(tokens.len() as int) <= tokens.len()
            &&& row.len() == columns.width(tokens.len() as int)
            &&& forall|i: int|
                0 <= i < row.len() ==> reads(number, tokens[i], Some(#[trigger] row[i]))
        },
        Err(e) => exists|m: int| row_stops_at(number, tokens, columns, m, e),
    }
}

/// Whether reading the columns from the tokens may succeed.
pub open spec fn row_parses<N: Fn(&str) -> Option<Number>>(
    number: &N,
    tokens: Seq<Seq<char>>,
    columns: Columns,
) -> bool {
    exists|row: Seq<Number>| row_outcome(number, tokens, columns, Ok(row))
}

/// Whether reading the lines may stop at line `m` with the error `e`.
pub open spec fn table_stops_at<N: Fn(&str) -> Option<Number>>(
    number: &N,
    lines: Seq<Seq<char>>,
    columns: Columns,
    m: int,
    e: ParseError,
) -> bool {
    &&& 0 <= m < lines.len()
    &&& forall|i: int| 0 <= i < m ==> row_parses(number, tokens(#[trigger] lines[i]), columns)
    &&& row_outcome(number, tokens(lines[m]), columns, Err(e))
}

/// Whether reading one row from each line of the text, from the first line
/// on, may end in `r`.
pub open spec fn table_outcome<N: Fn(&str) -> Option<Number>>(
    number: &N,
    text: Seq<char>,
    columns: Columns,
    r: Result<Seq<Seq<Number>>, ParseError>,
) -> bool {
    match r {
        Ok(rows) => {
            &&& rows.len() == lines(text).len()
            &&& forall|i: int|
                0 <= i < rows.len() ==> row_outcome(
                    number,
                    tokens(lines(text)[i]),
                    columns,
                    Ok(#[trigger] rows[i]),
                )
        },
        Err(e) => exists|m: int| table_stops_at(number, lines(text), columns, m, e),
    }
}

/// Whether converting the entry may end in `r`. The range of a formula is
/// read before its coefficients.
pub open spec fn entry_outcome<N: Fn(&str) -> Option<Number>>(
    number: &N,
    data: Data,
    r: Result<DispersionData, ParseError>,
) -> bool {
    let kind = data.kind();
    match r {
        Ok(d) => {
            &&& d.spec_kind() == kind
            &&& if kind.is_tabulated() {
                table_outcome(number, data.table(), Columns::of(kind), Ok(d.rows()))
            } else {
                &&& row_outcome(number, tokens(data.range()), Columns::Range, Ok(d.range()))
                &&& row_outcome(
                    number,
                    tokens(data.coefficients()),
                    Columns::Coefficients,
                    Ok(d.coefficients()),
                )
            }
        },
        Err(e) => if kind.is_tabulated() {
            table_outcome(number, data.table(), Columns::of(kind), Err(e))
        } else {
            ||| row_outcome(number, tokens(data.range()), Columns::Range, Err(e))
            ||| {
                &&& row_parses(number, tokens(data.range()), Columns::Range)
                &&& row_outcome(number, tokens(data.coefficients()), Columns::Coefficients, Err(e))
            }
        },
    }
}

/// Whether converting the entry may succeed.
pub open spec fn entry_converts<N: Fn(&str) -> Option<Number>>(number: &N, data: Data) -> bool {
    exists|d: DispersionData| entry_outcome(number, data, Ok(d))
}

/// Whether converting the entries may stop at entry `m` with the error `e`.
pub open spec fn material_stops_at<N: Fn(&str) -> Option<Number>>(
    number: &N,
    entries: Seq<Data>,
    m: int,
    e: ParseError,
) -> bool {
    &&& 0 <= m < entries.len()
    &&& forall|i: int| 0 <= i < m ==> entry_converts(number, #[trigger] entries[i])
    &&& entry_outcome(number, entries[m], Err(e))
}

/// Whether assembling the item of a page from its material file may end in
/// `r`. The entries are converted in order, up to the first that fails.
pub open spec fn material_outcome<N: Fn(&str) -> Option<Number>>(
    number: &N,
    material: Material,
    shelf: Seq<char>,
    book: Seq<char>,
    page: Seq<char>,
    r: Result<crate::store::Material, ParseError>,
) -> bool {
    match r {
        Ok(item) => {
            &&& item.shelf@ == shelf
            &&& item.book@ == book
            &&& item.page@ == page
            &&& item.references@ == material.references@
            &&& item.comments@ == material.comments@
            &&& item.data@.len() == material.data@.len()
            &&& forall|i: int|
                0 <= i < item.data@.len() ==> entry_outcome(
                    number,
                    material.data@[i],
                    Ok(#[trigger] item.data@[i]),
                )
        },
        Err(e) => exists|m: int| material_stops_at(number, material.data@, m, e),
    }
}

/// Whether the reader answers every token in one way only.
pub open spec fn single_valued<N: Fn(&str) -> Option<Number>>(number: &N) -> bool {
    forall|token: Seq<char>, r: Option<Number>, q: Option<Number>|
        reads(number, token, r) && reads(number, token, q) ==> r == q
}

/// With a reader that answers every token in one way only, the tokens decide
/// how reading a row ends.
pub proof fn lemma_row_outcome_is_unique<N: Fn(&str) -> Option<Number>>(
    number: &N,
    tokens: Seq<Seq<char>>,
    columns: Columns,
    r: Result<Seq<Number>, ParseError>,
    q: Result<Seq<Number>, ParseError>,
)
    requires
        single_valued(number),
        row_outcome(number, tokens, columns, r),
        row_outcome(number, tokens, columns, q),
    ensures
        r == q,
{
    match (r, q) {
        (Ok(a), Ok(b)) => {
            assert forall|i: int| 0 <= i < a.len() implies a[i] == b[i] by {
                assert(reads(number, tokens[i], Some(a[i])));
                assert(reads(number, tokens[i], Some(b[i])));
            }
            assert(a =~= b);
        },
        (Ok(a), Err(e)) => {
            lemma_row_stops_once(number, tokens, columns, a, e);
        },
        (Err(e), Ok(b)) => {
            lemma_row_stops_once(number, tokens, columns, b, e);
        },
        (Err(e), Err(f)) => {
            let m = choose|m: int| row_stops_at(number, tokens, columns, m, e);
            let n = choose|n: int| row_stops_at(number, tokens, columns, n, f);
            if m < n {
                lemma_stop_is_not_accepted(number, tokens, columns, m, e);
            } else if n < m {
                lemma_stop_is_not_accepted(number, tokens, columns, n, f);
            }
        },
    }
}

/// A row that is read in full does not stop before its end.
proof fn lemma_row_stops_once<N: Fn(&str) -> Option<Number>>(
    number: &N,
    tokens: Seq<Seq<char>>,
    columns: Columns,
    row: Seq<Number>,
    e: ParseError,
)
    requires
        single_valued(number),
        row_outcome(number, tokens, columns, Ok(row)),
    ensures
        !row_outcome(number, tokens, columns, Err(e)),
{
    if row_outcome(number, tokens, columns, Err(e)) {
        let m = choose|m: int| row_stops_at(number, tokens, columns, m, e);
        assert(reads(number, tokens[m], Some(row[m])));
        assert(reads(number, tokens[m], None));
    }
}

/// With a reader that answers every token in one way only, the token at
/// which reading stops is not accepted, if there is one.
proof fn lemma_stop_is_not_accepted<N: Fn(&str) -> Option<Number>>(
    number: &N,
    tokens: Seq<Seq<char>>,
    columns: Columns,
    m: int,
    e: ParseError,
)
    requires
        single_valued(number),
        row_stops_at(number, tokens, columns, m, e),
    ensures
        m < tokens.len() ==> !accepts(number, tokens[m]),
{
    if m < tokens.len() && accepts(number, tokens[m]) {
        let x = choose|x: Number| reads(number, tokens[m], Some(x));
        assert(reads(number, tokens[m], None));
    }
}

/// With a reader that answers every token in one way only, the text decides
/// how reading a table ends.
pub proof fn lemma_table_outcome_is_unique<N: Fn(&str) -> Option<Number>>(
    number: &N,
    text: Seq<char>,
    columns: Columns,
    r: Result<Seq<Seq<Number>>, ParseError>,
    q: Result<Seq<Seq<Number>>, ParseError>,
)
    requires
        single_valued(number),
        table_outcome(number, text, columns, r),
        table_outcome(number, text, columns, q),
    ensures
        r == q,
{
    let all = lines(text);
    match (r, q) {
        (Ok(a), Ok(b)) => {
            assert forall|i: int| 0 <= i < a.len() implies a[i] == b[i] by {
                lemma_row_outcome_is_unique(number, tokens(all[i]), columns, Ok(a[i]), Ok(b[i]));
            }
            assert(a =~= b);
        },
        (Ok(a), Err(e)) => {
            let m = choose|m: int| table_stops_at(number, all, columns, m, e);
            lemma_row_outcome_is_unique(number, tokens(all[m]), columns, Ok(a[m]), Err(e));
        },
        (Err(e), Ok(b)) => {
            let m = choose|m: int| table_stops_at(number, all, columns, m, e);
            lemma_row_outcome_is_unique(number, tokens(all[m]), columns, Ok(b[m]), Err(e));
        },
        (Err(e), Err(f)) => {
            let m = choose|m: int| table_stops_at(number, all, columns, m, e);
            let n = choose|n: int| table_stops_at(number, all, columns, n, f);
            if m < n {
                let row = choose|row: Seq<Number>|
                    row_outcome(number, tokens(all[m]), columns, Ok(row));
                lemma_row_outcome_is_unique(number, tokens(all[m]), columns, Ok(row), Err(e));
            } else if n < m {
                let row = choose|row: Seq<Number>|
                    row_outcome(number, tokens(all[n]), columns, Ok(row));
                lemma_row_outcome_is_unique(number, tokens(all[n]), columns, Ok(row), Err(f));
            } else {
                lemma_row_outcome_is_unique(number, tokens(all[m]), columns, Err(e), Err(f));
            }
        },
    }
}

/// The rows of a table, each as a sequence.
pub open spec fn pairs_view(rows: Seq<[Number; 2]>) -> Seq<Seq<Number>> {
    Seq::new(rows.len(), |i: int| rows[i]@)
}

/// The rows of a table, each as a sequence.
pub open spec fn triples_view(rows: Seq<[Number; 3]>) -> Seq<Seq<Number>> {
    Seq::new(rows.len(), |i: int| rows[i]@)
}

impl ParseError {
    /// A sentence that says what is wrong.
    pub fn message(&self) -> (r: &'static str)
        ensures
            r@ == match self {
                ParseError::MissingMinimum => "Cannot find minimum value"@,
                ParseError::MissingMaximum => "Cannot find maximum value"@,
                ParseError::MissingWavelength => "Cannot find wavelength"@,
                ParseError::MissingValue => "Cannot find refractive index value"@,
                ParseError::MissingReal => "Cannot find real refractive index value"@,
                ParseError::MissingImaginary => "Cannot find imaginary refractive index value"@,
                ParseError::InvalidNumber => "invalid float literal"@,
            },
    {
        match self {
            ParseError::MissingMinimum => "Cannot find minimum value",
            ParseError::MissingMaximum => "Cannot find maximum value",
            ParseError::MissingWavelength => "Cannot find wavelength",
            ParseError::MissingValue => "Cannot find refractive index value",
            ParseError::MissingReal => "Cannot find real refractive index value",
            ParseError::MissingImaginary => "Cannot find imaginary refractive index value",
            ParseError::InvalidNumber => "invalid float literal",
        }
    }
}

/// The error for a text that ends before column `i`.
fn missing_column(columns: Columns, i: usize) -> (e: ParseError)
    ensures
        e == columns.missing(i as int),
{
    match columns {
        Columns::Range => if i == 0 {
            ParseError::MissingMinimum
        } else {
            ParseError::MissingMaximum
        },
        Columns::Triple => if i == 0 {
            ParseError::MissingWavelength
        } else if i == 1 {
            ParseError::MissingReal
        } else {
            ParseError::MissingImaginary
        },
        _ => if i == 0 {
            ParseError::MissingWavelength
        } else {
            ParseError::MissingValue
        },
    }
}

/// Reads the columns from the tokens, one by one from the first.
fn read_row<N: Fn(&str) -> Option<Number>>(tokens: &Vec<String>, columns: Columns, number: &N) -> (r:
    Result<Vec<Number>, ParseError>)
    requires
        forall|t: &str| call_requires(number, (t,)),
    ensures
        match r {
            Ok(row) => row_outcome(number, views(tokens@), columns, Ok(row@)),
            Err(e) => row_outcome(number, views(tokens@), columns, Err(e)),
        },
{
    let width: usize = match columns {
        Columns::Coefficients => tokens.len(),
        Columns::Range => 2,
        Columns::Pair => 2,
        Columns::Triple => 3,
    };
    let mut row: Vec<Number> = Vec::new();
    let mut i: usize = 0;
    while i < width
        invariant
            width == columns.width(tokens.len() as int),
            i <= width,
            i <= tokens.len(),
            row.len() == i,
            forall|t: &str| call_requires(number, (t,)),
            forall|j: int| 0 <= j < i ==> reads(number, views(tokens@)[j], Some(#[trigger] row[j])),
        decreases width - i,
    {
        if i >= tokens.len() {
            assert(row_stops_at(number, views(tokens@), columns, i as int, columns.missing(i as int)))
                by {
                assert forall|j: int| 0 <= j < i implies accepts(
                    number,
                    #[trigger] views(tokens@)[j],
                ) by {
                    assert(reads(number, views(tokens@)[j], Some(row[j])));
                }
            }
            return Err(missing_column(columns, i));
        }
        let token = tokens[i].as_str();
        match number(token) {
            Some(x) => {
                assert(reads(number, views(tokens@)[i as int], Some(x)));
                row.push(x);
            },
            None => {
                assert(row_stops_at(
                    number,
                    views(tokens@),
                    columns,
                    i as int,
                    ParseError::InvalidNumber,
                )) by {
                    assert(reads(number, views(tokens@)[i as int], None));
                    assert forall|j: int| 0 <= j < i implies accepts(
                        number,
                        #[trigger] views(tokens@)[j],
                    ) by {
                        assert(reads(number, views(tokens@)[j], Some(row[j])));
                    }
                }
                return Err(ParseError::InvalidNumber);
            },
        }
        i += 1;
    }
    Ok(row)
}

/// Reads one row from each line of the text.
fn read_table<N: Fn(&str) -> Option<Number>>(text: &str, columns: Columns, number: &N) -> (r: Result<
    Vec<Vec<Number>>,
    ParseError,
>)
    requires
        forall|t: &str| call_requires(number, (t,)),
        columns != Columns::Coefficients,
    ensures
        match r {
            Ok(rows) => {
                &&& table_outcome(
                    number,
                    text@,
                    columns,
                    Ok(Seq::new(rows.len() as nat, |i: int| rows[i]@)),
                )
                &&& forall|i: int|
                    0 <= i < rows.len() ==> (#[trigger] rows[i]).len() == columns.width(0)
            },
            Err(e) => table_outcome(number, text@, columns, Err(e)),
        },
{
    let all = split_lines(text);
    let mut rows: Vec<Vec<Number>> = Vec::new();
    let mut i: usize = 0;
    while i < all.len()
        invariant
            views(all@) == lines(text@),
            columns != Columns::Coefficients,
            i <= all.len(),
            rows.len() == i,
            forall|t: &str| call_requires(number, (t,)),
            forall|j: int|
                0 <= j < i ==> row_outcome(
                    number,
                    tokens(lines(text@)[j]),
                    columns,
                    Ok((#[trigger] rows[j])@),
                ),
            forall|j: int| 0 <= j < i ==> (#[trigger] rows[j]).len() == columns.width(0),
        decreases all.len() - i,
    {
        let line_tokens = split_whitespace(all[i].as_str());
        assert(views(all@)[i as int] == all[i as int]@);
        match read_row(&line_tokens, columns, number) {
            Ok(row) => {
                rows.push(row);
            },
            Err(e) => {
                assert(table_stops_at(number, lines(text@), columns, i as int, e)) by {
                    assert forall|j: int| 0 <= j < i implies row_parses(
                        number,
                        tokens(#[trigger] lines(text@)[j]),
                        columns,
                    ) by {
                        assert(row_outcome(number, tokens(lines(text@)[j]), columns, Ok(rows[j]@)));
                    }
                }
                return Err(e);
            },
        }
        i += 1;
    }
    Ok(rows)
}

/// Reads every token of the text as a coefficient.
///
/// # Errors
/// `InvalidNumber` if the reader refuses a token.
pub fn parse_coefficients<N: Fn(&str) -> Option<Number>>(data: &str, number: &N) -> (r: Result<
    Vec<Number>,
    ParseError,
>)
    requires
        forall|t: &str| call_requires(number, (t,)),
    ensures
        match r {
            Ok(c) => row_outcome(number, tokens(data@), Columns::Coefficients, Ok(c@)),
            Err(e) => row_outcome(number, tokens(data@), Columns::Coefficients, Err(e)),
        },
        r matches Err(e) ==> e == ParseError::InvalidNumber,
        tokens(data@).len() == 0 ==> r is Ok,
{
    let all = split_whitespace(data);
    read_row(&all, Columns::Coefficients, number)
}

/// Reads the first two tokens of the text as the minimum and the maximum of
/// a wavelength range. Further tokens are ignored.
///
/// # Errors
/// - `MissingMinimum` if the text has no token.
/// - `MissingMaximum` if it has one token, which the reader accepts.
/// - `InvalidNumber` if the reader refuses the first token, or accepts it
///   and refuses the second.
pub fn parse_wavelength_range<N: Fn(&str) -> Option<Number>>(data: &str, number: &N) -> (r: Result<
    [Number; 2],
    ParseError,
>)
    requires
        forall|t: &str| call_requires(number, (t,)),
    ensures
        match r {
            Ok(range) => row_outcome(number, tokens(data@), Columns::Range, Ok(range@)),
            Err(e) => row_outcome(number, tokens(data@), Columns::Range, Err(e)),
        },
        tokens(data@).len() == 0 ==> r == Err::<[Number; 2], ParseError>(ParseError::MissingMinimum),
{
    let all = split_whitespace(data);
    match read_row(&all, Columns::Range, number) {
        Ok(row) => {
            let range = [row[0], row[1]];
            assert(range@ == row@);
            Ok(range)
        },
        Err(e) => Err(e),
    }
}

/// Reads one row per line of the text: the first two tokens of the line, as
/// the wavelength and a value. Further tokens are ignored.
///
/// # Errors
/// The error of the first line that is no row:
/// - `MissingWavelength` if the line has no token.
/// - `MissingValue` if it has one token, which the reader accepts.
/// - `InvalidNumber` if the reader refuses the first token, or accepts it
///   and refuses the second.
pub fn parse_tabulated_2d<N: Fn(&str) -> Option<Number>>(data: &str, number: &N) -> (r: Result<
    Vec<[Number; 2]>,
    ParseError,
>)
    requires
        forall|t: &str| call_requires(number, (t,)),
    ensures
        match r {
            Ok(rows) => table_outcome(number, data@, Columns::Pair, Ok(pairs_view(rows@))),
            Err(e) => table_outcome(number, data@, Columns::Pair, Err(e)),
        },
        lines(data@).len() == 0 ==> r is Ok,
{
    let rows = match read_table(data, Columns::Pair, number) {
        Ok(rows) => rows,
        Err(e) => {
            return Err(e);
        },
    };
    let mut out: Vec<[Number; 2]> = Vec::new();
    let mut i: usize = 0;
    while i < rows.len()
        invariant
            i <= rows.len(),
            out.len() == i,
            forall|j: int| 0 <= j < rows.len() ==> (#[trigger] rows[j]).len() == 2,
            forall|j: int| 0 <= j < i ==> (#[trigger] out[j])@ == rows[j]@,
        decreases rows.len() - i,
    {
        let row = &rows[i];
        let pair = [row[0], row[1]];
        assert(pair@ == row@);
        out.push(pair);
        i += 1;
    }
    assert(pairs_view(out@) == Seq::new(rows.len() as nat, |i: int| rows[i]@));
    Ok(out)
}

/// Reads one row per line of the text: the first three tokens of the line,
/// as the wavelength, `n` and `k`. Further tokens are ignored.
///
/// # Errors
/// The error of the first line that is no row:
/// - `MissingWavelength` if the line has no token.
/// - `MissingReal` if it has one token, which the reader accepts.
/// - `MissingImaginary` if it has two tokens, which the reader accepts.
/// - `InvalidNumber` if the reader refuses one of the first three tokens
///   and accepts those before it.
pub fn parse_tabulated_3d<N: Fn(&str) -> Option<Number>>(data: &str, number: &N) -> (r: Result<
    Vec<[Number; 3]>,
    ParseError,
>)
    requires
        forall|t: &str| call_requires(number, (t,)),
    ensures
        match r {
            Ok(rows) => table_outcome(number, data@, Columns::Triple, Ok(triples_view(rows@))),
            Err(e) => table_outcome(number, data@, Columns::Triple, Err(e)),
        },
        lines(data@).len() == 0 ==> r is Ok,
{
    let rows = match read_table(data, Columns::Triple, number) {
        Ok(rows) => rows,
        Err(e) => {
            return Err(e);
        },
    };
    let mut out: Vec<[Number; 3]> = Vec::new();
    let mut i: usize = 0;
    while i < rows.len()
        invariant
            i <= rows.len(),
            out.len() == i,
            forall|j: int| 0 <= j < rows.len() ==> (#[trigger] rows[j]).len() == 3,
            forall|j: int| 0 <= j < i ==> (#[trigger] out[j])@ == rows[j]@,
        decreases rows.len() - i,
    {
        let row = &rows[i];
        let triple = [row[0], row[1], row[2]];
        assert(triple@ == row@);
        out.push(triple);
        i += 1;
    }
    assert(triples_view(out@) == Seq::new(rows.len() as nat, |i: int| rows[i]@));
    Ok(out)
}

/// Reads the range of a formula entry, then its coefficients.
fn parse_formula<N: Fn(&str) -> Option<Number>>(
    wavelength_range: &str,
    coefficients: &str,
    number: &N,
) -> (r: Result<([Number; 2], Vec<Number>), ParseError>)
    requires
        forall|t: &str| call_requires(number, (t,)),
    ensures
        match r {
            Ok((range, c)) => {
                &&& row_outcome(number, tokens(wavelength_range@), Columns::Range, Ok(range@))
                &&& row_outcome(number, tokens(coefficients@), Columns::Coefficients, Ok(c@))
            },
            Err(e) => {
                ||| row_outcome(number, tokens(wavelength_range@), Columns::Range, Err(e))
                ||| {
                    &&& row_parses(number, tokens(wavelength_range@), Columns::Range)
                    &&& row_outcome(number, tokens(coefficients@), Columns::Coefficients, Err(e))
                }
            },
        },
{
    let range = match parse_wavelength_range(wavelength_range, number) {
        Ok(range) => range,
        Err(e) => {
            return Err(e);
        },
    };
    assert(row_parses(number, tokens(wavelength_range@), Columns::Range));
    match parse_coefficients(coefficients, number) {
        Ok(c) => Ok((range, c)),
        Err(e) => Err(e),
    }
}

impl DispersionData {
    /// Converts an entry of a material file into dispersion data of the same
    /// kind: the rows of a tabulated entry, the range and the coefficients of
    /// a formula entry.
    ///
    /// # Errors
    /// The error of the first field that is not read: the rows of a
    /// tabulated entry; the range of a formula entry, then its coefficients.
    pub fn try_from<N: Fn(&str) -> Option<Number>>(data: Data, number: &N) -> (r: Result<
        DispersionData,
        ParseError,
    >)
        requires
            forall|t: &str| call_requires(number, (t,)),
        ensures
            entry_outcome(number, data, r),
    {
        match data {
            Data::TabulatedK { data } => match parse_tabulated_2d(data.as_str(), number) {
                Ok(data) => {
                    let d = DispersionData::TabulatedK { data };
                    assert(d.rows() == pairs_view(data@));
                    Ok(d)
                },
                Err(e) => Err(e),
            },
            Data::TabulatedN { data } => match parse_tabulated_2d(data.as_str(), number) {
                Ok(data) => {
                    let d = DispersionData::TabulatedN { data };
                    assert(d.rows() == pairs_view(data@));
                    Ok(d)
                },
                Err(e) => Err(e),
            },
            Data::TabulatedNK { data } => match parse_tabulated_3d(data.as_str(), number) {
                Ok(data) => {
                    let d = DispersionData::TabulatedNK { data };
                    assert(d.rows() == triples_view(data@));
                    Ok(d)
                },
                Err(e) => Err(e),
            },
            Data::Formula1 { wavelength_range, coefficients } => match parse_formula(
                wavelength_range.as_str(),
                coefficients.as_str(),
                number,
            ) {
                Ok((wavelength_range, c)) => Ok(DispersionData::Formula1 { wavelength_range, c }),
                Err(e) => Err(e),
            },
            Data::Formula2 { wavelength_range, coefficients } => match parse_formula(
                wavelength_range.as_str(),
                coefficients.as_str(),
                number,
            ) {
                Ok((wavelength_range, c)) => Ok(DispersionData::Formula2 { wavelength_range, c }),
                Err(e) => Err(e),
            },
            Data::Formula3 { wavelength_range, coefficients } => match parse_formula(
                wavelength_range.as_str(),
                coefficients.as_str(),
                number,
            ) {
                Ok((wavelength_range, c)) => Ok(DispersionData::Formula3 { wavelength_range, c }),
                Err(e) => Err(e),
            },
            Data::Formula4 { wavelength_range, coefficients } => match parse_formula(
                wavelength_range.as_str(),
                coefficients.as_str(),
                number,
            ) {
                Ok((wavelength_range, c)) => Ok(DispersionData::Formula4 { wavelength_range, c }),
                Err(e) => Err(e),
            },
            Data::Formula5 { wavelength_range, coefficients } => match parse_formula(
                wavelength_range.as_str(),
                coefficients.as_str(),
                number,
            ) {
                Ok((wavelength_range, c)) => Ok(DispersionData::Formula5 { wavelength_range, c }),
                Err(e) => Err(e),
            },
            Data::Formula6 { wavelength_range, coefficients } => match parse_formula(
                wavelength_range.as_str(),
                coefficients.as_str(),
                number,
            ) {
                Ok((wavelength_range, c)) => Ok(DispersionData::Formula6 { wavelength_range, c }),
                Err(e) => Err(e),
            },
            Data::Formula7 { wavelength_range, coefficients } => match parse_formula(
                wavelength_range.as_str(),
                coefficients.as_str(),
                number,
            ) {
                Ok((wavelength_range, c)) => Ok(DispersionData::Formula7 { wavelength_range, c }),
                Err(e) => Err(e),
            },
            Data::Formula8 { wavelength_range, coefficients } => match parse_formula(
                wavelength_range.as_str(),
                coefficients.as_str(),
                number,
            ) {
                Ok((wavelength_range, c)) => Ok(DispersionData::Formula8 { wavelength_range, c }),
                Err(e) => Err(e),
            },
            Data::Formula9 { wavelength_range, coefficients } => match parse_formula(
                wavelength_range.as_str(),
                coefficients.as_str(),
                number,
            ) {
                Ok((wavelength_range, c)) => Ok(DispersionData::Formula9 { wavelength_range, c }),
                Err(e) => Err(e),
            },
        }
    }
}

/// Assembles the item of a page from its material file and the names of its
/// shelf, its book and itself. The references and comments are kept; every
/// entry is converted, in order.
///
/// # Errors
/// The error of the first entry that is not converted.
pub fn parse_material<N: Fn(&str) -> Option<Number>>(
    material: Material,
    shelf: &str,
    book: &str,
    page: &str,
    number: &N,
) -> (r: Result<crate::store::Material, ParseError>)
    requires
        forall|t: &str| call_requires(number, (t,)),
    ensures
        material_outcome(number, material, shelf@, book@, page@, r),
        material.data@.len() == 0 ==> r is Ok,
{
    let ghost entries = material.data@;
    let mut data: Vec<DispersionData> = Vec::new();
    let it = material.data.into_iter();
    for entry in iter: it
        invariant
            iter.seq() == entries,
            entries == material.data@,
            forall|t: &str| call_requires(number, (t,)),
            data.len() == iter.index(),
            forall|j: int|
                0 <= j < iter.index() ==> entry_outcome(number, entries[j], Ok(#[trigger] data[j])),
    {
        let ghost m = iter.index();
        match DispersionData::try_from(entry, number) {
            Ok(d) => {
                data.push(d);
            },
            Err(e) => {
                assert(material_stops_at(number, entries, m as int, e)) by {
                    assert forall|j: int| 0 <= j < m implies entry_converts(
                        number,
                        #[trigger] entries[j],
                    ) by {
                        assert(entry_outcome(number, entries[j], Ok(data[j])));
                    }
                }
                return Err(e);
            },
        }
    }
    Ok(
        crate::store::Material {
            shelf: String::from_str(shelf),
            book: String::from_str(book),
            page: String::from_str(page),
            comments: material.comments,
            references: material.references,
            data,
        },
    )
}

} // verus!

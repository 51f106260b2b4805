use lib_ria::database::parsers::{
    parse_coefficients, parse_material, parse_tabulated_2d, parse_tabulated_3d,
    parse_wavelength_range,
};
use lib_ria::database::{Data, Material, ParseError};
use lib_ria::{DispersionData, Kind, Number};

fn read_number(token: &str) -> Option<Number> {
    token.parse::<f64>().ok().map(|x| Number { bits: x.to_bits() })
}

fn values(numbers: &[Number]) -> Vec<f64> {
    numbers.iter().map(|x| f64::from_bits(x.bits)).collect()
}

fn formula(kind: u32, wavelength_range: &str, coefficients: &str) -> Data {
    let wavelength_range = wavelength_range.to_string();
    let coefficients = coefficients.to_string();
    match kind {
        1 => Data::Formula1 { wavelength_range, coefficients },
        2 => Data::Formula2 { wavelength_range, coefficients },
        3 => Data::Formula3 { wavelength_range, coefficients },
        4 => Data::Formula4 { wavelength_range, coefficients },
        5 => Data::Formula5 { wavelength_range, coefficients },
        6 => Data::Formula6 { wavelength_range, coefficients },
        7 => Data::Formula7 { wavelength_range, coefficients },
        8 => Data::Formula8 { wavelength_range, coefficients },
        _ => Data::Formula9 { wavelength_range, coefficients },
    }
}

#[test]
fn parsers_test_parse_coefficients() {
    let data = "  1.0  2.0  3.0  ";
    let result = parse_coefficients(data, &read_number).unwrap();
    assert_eq!(values(&result), [1.0, 2.0, 3.0]);
}

#[test]
fn parsers_test_parse_wavelength_range() {
    let data = "  1.0  2.0\n  ";
    let result = parse_wavelength_range(data, &read_number).unwrap();
    assert_eq!(values(&result), [1.0, 2.0]);
}

#[test]
fn parsers_test_parse_tabulated_2d() {
    let data = "1.0 2.0\n3.0 4.0\n";
    let result = parse_tabulated_2d(data, &read_number).unwrap();
    let rows: Vec<Vec<f64>> = result.iter().map(|row| values(row)).collect();
    assert_eq!(rows, [[1.0, 2.0], [3.0, 4.0]]);
}

#[test]
fn parsers_test_parse_tabulated_3d() {
    let data = "1.0 2.0 3.0\n4.0 5.0 6.0\n";
    let result = parse_tabulated_3d(data, &read_number).unwrap();
    let rows: Vec<Vec<f64>> = result.iter().map(|row| values(row)).collect();
    assert_eq!(rows, [[1.0, 2.0, 3.0], [4.0, 5.0, 6.0]]);
}

#[test]
fn coefficients_of_empty_text_are_none() {
    assert!(parse_coefficients("", &read_number).unwrap().is_empty());
    assert!(parse_coefficients(" \n\t", &read_number).unwrap().is_empty());
}

#[test]
fn coefficients_fail_on_any_token_that_is_no_number() {
    assert_eq!(parse_coefficients("1.0 x 3.0", &read_number), Err(ParseError::InvalidNumber));
    assert_eq!(parse_coefficients("1.0 2.0 3,0", &read_number), Err(ParseError::InvalidNumber));
}

#[test]
fn coefficients_keep_the_bits_that_the_reader_gives() {
    let result = parse_coefficients("-0.0 1e-3 455872.4E-8 inf", &read_number).unwrap();
    let bits: Vec<u64> = result.iter().map(|x| x.bits).collect();
    assert_eq!(
        bits,
        [(-0.0f64).to_bits(), 1e-3f64.to_bits(), 455872.4E-8f64.to_bits(), f64::INFINITY.to_bits()]
    );
}

#[test]
fn a_range_takes_the_first_two_tokens_and_ignores_the_rest() {
    let result = parse_wavelength_range("0.3 2.5 7.0 x", &read_number).unwrap();
    assert_eq!(values(&result), [0.3, 2.5]);
}

#[test]
fn a_range_is_not_checked_for_order() {
    let result = parse_wavelength_range("2.5 0.3", &read_number).unwrap();
    assert_eq!(values(&result), [2.5, 0.3]);
}

#[test]
fn a_range_names_what_it_lacks() {
    assert_eq!(parse_wavelength_range("", &read_number), Err(ParseError::MissingMinimum));
    assert_eq!(parse_wavelength_range("  \n", &read_number), Err(ParseError::MissingMinimum));
    assert_eq!(parse_wavelength_range("0.3", &read_number), Err(ParseError::MissingMaximum));
    assert_eq!(parse_wavelength_range("x", &read_number), Err(ParseError::InvalidNumber));
    assert_eq!(parse_wavelength_range("x 2.5", &read_number), Err(ParseError::InvalidNumber));
    assert_eq!(parse_wavelength_range("0.3 y", &read_number), Err(ParseError::InvalidNumber));
}

#[test]
fn a_table_of_two_columns_names_what_a_line_lacks() {
    assert_eq!(
        parse_tabulated_2d("1.0 2.0\n\n3.0 4.0\n", &read_number),
        Err(ParseError::MissingWavelength)
    );
    assert_eq!(parse_tabulated_2d("1.0 2.0\n3.0\n", &read_number), Err(ParseError::MissingValue));
    assert_eq!(parse_tabulated_2d("1.0 2.0\n3.0 x\n", &read_number), Err(ParseError::InvalidNumber));
    assert_eq!(parse_tabulated_2d("x\n", &read_number), Err(ParseError::InvalidNumber));
}

#[test]
fn a_table_of_three_columns_names_what_a_line_lacks() {
    assert_eq!(parse_tabulated_3d("\n", &read_number), Err(ParseError::MissingWavelength));
    assert_eq!(parse_tabulated_3d("1.0\n", &read_number), Err(ParseError::MissingReal));
    assert_eq!(parse_tabulated_3d("1.0 2.0\n", &read_number), Err(ParseError::MissingImaginary));
    assert_eq!(parse_tabulated_3d("1.0 2.0 x\n", &read_number), Err(ParseError::InvalidNumber));
}

#[test]
fn a_table_reports_the_first_line_that_is_no_row() {
    assert_eq!(parse_tabulated_2d("1.0\nx y\n", &read_number), Err(ParseError::MissingValue));
    assert_eq!(parse_tabulated_2d("x y\n1.0\n", &read_number), Err(ParseError::InvalidNumber));
}

#[test]
fn a_table_ignores_further_tokens_and_line_ends() {
    let result = parse_tabulated_2d("0.370 5.4237E-06 z\r\n0.380 2.7852E-06", &read_number).unwrap();
    let rows: Vec<Vec<f64>> = result.iter().map(|row| values(row)).collect();
    assert_eq!(rows, [[0.370, 5.4237E-06], [0.380, 2.7852E-06]]);
}

#[test]
fn a_table_of_empty_text_has_no_rows() {
    assert!(parse_tabulated_2d("", &read_number).unwrap().is_empty());
    assert!(parse_tabulated_3d("", &read_number).unwrap().is_empty());
}

#[test]
fn the_messages_say_what_is_missing() {
    assert_eq!(ParseError::MissingMinimum.message(), "Cannot find minimum value");
    assert_eq!(ParseError::MissingMaximum.message(), "Cannot find maximum value");
    assert_eq!(ParseError::MissingWavelength.message(), "Cannot find wavelength");
    assert_eq!(ParseError::MissingValue.message(), "Cannot find refractive index value");
    assert_eq!(ParseError::MissingReal.message(), "Cannot find real refractive index value");
    assert_eq!(
        ParseError::MissingImaginary.message(),
        "Cannot find imaginary refractive index value"
    );
    assert_eq!(ParseError::InvalidNumber.message(), "invalid float literal");
}

#[test]
fn every_formula_entry_converts_to_its_kind() {
    let kinds = [
        Kind::Formula1,
        Kind::Formula2,
        Kind::Formula3,
        Kind::Formula4,
        Kind::Formula5,
        Kind::Formula6,
        Kind::Formula7,
        Kind::Formula8,
        Kind::Formula9,
    ];
    for (i, kind) in kinds.iter().enumerate() {
        let data = formula(i as u32 + 1, "0.37 2.5", "0 1.70579259 0.0133874699");
        let converted = DispersionData::try_from(data, &read_number).unwrap();
        assert_eq!(converted.kind(), *kind);
        match converted {
            DispersionData::Formula1 { wavelength_range, c }
            | DispersionData::Formula2 { wavelength_range, c }
            | DispersionData::Formula3 { wavelength_range, c }
            | DispersionData::Formula4 { wavelength_range, c }
            | DispersionData::Formula5 { wavelength_range, c }
            | DispersionData::Formula6 { wavelength_range, c }
            | DispersionData::Formula7 { wavelength_range, c }
            | DispersionData::Formula8 { wavelength_range, c }
            | DispersionData::Formula9 { wavelength_range, c } => {
                assert_eq!(values(&wavelength_range), [0.37, 2.5]);
                assert_eq!(values(&c), [0.0, 1.70579259, 0.0133874699]);
            }
            other => panic!("unexpected entry {:?}", other),
        }
    }
}

#[test]
fn every_tabulated_entry_converts_to_its_kind() {
    let k = Data::TabulatedK { data: "0.370 5.4237E-06\n0.380 2.7852E-06\n".to_string() };
    match DispersionData::try_from(k, &read_number).unwrap() {
        DispersionData::TabulatedK { data } => {
            assert_eq!(values(&data[0]), [0.370, 5.4237E-06]);
            assert_eq!(values(&data[1]), [0.380, 2.7852E-06]);
            assert_eq!(data.len(), 2);
        }
        other => panic!("unexpected entry {:?}", other),
    }
    let n = Data::TabulatedN { data: "0.5 1.5\n".to_string() };
    match DispersionData::try_from(n, &read_number).unwrap() {
        DispersionData::TabulatedN { data } => {
            assert_eq!(values(&data[0]), [0.5, 1.5]);
            assert_eq!(data.len(), 1);
        }
        other => panic!("unexpected entry {:?}", other),
    }
    let nk = Data::TabulatedNK { data: "0.5 1.5 0.1\n".to_string() };
    match DispersionData::try_from(nk, &read_number).unwrap() {
        DispersionData::TabulatedNK { data } => {
            assert_eq!(values(&data[0]), [0.5, 1.5, 0.1]);
            assert_eq!(data.len(), 1);
        }
        other => panic!("unexpected entry {:?}", other),
    }
}

#[test]
fn a_formula_entry_reads_its_range_before_its_coefficients() {
    let both_bad = formula(2, "0.3", "x");
    assert_eq!(
        DispersionData::try_from(both_bad, &read_number).unwrap_err(),
        ParseError::MissingMaximum
    );
    let bad_coefficients = formula(2, "0.3 2.5", "1.0 x");
    assert_eq!(
        DispersionData::try_from(bad_coefficients, &read_number).unwrap_err(),
        ParseError::InvalidNumber
    );
}

#[test]
fn a_tabulated_entry_fails_as_its_table_does() {
    let k = Data::TabulatedK { data: "0.5\n".to_string() };
    assert_eq!(DispersionData::try_from(k, &read_number).unwrap_err(), ParseError::MissingValue);
    let nk = Data::TabulatedNK { data: "0.5 1.0\n".to_string() };
    assert_eq!(
        DispersionData::try_from(nk, &read_number).unwrap_err(),
        ParseError::MissingImaginary
    );
}

#[test]
fn a_material_keeps_its_texts_and_converts_every_entry() {
    let material = Material {
        references: "SCHOTT Zemax catalog 2017-01-20b".to_string(),
        comments: "lead containing glass type".to_string(),
        data: vec![
            formula(2, "0.37 2.5", "0 1.70579259 0.0133874699 0.344223052"),
            Data::TabulatedK { data: "0.370 5.4237E-06\n0.380 2.7852E-06\n0.390 1.1068E-06\n".to_string() },
        ],
        specs: None,
    };
    let item = parse_material(material, "Shelf", "Book", "Page", &read_number).unwrap();
    assert_eq!(item.shelf, "Shelf");
    assert_eq!(item.book, "Book");
    assert_eq!(item.page, "Page");
    assert_eq!(item.references, "SCHOTT Zemax catalog 2017-01-20b");
    assert_eq!(item.comments, "lead containing glass type");
    assert_eq!(item.data.len(), 2);
    assert_eq!(item.data[0].kind(), Kind::Formula2);
    assert_eq!(item.data[1].kind(), Kind::TabulatedK);
}

#[test]
fn a_material_fails_with_the_error_of_its_first_bad_entry() {
    let material = Material {
        references: String::new(),
        comments: String::new(),
        data: vec![
            formula(1, "0.3 2.5", "1.0"),
            formula(2, "0.3", "1.0"),
            formula(3, "0.3 2.5", "x"),
        ],
        specs: None,
    };
    assert_eq!(
        parse_material(material, "s", "b", "p", &read_number).unwrap_err(),
        ParseError::MissingMaximum
    );
}

#[test]
fn a_material_without_entries_is_an_item_without_data() {
    let material = Material {
        references: String::new(),
        comments: String::new(),
        data: Vec::new(),
        specs: Some(serde_yaml::Value::Bool(true)),
    };
    let item = parse_material(material, "s", "b", "p", &read_number).unwrap();
    assert!(item.data.is_empty());
}

#[test]
fn the_reader_decides_what_is_a_number() {
    let only_integers = |token: &str| token.parse::<u32>().ok().map(|x| Number { bits: x as u64 });
    let result = parse_coefficients("1 2 3", &only_integers).unwrap();
    let bits: Vec<u64> = result.iter().map(|x| x.bits).collect();
    assert_eq!(bits, [1, 2, 3]);
    assert_eq!(parse_coefficients("1 2.0", &only_integers), Err(ParseError::InvalidNumber));
}

use lib_ria::{DataType, DispersionData, EvalError, Expr, Kind, Number};

fn num(x: f64) -> Number {
    Number { bits: x.to_bits() }
}

fn nums(xs: &[f64]) -> Vec<Number> {
    xs.iter().map(|x| num(*x)).collect()
}

fn eval(e: &Expr) -> f64 {
    match e {
        Expr::Const(x) => f64::from_bits(x.bits),
        Expr::Add(a, b) => eval(a) + eval(b),
        Expr::Sub(a, b) => eval(a) - eval(b),
        Expr::Mul(a, b) => eval(a) * eval(b),
        Expr::Div(a, b) => eval(a) / eval(b),
        Expr::Powi(a, n) => eval(a).powi(*n),
        Expr::Powf(a, b) => eval(a).powf(eval(b)),
        Expr::Sqrt(a) => eval(a).sqrt(),
    }
}

fn formula(kind: u32, range: [f64; 2], c: &[f64]) -> DispersionData {
    let wavelength_range = [num(range[0]), num(range[1])];
    let c = nums(c);
    match kind {
        1 => DispersionData::Formula1 { wavelength_range, c },
        2 => DispersionData::Formula2 { wavelength_range, c },
        3 => DispersionData::Formula3 { wavelength_range, c },
        4 => DispersionData::Formula4 { wavelength_range, c },
        5 => DispersionData::Formula5 { wavelength_range, c },
        6 => DispersionData::Formula6 { wavelength_range, c },
        7 => DispersionData::Formula7 { wavelength_range, c },
        8 => DispersionData::Formula8 { wavelength_range, c },
        _ => DispersionData::Formula9 { wavelength_range, c },
    }
}

fn error_of(data: &DispersionData, wavelength: f64) -> EvalError {
    match data.interpolate(num(wavelength)) {
        Ok(_) => panic!("the query succeeded"),
        Err(e) => e,
    }
}

#[test]
fn test_interpolate_formula_1() {
    // Water Ice at 150 K from refractiveindex.info
    let data = DispersionData::Formula1 {
        wavelength_range: [num(0.210), num(0.757)],
        c: nums(&[0.0, 0.496, 0.071, 0.190, 0.134]),
    };
    let (n, k) = data.interpolate(num(0.5876)).unwrap();
    assert!((eval(&n) - 1.3053).abs() <= 1e-4);
    assert!(k.is_none());
}

#[test]
fn test_interpolate_formula_2() {
    // N-BK7 from refractiveindex.info
    let data = DispersionData::Formula2 {
        wavelength_range: [num(0.3), num(2.5)],
        c: nums(&[
            0.0,
            1.03961212,
            0.00600069867,
            0.231792344,
            0.0200179144,
            1.01046945,
            103.560653,
        ]),
    };

    let (n, k) = data.interpolate(num(0.5876)).unwrap();
    assert!((eval(&n) - 1.51680).abs() <= 1e-5);
    assert!(k.is_none());
}

#[test]
fn test_interpolate_formula_3() {
    // Ohara BAH10 from refractiveindex.info
    let data = DispersionData::Formula3 {
        wavelength_range: [num(0.365), num(0.9)],
        c: nums(&[
            2.730459,
            -0.01063385,
            2.0,
            0.01942756,
            -2.0,
            0.0008209873,
            -4.0,
            -5.210457e-05,
            -6.0,
            4.447534e-06,
            -8.0,
        ]),
    };
    let (n, k) = data.interpolate(num(0.5876)).unwrap();
    assert!((eval(&n) - 1.6700).abs() <= 1e-4);
    assert!(k.is_none());
}

#[test]
fn test_interpolate_formula_4() {
    // CH4N20 Urea from refractiveindex.info
    let data = DispersionData::Formula4 {
        wavelength_range: [num(0.3), num(1.06)],
        c: nums(&[2.1823, 0.0125, 0.0, 0.0300, 1.0, 0.0, 0.0, 0.0, 1.0]),
    };
    let (n, k) = data.interpolate(num(0.5876)).unwrap();
    assert!((eval(&n) - 1.4906).abs() <= 1e-4);
    assert!(k.is_none());
}

#[test]
fn test_interpolate_formula_5() {
    // BK7 matching liquid from refractiveindex.info
    let data = DispersionData::Formula5 {
        wavelength_range: [num(0.31), num(1.55)],
        c: nums(&[1.502787, 455872.4E-8, -2.0, 9.844856E-5, -4.0]),
    };
    let (n, k) = data.interpolate(num(0.5876)).unwrap();
    assert!((eval(&n) - 1.5168).abs() <= 1e-4);
    assert!(k.is_none());
}

#[test]
fn test_interpolate_formula_6() {
    // H2 (Peck) in main shelf from refractiveindex.info
    let data = DispersionData::Formula6 {
        wavelength_range: [num(0.168), num(1.6945)],
        c: nums(&[0.0, 0.0148956, 180.7, 0.0049037, 92.0]),
    };
    let (n, k) = data.interpolate(num(0.5876)).unwrap();
    assert!((eval(&n) - 1.00013881).abs() <= 1e-8);
    assert!(k.is_none());
}

#[test]
fn test_interpolate_formula_7() {
    // Si (Edwards) in main shelf of refractiveindex.info
    let data = DispersionData::Formula7 {
        wavelength_range: [num(2.4373), num(25.0)],
        c: nums(&[3.41983, 0.159906, -0.123109, 1.26878E-6, -1.95104E-9]),
    };
    let (n, k) = data.interpolate(num(2.4373)).unwrap();
    assert!((eval(&n) - 3.4434).abs() <= 1e-4);
    assert!(k.is_none());
}

#[test]
fn test_interpolate_formula_8() {
    // TlCl (Schroter) in main shelf of refractiveindex.info
    let data = DispersionData::Formula8 {
        wavelength_range: [num(0.43), num(0.66)],
        c: nums(&[0.47856, 0.07858, 0.08277, -0.00881]),
    };
    let (n, k) = data.interpolate(num(0.5876)).unwrap();
    assert!((eval(&n) - 2.2636).abs() <= 1e-4);
    assert!(k.is_none());
}

#[test]
fn test_interpolate_formula_9() {
    // CH4N2O Urea (Rosker-e) from refractiveindex.info
    let data = DispersionData::Formula9 {
        wavelength_range: [num(0.3), num(1.06)],
        c: nums(&[2.51527, 0.0240, 0.0300, 0.020, 1.52, 0.8771]),
    };
    let (n, k) = data.interpolate(num(0.5876)).unwrap();
    assert!((eval(&n) - 1.6065).abs() <= 1e-4);
    assert!(k.is_none());
}

#[test]
fn sellmeier_matches_the_direct_computation_bit_for_bit() {
    let c = [0.0, 0.496, 0.071, 0.190, 0.134];
    let w: f64 = 0.5876;
    let mut sum = 0.0;
    let mut i = 1;
    while i < c.len() {
        sum += c[i] * w.powi(2) / (w.powi(2) - c[i + 1].powi(2));
        i += 2;
    }
    let expected = (1.0 + c[0] + sum).sqrt();
    let (n, _) = formula(1, [0.210, 0.757], &c).interpolate(num(w)).unwrap();
    assert_eq!(eval(&n).to_bits(), expected.to_bits());
}

#[test]
fn cauchy_with_one_coefficient_is_the_constant_plus_an_empty_sum() {
    let (n, k) = formula(5, [1.0, 2.0], &[1.5]).interpolate(num(1.5)).unwrap();
    match n {
        Expr::Add(a, b) => {
            assert!(matches!(*a, Expr::Const(x) if x == num(1.5)));
            assert!(matches!(*b, Expr::Const(x) if x == num(0.0)));
        }
        other => panic!("unexpected expression {:?}", other),
    }
    assert!(k.is_none());
}

#[test]
fn herzberger_raises_the_wavelength_to_the_index_less_one() {
    let (n, _) = formula(7, [1.0, 3.0], &[0.0, 0.0, 0.0, 2.0, 9.0, 3.0])
        .interpolate(num(2.0))
        .unwrap();
    // 2 * 2^2 + 3 * 2^4; the coefficient at the even index 4 belongs to no term.
    assert_eq!(eval(&n), 56.0);
}

#[test]
fn formula_4_divides_its_first_two_terms_and_not_those_after() {
    // Two terms of four coefficients, at 1 and at 5, then terms of two, at 9
    // and at 11. At w = 2 each of the first two is 1 * w^0 / (w^2 - 1^1).
    let c = [1.0, 1.0, 0.0, 1.0, 1.0, 1.0, 0.0, 1.0, 1.0, 5.0, 1.0, 3.0, 2.0];
    let (n, _) = formula(4, [1.0, 3.0], &c).interpolate(num(2.0)).unwrap();
    let third: f64 = 1.0 / 3.0;
    let sum = (((0.0 + third) + third) + 5.0 * 2.0f64.powf(1.0)) + 3.0 * 2.0f64.powf(2.0);
    let expected = (1.0 + sum).sqrt();
    assert_eq!(eval(&n).to_bits(), expected.to_bits());
}

#[test]
fn every_formula_fails_below_and_above_its_range() {
    let c = [1.0, 1.0, 1.0, 1.0, 1.0, 1.0, 1.0];
    for kind in 1..=9 {
        let data = formula(kind, [0.3, 2.5], &c);
        assert_eq!(error_of(&data, 0.29), EvalError::OutOfRange);
        assert_eq!(error_of(&data, 2.51), EvalError::OutOfRange);
        assert_eq!(error_of(&data, f64::NEG_INFINITY), EvalError::OutOfRange);
        assert_eq!(error_of(&data, f64::INFINITY), EvalError::OutOfRange);
    }
}

#[test]
fn the_range_check_comes_before_the_coefficients() {
    for kind in 1..=9 {
        let data = formula(kind, [0.3, 2.5], &[]);
        assert_eq!(error_of(&data, 0.1), EvalError::OutOfRange);
        assert_eq!(error_of(&data, 1.0), EvalError::MissingCoefficients);
    }
}

#[test]
fn the_ends_of_the_range_are_within_it() {
    let data = formula(5, [0.3, 2.5], &[1.5]);
    assert!(data.interpolate(num(0.3)).is_ok());
    assert!(data.interpolate(num(2.5)).is_ok());
}

#[test]
fn a_wavelength_that_is_no_number_is_not_outside_any_range() {
    let data = formula(5, [0.3, 2.5], &[1.5]);
    let (n, _) = data.interpolate(num(f64::NAN)).unwrap();
    assert_eq!(eval(&n), 1.5);
}

#[test]
fn tabulated_entries_are_not_interpolated() {
    let k = DispersionData::TabulatedK { data: vec![[num(0.5), num(1.0)]] };
    let n = DispersionData::TabulatedN { data: vec![[num(0.5), num(1.0)]] };
    let nk = DispersionData::TabulatedNK { data: vec![[num(0.5), num(1.0), num(2.0)]] };
    assert_eq!(error_of(&k, 0.5), EvalError::NotImplemented);
    assert_eq!(error_of(&n, 0.5), EvalError::NotImplemented);
    assert_eq!(error_of(&nk, 0.5), EvalError::NotImplemented);
}

#[test]
fn coefficients_are_missing_at_the_lengths_that_a_term_reads_past() {
    let ok = |kind: u32, len: usize| {
        let c = vec![1.0; len];
        formula(kind, [0.3, 2.5], &c).interpolate(num(1.0)).is_ok()
    };
    for kind in [1, 2, 3, 5, 6] {
        for len in 0..12 {
            assert_eq!(ok(kind, len), len % 2 == 1, "formula {kind}, {len} coefficients");
        }
    }
    for len in 0..30 {
        let expected = len == 1 || len == 5 || (len >= 9 && len % 2 == 1);
        assert_eq!(ok(4, len), expected, "formula 4, {len} coefficients");
    }
    for len in 0..10 {
        assert_eq!(ok(7, len), len >= 3);
        assert_eq!(ok(8, len), len >= 4);
        assert_eq!(ok(9, len), len >= 6);
    }
}

#[test]
fn kinds_and_data_types_follow_the_variant() {
    let k = DispersionData::TabulatedK { data: Vec::new() };
    let n = DispersionData::TabulatedN { data: Vec::new() };
    let nk = DispersionData::TabulatedNK { data: Vec::new() };
    assert_eq!(k.kind(), Kind::TabulatedK);
    assert_eq!(k.data_type(), DataType::Imaginary);
    assert_eq!(n.kind(), Kind::TabulatedN);
    assert_eq!(n.data_type(), DataType::Real);
    assert_eq!(nk.kind(), Kind::TabulatedNK);
    assert_eq!(nk.data_type(), DataType::Both);
    let kinds = [
        Kind::Formula1,
        Kind::Formula2,
        Kind::Formula3,
        Kind::Formula4,
        Kind::Formula5,
        Kind::Formula6,
        Kind::Formula7,
        Kind::Formula8,
        Kind::Formula9,
    ];
    for (i, kind) in kinds.iter().enumerate() {
        let data = formula(i as u32 + 1, [0.0, 1.0], &[]);
        assert_eq!(data.kind(), *kind);
        assert_eq!(data.data_type(), DataType::Real);
    }
}

#[test]
fn the_messages_say_why_a_query_failed() {
    assert_eq!(
        EvalError::OutOfRange.message(),
        "The wavelength is outside the range of the dispersion data."
    );
    assert_eq!(
        EvalError::NotImplemented.message(),
        "Tabulated dispersion data are not implemented."
    );
    assert_eq!(
        EvalError::MissingCoefficients.message(),
        "The formula reads a coefficient that is missing."
    );
    assert_eq!(EvalError::NoRealData.message(), "No real data found for item.");
    assert_eq!(EvalError::NoImaginaryData.message(), "No imaginary data found for item.");
}

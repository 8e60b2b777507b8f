use pn::common::mass::Gram;

/// A mass from a fractional gram count, at hundredth-of-a-gram resolution.
fn gm(v: f32) -> Gram {
    Gram((v * 100.0).round() as u64)
}

#[test]
fn mass_test_gram_constructor() {
    let weight: Gram = 500.into();
    assert_eq!(weight, 500.into());
}

#[test]
fn mass_test_gram_from_int() {
    let weight: Gram = 312.into();
    assert_eq!(weight, 312.into());
}

#[test]
fn mass_test_gram_from_float() {
    let weight: Gram = gm(312.5);
    assert_eq!(weight, gm(312.5));
}

#[test]
fn mass_test_gram_into_int() {
    let weight: Gram = 11.into();
    assert_eq!(weight, gm(11.0));
}

#[test]
fn mass_test_gram_into_float() {
    let weight: Gram = gm(11.3);
    assert_eq!(weight, gm(11.3));
}

#[test]
fn mass_test_gram_add() {
    let weight1: Gram = gm(11.3);
    let weight2: Gram = 11.into();
    assert_eq!(weight1.plus(weight2), gm(22.3));
}

#[test]
fn mass_test_gram_add_i32() {
    let weight1: Gram = gm(11.3);
    assert_eq!(weight1.plus(3.into()), gm(14.3));
}

#[test]
fn mass_test_gram_add_f32() {
    let weight1: Gram = gm(11.3);
    assert_eq!(weight1.plus(gm(3.5)), gm(14.8));
}

#[test]
fn mass_test_gram_mul_i32() {
    let weight1: Gram = gm(11.3);
    assert_eq!(weight1.times(3.into()), gm(33.9));
}

#[test]
fn mass_test_gram_mul_f32() {
    let weight1: Gram = gm(11.4);
    assert_eq!(weight1.times(gm(3.6)), gm(41.04));
}

#[test]
fn mass_test_gram_div_i32() {
    let weight1: Gram = gm(33.9);
    assert_eq!(weight1.div_by(3.into()), gm(11.3));
}

#[test]
fn mass_test_gram_div_f32() {
    let weight1: Gram = gm(41.04);
    assert_eq!(weight1.div_by(gm(3.6)), gm(11.4));
}

#[test]
fn common_test_gram_constructor() {
    let weight: Gram = 500.into();
    assert_eq!(weight, 500.into());
}

#[test]
fn common_test_gram_from_int() {
    let weight: Gram = 312.into();
    assert_eq!(weight, 312.into());
}

#[test]
fn common_test_gram_from_float() {
    let weight: Gram = gm(312.5);
    assert_eq!(weight, gm(312.5));
}

#[test]
fn common_test_gram_into_int() {
    let weight: Gram = 11.into();
    assert_eq!(weight, gm(11.0));
}

#[test]
fn common_test_gram_into_float() {
    let weight: Gram = gm(11.3);
    assert_eq!(weight, gm(11.3));
}

#[test]
fn common_test_gram_add() {
    let weight1: Gram = gm(11.3);
    let weight2: Gram = 11.into();
    assert_eq!(weight1.plus(weight2), gm(22.3));
}

#[test]
fn common_test_gram_add_i32() {
    let weight1: Gram = gm(11.3);
    assert_eq!(weight1.plus(3.into()), gm(14.3));
}

#[test]
fn common_test_gram_add_f32() {
    let weight1: Gram = gm(11.3);
    assert_eq!(weight1.plus(gm(3.5)), gm(14.8));
}

#[test]
fn common_test_gram_mul_i32() {
    let weight1: Gram = gm(11.3);
    assert_eq!(weight1.times(3.into()), gm(33.9));
}

#[test]
fn common_test_gram_mul_f32() {
    let weight1: Gram = gm(11.4);
    assert_eq!(weight1.times(gm(3.6)), gm(41.04));
}

#[test]
fn common_test_gram_div_i32() {
    let weight1: Gram = gm(33.9);
    assert_eq!(weight1.div_by(3.into()), gm(11.3));
}

#[test]
fn common_test_gram_div_f32() {
    let weight1: Gram = gm(41.04);
    assert_eq!(weight1.div_by(gm(3.6)), gm(11.4));
}

#[test]
fn gram_from_negative_resolves_to_zero() {
    let weight: Gram = (-5).into();
    assert_eq!(weight, Gram::zero());
}

#[test]
fn gram_subtraction_rejects_negative_result() {
    let a: Gram = 100.into();
    let b: Gram = 200.into();
    assert_eq!(b.minus(a), Ok(Gram::from(100)));
    assert_eq!(
        a.minus(b),
        Err(pn::error::Error::NegativeMass(a, b))
    );
}

#[test]
fn gram_as_ratio_of_whole_percent() {
    let part: Gram = 250.into();
    let whole: Gram = 1000.into();
    let ratio = part.as_ratio_of(&whole);
    assert_eq!(ratio.0, 25);
}

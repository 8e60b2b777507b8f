use pn::common::mass::Gram;
use pn::ingredient::water::Water;

fn wg(v: f32) -> Gram {
    Gram((v * 100.0).round() as u64)
}

#[test]
fn test_water_constructor() {
    let water: Water = 500.into();
    assert_eq!(water.mass, 500.into());
}

#[test]
fn test_water_add_gram() {
    let water: Water = 500.into();
    assert_eq!(water.mass.plus(Gram::from(30)), 530.into());
}

#[test]
fn test_water_add_i32() {
    let water: Water = 500.into();
    assert_eq!(water.plus(30.into()), 530.into());
}

#[test]
fn test_water_add_f32() {
    let water: Water = 500.into();
    assert_eq!(water.plus(wg(30.5)), Water::from(wg(530.5)));
}

#[test]
fn test_water_mul_i32() {
    let water: Water = 200.into();
    assert_eq!(water.times(3.into()), 600.into());
}

#[test]
fn test_water_mul_f32() {
    let water: Water = 200.into();
    assert_eq!(water.times(wg(3.5)), 700.into());
}

#[test]
fn test_water_div_i32() {
    let water: Water = 600.into();
    assert_eq!(water.div_by(3.into()), 200.into());
}

#[test]
fn test_water_div_f32() {
    let water: Water = 700.into();
    assert_eq!(water.div_by(wg(3.5)), 200.into());
}

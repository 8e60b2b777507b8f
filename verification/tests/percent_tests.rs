use pn::common::mass::{Gram, Ratio};
use pn::common::percent::{Fraction, Percent};
use pn::error::Error;
use pn::ingredient::salt::SaltPercentage;

/// Validation accepts exactly the encoded values within the scaled bound.
#[test]
fn percent_new_accepts_exactly_the_declared_bound() {
    // SaltPercentage is bounded 1%..4% with one decimal digit: encoded 10..40.
    assert_eq!(SaltPercentage::new(9), Err(Error::InvalidPercentage(9, 1, 4)));
    assert_eq!(SaltPercentage::new(10), Ok(Percent(10)));
    assert_eq!(SaltPercentage::new(25), Ok(Percent(25)));
    assert_eq!(SaltPercentage::new(40), Ok(Percent(40)));
    assert_eq!(SaltPercentage::new(41), Err(Error::InvalidPercentage(41, 1, 4)));

    assert_eq!(Ratio::new(0), Ok(Percent(0)));
    assert_eq!(Ratio::new(10_000_000), Ok(Percent(10_000_000)));
    assert_eq!(
        Ratio::new(10_000_001),
        Err(Error::InvalidPercentage(10_000_001, 0, 10_000_000))
    );
}

#[test]
fn percent_valid_new_mirrors_new() {
    assert_eq!(SaltPercentage::valid_new(9), None);
    assert_eq!(SaltPercentage::valid_new(10), Some(Percent(10)));
    assert_eq!(SaltPercentage::valid_new(40), Some(Percent(40)));
    assert_eq!(SaltPercentage::valid_new(41), None);
}

/// Round-trip: a percentage built from `p` whole percent reads back as the
/// exact fraction `p / 100`.
#[test]
fn percent_as_decimal_round_trip() {
    let p = Ratio::from_scalar(80);
    let f = p.as_decimal();
    assert_eq!(f, Fraction { num: 80, den: 100 });
    assert_eq!(f.num * 100, 80 * f.den);

    let s = SaltPercentage::from_scalar(2);
    let sf = s.as_decimal();
    assert_eq!(sf, Fraction { num: 20, den: 1000 });
    assert_eq!(sf.num * 100, 2 * sf.den);
}

#[test]
fn percent_range_reports_the_declared_bound() {
    assert_eq!(SaltPercentage::range(), (1, 4));
    assert_eq!(Ratio::range(), (0, 10_000_000));
}

#[test]
fn percent_plus_adds_encoded_values() {
    let a: Ratio = Percent(60);
    let b: Ratio = Percent(40);
    assert_eq!(a.plus(b), Percent(100));
}

/// Scaling a mass by a percentage uses the true fractional value.
#[test]
fn gram_times_ratio_uses_the_fraction() {
    let mass = Gram::from(1000);
    assert_eq!(mass.times_ratio(Percent::<0, 10_000_000, 0>(60)), Gram::from(600));
    assert_eq!(mass.times_ratio(SaltPercentage::from_scalar(2)), Gram::from(20));
    // 150% of 200 g is 300 g: ratios above 100% are meaningful.
    assert_eq!(Gram::from(200).times_ratio(Percent::<0, 10_000_000, 0>(150)), Gram::from(300));
}

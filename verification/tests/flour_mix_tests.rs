use pn::common::mass::Gram;
use pn::common::percent::Percent;
use pn::error::Error;
use pn::ingredient::flour::Flours;
use pn::ingredient::ingredient::Ingredient;
use pn::ingredient::preferment::starter::Starter;

fn build_mix(mass: Gram, parts: &[usize]) -> Flours {
    let mut mix = Flours::new(&mass);
    for (i, p) in parts.iter().enumerate() {
        mix = mix.add_flour(format!("f{}", i), Percent(*p)).unwrap();
    }
    mix
}

#[test]
fn valid_when_ratios_sum_to_100() {
    let mass = Gram::from(1000);
    let partitions: Vec<Vec<usize>> = vec![
        vec![100],
        vec![60, 40],
        vec![25, 25, 50],
        vec![10, 10, 10, 10, 10, 10, 10, 10, 10, 10],
        vec![1, 99],
    ];
    for parts in partitions {
        let flours = build_mix(mass, &parts);
        let result = flours.total_ratio();
        assert_eq!(result.is_ok(), true);
        assert_eq!(result.unwrap(), Percent(100));
    }
}

#[test]
fn invalid_when_ratios_do_not_sum_less_then_100() {
    let mass = Gram::from(1000);
    let cases: Vec<(Vec<usize>, usize)> = vec![
        (vec![20, 30], 50),
        (vec![99], 99),
        (vec![1, 1, 1], 3),
    ];
    for (parts, sum) in cases {
        let flours = build_mix(mass, &parts);
        let result = flours.total_ratio();
        assert_eq!(result.is_err(), true);
        assert_eq!(result.unwrap_err(), Error::InsufficientFLourRatios(Percent(sum)));
    }
}

#[test]
fn invalid_when_ratios_do_not_sum_greater_than_100() {
    let mass = Gram::from(1000);
    let flours = Flours::new(&mass).add_flour("f0".to_string(), Percent(60)).unwrap();
    let result = flours.add_flour("f1".to_string(), Percent(50));
    assert_eq!(result.is_err(), true);
    assert_eq!(result.unwrap_err(), Error::InsufficientFLourRatios(Percent(110)));
}

#[test]
fn invalid_when_ratio_is_zero_or_out_of_bounds() {
    let mass = Gram::from(1000);
    let result = Flours::new(&mass).add_flour("f0".to_string(), Percent(0));
    assert_eq!(result.unwrap_err(), Error::InvalidPercentage(0, 1, 100));
    let result = Flours::new(&mass).add_flour("f0".to_string(), Percent(101));
    assert_eq!(result.unwrap_err(), Error::InvalidPercentage(101, 1, 100));
}

/// The invariant under test:
///   added flour + preferment flour = total flour
#[test]
fn valid_repurpose_with_one_flour() {
    let mass = Gram::from(1000);
    let flours = build_mix(mass, &[100]);
    let starter = Starter::new(&mass, Percent(10), Percent(100));
    let demand = starter.flour();

    let result = flours.repurpose(&Ingredient::Preferment(starter));
    assert_eq!(result.is_ok(), true);

    let flours = result.unwrap();
    assert_eq!(flours.mix.len(), 1);

    let flour = &flours.mix[0];
    assert_eq!(flour.gross_flour(), mass);
    assert_eq!(flour.flour(), mass.minus(demand).unwrap());
}

/// The invariant under test:
///   added flour + preferment flour = total flour
#[test]
fn valid_repurpose_with_multi_flour() {
    let mass = Gram::from(1000);
    let flours = build_mix(mass, &[60, 30, 10]);
    let starter = Starter::new(&mass, Percent(10), Percent(100));
    let demand = starter.flour();

    let result = flours.repurpose(&Ingredient::Preferment(starter));
    assert_eq!(result.is_ok(), true);

    let flours = result.unwrap();
    assert_eq!(flours.mix.len(), 3);

    let mut added_flour = Gram::zero();
    for f in flours.mix.iter() {
        assert_eq!(f.gross_flour(), mass.times_ratio(f.ratio));
        added_flour = added_flour.plus(f.flour());
    }
    assert_eq!(added_flour, mass.minus(demand).unwrap());
}

/// The invariant under test:
///   added flour + preferment flour = total flour
#[test]
fn valid_repurpose_with_multi_flour_mutli_preferment() {
    let mass = Gram::from(1000);
    let flours = build_mix(mass, &[60, 40]);
    let starter = Starter::new(&mass, Percent(10), Percent(100));
    let tangzhong = Starter::new(&mass, Percent(20), Percent(100));
    let combined = starter.flour().plus(tangzhong.flour());

    let result = flours.repurpose(&Ingredient::Preferment(starter));
    assert_eq!(result.is_ok(), true);
    let result = result.unwrap().repurpose(&Ingredient::Preferment(tangzhong));
    assert_eq!(result.is_ok(), true);

    let flours = result.unwrap();
    assert_eq!(flours.mix.len(), 2);

    let mut added_flour = Gram::zero();
    for f in flours.mix.iter() {
        assert_eq!(f.gross_flour(), mass.times_ratio(f.ratio));
        added_flour = added_flour.plus(f.flour());
    }
    assert_eq!(added_flour, mass.minus(combined).unwrap());
}

/// Flour is consumed strictly in insertion order: the first fraction is
/// drained before the second one is touched.
#[test]
fn repurpose_consumes_fractions_in_insertion_order() {
    let mass = Gram::from(1000);
    let flours = build_mix(mass, &[10, 90]);
    // Demand of 30% exceeds the first fraction's 10% share.
    let starter = Starter::new(&mass, Percent(30), Percent(100));

    let flours = flours.repurpose(&Ingredient::Preferment(starter)).unwrap();
    assert_eq!(flours.mix[0].flour(), Gram::zero());
    assert_eq!(flours.mix[1].flour(), Gram::from(700));
}

/// Over-demand fails atomically: the failed call reports the available and
/// requested masses, and the mix observes no change at all.
#[test]
fn repurpose_fails_and_leaves_mix_unchanged_on_over_demand() {
    let mass = Gram::from(1000);
    let mut flours = build_mix(mass, &[100]);
    let starter = Starter::new(&mass, Percent(30), Percent(100));
    let ing = Ingredient::Preferment(starter);

    // Three 30% demands succeed and leave 100 g of bulk flour.
    for _ in 0..3 {
        flours = flours.repurpose(&ing).unwrap();
    }
    assert_eq!(flours.flour(), Gram::from(100));

    // A fourth 30% demand exceeds what is left.
    let result = flours.repurpose(&ing);
    assert_eq!(
        result.unwrap_err(),
        Error::InsufficientFlour(Gram::from(100), Gram::from(300))
    );

    // The mix is unchanged: the ratio sum and the masses read the same.
    assert_eq!(flours.total_ratio().unwrap(), Percent(100));
    assert_eq!(flours.flour(), Gram::from(100));
    assert_eq!(flours.mix[0].gross_flour(), mass);
}

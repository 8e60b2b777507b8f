use pn::common::mass::Gram;
use pn::common::percent::Percent;
use pn::error::Error;
use pn::ingredient::ingredient::Ingredient;
use pn::ingredient::poolish::Poolish;
use pn::ingredient::preferment::builder::Builder;
use pn::ingredient::preferment::starter::Starter;
use pn::ingredient::preferment::tangzhong::Tangzhong as PortionTangzhong;
use pn::ingredient::starter::Starter as DerivedStarter;
use pn::ingredient::tangzhong::Tangzhong;

#[test]
fn starter_valid_ratio_to_mass() {
    let total_flour = Gram::from(1000);
    let portion = Percent(10);
    let hydration = Percent(100);

    let starter = Starter::new(&total_flour, portion, hydration);
    let starter_flour = total_flour.times_ratio(portion);
    let starter_water = starter_flour.times_ratio(hydration);

    assert_eq!(starter.flour(), starter_flour);
    assert_eq!(starter.water(), starter_water);
    assert_eq!(starter.total(), starter_flour.plus(starter_water));
}

#[test]
fn tangzhong_valid_ratio_to_mass() {
    let total_flour = Gram::from(1000);
    let portion = Percent(10);
    let hydration = Percent(200);

    let tangzhong = PortionTangzhong::new(&total_flour, portion, hydration);
    let tangzhong_flour = total_flour.times_ratio(portion);
    let tangzhong_water = tangzhong_flour.times_ratio(hydration);

    assert_eq!(tangzhong.flour(), tangzhong_flour);
    assert_eq!(tangzhong.water(), tangzhong_water);
    assert_eq!(tangzhong.total(), tangzhong_flour.plus(tangzhong_water));
}

#[test]
fn test_() {
    let poolish = Poolish::new(200.into());

    assert_eq!(poolish.get_flour_weight(), 100.into());
    assert_eq!(poolish.get_water_weight(), 100.into());
    assert_eq!(poolish.get_yeast_weight(), Gram::from(1));
    assert_eq!(poolish.get_hydration(), Percent(100));
}

#[test]
fn test_poolish_hydration() {
    let poolish = Poolish::new(200.into()).with_hydration(Percent(80));
    assert_eq!(poolish.get_hydration(), Percent(80));
    println!(
        "poolish: flour {:?}, water {:?}, yeast {:?}",
        poolish.get_flour_weight(),
        poolish.get_water_weight(),
        poolish.get_yeast_weight()
    );
}

#[test]
fn test_tangzhong() {
    let tangzhong = Tangzhong::new(50.into());

    assert_eq!(tangzhong.get_flour_weight(), 50.into());
    assert_eq!(tangzhong.get_water_weight(), 100.into());
    assert_eq!(tangzhong.get_hydration(), Percent(200));
}

/// Derivation example: a 200 g starter at 100% hydration splits into 100 g
/// of flour and 100 g of water, and reports 100% hydration back.
#[test]
fn starter_derivation_example() {
    let starter = DerivedStarter::set(Gram::from(200), Percent(100));
    assert_eq!(starter.get_flour_weight(), Gram::from(100));
    assert_eq!(starter.get_water_weight(), Gram::from(100));
    assert_eq!(starter.get_total_weight(), Gram::from(200));
    assert_eq!(starter.get_hydration(), Percent(100));

    // The same 200 g contribution reached through the portion-based path:
    // 10% of a 2000 g total at 100% hydration.
    let starter = DerivedStarter::create(Gram::from(2000), Percent(100), Percent(10));
    assert_eq!(starter.get_flour_weight(), Gram::from(100));
    assert_eq!(starter.get_water_weight(), Gram::from(100));
    assert_eq!(starter.get_hydration(), Percent(100));
}

#[test]
fn starter_set_and_reset_derive_the_split() {
    let starter = DerivedStarter::set(Gram::from(300), Percent(200));
    assert_eq!(starter.get_flour_weight(), Gram::from(100));
    assert_eq!(starter.get_water_weight(), Gram::from(200));
    assert_eq!(starter.get_hydration(), Percent(200));

    let reset = starter.reset(Gram::from(150), Percent(50));
    assert_eq!(reset.get_flour_weight(), Gram::from(100));
    assert_eq!(reset.get_water_weight(), Gram::from(50));
    assert_eq!(reset.get_hydration(), Percent(50));
}

#[test]
fn builder_builds_a_starter() {
    let total = Gram::from(1000);
    let ing = Builder::get(&"starter:10:100".to_string(), &total).unwrap();
    match ing {
        Ingredient::Preferment(s) => {
            assert_eq!(s.flour(), Gram::from(100));
            assert_eq!(s.water(), Gram::from(100));
        }
        other => panic!("expected a preferment, got {:?}", other),
    }
}

#[test]
fn builder_ignores_ascii_case_of_the_id() {
    let total = Gram::from(1000);
    let ing = Builder::get(&"Starter:10:100".to_string(), &total).unwrap();
    assert_eq!(ing.flour(), Gram::from(100));
}

#[test]
fn builder_rejects_unknown_preferment() {
    let total = Gram::from(1000);
    let result = Builder::get(&"poolish:10:100".to_string(), &total);
    assert_eq!(result.unwrap_err(), Error::InvalidPreferment("poolish".to_string()));
}

#[test]
fn builder_rejects_descriptor_without_args() {
    let total = Gram::from(1000);
    let result = Builder::get(&"starter".to_string(), &total);
    assert_eq!(
        result.unwrap_err(),
        Error::InvalidPrefermentArgs("starter".to_string())
    );
}

#[test]
fn starter_build_rejects_malformed_args() {
    let total = Gram::from(1000);
    assert_eq!(
        Starter::build("10".to_string(), &total).unwrap_err(),
        Error::InvalidStarterArgs("10".to_string())
    );
    assert_eq!(
        Starter::build("10:100:3".to_string(), &total).unwrap_err(),
        Error::InvalidStarterArgs("10:100:3".to_string())
    );
    assert_eq!(
        Starter::build("ten:100".to_string(), &total).unwrap_err(),
        Error::InvalidStarterArgs("ten:100".to_string())
    );
}

#[test]
fn starter_build_rejects_out_of_bound_percentages() {
    let total = Gram::from(1000);
    assert_eq!(
        Starter::build("50:100".to_string(), &total).unwrap_err(),
        Error::InvalidPercentage(50, 1, 30)
    );
    assert_eq!(
        Starter::build("10:40".to_string(), &total).unwrap_err(),
        Error::InvalidPercentage(40, 50, 500)
    );
}

use pn::common::mass::Gram;
use pn::common::percent::Percent;
use pn::error::Error;
use pn::recipe::Recipe;

/// End-to-end allocation: 1000 g of flour split 60/40, one starter taking
/// 10% of the flour at 100% hydration.  The starter's 100 g of flour is
/// drawn from the first fraction, so the added flour is 500 g + 400 g.
#[test]
fn end_to_end_allocation() {
    let mut recipe = Recipe::new(Gram::from(1000), Percent(70));
    let flours = recipe
        .add_flour(vec!["f1:60".to_string(), "f2:40".to_string()])
        .unwrap();
    assert_eq!(flours.total_ratio().unwrap(), Percent(100));

    let flours = recipe
        .add_preferment(vec!["starter:10:100".to_string()], flours)
        .unwrap();

    assert_eq!(flours.mix[0].flour(), Gram::from(500));
    assert_eq!(flours.mix[1].flour(), Gram::from(400));
    assert_eq!(flours.flour(), Gram::from(900));
}

#[test]
fn add_flour_rejects_malformed_descriptor() {
    let recipe = Recipe::new(Gram::from(1000), Percent(70));
    let result = recipe.add_flour(vec!["white".to_string()]);
    assert_eq!(result.unwrap_err(), Error::InvalidFlourArg("white".to_string()));
}

#[test]
fn add_flour_rejects_overshooting_descriptors() {
    let recipe = Recipe::new(Gram::from(1000), Percent(70));
    let result = recipe.add_flour(vec!["a:60".to_string(), "b:50".to_string()]);
    assert_eq!(
        result.unwrap_err(),
        Error::InsufficientFLourRatios(Percent(110))
    );
}

#[test]
fn add_preferment_rejects_malformed_descriptor() {
    let mut recipe = Recipe::new(Gram::from(1000), Percent(70));
    let flours = recipe.add_flour(vec!["white:100".to_string()]).unwrap();
    let result = recipe.add_preferment(vec!["levain=10".to_string()], flours);
    assert_eq!(
        result.unwrap_err(),
        Error::InvalidPrefermentArgs("levain=10".to_string())
    );
}

#[test]
fn extract_flour_desc_splits_name_and_ratio() {
    assert_eq!(
        Recipe::extract_flour_desc(&"whole wheat:38".to_string()).unwrap(),
        ("whole wheat".to_string(), 38)
    );
}

#[test]
fn missing_water_fills_up_to_the_declared_hydration() {
    let recipe = Recipe::new(Gram::from(1000), Percent(70));
    assert_eq!(recipe.missing_water().unwrap(), Gram::from(700));

    let recipe = recipe.add_missing_water();
    assert_eq!(recipe.water(), Gram::from(700));
    assert_eq!(recipe.missing_water().unwrap(), Gram::zero());

    // A second application changes nothing.
    let recipe = recipe.add_missing_water();
    assert_eq!(recipe.water(), Gram::from(700));
}

#[test]
fn add_salt_contributes_other_mass() {
    let recipe = Recipe::new(Gram::from(1000), Percent(70));
    // 2.0% salt of 1000 g of flour is 20 g.
    let recipe = recipe.add_salt(Some(Percent(20)));
    assert_eq!(recipe.other(), Gram::from(20));
    assert_eq!(recipe.total(), Gram::from(20));
}

#[test]
fn add_enrichment_by_ratio_and_by_mass() {
    let recipe = Recipe::new(Gram::from(1000), Percent(70));
    let recipe = recipe.add_enrichment_from_cmd(&"butter%4".to_string()).unwrap();
    assert_eq!(recipe.other(), Gram::from(40));

    let recipe = recipe.add_enrichment_from_cmd(&"seeds:50".to_string()).unwrap();
    assert_eq!(recipe.other(), Gram::from(90));
}

/// Enrichment ratios above 100% are meaningful: the descriptor declares
/// the contribution relative to the flour mass, not capped by it.
#[test]
fn add_enrichment_accepts_ratios_above_100_percent() {
    let recipe = Recipe::new(Gram::from(200), Percent(70));
    let recipe = recipe.add_enrichment_from_cmd(&"glaze%150".to_string()).unwrap();
    assert_eq!(recipe.other(), Gram::from(300));

    // By mass: a 1500 g soaker against 1000 g of flour derives a 150% ratio.
    let recipe = Recipe::new(Gram::from(1000), Percent(70));
    let recipe = recipe.add_enrichment_from_cmd(&"soaker:1500".to_string()).unwrap();
    assert_eq!(recipe.other(), Gram::from(1500));
}

#[test]
fn add_enrichment_rejects_malformed_descriptor() {
    let recipe = Recipe::new(Gram::from(1000), Percent(70));
    let result = recipe.add_enrichment_from_cmd(&"butter".to_string());
    assert_eq!(
        result.unwrap_err(),
        Error::InvalidEnrichmentArg("butter".to_string())
    );
}

/// Conservation across the whole flow: total recipe mass accounts for
/// flour, water, salt and the preferment without loss.
#[test]
fn recipe_masses_are_conserved() {
    let mut recipe = Recipe::new(Gram::from(1000), Percent(70));
    let flours = recipe.add_flour(vec!["white:100".to_string()]).unwrap();
    let flours = recipe
        .add_preferment(vec!["starter:10:100".to_string()], flours)
        .unwrap();
    // The starter holds 100 g flour and 100 g water.
    assert_eq!(recipe.flour(), Gram::from(100));
    assert_eq!(recipe.water(), Gram::from(100));

    recipe.ingredients.push(pn::ingredient::ingredient::Ingredient::FlourMix(flours));
    assert_eq!(recipe.flour(), Gram::from(1000));

    let recipe = recipe.add_salt(Some(Percent(20))).add_missing_water();
    // Hydration target is 700 g; the starter already carries 100 g.
    assert_eq!(recipe.water(), Gram::from(700));
    assert_eq!(recipe.total(), Gram::from(1720));
}

use daily_bird::bird::{x_value, Bird, BirdI18n, BirdMaster, Locale, LocaleEntry, Wingspan};

fn master(id: i32, set: &str, power_text: Option<&str>) -> BirdMaster {
    BirdMaster {
        id,
        scientific_name: format!("Scientificus {id}"),
        common_name: format!("Common {id}"),
        flavor_text: format!("Flavor {id}"),
        set: set.to_string(),
        color: None,
        nest_type: "Bowl".to_string(),
        power_text: power_text.map(|s| s.to_string()),
        power_is_predator: false,
        power_is_flocking: true,
        power_is_bonus_card_related: false,
        victory_points: 4.0f32.to_bits(),
        egg_limit: 2.0f32.to_bits(),
        wingspan: Wingspan::Integer(30),
        can_live_forest: true,
        can_live_grassland: false,
        can_live_wetland: false,
        food_invertebrate: Some(1.0f32.to_bits()),
        food_seed: None,
        food_fish: None,
        food_fruit: None,
        food_rodent: None,
        food_nectar: None,
        food_wild: None,
        food_cost_is_either: false,
        food_cost_has_note: false,
        lives_in_north_america: true,
        lives_in_central_america: false,
        lives_in_south_america: false,
        lives_in_europe: false,
        lives_in_asia: false,
        lives_in_africa: false,
        lives_in_oceania: false,
    }
}

fn overlay(name: Option<&str>, power: Option<&str>) -> BirdI18n {
    BirdI18n {
        scientific_name: None,
        common_name: name.map(|s| s.to_string()),
        power_text: power.map(|s| s.to_string()),
        flavor_text: None,
    }
}

fn bird(m: BirdMaster, entries: Vec<(Locale, BirdI18n)>) -> Bird {
    Bird {
        master: m,
        i8n: entries
            .into_iter()
            .map(|(locale, overlay)| LocaleEntry { locale, overlay })
            .collect(),
    }
}

#[test]
fn power_text_is_empty_without_master_or_overlay() {
    let b = bird(master(1, "core", None), vec![]);
    assert_eq!(b.produce(None).power_text, "");
    assert_eq!(b.produce(Some(Locale::De)).power_text, "");
}

#[test]
fn power_text_prefers_the_overlay() {
    let b = bird(master(1, "core", Some("y")), vec![(Locale::De, overlay(None, Some("x")))]);
    assert_eq!(b.produce(Some(Locale::De)).power_text, "x");
}

#[test]
fn power_text_falls_back_to_the_master() {
    let b = bird(master(1, "core", Some("y")), vec![(Locale::De, overlay(None, None))]);
    assert_eq!(b.produce(Some(Locale::De)).power_text, "y");
}

#[test]
fn power_text_is_empty_when_overlay_and_master_have_none() {
    let b = bird(master(1, "core", None), vec![(Locale::De, overlay(Some("Vogel"), None))]);
    assert_eq!(b.produce(Some(Locale::De)).power_text, "");
}

#[test]
fn names_fall_back_field_by_field() {
    let b = bird(master(7, "core", Some("y")), vec![(Locale::Fr, overlay(Some("Oiseau"), None))]);
    let view = b.produce(Some(Locale::Fr));
    assert_eq!(view.common_name, "Oiseau");
    assert_eq!(view.scientific_name, "Scientificus 7");
    assert_eq!(view.flavor_text, "Flavor 7");
    assert_eq!(view.power_text, "y");
    assert_eq!(view.info, master(7, "core", Some("y")));
}

#[test]
fn without_a_locale_every_field_is_the_masters() {
    let b = bird(master(7, "core", Some("y")), vec![(Locale::Fr, overlay(Some("Oiseau"), Some("x")))]);
    let view = b.produce(None);
    assert_eq!(view.common_name, "Common 7");
    assert_eq!(view.scientific_name, "Scientificus 7");
    assert_eq!(view.flavor_text, "Flavor 7");
    assert_eq!(view.power_text, "y");
    assert_eq!(view.info, b.master);
}

#[test]
fn a_locale_without_overlay_reads_as_no_locale() {
    let b = bird(master(7, "core", Some("y")), vec![(Locale::Fr, overlay(Some("Oiseau"), Some("x")))]);
    assert_eq!(b.produce(Some(Locale::Pl)), b.produce(None));
    assert_ne!(b.produce(Some(Locale::Fr)), b.produce(None));
}

#[test]
fn the_first_overlay_of_a_locale_is_read() {
    let b = bird(
        master(7, "core", None),
        vec![
            (Locale::Es, overlay(Some("Pajaro"), None)),
            (Locale::Fr, overlay(Some("Oiseau"), None)),
            (Locale::Fr, overlay(Some("Autre"), None)),
        ],
    );
    assert_eq!(b.overlay(Locale::Fr), Some(&overlay(Some("Oiseau"), None)));
    assert_eq!(b.overlay(Locale::Es), Some(&overlay(Some("Pajaro"), None)));
    assert_eq!(b.overlay(Locale::Uk), None);
}

#[test]
fn the_master_record_is_copied_whole() {
    let mut m = master(9, "oceania", Some("p"));
    m.wingspan = Wingspan::Text("*".to_string());
    m.color = Some("red".to_string());
    let copy = m.clone();
    assert_eq!(copy, m);
    let w = Wingspan::FloatBits(12.5f64.to_bits());
    assert_eq!(w.clone(), w);
}

#[test]
fn locale_codes_are_read() {
    assert_eq!(Locale::try_from_code("de"), Some(Locale::De));
    assert_eq!(Locale::try_from_code("dk"), Some(Locale::Dk));
    assert_eq!(Locale::try_from_code("es"), Some(Locale::Es));
    assert_eq!(Locale::try_from_code("fr"), Some(Locale::Fr));
    assert_eq!(Locale::try_from_code("jp"), Some(Locale::Jp));
    assert_eq!(Locale::try_from_code("lt"), Some(Locale::Lt));
    assert_eq!(Locale::try_from_code("nl"), Some(Locale::Nl));
    assert_eq!(Locale::try_from_code("pl"), Some(Locale::Pl));
    assert_eq!(Locale::try_from_code("pt"), Some(Locale::Pt));
    assert_eq!(Locale::try_from_code("tr"), Some(Locale::Tr));
    assert_eq!(Locale::try_from_code("uk"), Some(Locale::Uk));
}

#[test]
fn unknown_locale_codes_name_no_locale() {
    assert_eq!(Locale::try_from_code(""), None);
    assert_eq!(Locale::try_from_code("en"), None);
    assert_eq!(Locale::try_from_code("DE"), None);
    assert_eq!(Locale::try_from_code("deu"), None);
    assert_eq!(Locale::try_from_code("d"), None);
    assert_eq!(Locale::try_from_code("d\u{e9}"), None);
}

#[test]
fn every_locale_has_its_code() {
    let all = Locale::all();
    assert_eq!(all.len(), 11);
    for locale in all {
        assert_eq!(locale.code().len(), 2);
        assert_eq!(Locale::try_from_code(locale.code()), Some(locale));
    }
    assert_eq!(Locale::Jp.code(), "jp");
}

#[test]
fn only_an_x_says_yes() {
    assert!(x_value(Some(&"X".to_string())));
    assert!(!x_value(Some(&"x".to_string())));
    assert!(!x_value(Some(&"".to_string())));
    assert!(!x_value(Some(&"XX".to_string())));
    assert!(!x_value(None));
}

#[test]
fn a_wingspan_reads_as_whole_then_fraction_then_text() {
    let bits = 12.5f64.to_bits();
    assert_eq!(
        Wingspan::from_readings(Some(30), Some(30.0f64.to_bits()), "30".to_string()),
        Wingspan::Integer(30)
    );
    assert_eq!(Wingspan::from_readings(None, Some(bits), "12.5".to_string()), Wingspan::FloatBits(bits));
    assert_eq!(Wingspan::from_readings(None, None, "*".to_string()), Wingspan::Text("*".to_string()));
}

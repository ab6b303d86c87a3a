use daily_bird::bird::{Bird, BirdI18n, BirdMaster, Locale, LocaleEntry, Wingspan};
use daily_bird::catalog::{bird_by_id, gather, id_key, id_occurs, load_birds, I18nFile};
use daily_bird::service::{cache_control, current};

fn master(id: i32, set: &str) -> BirdMaster {
    BirdMaster {
        id,
        scientific_name: format!("Scientificus {id}"),
        common_name: format!("Common {id}"),
        flavor_text: format!("Flavor {id}"),
        set: set.to_string(),
        color: None,
        nest_type: String::new(),
        power_text: None,
        power_is_predator: false,
        power_is_flocking: false,
        power_is_bonus_card_related: false,
        victory_points: 0,
        egg_limit: 0,
        wingspan: Wingspan::Text("-".to_string()),
        can_live_forest: false,
        can_live_grassland: false,
        can_live_wetland: false,
        food_invertebrate: None,
        food_seed: None,
        food_fish: None,
        food_fruit: None,
        food_rodent: None,
        food_nectar: None,
        food_wild: None,
        food_cost_is_either: false,
        food_cost_has_note: false,
        lives_in_north_america: false,
        lives_in_central_america: false,
        lives_in_south_america: false,
        lives_in_europe: false,
        lives_in_asia: false,
        lives_in_africa: false,
        lives_in_oceania: false,
    }
}

fn named(name: &str) -> BirdI18n {
    BirdI18n {
        scientific_name: None,
        common_name: Some(name.to_string()),
        power_text: None,
        flavor_text: None,
    }
}

fn file(entries: &[(&str, &str)]) -> I18nFile {
    I18nFile { birds: entries.iter().map(|(key, name)| (key.to_string(), named(name))).collect() }
}

fn entry(locale: Locale, name: &str) -> LocaleEntry {
    LocaleEntry { locale, overlay: named(name) }
}

#[test]
fn ids_are_keyed_by_their_decimal_text() {
    assert_eq!(id_key(220), "220");
    assert_eq!(id_key(0), "0");
    assert_eq!(id_key(7), "7");
    assert_eq!(id_key(-15), "-15");
    assert_eq!(id_key(i32::MAX), "2147483647");
    assert_eq!(id_key(i32::MIN), "-2147483648");
}

#[test]
fn cache_control_names_the_seconds() {
    assert_eq!(cache_control(2800), "public, max-age=2800");
    assert_eq!(cache_control(0), "public, max-age=0");
    assert_eq!(cache_control(u64::MAX), "public, max-age=18446744073709551615");
}

#[test]
fn overlays_are_joined_by_id() {
    let masters = vec![master(1, "A"), master(2, "B"), master(3, "A")];
    let files = vec![
        (Locale::De, file(&[("2", "Zwei"), ("1", "Eins")])),
        (Locale::Fr, file(&[("2", "Deux")])),
    ];
    let birds = load_birds(&masters, &files);
    assert_eq!(
        birds,
        vec![
            Bird { master: master(1, "A"), i8n: vec![entry(Locale::De, "Eins")] },
            Bird {
                master: master(2, "B"),
                i8n: vec![entry(Locale::De, "Zwei"), entry(Locale::Fr, "Deux")],
            },
            Bird { master: master(3, "A"), i8n: vec![] },
        ]
    );
}

#[test]
fn overlays_of_unknown_ids_are_dropped() {
    let masters = vec![master(1, "A")];
    let files = vec![(Locale::De, file(&[("9", "Neun"), ("01", "Null-Eins"), ("x", "Ix")]))];
    let birds = load_birds(&masters, &files);
    assert_eq!(birds, vec![Bird { master: master(1, "A"), i8n: vec![] }]);
}

#[test]
fn a_catalog_without_locale_files_has_no_overlays() {
    let masters = vec![master(1, "A"), master(2, "B")];
    let birds = load_birds(&masters, &Vec::new());
    assert_eq!(birds.len(), 2);
    assert!(birds.iter().all(|b| b.i8n.is_empty()));
    assert_eq!(load_birds(&Vec::new(), &Vec::new()), Vec::<Bird>::new());
}

#[test]
fn of_records_that_share_an_id_the_last_stays_without_overlays() {
    let masters = vec![master(1, "A"), master(2, "B"), master(1, "C")];
    let files = vec![(Locale::De, file(&[("1", "Eins"), ("2", "Zwei")]))];
    let birds = load_birds(&masters, &files);
    assert_eq!(
        birds,
        vec![
            Bird { master: master(2, "B"), i8n: vec![entry(Locale::De, "Zwei")] },
            Bird { master: master(1, "C"), i8n: vec![] },
        ]
    );
}

#[test]
fn the_first_entry_under_a_key_is_the_overlay() {
    let f = file(&[("5", "first"), ("5", "second"), ("6", "six")]);
    assert_eq!(f.get(&"5".to_string()), Some(&named("first")));
    assert_eq!(f.get(&"6".to_string()), Some(&named("six")));
    assert_eq!(f.get(&"7".to_string()), None);
    let files = vec![(Locale::Nl, file(&[("6", "zes")])), (Locale::Pt, f)];
    assert_eq!(
        gather(&files, &"6".to_string()),
        vec![entry(Locale::Nl, "zes"), entry(Locale::Pt, "six")]
    );
    assert_eq!(gather(&files, &"5".to_string()), vec![entry(Locale::Pt, "first")]);
    assert_eq!(gather(&files, &"8".to_string()), Vec::<LocaleEntry>::new());
}

#[test]
fn ids_are_found_within_a_range() {
    let masters = vec![master(1, "A"), master(2, "B"), master(1, "C")];
    assert!(id_occurs(&masters, 0, 3, 2));
    assert!(id_occurs(&masters, 1, 3, 1));
    assert!(!id_occurs(&masters, 1, 2, 1));
    assert!(!id_occurs(&masters, 0, 0, 1));
    assert!(!id_occurs(&masters, 0, 3, 3));
}

#[test]
fn records_are_found_by_id() {
    let birds = load_birds(&vec![master(1, "A"), master(220, "B")], &Vec::new());
    assert_eq!(bird_by_id(&birds, 220).map(|b| b.master.set.as_str()), Some("B"));
    assert_eq!(bird_by_id(&birds, 1).map(|b| b.master.set.as_str()), Some("A"));
    assert_eq!(bird_by_id(&birds, 2), None);
}

#[test]
fn the_current_record_is_localized_and_dated() {
    let masters = vec![master(1, "A"), master(2, "B")];
    let files = vec![(Locale::De, file(&[("2", "Zwei")]))];
    let birds = load_birds(&masters, &files);
    let allow = vec!["B".to_string()];
    let now = 5 * 60 + 17;
    let german = current(now, 60, &birds, Some(&"de".to_string()), &allow).expect("record 2 passes");
    assert_eq!(german.max_age, 43);
    assert_eq!(german.view.common_name, "Zwei");
    assert_eq!(german.view.scientific_name, "Scientificus 2");
    assert_eq!(german.view.power_text, "");
    assert_eq!(german.view.info, master(2, "B"));
    let plain = current(now, 60, &birds, None, &allow).expect("record 2 passes");
    assert_eq!(plain.view.common_name, "Common 2");
    let unknown = current(now, 60, &birds, Some(&"xx".to_string()), &allow).expect("record 2 passes");
    assert_eq!(unknown, plain);
    let missing = current(now, 60, &birds, Some(&"fr".to_string()), &allow).expect("record 2 passes");
    assert_eq!(missing, plain);
    assert_eq!(current(now, 60, &birds, None, &vec!["C".to_string()]), None);
}

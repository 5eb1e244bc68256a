use proxmox_tui_installer::locales::{
    position_of_value, selectable_zones, CountryEntry, KeyboardLayout, LocaleInfo,
};
use proxmox_tui_installer::options::TimezoneOptions;
use proxmox_tui_installer::validate::{validate_timezone, TimezoneError};

fn strings(items: &[&str]) -> Vec<String> {
    items.iter().map(|s| (*s).to_owned()).collect()
}

fn locales() -> LocaleInfo {
    LocaleInfo {
        countries: vec![
            CountryEntry {
                code: "at".to_owned(),
                name: "Austria".to_owned(),
                zones: strings(&["Europe/Vienna"]),
            },
            CountryEntry {
                code: "de".to_owned(),
                name: "Germany".to_owned(),
                zones: strings(&["Europe/Berlin", "Europe/Busingen"]),
            },
            CountryEntry {
                code: "aq".to_owned(),
                name: "Antarctica".to_owned(),
                zones: strings(&[]),
            },
        ],
        keyboard_layouts: vec![
            KeyboardLayout { id: "de".to_owned(), name: "German".to_owned() },
            KeyboardLayout { id: "en-us".to_owned(), name: "U.S. English".to_owned() },
        ],
    }
}

fn options(country: &str, timezone: &str) -> TimezoneOptions {
    TimezoneOptions {
        country_code: country.to_owned(),
        timezone: timezone.to_owned(),
        keyboard_layout: "en-us".to_owned(),
    }
}

#[test]
fn zone_of_the_country_is_accepted() {
    let l = locales();
    let r = validate_timezone(&l, options("de", "Europe/Berlin"));
    assert!(r.is_ok());
}

#[test]
fn zone_of_another_country_is_rejected() {
    let l = locales();
    let r = validate_timezone(&l, options("at", "Europe/Berlin"));
    assert_eq!(r.unwrap_err(), TimezoneError::ZoneNotSelectable);
}

#[test]
fn utc_is_accepted_for_every_country() {
    let l = locales();
    assert!(validate_timezone(&l, options("at", "UTC")).is_ok());
    // A country with no matched zones of its own still takes UTC.
    assert!(validate_timezone(&l, options("aq", "UTC")).is_ok());
    // So does a country that is not in the database at all.
    assert!(validate_timezone(&l, options("zz", "UTC")).is_ok());
}

#[test]
fn unknown_country_offers_no_other_zone() {
    let l = locales();
    let r = validate_timezone(&l, options("zz", "Europe/Vienna"));
    assert_eq!(r.unwrap_err(), TimezoneError::ZoneNotSelectable);
}

#[test]
fn selectable_zones_are_sorted_with_utc_last() {
    let out = selectable_zones(&strings(&["Europe/Vienna", "Atlantic/Azores", "Europe/Berlin"]));
    assert_eq!(out, strings(&["Atlantic/Azores", "Europe/Berlin", "Europe/Vienna", "UTC"]));
}

#[test]
fn country_without_zones_still_offers_utc() {
    let out = selectable_zones(&strings(&[]));
    assert_eq!(out, strings(&["UTC"]));
}

#[test]
fn zones_of_looks_the_country_up() {
    let l = locales();
    assert_eq!(l.zones_of("de"), strings(&["Europe/Berlin", "Europe/Busingen"]));
    assert_eq!(l.zones_of("zz"), strings(&[]));
}

#[test]
fn country_list_is_sorted_by_display_name() {
    let l = locales();
    let list = l.country_display_list();
    let labels: Vec<String> = list.iter().map(|p| p.label.clone()).collect();
    assert_eq!(labels, strings(&["Antarctica", "Austria", "Germany"]));
    assert_eq!(list[1].value, "at");
}

#[test]
fn keyboard_list_is_sorted_by_display_name() {
    let l = locales();
    let list = l.keyboard_display_list();
    let labels: Vec<String> = list.iter().map(|p| p.label.clone()).collect();
    assert_eq!(labels, strings(&["German", "U.S. English"]));
}

#[test]
fn position_of_value_prefers_the_match_and_falls_back_to_first() {
    let l = locales();
    let list = l.country_display_list();
    assert_eq!(position_of_value(&list, "de"), 2);
    assert_eq!(position_of_value(&list, "zz"), 0);
}

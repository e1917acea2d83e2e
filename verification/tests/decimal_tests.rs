use stella::wallpaper_changer::{classify_temperature, Temperature};

fn class(text: &str) -> Option<Temperature> {
    classify_temperature(text)
}

#[test]
fn whole_numbers_around_the_threshold() {
    assert_eq!(class("23"), Some(Temperature::Hot));
    assert_eq!(class("22"), Some(Temperature::Cold));
    assert_eq!(class("21"), Some(Temperature::Cold));
    assert_eq!(class("100"), Some(Temperature::Hot));
    assert_eq!(class("0"), Some(Temperature::Cold));
}

#[test]
fn fractions_around_the_threshold() {
    assert_eq!(class("22.0"), Some(Temperature::Cold));
    assert_eq!(class("22.0001"), Some(Temperature::Hot));
    assert_eq!(class("21.999"), Some(Temperature::Cold));
    assert_eq!(class("23.0"), Some(Temperature::Hot));
    assert_eq!(class("9.99"), Some(Temperature::Cold));
    assert_eq!(class("22.000000000000000000000000001"), Some(Temperature::Hot));
}

#[test]
fn exponents_are_read() {
    assert_eq!(class("2.2e1"), Some(Temperature::Cold));
    assert_eq!(class("2.21e1"), Some(Temperature::Hot));
    assert_eq!(class("22E0"), Some(Temperature::Cold));
    assert_eq!(class("23E-0"), Some(Temperature::Hot));
    assert_eq!(class("2200e-2"), Some(Temperature::Cold));
    assert_eq!(class("2201e-2"), Some(Temperature::Hot));
    assert_eq!(class("1e-7"), Some(Temperature::Cold));
    assert_eq!(class("1e+2"), Some(Temperature::Hot));
    assert_eq!(class("3e1"), Some(Temperature::Hot));
    assert_eq!(class("2e1"), Some(Temperature::Cold));
}

#[test]
fn huge_exponents_are_held_at_the_cap() {
    assert_eq!(class("1e99999999999999999999999999999999999999999"), Some(Temperature::Hot));
    assert_eq!(class("1e-99999999999999999999999999999999999999999"), Some(Temperature::Cold));
    assert_eq!(class("0.000e99999999999999999999999999999999999999"), Some(Temperature::Cold));
}

#[test]
fn signs_and_leading_zeros() {
    assert_eq!(class("-30"), Some(Temperature::Cold));
    assert_eq!(class("-0"), Some(Temperature::Cold));
    assert_eq!(class("+23"), Some(Temperature::Hot));
    assert_eq!(class("021"), Some(Temperature::Cold));
    assert_eq!(class("00023"), Some(Temperature::Hot));
    assert_eq!(class("-100"), Some(Temperature::Cold));
    assert_eq!(class(".5"), Some(Temperature::Cold));
    assert_eq!(class("50."), Some(Temperature::Hot));
}

#[test]
fn malformed_text_is_no_number() {
    assert_eq!(class(""), None);
    assert_eq!(class("abc"), None);
    assert_eq!(class("-"), None);
    assert_eq!(class("."), None);
    assert_eq!(class("1e"), None);
    assert_eq!(class("1e+"), None);
    assert_eq!(class("1.2.3"), None);
    assert_eq!(class("e5"), None);
    assert_eq!(class("null"), None);
    assert_eq!(class("\"21.5\""), None);
    assert_eq!(class("2 3"), None);
}

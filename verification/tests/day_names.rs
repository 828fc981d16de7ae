use class_bot::date_time_helpers::{eng_days_to_fr, fr_days_to_eng};
use class_bot::{boolean_to_string};

#[test]
fn persian_day_names_map_to_english() {
    assert_eq!(fr_days_to_eng("شنبه"), Some("Saturday".to_string()));
    assert_eq!(fr_days_to_eng("یک"), Some("Sunday".to_string()));
    assert_eq!(fr_days_to_eng("دو"), Some("Monday".to_string()));
    assert_eq!(fr_days_to_eng("جمعه"), Some("Friday".to_string()));
}

#[test]
fn persian_day_names_are_trimmed() {
    assert_eq!(fr_days_to_eng("  شنبه\t"), Some("Saturday".to_string()));
    assert_eq!(fr_days_to_eng("\u{a0}یک\n"), Some("Sunday".to_string()));
}

#[test]
fn unknown_persian_day_names_are_refused() {
    assert_eq!(fr_days_to_eng(""), None);
    assert_eq!(fr_days_to_eng("   "), None);
    assert_eq!(fr_days_to_eng("Saturday"), None);
    assert_eq!(fr_days_to_eng("یک شنبه"), None);
}

#[test]
fn english_day_names_map_to_persian() {
    assert_eq!(eng_days_to_fr("Saturday"), "شنبه");
    assert_eq!(eng_days_to_fr("Sunday"), "یک شنبه");
    assert_eq!(eng_days_to_fr("Friday"), "جمعه");
}

#[test]
fn unknown_english_day_names_give_empty_text() {
    assert_eq!(eng_days_to_fr("sunday"), "");
    assert_eq!(eng_days_to_fr(" Sunday"), "");
    assert_eq!(eng_days_to_fr(""), "");
}

#[test]
fn registered_days_round_trip_through_persian_names() {
    for (short, english) in [("شنبه", "Saturday"), ("یک", "Sunday"), ("جمعه", "Friday")] {
        let e = fr_days_to_eng(short).unwrap();
        assert_eq!(e, english);
        assert!(eng_days_to_fr(&e).starts_with(short));
    }
}

#[test]
fn status_words() {
    assert_eq!(boolean_to_string(true), "فعال");
    assert_eq!(boolean_to_string(false), "غیر فعال");
    assert_ne!(boolean_to_string(true), boolean_to_string(false));
}

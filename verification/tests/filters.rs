use class_bot::filters::{
    from_valid, is_add_new_class, is_admin, is_class_list, is_date, is_disable_class, is_disable_reminder,
    is_enable_class, is_enable_reminder, is_main_chat, is_mod, is_pv, is_start, is_text, is_upcoming_classes,
    parse_id_list, route, Route,
};

#[test]
fn command_words() {
    assert!(is_start("/start"));
    assert!(!is_start("/start "));
    assert!(is_add_new_class("add\nx"));
    assert!(!is_add_new_class(" add"));
    assert!(is_disable_reminder("off"));
    assert!(is_enable_reminder("on"));
    assert!(!is_enable_reminder("On"));
    assert!(is_disable_class("disable 3"));
    assert!(is_enable_class("enable"));
    assert!(!is_enable_class("enabl"));
    assert!(is_class_list("list"));
    assert!(!is_class_list("lists"));
    assert!(is_upcoming_classes("اخیر"));
    assert!(!is_upcoming_classes(" اخیر"));
}

#[test]
fn date_questions_are_trimmed() {
    assert!(is_date("date"));
    assert!(is_date("  تاریخ\n"));
    assert!(is_date("زمان"));
    assert!(is_date("تایم"));
    assert!(!is_date("dates"));
    assert!(!is_date(""));
}

#[test]
fn senders_and_chats() {
    let admins = vec![10u64, 20];
    assert!(is_admin(&admins, 20));
    assert!(!is_admin(&admins, 30));
    assert!(is_mod(&vec![5], 5));
    assert!(!is_mod(&vec![], 5));
    assert!(is_main_chat(Some(-100), -100));
    assert!(!is_main_chat(None, -100));
    assert!(!is_main_chat(Some(1), -100));
    assert!(is_text(Some("x")));
    assert!(!is_text(None));
    assert!(from_valid(Some(1)));
    assert!(!from_valid(None));
    assert!(is_pv(Some(42), Some(42)));
    assert!(!is_pv(Some(42), Some(-42)));
    assert!(!is_pv(None, Some(42)));
    assert!(!is_pv(None, None));
}

#[test]
fn routes_of_commands() {
    let admins = vec![1u64];
    let mods = vec![2u64];
    let main = -100i64;
    let r = |sender: u64, text: &str| route(true, Some(sender), Some(main), Some(text), main, &admins, &mods);
    assert_eq!(r(9, " date "), Route::Date);
    assert_eq!(r(9, "اخیر"), Route::UpcomingClasses);
    assert_eq!(r(2, "disable 3"), Route::DisableClass);
    assert_eq!(r(2, "enable 3"), Route::EnableClass);
    assert_eq!(r(2, "list"), Route::ClassList);
    assert_eq!(r(1, "list"), Route::Ignore);
    assert_eq!(r(9, "disable 3"), Route::Ignore);
    assert_eq!(r(1, "/start"), Route::Start);
    assert_eq!(r(1, "off"), Route::DisableReminder);
    assert_eq!(r(1, "on"), Route::EnableReminder);
    assert_eq!(r(1, "add
x"), Route::AddNewClass);
    assert_eq!(r(2, "add
x"), Route::Ignore);
    assert_eq!(r(1, "hello"), Route::Ignore);
}

#[test]
fn routes_outside_the_main_chat() {
    let admins = vec![1u64];
    let mods = vec![1u64];
    assert_eq!(route(true, Some(1), Some(5), Some("list"), -100, &admins, &mods), Route::Ignore);
    assert_eq!(route(true, Some(5), Some(5), Some("list"), -100, &admins, &mods), Route::InvalidCommand);
    assert_eq!(route(true, Some(5), Some(5), None, 5, &admins, &mods), Route::InvalidCommand);
    assert_eq!(route(false, Some(5), Some(5), None, -100, &admins, &mods), Route::InvalidCommand);
    assert_eq!(route(false, None, Some(5), None, -100, &admins, &mods), Route::Ignore);
    assert_eq!(route(true, Some(1), None, Some("list"), -100, &admins, &mods), Route::Unhandled);
    assert_eq!(route(true, None, Some(-100), Some("date"), -100, &admins, &mods), Route::Ignore);
}

#[test]
fn id_lists() {
    assert_eq!(parse_id_list("1,2,3"), Some(vec![1, 2, 3]));
    assert_eq!(parse_id_list("18446744073709551615"), Some(vec![u64::MAX]));
    assert_eq!(parse_id_list("+7"), Some(vec![7]));
    assert_eq!(parse_id_list("18446744073709551616"), None);
    assert_eq!(parse_id_list("1, 2"), None);
    assert_eq!(parse_id_list("1,,2"), None);
    assert_eq!(parse_id_list(""), None);
    assert_eq!(parse_id_list("-1"), None);
}

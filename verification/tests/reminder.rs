use class_bot::class_model::ClassModel;
use class_bot::clock::{ClassTime, Weekday};
use class_bot::persian_date::{FullDate, FullTime, Iso, Official, PersianDate, PersianDateTime, PersianTime};
use class_bot::reminder::{classes_to_notify, is_due, reminder_switch_reply, reminder_text};

fn at(h: u32, m: u32, s: u32) -> ClassTime {
    ClassTime { secs: h * 3600 + m * 60 + s, frac: 0 }
}

fn class(id: i32, day: &str, start: ClassTime) -> ClassModel {
    let mut c = ClassModel::new(3, "Algebra", "Rahimi", day.to_string(), start);
    c.id = id;
    c
}

#[test]
fn class_is_due_within_eleven_minutes() {
    let c = class(1, "Monday", at(10, 0, 0));
    assert!(is_due(&c, Weekday::Mon, at(10, 0, 0)));
    assert!(is_due(&c, Weekday::Mon, at(9, 49, 0)));
    assert!(!is_due(&c, Weekday::Mon, at(9, 48, 59)));
    assert!(!is_due(&c, Weekday::Mon, ClassTime { secs: 10 * 3600, frac: 1 }));
    assert!(!is_due(&c, Weekday::Tue, at(9, 55, 0)));
}

#[test]
fn window_edge_counts_nanoseconds() {
    let c = class(1, "mon", ClassTime { secs: 10 * 3600, frac: 5 });
    assert!(is_due(&c, Weekday::Mon, ClassTime { secs: 10 * 3600 - 660, frac: 5 }));
    assert!(!is_due(&c, Weekday::Mon, ClassTime { secs: 10 * 3600 - 660, frac: 4 }));
}

#[test]
fn leap_second_counts_in_window() {
    let c = class(1, "Monday", ClassTime { secs: 86399, frac: 1_000_000_000 });
    assert!(is_due(&c, Weekday::Mon, at(23, 49, 0)));
    assert!(!is_due(&c, Weekday::Mon, at(23, 48, 59)));
}

#[test]
fn unknown_day_is_never_due() {
    let c = class(1, "Mondays", at(10, 0, 0));
    assert!(!is_due(&c, Weekday::Mon, at(9, 59, 0)));
}

#[test]
fn due_classes_in_order() {
    let cs = vec![
        class(1, "Monday", at(10, 5, 0)),
        class(2, "Monday", at(12, 0, 0)),
        class(3, "Tuesday", at(10, 5, 0)),
        class(4, "Monday", at(10, 0, 0)),
        class(5, "Monday", at(9, 59, 0)),
    ];
    let due = classes_to_notify(cs, Weekday::Mon, at(10, 0, 0));
    let ids: Vec<i32> = due.iter().map(|c| c.id).collect();
    assert_eq!(ids, vec![1, 4]);
}

#[test]
fn reminder_message_is_bold_notification() {
    let c = class(1, "Monday", at(10, 5, 0));
    assert_eq!(reminder_text(&c), format!("<b>{}</b>", c.notification_text()));
    assert_eq!(reminder_text(&c), "<b>کلاس Rahimi تا دقایقی دیگر (10:05:00) شروع میشود</b>");
}

#[test]
fn reminder_switch_replies() {
    assert_eq!(reminder_switch_reply(true, true), Some("<i>reminder service is already active</i>"));
    assert_eq!(reminder_switch_reply(false, false), Some("<i>reminder service is already disabled</i>"));
    assert_eq!(reminder_switch_reply(true, false), None);
    assert_eq!(reminder_switch_reply(false, true), None);
}

fn moment(clock: &str) -> PersianDateTime {
    PersianDateTime {
        time24: PersianTime { full: FullTime { en: clock.to_string() } },
        date: PersianDate { full: FullDate { official: Official { iso: Iso { en: "1403-01-15".to_string() } } } },
    }
}

#[test]
fn persian_time_drops_seconds() {
    assert_eq!(moment("12:34:56").time(), "12:34");
    assert_eq!(moment("12:34").time(), "12:34");
    assert_eq!(moment(":").time(), ":");
    assert_eq!(moment("1:2:3:4").time(), "1:2");
    assert_eq!(moment("12:34:56").date(), "1403-01-15");
}

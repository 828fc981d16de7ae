use class_bot::class_model::ClassModel;
use class_bot::clock::{ClassDate, ClassDateTime, ClassTime};

fn at(h: u32, m: u32) -> ClassTime {
    ClassTime { secs: h * 3600 + m * 60, frac: 0 }
}

fn class(id: i32, professor: &str, day: &str, start: ClassTime) -> ClassModel {
    let mut c = ClassModel::new(12, "Algebra", professor, day.to_string(), start);
    c.id = id;
    c
}

#[test]
fn new_class_is_enabled_and_unstored() {
    let c = ClassModel::new(5, "Physics", "Ahmadi", "Monday".to_string(), at(10, 15));
    assert_eq!(c.id, 0);
    assert_eq!(c.thread_id, 5);
    assert_eq!(c.name, "Physics");
    assert_eq!(c.professor_name, "Ahmadi");
    assert_eq!(c.day, "Monday");
    assert_eq!(c.start_time, at(10, 15));
    assert!(c.enabled);
    assert!(c.last_notification.is_none());
}

#[test]
fn notification_names_professor_and_time() {
    let c = class(1, "Rahimi", "Sunday", at(8, 30));
    assert_eq!(c.notification_text(), "کلاس Rahimi تا دقایقی دیگر (08:30:00) شروع میشود");
}

#[test]
fn notification_writes_fractions_of_a_second() {
    let c = class(1, "Rahimi", "Sunday", ClassTime { secs: 8 * 3600 + 30 * 60 + 5, frac: 1_000 });
    assert_eq!(c.notification_text(), "کلاس Rahimi تا دقایقی دیگر (08:30:05.000001) شروع میشود");
    let c = class(1, "Rahimi", "Sunday", ClassTime { secs: 1, frac: 123_456_789 });
    assert_eq!(c.notification_text(), "کلاس Rahimi تا دقایقی دیگر (00:00:01.123456789) شروع میشود");
}

#[test]
fn class_list_of_one_class() {
    let c = class(7, "Rahimi", "Sunday", at(8, 30));
    assert_eq!(ClassModel::to_string(vec![c]), "لیست کلاس های درس Algebra\n\n\nایدی : 7 (تاپیک شماره 12)\nاستاد : Rahimi\nروز : Sunday (یک شنبه).\nساعت : 08:30:00\nاعلان ها : فعال\n_________");
}

#[test]
fn class_list_with_last_notification_and_leap_second() {
    let a = class(7, "Rahimi", "Sunday", at(8, 30));
    let mut b = class(-3, "Karimi", "Friday", ClassTime { secs: 86399, frac: 1_500_000_000 });
    b.enabled = false;
    b.last_notification = Some(ClassDateTime {
        date: ClassDate { year: 2024, month: 3, day: 5 },
        time: ClassTime { secs: 36001, frac: 250_000_000 },
    });
    assert_eq!(ClassModel::to_string(vec![a, b]), "لیست کلاس های درس Algebra\n\n\nایدی : 7 (تاپیک شماره 12)\nاستاد : Rahimi\nروز : Sunday (یک شنبه).\nساعت : 08:30:00\nاعلان ها : فعال\n_________\nایدی : -3 (تاپیک شماره 12)\nاستاد : Karimi\nروز : Friday (جمعه).\nساعت : 23:59:60.500\nاعلان ها : غیر فعال(اخرین اعلان 2024-03-05 10:00:01.250)\n_________");
}

#[test]
fn class_list_writes_far_years_with_a_sign() {
    let mut c = class(1, "X", "Monday", at(0, 0));
    c.last_notification = Some(ClassDateTime {
        date: ClassDate { year: -44, month: 2, day: 29 },
        time: ClassTime { secs: 0, frac: 0 },
    });
    let text = ClassModel::to_string(vec![c]);
    assert!(text.contains("-0044-02-29 00:00:00"));
    let mut c = class(1, "X", "Monday", at(0, 0));
    c.last_notification = Some(ClassDateTime {
        date: ClassDate { year: 12345, month: 12, day: 31 },
        time: ClassTime { secs: 0, frac: 0 },
    });
    let text = ClassModel::to_string(vec![c]);
    assert!(text.contains("+12345-12-31 00:00:00"));
}

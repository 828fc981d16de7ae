use class_bot::class_model::ClassModel;
use class_bot::clock::{ClassTime, Weekday};
use class_bot::handlers::{
    class_list_reply, class_status_reply, date_reply, new_class_reply, parse_class_id, parse_new_class,
    reminder_status_reply, reply_target, todays_classes, upcoming_classes_reply, NewClassError,
};
use class_bot::persian_date::{FullDate, FullTime, Iso, Official, PersianDate, PersianDateTime, PersianTime};

fn at(h: u32, m: u32) -> ClassTime {
    ClassTime { secs: h * 3600 + m * 60, frac: 0 }
}

fn class(id: i32, name: &str, day: &str) -> ClassModel {
    let mut c = ClassModel::new(3, name, "P", day.to_string(), at(9, 0));
    c.id = id;
    c
}

fn moment(date: &str, clock: &str) -> PersianDateTime {
    PersianDateTime {
        time24: PersianTime { full: FullTime { en: clock.to_string() } },
        date: PersianDate { full: FullDate { official: Official { iso: Iso { en: date.to_string() } } } },
    }
}

#[test]
fn reply_goes_to_thread_or_message() {
    assert_eq!(reply_target(Some(40), 7), 40);
    assert_eq!(reply_target(None, 7), 7);
}

#[test]
fn date_reply_shows_date_and_minutes() {
    let d = moment("1403-01-15", "09:41:07");
    assert_eq!(date_reply(&d), "تاریخ: 1403-01-15\nساعت: 09:41");
}

#[test]
fn registration_is_parsed() {
    let c = parse_new_class("add\nشنبه\n08:30\nRahimi\nAlgebra", 77).unwrap();
    assert_eq!(c.day, "Saturday");
    assert_eq!(c.start_time, at(8, 30));
    assert_eq!(c.professor_name, "Rahimi");
    assert_eq!(c.name, "Algebra");
    assert_eq!(c.thread_id, 77);
    assert_eq!(c.id, 0);
    assert!(c.enabled);
    assert!(c.last_notification.is_none());
}

#[test]
fn registration_reads_loose_times() {
    let c = parse_new_class("add\n یک \n 8: 5\nA\nB\nextra", 1).unwrap();
    assert_eq!(c.day, "Sunday");
    assert_eq!(c.start_time, at(8, 5));
    let c = parse_new_class("add\nیک\n23:59\nA\nB", 1).unwrap();
    assert_eq!(c.start_time, at(23, 59));
}

#[test]
fn incomplete_registration_is_ignored() {
    let e = parse_new_class("add\nشنبه\n08:30\nRahimi", 1).unwrap_err();
    assert_eq!(e, NewClassError::MissingFields);
    assert_eq!(e.reply(), None);
}

#[test]
fn registration_with_unknown_day_is_refused() {
    let e = parse_new_class("add\nSaturday\n08:30\nRahimi\nAlgebra", 1).unwrap_err();
    assert_eq!(e, NewClassError::UnknownDay);
    assert_eq!(e.reply(), Some("<i>unable to parse the day</i>"));
}

#[test]
fn registration_with_bad_time_is_refused() {
    for t in ["24:00", "08:60", "0830", "08:30 ", "8:300", "", "x8:30", "08:30:00"] {
        let text = format!("add\nشنبه\n{}\nRahimi\nAlgebra", t);
        let e = parse_new_class(&text, 1).unwrap_err();
        assert_eq!(e, NewClassError::BadTime, "{}", t);
        assert_eq!(e.reply(), Some("<i>unable to parse the time</i>"));
    }
}

#[test]
fn registration_replies() {
    assert_eq!(new_class_reply(true), "<i>class registered successfully</i>");
    assert_eq!(new_class_reply(false), "<i>class already exists!</i>");
}

#[test]
fn class_ids_in_commands() {
    assert_eq!(parse_class_id("disable 42"), Some(42));
    assert_eq!(parse_class_id("enable -7 now"), Some(-7));
    assert_eq!(parse_class_id("enable +7"), Some(7));
    assert_eq!(parse_class_id("enable 2147483647"), Some(i32::MAX));
    assert_eq!(parse_class_id("enable -2147483648"), Some(i32::MIN));
    assert_eq!(parse_class_id("enable 2147483648"), None);
    assert_eq!(parse_class_id("disable"), None);
    assert_eq!(parse_class_id("disable  42"), None);
    assert_eq!(parse_class_id("disable x"), None);
    assert_eq!(parse_class_id("disable -"), None);
    assert_eq!(parse_class_id("disable 4a"), None);
}

#[test]
fn class_id_shown_in_list_reads_back() {
    for id in [0, 5, -12, 99999, i32::MAX, i32::MIN] {
        assert_eq!(parse_class_id(&format!("disable {}", id)), Some(id));
    }
}

#[test]
fn status_replies() {
    assert_eq!(class_status_reply(true, "Algebra", "Rahimi"), "<i>اعلان های کلاس Algebra با Rahimi اکنون فعال شد</i>");
    assert_eq!(class_status_reply(false, "Algebra", "Rahimi"), "<i>اعلان های کلاس Algebra با Rahimi اکنون غیر فعال شد</i>");
    assert_eq!(reminder_status_reply(true), "<i>تمامی اعلان ها فعال شدند</i>");
    assert_eq!(reminder_status_reply(false), "<i>تمامی اعلان ها غیر فعال شدند</i>");
}

#[test]
fn empty_class_list_reply() {
    assert_eq!(class_list_reply(vec![]), "تا کنون هیچ کلاسی برای این درس ذخیره نشده!");
    let text = class_list_reply(vec![class(1, "Algebra", "Monday")]);
    assert_eq!(text, ClassModel::to_string(vec![class(1, "Algebra", "Monday")]));
}

#[test]
fn todays_classes_keep_order() {
    let cs = vec![class(1, "A", "Monday"), class(2, "B", "tue"), class(3, "C", "MONDAY"), class(4, "D", "mon")];
    let today = todays_classes(cs, Weekday::Mon).unwrap();
    let ids: Vec<i32> = today.iter().map(|c| c.id).collect();
    assert_eq!(ids, vec![1, 3, 4]);
}

#[test]
fn todays_classes_refuse_unknown_days() {
    let cs = vec![class(1, "A", "Monday"), class(2, "B", "Mondays")];
    assert!(todays_classes(cs, Weekday::Mon).is_none());
    let cs = vec![class(1, "A", "شنبه")];
    assert!(todays_classes(cs, Weekday::Sat).is_none());
}

#[test]
fn upcoming_classes_replies() {
    assert_eq!(upcoming_classes_reply(vec![], Weekday::Mon), Some("در حال حاضر هیچ کلاسی وجود ندارد".to_string()));
    let cs = vec![class(1, "A", "Tuesday")];
    assert_eq!(upcoming_classes_reply(cs, Weekday::Mon), Some("امروز هیچ کلاسی برگذار نمیشود".to_string()));
    let cs = vec![class(1, "A", "Tuesday"), class(2, "B", "Monday")];
    assert_eq!(upcoming_classes_reply(cs, Weekday::Mon), Some(ClassModel::to_string(vec![class(2, "B", "Monday")])));
    let cs = vec![class(1, "A", "Someday")];
    assert_eq!(upcoming_classes_reply(cs, Weekday::Mon), None);
}

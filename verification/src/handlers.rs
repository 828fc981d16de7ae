//! What the bot's commands read from a message and what they answer.

use vstd::prelude::*;

use crate::class_model::{class_list_text, ClassModel};
use crate::clock::{ClassTime, hour_minute_from_text, parse_hour_minute, parse_weekday, weekday_from_name, Weekday};
use crate::date_time_helpers::{fr_day_to_eng, fr_days_to_eng};
use crate::persian_date::{hour_minute_text, PersianDateTime};
use crate::text::{
    chars_of, int_text, lemma_i32_text_roundtrip, lemma_split_prefix_stable, lemma_split_one_word, lemma_split_push_word, lemma_int_text_chars, lemma_split_two_words,
    parse_i32, parse_i32_chars, split_chars, split_on, string_of, trim,
};
use crate::{boolean_to_string, status_word};

verus! {

/// The message a reply goes to: the topic thread where there is one, else
/// the message itself.
pub fn reply_target(thread_id: Option<i32>, message_id: i32) -> (r: i32)
    ensures
        r == match thread_id {
            Some(t) => t,
            None => message_id,
        },
{
    match thread_id {
        Some(t) => t,
        None => message_id,
    }
}

/// The answer to a question for the date: the date and the time of day
/// without seconds.
pub open spec fn date_reply_text(date: Seq<char>, clock: Seq<char>) -> Seq<char> {
    "تاریخ: "@ + date + "\nساعت: "@ + hour_minute_text(clock)
}

/// The answer to a question for the date. The clock text must hold a `:`.
pub fn date_reply(d: &PersianDateTime) -> (r: String)
    requires
        d.time24.full.en@.contains(':'),
    ensures
        r@ == date_reply_text(d.date.full.official.iso.en@, d.time24.full.en@),
{
    let mut t = String::from_str("تاریخ: ");
    t.append(d.date().as_str());
    t.append("\nساعت: ");
    let clock = d.time();
    t.append(clock.as_str());
    t
}

/// Whether the class's weekday is a weekday name chrono reads.
pub open spec fn knows_day(c: ClassModel) -> bool {
    weekday_from_name(c.day@) is Some
}

/// Whether the class takes place on `today`.
pub open spec fn on_day(c: ClassModel, today: Weekday) -> bool {
    weekday_from_name(c.day@) == Some(today)
}

pub open spec fn on_day_pred(today: Weekday) -> spec_fn(ClassModel) -> bool {
    |c: ClassModel| on_day(c, today)
}

/// Whether every class has a weekday name chrono reads.
pub fn all_days_known(classes: &Vec<ClassModel>) -> (r: bool)
    ensures
        r == forall|i: int| 0 <= i < classes@.len() ==> #[trigger] knows_day(classes@[i]),
{
    let mut i: usize = 0;
    while i < classes.len()
        invariant
            i <= classes@.len(),
            forall|j: int| 0 <= j < i ==> #[trigger] knows_day(classes@[j]),
        decreases classes@.len() - i,
    {
        if parse_weekday(classes[i].day.as_str()).is_none() {
            assert(!knows_day(classes@[i as int]));
            return false;
        }
        i = i + 1;
    }
    true
}

fn keep_on_day(classes: Vec<ClassModel>, today: Weekday) -> (r: Vec<ClassModel>)
    ensures
        r@ == classes@.filter(on_day_pred(today)),
{
    let ghost orig = classes@;
    let mut rest = classes;
    let mut out: Vec<ClassModel> = Vec::new();
    let ghost mut k: int = 0;
    assert(orig.take(0) =~= Seq::<ClassModel>::empty());
    proof {
        reveal_with_fuel(Seq::<_>::filter, 1);
    }
    assert(orig.skip(0) =~= orig);
    while rest.len() > 0
        invariant
            0 <= k <= orig.len(),
            rest@ == orig.skip(k),
            out@ == orig.take(k).filter(on_day_pred(today)),
        decreases rest@.len(),
    {
        let c = rest.remove(0);
        proof {
            reveal_with_fuel(Seq::<_>::filter, 1);
            assert(orig.take(k + 1).drop_last() =~= orig.take(k));
            assert(orig.take(k + 1).last() == c);
        }
        let keep = match parse_weekday(c.day.as_str()) {
            Some(w) => w == today,
            None => false,
        };
        if keep {
            out.push(c);
        }
        proof {
            k = k + 1;
        }
        assert(rest@ =~= orig.skip(k));
    }
    assert(orig.take(k) =~= orig);
    out
}

/// The classes that take place on `today`, in their order; `None` where a
/// class has a weekday name chrono does not read.
pub fn todays_classes(classes: Vec<ClassModel>, today: Weekday) -> (r: Option<Vec<ClassModel>>)
    ensures
        match r {
            Some(v) => (forall|i: int| 0 <= i < classes@.len() ==> #[trigger] knows_day(classes@[i]))
                && v@ == classes@.filter(on_day_pred(today)),
            None => exists|i: int| 0 <= i < classes@.len() && !#[trigger] knows_day(classes@[i]),
        },
{
    if !all_days_known(&classes) {
        return None;
    }
    Some(keep_on_day(classes, today))
}

/// Today's classes are exactly the given classes whose weekday chrono reads
/// as today: each kept class is held today, and each class held today is
/// kept.
pub proof fn lemma_todays_classes_are_on_today(cs: Seq<ClassModel>, today: Weekday)
    ensures
        forall|j: int|
            0 <= j < cs.filter(on_day_pred(today)).len() ==> weekday_from_name(
                (#[trigger] cs.filter(on_day_pred(today))[j]).day@,
            ) == Some(today),
        forall|i: int|
            0 <= i < cs.len() && weekday_from_name(cs[i].day@) == Some(today)
                ==> #[trigger] cs.filter(on_day_pred(today)).contains(cs[i]),
{
    assert forall|j: int| 0 <= j < cs.filter(on_day_pred(today)).len() implies weekday_from_name(
        (#[trigger] cs.filter(on_day_pred(today))[j]).day@,
    ) == Some(today) by {
        cs.lemma_filter_pred(on_day_pred(today), j);
    }
    assert forall|i: int|
        0 <= i < cs.len() && weekday_from_name(cs[i].day@) == Some(today) implies #[trigger] cs.filter(
        on_day_pred(today),
    ).contains(cs[i]) by {
        cs.lemma_filter_contains(on_day_pred(today), i);
    }
}

/// The answer to a question for today's classes: the no-classes note where
/// there are none at all; nothing where a class's weekday is unreadable; the
/// none-today note where no class is held today; else the list of the
/// classes held today, which is not empty.
pub proof fn lemma_upcoming_cases(cs: Seq<ClassModel>, today: Weekday)
    ensures
        cs.len() == 0 ==> upcoming_reply_text(cs, today) == Some("در حال حاضر هیچ کلاسی وجود ندارد"@),
        cs.len() > 0 && (exists|i: int| 0 <= i < cs.len() && weekday_from_name(#[trigger] cs[i].day@) is None)
            ==> upcoming_reply_text(cs, today) is None,
        cs.len() > 0 && (forall|i: int| 0 <= i < cs.len() ==> weekday_from_name(#[trigger] cs[i].day@) is Some)
            && (forall|i: int| 0 <= i < cs.len() ==> weekday_from_name(#[trigger] cs[i].day@) != Some(today))
            ==> upcoming_reply_text(cs, today) == Some("امروز هیچ کلاسی برگذار نمیشود"@),
        cs.len() > 0 && (forall|i: int| 0 <= i < cs.len() ==> weekday_from_name(#[trigger] cs[i].day@) is Some)
            && (exists|i: int| 0 <= i < cs.len() && weekday_from_name(#[trigger] cs[i].day@) == Some(today))
            ==> cs.filter(on_day_pred(today)).len() > 0 && upcoming_reply_text(cs, today) == Some(
            class_list_text(cs.filter(on_day_pred(today))),
        ),
{
    let f = cs.filter(on_day_pred(today));
    if exists|i: int| 0 <= i < cs.len() && weekday_from_name(#[trigger] cs[i].day@) is None {
        let i = choose|i: int| 0 <= i < cs.len() && weekday_from_name(#[trigger] cs[i].day@) is None;
        assert(!knows_day(cs[i]));
    }
    if f.len() > 0 {
        cs.lemma_filter_pred(on_day_pred(today), 0);
        cs.lemma_filter_contains_rev(on_day_pred(today), f[0]);
        let k = choose|k: int| 0 <= k < cs.len() && cs[k] == f[0];
        assert(weekday_from_name(cs[k].day@) == Some(today));
    }
    if exists|i: int| 0 <= i < cs.len() && weekday_from_name(#[trigger] cs[i].day@) == Some(today) {
        let i = choose|i: int| 0 <= i < cs.len() && weekday_from_name(#[trigger] cs[i].day@) == Some(today);
        cs.lemma_filter_contains(on_day_pred(today), i);
    }
    if forall|i: int| 0 <= i < cs.len() ==> weekday_from_name(#[trigger] cs[i].day@) is Some {
        assert forall|i: int| 0 <= i < cs.len() implies #[trigger] knows_day(cs[i]) by {
            assert(weekday_from_name(cs[i].day@) is Some);
        }
    }
}

/// The answer to a question for today's classes: a note where there are no
/// classes at all or none today, else the list of today's classes; `None`
/// where a class has a weekday name chrono does not read.
pub open spec fn upcoming_reply_text(cs: Seq<ClassModel>, today: Weekday) -> Option<Seq<char>> {
    if cs.len() == 0 {
        Some("در حال حاضر هیچ کلاسی وجود ندارد"@)
    } else if exists|i: int| 0 <= i < cs.len() && !#[trigger] knows_day(cs[i]) {
        None
    } else if cs.filter(on_day_pred(today)).len() == 0 {
        Some("امروز هیچ کلاسی برگذار نمیشود"@)
    } else {
        Some(class_list_text(cs.filter(on_day_pred(today))))
    }
}

/// The answer to a question for today's classes.
pub fn upcoming_classes_reply(classes: Vec<ClassModel>, today: Weekday) -> (r: Option<String>)
    requires
        forall|i: int| 0 <= i < classes@.len() ==> #[trigger] classes@[i].wf(),
    ensures
        match r {
            Some(t) => upcoming_reply_text(classes@, today) == Some(t@),
            None => upcoming_reply_text(classes@, today) is None,
        },
{
    if classes.len() == 0 {
        return Some(String::from_str("در حال حاضر هیچ کلاسی وجود ندارد"));
    }
    let ghost all = classes@;
    match todays_classes(classes, today) {
        None => None,
        Some(v) => {
            if v.len() == 0 {
                Some(String::from_str("امروز هیچ کلاسی برگذار نمیشود"))
            } else {
                assert forall|j: int| 0 <= j < v@.len() implies #[trigger] v@[j].wf() by {
                    all.lemma_filter_contains_rev(on_day_pred(today), v@[j]);
                }
                Some(ClassModel::to_string(v))
            }
        },
    }
}

/// Why a class registration was not taken.
#[derive(Clone, Copy, Debug, PartialEq, Eq, Structural)]
pub enum NewClassError {
    /// Fewer than five lines: the command is ignored.
    MissingFields,
    /// The second line names no weekday.
    UnknownDay,
    /// The third line is no `HH:MM` time.
    BadTime,
}

impl NewClassError {
    /// What the bot answers: nothing to an incomplete command, else a note.
    pub fn reply(&self) -> (r: Option<&'static str>)
        ensures
            match self {
                NewClassError::MissingFields => r is None,
                NewClassError::UnknownDay => r matches Some(t) && t@ == "<i>unable to parse the day</i>"@,
                NewClassError::BadTime => r matches Some(t) && t@ == "<i>unable to parse the time</i>"@,
            },
    {
        match self {
            NewClassError::MissingFields => None,
            NewClassError::UnknownDay => Some("<i>unable to parse the day</i>"),
            NewClassError::BadTime => Some("<i>unable to parse the time</i>"),
        }
    }
}

/// What a registration command holds: the English weekday, the start time,
/// the professor and the course name, taken from its second to fifth
/// lines; or why it is not taken.
pub open spec fn registration_fields(text: Seq<char>) -> Result<
    (Seq<char>, ClassTime, Seq<char>, Seq<char>),
    NewClassError,
> {
    let lines = split_on(text, '\n');
    if lines.len() < 5 {
        Err(NewClassError::MissingFields)
    } else {
        match fr_day_to_eng(trim(lines[1])) {
            None => Err(NewClassError::UnknownDay),
            Some(day) => match hour_minute_from_text(lines[2]) {
                None => Err(NewClassError::BadTime),
                Some(t) => Ok((day, t, lines[3], lines[4])),
            },
        }
    }
}

/// A registration of five lines takes its weekday from the second line, its
/// time from the third, the professor from the fourth and the course name
/// from the fifth; one of four lines is ignored.
pub proof fn lemma_registration_lines(
    command: Seq<char>,
    day: Seq<char>,
    time: Seq<char>,
    professor: Seq<char>,
    name: Seq<char>,
)
    requires
        !command.contains('\n'),
        !day.contains('\n'),
        !time.contains('\n'),
        !professor.contains('\n'),
        !name.contains('\n'),
    ensures
        registration_fields(
            command + seq!['\n'] + day + seq!['\n'] + time + seq!['\n'] + professor + seq!['\n'] + name,
        ) == match fr_day_to_eng(trim(day)) {
            None => Err(NewClassError::UnknownDay),
            Some(e) => match hour_minute_from_text(time) {
                None => Err(NewClassError::BadTime),
                Some(t) => Ok((e, t, professor, name)),
            },
        },
        registration_fields(command + seq!['\n'] + day + seq!['\n'] + time + seq!['\n'] + professor)
            == Err::<(Seq<char>, ClassTime, Seq<char>, Seq<char>), _>(NewClassError::MissingFields),
{
    let nl = '\n';
    lemma_split_one_word(command, nl);
    let t1 = command + seq![nl] + day;
    lemma_split_push_word(command, day, nl);
    let t2 = t1 + seq![nl] + time;
    lemma_split_push_word(t1, time, nl);
    let t3 = t2 + seq![nl] + professor;
    lemma_split_push_word(t2, professor, nl);
    let t4 = t3 + seq![nl] + name;
    lemma_split_push_word(t3, name, nl);
    assert(split_on(t4, nl) =~= seq![command, day, time, professor, name]);
    assert(split_on(t3, nl) =~= seq![command, day, time, professor]);
}

/// A class registration: the command's lines are the command, the Persian
/// weekday, the `HH:MM` start time, the professor and the course name.
pub fn parse_new_class(text: &str, thread_id: i32) -> (r: Result<ClassModel, NewClassError>)
    ensures
        ({
            let lines = split_on(text@, '\n');
            match r {
                Err(NewClassError::MissingFields) => lines.len() < 5,
                Err(NewClassError::UnknownDay) => lines.len() >= 5 && fr_day_to_eng(trim(lines[1])) is None,
                Err(NewClassError::BadTime) => lines.len() >= 5 && fr_day_to_eng(trim(lines[1])) is Some
                    && hour_minute_from_text(lines[2]) is None,
                Ok(c) => {
                    &&& lines.len() >= 5
                    &&& fr_day_to_eng(trim(lines[1])) == Some(c.day@)
                    &&& hour_minute_from_text(lines[2]) == Some(c.start_time)
                    &&& c.professor_name@ == lines[3]
                    &&& c.name@ == lines[4]
                    &&& c.thread_id == thread_id
                    &&& c.id == 0
                    &&& c.enabled
                    &&& c.last_notification is None
                },
            }
        }),
        match r {
            Ok(c) => registration_fields(text@) == Ok::<_, NewClassError>(
                (c.day@, c.start_time, c.professor_name@, c.name@),
            ),
            Err(e) => registration_fields(text@) == Err::<(Seq<char>, ClassTime, Seq<char>, Seq<char>), _>(e),
        },
{
    let all = chars_of(text);
    let lines = split_chars(all.as_slice(), '\n');
    if lines.len() < 5 {
        return Err(NewClassError::MissingFields);
    }
    let day_text = string_of(lines[1].as_slice());
    let day = match fr_days_to_eng(day_text.as_str()) {
        Some(d) => d,
        None => {
            return Err(NewClassError::UnknownDay);
        },
    };
    let time_text = string_of(lines[2].as_slice());
    let time = match parse_hour_minute(time_text.as_str()) {
        Some(t) => t,
        None => {
            return Err(NewClassError::BadTime);
        },
    };
    let professor = string_of(lines[3].as_slice());
    let name = string_of(lines[4].as_slice());
    Ok(ClassModel::new(thread_id, name.as_str(), professor.as_str(), day, time))
}

/// The answer to a registration that was stored, or refused as a duplicate.
pub fn new_class_reply(registered: bool) -> (r: &'static str)
    ensures
        r@ == if registered {
            "<i>class registered successfully</i>"@
        } else {
            "<i>class already exists!</i>"@
        },
{
    if registered {
        "<i>class registered successfully</i>"
    } else {
        "<i>class already exists!</i>"
    }
}

/// The answer to the `list` command: a note where the course has no
/// classes, else their list.
pub fn class_list_reply(classes: Vec<ClassModel>) -> (r: String)
    requires
        forall|i: int| 0 <= i < classes@.len() ==> #[trigger] classes@[i].wf(),
    ensures
        r@ == if classes@.len() == 0 {
            "تا کنون هیچ کلاسی برای این درس ذخیره نشده!"@
        } else {
            class_list_text(classes@)
        },
{
    if classes.len() == 0 {
        String::from_str("تا کنون هیچ کلاسی برای این درس ذخیره نشده!")
    } else {
        ClassModel::to_string(classes)
    }
}

/// The class id in a command that turns a class's announcements on or off:
/// the second space-separated word read as an `i32`.
pub open spec fn class_id_in(text: Seq<char>) -> Option<i32> {
    if split_on(text, ' ').len() < 2 {
        None
    } else {
        parse_i32(split_on(text, ' ')[1])
    }
}

/// The class id in a command that turns a class's announcements on or off;
/// `None` (the command is ignored) where there is none.
pub fn parse_class_id(text: &str) -> (r: Option<i32>)
    ensures
        r == class_id_in(text@),
{
    let all = chars_of(text);
    let words = split_chars(all.as_slice(), ' ');
    if words.len() < 2 {
        None
    } else {
        parse_i32_chars(words[1].as_slice())
    }
}

/// A command that names a class by the id the class list shows reads back
/// that id: `disable 42` turns the announcements of class 42 off.
pub proof fn lemma_class_id_roundtrip(command: Seq<char>, id: i32)
    requires
        !command.contains(' '),
    ensures
        class_id_in(command + seq![' '] + int_text(id as int)) == Some(id),
{
    lemma_int_text_chars(id as int, ' ');
    lemma_split_two_words(command, int_text(id as int), ' ');
    lemma_i32_text_roundtrip(id);
}

/// The answer to turning a class's announcements on or off.
pub open spec fn class_status_text(enabled: bool, class_name: Seq<char>, professor: Seq<char>) -> Seq<char> {
    "<i>"@ + "اعلان های کلاس "@ + class_name + " با "@ + professor + " اکنون "@
        + status_word(enabled) + " شد"@ + "</i>"@
}

/// The answer to turning a class's announcements on or off.
pub fn class_status_reply(enabled: bool, class_name: &str, professor_name: &str) -> (r: String)
    ensures
        r@ == class_status_text(enabled, class_name@, professor_name@),
{
    let mut t = String::from_str("<i>اعلان های کلاس ");
    t.append(class_name);
    t.append(" با ");
    t.append(professor_name);
    t.append(" اکنون ");
    t.append(boolean_to_string(enabled));
    t.append(" شد</i>");
    proof {
        assert("<i>اعلان های کلاس "@ == "<i>"@ + "اعلان های کلاس "@) by {
            reveal_strlit("<i>اعلان های کلاس ");
            reveal_strlit("<i>");
            reveal_strlit("اعلان های کلاس ");
        }
        assert(" شد</i>"@ == " شد"@ + "</i>"@) by {
            reveal_strlit(" شد</i>");
            reveal_strlit("</i>");
            reveal_strlit(" شد");
        }
    }
    assert(t@ =~= class_status_text(enabled, class_name@, professor_name@));
    t
}

/// The answer to turning all announcements on or off.
pub open spec fn reminder_status_text(status: bool) -> Seq<char> {
    "<i>تمامی اعلان ها "@ + status_word(status) + " شدند</i>"@
}

/// The answer to turning all announcements on or off.
pub fn reminder_status_reply(status: bool) -> (r: String)
    ensures
        r@ == reminder_status_text(status),
{
    let mut t = String::from_str("<i>تمامی اعلان ها ");
    t.append(boolean_to_string(status));
    t.append(" شدند</i>");
    t
}

/// The answer to turning a class's announcements on or off names the class,
/// then its professor, then the word for the state the class is now in.
pub proof fn lemma_class_status_words(enabled: bool, class_name: Seq<char>, professor: Seq<char>)
    ensures
        class_status_text(enabled, class_name, professor) == "<i>"@ + "اعلان های کلاس "@ + class_name + " با "@
            + professor + " اکنون "@ + (if enabled {
            "فعال"@
        } else {
            "غیر فعال"@
        }) + " شد"@ + "</i>"@,
{
}

/// The answer to turning all announcements on or off names the new state.
pub proof fn lemma_reminder_status_words(status: bool)
    ensures
        reminder_status_text(status) == "<i>تمامی اعلان ها "@ + (if status {
            "فعال"@
        } else {
            "غیر فعال"@
        }) + " شدند</i>"@,
{
}

/// The answer to a question for the date gives the date first, then on the
/// next line the hour and minute of a `HH:MM:SS` clock.
pub proof fn lemma_date_reply_parts(date: Seq<char>, h: Seq<char>, m: Seq<char>, rest: Seq<char>)
    requires
        !h.contains(':'),
        !m.contains(':'),
    ensures
        date_reply_text(date, h + seq![':'] + m + seq![':'] + rest) == "تاریخ: "@ + date + "\nساعت: "@ + h
            + seq![':'] + m,
{
    let hm = h + seq![':'] + m;
    lemma_split_two_words(h, m, ':');
    lemma_split_prefix_stable(hm + seq![':'], rest, ':');
    assert((hm + seq![':']).drop_last() =~= hm);
    assert(split_on(hm + seq![':'], ':') =~= seq![h, m, Seq::empty()]);
    assert(hm + seq![':'] + rest =~= h + seq![':'] + m + seq![':'] + rest);
}

} // verus!

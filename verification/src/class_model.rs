//! A registered class: who teaches it, on which weekday and at what time,
//! whether it is announced, and the texts the bot writes about it.

use vstd::prelude::*;

use crate::clock::{format_date_time, format_time, date_time_text, time_text, ClassDateTime, ClassTime};
use crate::date_time_helpers::{eng_day_to_fr, eng_days_to_fr};
use crate::text::{int_text, push_char, push_int};
use crate::{boolean_to_string, status_word};

verus! {

/// A class of a course, announced in the course's topic thread.
#[derive(Debug)]
pub struct ClassModel {
    pub id: i32,
    pub thread_id: i32,
    pub name: String,
    pub professor_name: String,
    /// English weekday name.
    pub day: String,
    pub start_time: ClassTime,
    pub enabled: bool,
    pub last_notification: Option<ClassDateTime>,
}

/// The announcement of a class that starts soon.
pub open spec fn notification_spec(professor: Seq<char>, start: ClassTime) -> Seq<char> {
    "کلاس "@ + professor + " تا دقایقی دیگر ("@ + time_text(start) + ") شروع میشود"@
}

/// The first line of a class list, for the course `name`, and an empty line.
pub open spec fn list_header(name: Seq<char>) -> Seq<char> {
    "لیست کلاس های درس "@ + name + seq!['\n', '\n']
}

/// The last-announcement note of a class list entry.
pub open spec fn last_notification_note(ln: Option<ClassDateTime>) -> Seq<char> {
    match ln {
        Some(t) => "(اخرین اعلان "@ + date_time_text(t) + ")"@,
        None => Seq::empty(),
    }
}

/// The id line of a class list entry.
pub open spec fn id_part(c: ClassModel) -> Seq<char> {
    seq!['\n'] + "ایدی : "@ + int_text(c.id as int) + " (تاپیک شماره "@ + int_text(c.thread_id as int) + ")"@
}

/// The professor line of a class list entry.
pub open spec fn professor_part(c: ClassModel) -> Seq<char> {
    seq!['\n'] + "استاد : "@ + c.professor_name@
}

/// The weekday line of a class list entry, in English and in Persian.
pub open spec fn day_part(c: ClassModel) -> Seq<char> {
    seq!['\n'] + "روز : "@ + c.day@ + " ("@ + eng_day_to_fr(c.day@) + ")."@
}

/// The start time line of a class list entry.
pub open spec fn hour_part(c: ClassModel) -> Seq<char> {
    seq!['\n'] + "ساعت : "@ + time_text(c.start_time)
}

/// The notification line of a class list entry.
pub open spec fn notes_part(c: ClassModel) -> Seq<char> {
    seq!['\n'] + "اعلان ها : "@ + status_word(c.enabled) + last_notification_note(c.last_notification)
}

/// One entry of a class list.
pub open spec fn entry_text(c: ClassModel) -> Seq<char> {
    id_part(c) + professor_part(c) + day_part(c) + hour_part(c) + notes_part(c) + seq!['\n'] + "_________"@
}

/// The entries of a class list, in order.
pub open spec fn entries_text(cs: Seq<ClassModel>) -> Seq<char>
    decreases cs.len(),
{
    if cs.len() == 0 {
        Seq::empty()
    } else {
        entries_text(cs.drop_last()) + entry_text(cs.last())
    }
}

/// A class list: the header for the first class's course, then the entries.
pub open spec fn class_list_text(cs: Seq<ClassModel>) -> Seq<char> {
    list_header(cs[0].name@) + entries_text(cs)
}

/// An announcement names the whole professor and the start time as chrono
/// writes it, between the fixed words of the message.
pub proof fn lemma_notification_names_professor(professor: Seq<char>, start: ClassTime)
    ensures
        notification_spec(professor, start) == "کلاس "@ + professor + " تا دقایقی دیگر ("@ + time_text(start) + ") شروع میشود"@,
        notification_spec(professor, start).subrange(
            "کلاس "@.len() as int,
            ("کلاس "@.len() + professor.len()) as int,
        ) == professor,
{
    let n = notification_spec(professor, start);
    assert(n.subrange("کلاس "@.len() as int, ("کلاس "@.len() + professor.len()) as int) =~= professor);
}

/// Each class list entry writes, line by line, the class's id and topic, its
/// professor, its weekday in English and in Persian, its start time, and the
/// word for its own enabled flag followed by its last announcement, if any.
pub proof fn lemma_entry_lines(c: ClassModel)
    ensures
        entry_text(c) == seq!['\n'] + "ایدی : "@ + int_text(c.id as int) + " (تاپیک شماره "@ + int_text(
            c.thread_id as int,
        ) + ")"@ + seq!['\n'] + "استاد : "@ + c.professor_name@ + seq!['\n'] + "روز : "@ + c.day@
            + " ("@ + eng_day_to_fr(c.day@) + ")."@ + seq!['\n'] + "ساعت : "@ + time_text(
            c.start_time,
        ) + seq!['\n'] + "اعلان ها : "@ + (if c.enabled {
            "فعال"@
        } else {
            "غیر فعال"@
        }) + (match c.last_notification {
            Some(t) => "(اخرین اعلان "@ + date_time_text(t) + ")"@,
            None => Seq::empty(),
        }) + seq!['\n'] + "_________"@,
        notes_part(c) == seq!['\n'] + "اعلان ها : "@ + (if c.enabled {
            "فعال"@
        } else {
            "غیر فعال"@
        }) + (match c.last_notification {
            Some(t) => "(اخرین اعلان "@ + date_time_text(t) + ")"@,
            None => Seq::empty(),
        }),
{
    let e = entry_text(c);
    assert(e =~= seq!['\n'] + "ایدی : "@ + int_text(c.id as int) + " (تاپیک شماره "@ + int_text(
            c.thread_id as int,
        ) + ")"@ + seq!['\n'] + "استاد : "@ + c.professor_name@ + seq!['\n'] + "روز : "@ + c.day@
            + " ("@ + eng_day_to_fr(c.day@) + ")."@ + seq!['\n'] + "ساعت : "@ + time_text(
            c.start_time,
        ) + seq!['\n'] + "اعلان ها : "@ + (if c.enabled {
            "فعال"@
        } else {
            "غیر فعال"@
        }) + (match c.last_notification {
            Some(t) => "(اخرین اعلان "@ + date_time_text(t) + ")"@,
            None => Seq::empty(),
        }) + seq!['\n'] + "_________"@);
}

/// A class list begins with the course of its first class and an empty
/// line, then has one entry per class, in order.
pub proof fn lemma_class_list_shape(cs: Seq<ClassModel>, c: ClassModel)
    requires
        cs.len() > 0,
    ensures
        class_list_text(cs) == "لیست کلاس های درس "@ + cs[0].name@ + seq!['\n', '\n'] + entries_text(cs),
        class_list_text(cs.push(c)) == class_list_text(cs) + entry_text(c),
        class_list_text(seq![c]) == "لیست کلاس های درس "@ + c.name@ + seq!['\n', '\n'] + entry_text(c),
{
    assert(cs.push(c).drop_last() =~= cs);
    assert(cs.push(c)[0] == cs[0]);
    assert(seq![c].drop_last() =~= Seq::<ClassModel>::empty());
    assert(seq![c].last() == c);
    assert(entries_text(Seq::<ClassModel>::empty()) == Seq::<char>::empty());
    assert(entries_text(seq![c]) == entries_text(seq![c].drop_last()) + entry_text(seq![c].last()));
    assert(entries_text(seq![c]) =~= entry_text(c));
}

impl ClassModel {
    /// The times chrono could hold.
    pub open spec fn wf(&self) -> bool {
        &&& self.start_time.wf()
        &&& self.last_notification matches Some(t) ==> t.wf()
    }

    /// A new, enabled class that has not been stored (its id is 0) nor
    /// announced yet.
    pub fn new(
        thread_id: i32,
        name: &str,
        professor_name: &str,
        day: String,
        start_time: ClassTime,
    ) -> (r: ClassModel)
        ensures
            r.thread_id == thread_id,
            r.name@ == name@,
            r.professor_name@ == professor_name@,
            r.day == day,
            r.start_time == start_time,
            r.enabled,
            r.id == 0,
            r.last_notification is None,
    {
        ClassModel {
            thread_id,
            name: String::from_str(name),
            professor_name: String::from_str(professor_name),
            day,
            start_time,
            enabled: true,
            id: 0,
            last_notification: None,
        }
    }

    /// The announcement that this class starts soon.
    pub fn notification_text(&self) -> (r: String)
        requires
            self.start_time.wf(),
        ensures
            r@ == notification_spec(self.professor_name@, self.start_time),
            r@ == "کلاس "@ + self.professor_name@ + " تا دقایقی دیگر ("@ + time_text(self.start_time)
                + ") شروع میشود"@,
    {
        let mut t = String::from_str("کلاس ");
        t.append(self.professor_name.as_str());
        t.append(" تا دقایقی دیگر (");
        let time = format_time(self.start_time);
        t.append(time.as_str());
        t.append(") شروع میشود");
        t
    }

    fn push_id_part(t: &mut String, c: &ClassModel)
        ensures
            final(t)@ == old(t)@ + id_part(*c),
    {
        let ghost t0 = t@;
        push_char(t, '\n');
        t.append("ایدی : ");
        push_int(t, c.id);
        t.append(" (تاپیک شماره ");
        push_int(t, c.thread_id);
        t.append(")");
        assert(t@ =~= t0 + id_part(*c));
    }

    fn push_day_part(t: &mut String, c: &ClassModel)
        ensures
            final(t)@ == old(t)@ + day_part(*c),
    {
        let ghost t0 = t@;
        push_char(t, '\n');
        t.append("روز : ");
        t.append(c.day.as_str());
        t.append(" (");
        let fr = eng_days_to_fr(c.day.as_str());
        t.append(fr.as_str());
        t.append(").");
        assert(t@ =~= t0 + day_part(*c));
    }

    fn push_notes_part(t: &mut String, c: &ClassModel)
        requires
            c.wf(),
        ensures
            final(t)@ == old(t)@ + notes_part(*c),
    {
        let ghost t0 = t@;
        push_char(t, '\n');
        t.append("اعلان ها : ");
        t.append(boolean_to_string(c.enabled));
        let ghost before_note = t@;
        match c.last_notification {
            Some(ln) => {
                t.append("(اخرین اعلان ");
                let when = format_date_time(ln);
                t.append(when.as_str());
                t.append(")");
            }
            None => {}
        }
        assert(t@ =~= before_note + last_notification_note(c.last_notification));
        assert(t@ =~= t0 + notes_part(*c));
    }

    fn push_entry(t: &mut String, c: &ClassModel)
        requires
            c.wf(),
        ensures
            final(t)@ == old(t)@ + entry_text(*c),
    {
        let ghost t0 = t@;
        Self::push_id_part(t, c);
        let ghost t1 = t@;
        push_char(t, '\n');
        t.append("استاد : ");
        t.append(c.professor_name.as_str());
        assert(t@ =~= t1 + professor_part(*c));
        Self::push_day_part(t, c);
        let ghost t3 = t@;
        push_char(t, '\n');
        t.append("ساعت : ");
        let time = format_time(c.start_time);
        t.append(time.as_str());
        assert(t@ =~= t3 + hour_part(*c));
        Self::push_notes_part(t, c);
        let ghost t5 = t@;
        push_char(t, '\n');
        t.append("_________");
        assert(t@ =~= t5 + seq!['\n'] + "_________"@);
        assert(t@ =~= t0 + entry_text(*c));
    }

    /// The list of the given classes, headed by the course of the first.
    pub fn to_string(class_list: Vec<Self>) -> (r: String)
        requires
            class_list@.len() > 0,
            forall|i: int| 0 <= i < class_list@.len() ==> #[trigger] class_list@[i].wf(),
        ensures
            r@ == class_list_text(class_list@),
    {
        let mut t = String::from_str("لیست کلاس های درس ");
        t.append(class_list[0].name.as_str());
        push_char(&mut t, '\n');
        push_char(&mut t, '\n');
        let mut i: usize = 0;
        assert(class_list@.take(0) =~= Seq::<ClassModel>::empty());
        while i < class_list.len()
            invariant
                i <= class_list@.len(),
                class_list@.len() > 0,
                forall|k: int| 0 <= k < class_list@.len() ==> #[trigger] class_list@[k].wf(),
                t@ == list_header(class_list@[0].name@) + entries_text(class_list@.take(i as int)),
            decreases class_list@.len() - i,
        {
            Self::push_entry(&mut t, &class_list[i]);
            assert(class_list@.take(i + 1).drop_last() =~= class_list@.take(i as int));
            i = i + 1;
            assert(t@ =~= list_header(class_list@[0].name@) + entries_text(class_list@.take(i as int)));
        }
        assert(class_list@.take(i as int) =~= class_list@);
        t
    }
}

} // verus!

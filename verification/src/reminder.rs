//! When a class is announced, what the announcement says, and how the
//! switch for all announcements answers.

use vstd::prelude::*;

use crate::class_model::{notification_spec, ClassModel};
use crate::clock::{time_text, is_before, parse_weekday, time_before, time_diff, time_since, weekday_from_name, ClassTime, Weekday};

verus! {

/// How long before its start a class is announced: eleven minutes, in
/// nanoseconds.
pub const ANNOUNCE_WINDOW_NANOS: i64 = 660_000_000_000;

/// Whether a class is announced now: it takes place today, has not started
/// yet, and starts within eleven minutes (chrono's `NaiveTime` difference).
pub open spec fn class_due(c: ClassModel, today: Weekday, now: ClassTime) -> bool {
    &&& weekday_from_name(c.day@) == Some(today)
    &&& !time_before(c.start_time, now)
    &&& -ANNOUNCE_WINDOW_NANOS <= time_diff(now, c.start_time) <= ANNOUNCE_WINDOW_NANOS
}

pub open spec fn due_pred(today: Weekday, now: ClassTime) -> spec_fn(ClassModel) -> bool {
    |c: ClassModel| class_due(c, today, now)
}

/// Whether the class is announced at `now` on `today`.
pub fn is_due(c: &ClassModel, today: Weekday, now: ClassTime) -> (r: bool)
    requires
        c.start_time.wf(),
        now.wf(),
    ensures
        r == class_due(*c, today, now),
{
    let day = match parse_weekday(c.day.as_str()) {
        Some(d) => d,
        None => {
            return false;
        },
    };
    if day != today {
        return false;
    }
    if is_before(c.start_time, now) {
        return false;
    }
    let diff = time_since(now, c.start_time);
    -ANNOUNCE_WINDOW_NANOS <= diff && diff <= ANNOUNCE_WINDOW_NANOS
}

/// The classes to announce now, in their order.
pub fn classes_to_notify(classes: Vec<ClassModel>, today: Weekday, now: ClassTime) -> (r: Vec<ClassModel>)
    requires
        now.wf(),
        forall|i: int| 0 <= i < classes@.len() ==> #[trigger] classes@[i].wf(),
    ensures
        r@ == classes@.filter(due_pred(today, now)),
{
    let ghost orig = classes@;
    let mut rest = classes;
    let mut out: Vec<ClassModel> = Vec::new();
    let ghost mut k: int = 0;
    assert(orig.take(0) =~= Seq::<ClassModel>::empty());
    proof {
        reveal_with_fuel(Seq::<_>::filter, 1);
    }
    assert(orig.skip(0) =~= orig);
    while rest.len() > 0
        invariant
            0 <= k <= orig.len(),
            now.wf(),
            forall|i: int| 0 <= i < orig.len() ==> #[trigger] orig[i].wf(),
            rest@ == orig.skip(k),
            out@ == orig.take(k).filter(due_pred(today, now)),
        decreases rest@.len(),
    {
        let c = rest.remove(0);
        proof {
            reveal_with_fuel(Seq::<_>::filter, 1);
            assert(orig.take(k + 1).drop_last() =~= orig.take(k));
            assert(orig.take(k + 1).last() == c);
            assert(orig[k] == c);
            assert(orig[k].wf());
        }
        if is_due(&c, today, now) {
            out.push(c);
        }
        proof {
            k = k + 1;
        }
        assert(rest@ =~= orig.skip(k));
    }
    assert(orig.take(k) =~= orig);
    out
}

/// The classes announced are exactly the given ones held today that have
/// not started and start within eleven minutes of now.
pub proof fn lemma_notified_are_due(cs: Seq<ClassModel>, today: Weekday, now: ClassTime)
    ensures
        forall|j: int|
            0 <= j < cs.filter(due_pred(today, now)).len() ==> {
                let c = #[trigger] cs.filter(due_pred(today, now))[j];
                &&& weekday_from_name(c.day@) == Some(today)
                &&& !time_before(c.start_time, now)
                &&& -ANNOUNCE_WINDOW_NANOS <= time_diff(now, c.start_time) <= ANNOUNCE_WINDOW_NANOS
            },
        forall|i: int|
            0 <= i < cs.len() && weekday_from_name(cs[i].day@) == Some(today) && !time_before(
                cs[i].start_time,
                now,
            ) && -ANNOUNCE_WINDOW_NANOS <= time_diff(now, cs[i].start_time) <= ANNOUNCE_WINDOW_NANOS
                ==> #[trigger] cs.filter(due_pred(today, now)).contains(cs[i]),
{
    assert forall|j: int| 0 <= j < cs.filter(due_pred(today, now)).len() implies {
        let c = #[trigger] cs.filter(due_pred(today, now))[j];
        &&& weekday_from_name(c.day@) == Some(today)
        &&& !time_before(c.start_time, now)
        &&& -ANNOUNCE_WINDOW_NANOS <= time_diff(now, c.start_time) <= ANNOUNCE_WINDOW_NANOS
    } by {
        cs.lemma_filter_pred(due_pred(today, now), j);
    }
    assert forall|i: int|
        0 <= i < cs.len() && weekday_from_name(cs[i].day@) == Some(today) && !time_before(
            cs[i].start_time,
            now,
        ) && -ANNOUNCE_WINDOW_NANOS <= time_diff(now, cs[i].start_time)
            <= ANNOUNCE_WINDOW_NANOS implies #[trigger] cs.filter(due_pred(today, now)).contains(
        cs[i],
    ) by {
        cs.lemma_filter_contains(due_pred(today, now), i);
    }
}

/// Nanoseconds since midnight.
pub open spec fn nanos_of_day(t: ClassTime) -> int {
    t.secs * 1_000_000_000 + t.frac
}

/// Away from leap seconds, a class is announced exactly when it takes place
/// today and starts now or within the next eleven minutes.
pub proof fn lemma_due_window(c: ClassModel, today: Weekday, now: ClassTime)
    requires
        c.start_time.wf(),
        now.wf(),
        c.start_time.frac < 1_000_000_000,
        now.frac < 1_000_000_000,
    ensures
        class_due(c, today, now) <==> {
            &&& weekday_from_name(c.day@) == Some(today)
            &&& nanos_of_day(now) <= nanos_of_day(c.start_time)
            &&& nanos_of_day(c.start_time) <= nanos_of_day(now) + ANNOUNCE_WINDOW_NANOS
        },
{
    assert(time_diff(now, c.start_time) == nanos_of_day(now) - nanos_of_day(c.start_time));
}

/// The message that announces a class: its announcement in bold.
pub open spec fn reminder_spec(c: ClassModel) -> Seq<char> {
    "<b>"@ + notification_spec(c.professor_name@, c.start_time) + "</b>"@
}

/// The message announcing a class is, in bold, the announcement that names
/// the class's whole professor and its start time.
pub proof fn lemma_reminder_names_professor(c: ClassModel)
    ensures
        reminder_spec(c) == "<b>"@ + "کلاس "@ + c.professor_name@ + " تا دقایقی دیگر ("@ + time_text(
            c.start_time,
        ) + ") شروع میشود"@ + "</b>"@,
{
    assert(reminder_spec(c) =~= "<b>"@ + "کلاس "@ + c.professor_name@ + " تا دقایقی دیگر ("@ + time_text(
            c.start_time,
        ) + ") شروع میشود"@ + "</b>"@);
}

/// The message that announces a class.
pub fn reminder_text(c: &ClassModel) -> (r: String)
    requires
        c.start_time.wf(),
    ensures
        r@ == reminder_spec(*c),
        r@ == "<b>"@ + "کلاس "@ + c.professor_name@ + " تا دقایقی دیگر ("@ + time_text(c.start_time) + ") شروع میشود"@
            + "</b>"@,
{
    let mut t = String::from_str("<b>");
    let body = c.notification_text();
    t.append(body.as_str());
    t.append("</b>");
    t
}

/// The answer to a request to turn all announcements on (`turn_on`) or off
/// when they already are: `None` where the request changes the state.
pub fn reminder_switch_reply(enabled_now: bool, turn_on: bool) -> (r: Option<&'static str>)
    ensures
        match r {
            Some(t) => enabled_now == turn_on && t@ == if turn_on {
                "<i>reminder service is already active</i>"@
            } else {
                "<i>reminder service is already disabled</i>"@
            },
            None => enabled_now != turn_on,
        },
{
    if enabled_now == turn_on {
        if turn_on {
            Some("<i>reminder service is already active</i>")
        } else {
            Some("<i>reminder service is already disabled</i>")
        }
    } else {
        None
    }
}

} // verus!

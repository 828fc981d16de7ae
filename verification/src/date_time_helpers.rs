//! Conversions between the Persian and the English names of the weekdays.

use vstd::prelude::*;

use crate::clock::{same_letter, spells, weekday_from_name, Weekday};
use crate::text::{chars_of, is_word, trim, trim_chars};

verus! {

/// The English weekday name for a Persian one, as a class registration
/// writes it: the short forms for Sunday .. Thursday are the first word of
/// the full Persian name.
pub open spec fn fr_day_to_eng(s: Seq<char>) -> Option<Seq<char>> {
    if s == "شنبه"@ {
        Some("Saturday"@)
    } else if s == "یک"@ {
        Some("Sunday"@)
    } else if s == "دو"@ {
        Some("Monday"@)
    } else if s == "سه"@ {
        Some("Tuesday"@)
    } else if s == "چهار"@ {
        Some("Wednesday"@)
    } else if s == "پنج"@ {
        Some("Thursday"@)
    } else if s == "جمعه"@ {
        Some("Friday"@)
    } else {
        None
    }
}

/// The Persian name for an English weekday name, empty for anything else.
pub open spec fn eng_day_to_fr(s: Seq<char>) -> Seq<char> {
    if s == "Saturday"@ {
        "شنبه"@
    } else if s == "Sunday"@ {
        "یک شنبه"@
    } else if s == "Monday"@ {
        "دو شنبه"@
    } else if s == "Tuesday"@ {
        "سه شنبه"@
    } else if s == "Wednesday"@ {
        "چهار شنبه"@
    } else if s == "Thursday"@ {
        "پنج شنبه"@
    } else if s == "Friday"@ {
        "جمعه"@
    } else {
        Seq::empty()
    }
}

/// The English weekday name for the Persian one in `s`, after trimming white
/// space; `None` where `s` names no weekday.
pub fn fr_days_to_eng(s: &str) -> (r: Option<String>)
    ensures
        match r {
            Some(e) => fr_day_to_eng(trim(s@)) == Some(e@),
            None => fr_day_to_eng(trim(s@)) is None,
        },
{
    let all = chars_of(s);
    let t = trim_chars(all.as_slice());
    let t = t.as_slice();
    if is_word(t, "شنبه") {
        Some(String::from_str("Saturday"))
    } else if is_word(t, "یک") {
        Some(String::from_str("Sunday"))
    } else if is_word(t, "دو") {
        Some(String::from_str("Monday"))
    } else if is_word(t, "سه") {
        Some(String::from_str("Tuesday"))
    } else if is_word(t, "چهار") {
        Some(String::from_str("Wednesday"))
    } else if is_word(t, "پنج") {
        Some(String::from_str("Thursday"))
    } else if is_word(t, "جمعه") {
        Some(String::from_str("Friday"))
    } else {
        None
    }
}

/// The Persian name of the English weekday name `s`; empty where `s` is
/// not exactly one of the seven names.
pub fn eng_days_to_fr(s: &str) -> (r: String)
    ensures
        r@ == eng_day_to_fr(s@),
{
    let t = chars_of(s);
    let t = t.as_slice();
    if is_word(t, "Saturday") {
        String::from_str("شنبه")
    } else if is_word(t, "Sunday") {
        String::from_str("یک شنبه")
    } else if is_word(t, "Monday") {
        String::from_str("دو شنبه")
    } else if is_word(t, "Tuesday") {
        String::from_str("سه شنبه")
    } else if is_word(t, "Wednesday") {
        String::from_str("چهار شنبه")
    } else if is_word(t, "Thursday") {
        String::from_str("پنج شنبه")
    } else if is_word(t, "Friday") {
        String::from_str("جمعه")
    } else {
        String::new()
    }
}

/// Every weekday a class registration can store is a name chrono reads as
/// a weekday, and class lists show it with a Persian name that begins with
/// the word the registration used.
pub proof fn lemma_registered_days_are_weekdays(s: Seq<char>)
    ensures
        fr_day_to_eng(s) matches Some(e) ==> {
            &&& weekday_from_name(e) is Some
            &&& s.is_prefix_of(eng_day_to_fr(e))
        },
{
    reveal_strlit("شنبه");
    reveal_strlit("یک");
    reveal_strlit("دو");
    reveal_strlit("سه");
    reveal_strlit("چهار");
    reveal_strlit("پنج");
    reveal_strlit("جمعه");
    reveal_strlit("Saturday");
    reveal_strlit("Sunday");
    reveal_strlit("Monday");
    reveal_strlit("Tuesday");
    reveal_strlit("Wednesday");
    reveal_strlit("Thursday");
    reveal_strlit("Friday");
    reveal_strlit("شنبه");
    reveal_strlit("یک شنبه");
    reveal_strlit("دو شنبه");
    reveal_strlit("سه شنبه");
    reveal_strlit("چهار شنبه");
    reveal_strlit("پنج شنبه");
    reveal_strlit("جمعه");
    reveal_strlit("saturday");
    reveal_strlit("sat");
    reveal_strlit("sunday");
    reveal_strlit("sun");
    reveal_strlit("monday");
    reveal_strlit("mon");
    reveal_strlit("tuesday");
    reveal_strlit("tue");
    reveal_strlit("wednesday");
    reveal_strlit("wed");
    reveal_strlit("thursday");
    reveal_strlit("thu");
    reveal_strlit("friday");
    reveal_strlit("fri");
    if s == "شنبه"@ {
        assert(spells("Saturday"@, "saturday"@));
        assert(eng_day_to_fr("Saturday"@) == "شنبه"@);
        assert("شنبه"@ =~= "شنبه"@.subrange(0, "شنبه"@.len() as int));
    }
    if s == "یک"@ {
        assert(spells("Sunday"@, "sunday"@));
        assert("Sunday"@.len() != "Saturday"@.len());
        assert(eng_day_to_fr("Sunday"@) == "یک شنبه"@);
        assert("یک"@ =~= "یک شنبه"@.subrange(0, "یک"@.len() as int));
    }
    if s == "دو"@ {
        assert(spells("Monday"@, "monday"@));
        assert("Monday"@.len() != "Saturday"@.len());
        assert("Monday"@[0] != "Sunday"@[0]);
        assert(eng_day_to_fr("Monday"@) == "دو شنبه"@);
        assert("دو"@ =~= "دو شنبه"@.subrange(0, "دو"@.len() as int));
    }
    if s == "سه"@ {
        assert(spells("Tuesday"@, "tuesday"@));
        assert("Tuesday"@.len() != "Saturday"@.len());
        assert("Tuesday"@.len() != "Sunday"@.len());
        assert("Tuesday"@.len() != "Monday"@.len());
        assert(eng_day_to_fr("Tuesday"@) == "سه شنبه"@);
        assert("سه"@ =~= "سه شنبه"@.subrange(0, "سه"@.len() as int));
    }
    if s == "چهار"@ {
        assert(spells("Wednesday"@, "wednesday"@));
        assert("Wednesday"@.len() != "Saturday"@.len());
        assert("Wednesday"@.len() != "Sunday"@.len());
        assert("Wednesday"@.len() != "Monday"@.len());
        assert("Wednesday"@.len() != "Tuesday"@.len());
        assert(eng_day_to_fr("Wednesday"@) == "چهار شنبه"@);
        assert("چهار"@ =~= "چهار شنبه"@.subrange(0, "چهار"@.len() as int));
    }
    if s == "پنج"@ {
        assert(spells("Thursday"@, "thursday"@));
        assert("Thursday"@[0] != "Saturday"@[0]);
        assert("Thursday"@.len() != "Sunday"@.len());
        assert("Thursday"@.len() != "Monday"@.len());
        assert("Thursday"@.len() != "Tuesday"@.len());
        assert("Thursday"@.len() != "Wednesday"@.len());
        assert(eng_day_to_fr("Thursday"@) == "پنج شنبه"@);
        assert("پنج"@ =~= "پنج شنبه"@.subrange(0, "پنج"@.len() as int));
    }
    if s == "جمعه"@ {
        assert(spells("Friday"@, "friday"@));
        assert("Friday"@.len() != "Saturday"@.len());
        assert("Friday"@[0] != "Sunday"@[0]);
        assert("Friday"@[0] != "Monday"@[0]);
        assert("Friday"@.len() != "Tuesday"@.len());
        assert("Friday"@.len() != "Wednesday"@.len());
        assert("Friday"@.len() != "Thursday"@.len());
        assert(eng_day_to_fr("Friday"@) == "جمعه"@);
        assert("جمعه"@ =~= "جمعه"@.subrange(0, "جمعه"@.len() as int));
    }
}


/// The weekday table: each Persian day word a registration accepts stands for
/// its own weekday, chrono reads the English name it stores as that weekday,
/// and class lists show that weekday's own Persian name.
pub proof fn lemma_day_table()
    ensures
        fr_day_to_eng("شنبه"@) == Some("Saturday"@),
        weekday_from_name("Saturday"@) == Some(Weekday::Sat),
        eng_day_to_fr("Saturday"@) == "شنبه"@,
        fr_day_to_eng("یک"@) == Some("Sunday"@),
        weekday_from_name("Sunday"@) == Some(Weekday::Sun),
        eng_day_to_fr("Sunday"@) == "یک شنبه"@,
        fr_day_to_eng("دو"@) == Some("Monday"@),
        weekday_from_name("Monday"@) == Some(Weekday::Mon),
        eng_day_to_fr("Monday"@) == "دو شنبه"@,
        fr_day_to_eng("سه"@) == Some("Tuesday"@),
        weekday_from_name("Tuesday"@) == Some(Weekday::Tue),
        eng_day_to_fr("Tuesday"@) == "سه شنبه"@,
        fr_day_to_eng("چهار"@) == Some("Wednesday"@),
        weekday_from_name("Wednesday"@) == Some(Weekday::Wed),
        eng_day_to_fr("Wednesday"@) == "چهار شنبه"@,
        fr_day_to_eng("پنج"@) == Some("Thursday"@),
        weekday_from_name("Thursday"@) == Some(Weekday::Thu),
        eng_day_to_fr("Thursday"@) == "پنج شنبه"@,
        fr_day_to_eng("جمعه"@) == Some("Friday"@),
        weekday_from_name("Friday"@) == Some(Weekday::Fri),
        eng_day_to_fr("Friday"@) == "جمعه"@,
{
    reveal_strlit("شنبه");
    reveal_strlit("یک");
    reveal_strlit("دو");
    reveal_strlit("سه");
    reveal_strlit("چهار");
    reveal_strlit("پنج");
    reveal_strlit("جمعه");
    reveal_strlit("Saturday");
    reveal_strlit("Sunday");
    reveal_strlit("Monday");
    reveal_strlit("Tuesday");
    reveal_strlit("Wednesday");
    reveal_strlit("Thursday");
    reveal_strlit("Friday");
    reveal_strlit("شنبه");
    reveal_strlit("یک شنبه");
    reveal_strlit("دو شنبه");
    reveal_strlit("سه شنبه");
    reveal_strlit("چهار شنبه");
    reveal_strlit("پنج شنبه");
    reveal_strlit("جمعه");
    reveal_strlit("saturday");
    reveal_strlit("sat");
    reveal_strlit("sunday");
    reveal_strlit("sun");
    reveal_strlit("monday");
    reveal_strlit("mon");
    reveal_strlit("tuesday");
    reveal_strlit("tue");
    reveal_strlit("wednesday");
    reveal_strlit("wed");
    reveal_strlit("thursday");
    reveal_strlit("thu");
    reveal_strlit("friday");
    reveal_strlit("fri");
    assert("یک"@.len() != "شنبه"@.len());
    assert("دو"@.len() != "شنبه"@.len());
    assert("دو"@[0] != "یک"@[0]);
    assert("سه"@.len() != "شنبه"@.len());
    assert("سه"@[0] != "یک"@[0]);
    assert("سه"@[0] != "دو"@[0]);
    assert("چهار"@[0] != "شنبه"@[0]);
    assert("چهار"@.len() != "یک"@.len());
    assert("چهار"@.len() != "دو"@.len());
    assert("چهار"@.len() != "سه"@.len());
    assert("پنج"@.len() != "شنبه"@.len());
    assert("پنج"@.len() != "یک"@.len());
    assert("پنج"@.len() != "دو"@.len());
    assert("پنج"@.len() != "سه"@.len());
    assert("پنج"@.len() != "چهار"@.len());
    assert("جمعه"@[0] != "شنبه"@[0]);
    assert("جمعه"@.len() != "یک"@.len());
    assert("جمعه"@.len() != "دو"@.len());
    assert("جمعه"@.len() != "سه"@.len());
    assert("جمعه"@[0] != "چهار"@[0]);
    assert("جمعه"@.len() != "پنج"@.len());
    assert(spells("Saturday"@, "saturday"@));
    assert("Sunday"@.len() != "Saturday"@.len());
    assert(spells("Sunday"@, "sunday"@));
    assert("Monday"@.len() != "Saturday"@.len());
    assert("Monday"@[0] != "Sunday"@[0]);
    assert(spells("Monday"@, "monday"@));
    assert("Tuesday"@.len() != "Saturday"@.len());
    assert("Tuesday"@.len() != "Sunday"@.len());
    assert("Tuesday"@.len() != "Monday"@.len());
    assert(spells("Tuesday"@, "tuesday"@));
    assert("Wednesday"@.len() != "Saturday"@.len());
    assert("Wednesday"@.len() != "Sunday"@.len());
    assert("Wednesday"@.len() != "Monday"@.len());
    assert("Wednesday"@.len() != "Tuesday"@.len());
    assert(spells("Wednesday"@, "wednesday"@));
    assert("Thursday"@[0] != "Saturday"@[0]);
    assert("Thursday"@.len() != "Sunday"@.len());
    assert("Thursday"@.len() != "Monday"@.len());
    assert("Thursday"@.len() != "Tuesday"@.len());
    assert("Thursday"@.len() != "Wednesday"@.len());
    assert(spells("Thursday"@, "thursday"@));
    assert("Friday"@.len() != "Saturday"@.len());
    assert("Friday"@[0] != "Sunday"@[0]);
    assert("Friday"@[0] != "Monday"@[0]);
    assert("Friday"@.len() != "Tuesday"@.len());
    assert("Friday"@.len() != "Wednesday"@.len());
    assert("Friday"@.len() != "Thursday"@.len());
    assert(spells("Friday"@, "friday"@));
    assert(!same_letter("Saturday"@[0], "thursday"@[0]));
    assert(!spells("Saturday"@, "thursday"@));
    assert(!same_letter("Sunday"@[0], "monday"@[0]));
    assert(!spells("Sunday"@, "monday"@));
    assert(!same_letter("Sunday"@[0], "friday"@[0]));
    assert(!spells("Sunday"@, "friday"@));
    assert(!same_letter("Friday"@[0], "monday"@[0]));
    assert(!spells("Friday"@, "monday"@));
}

} // verus!

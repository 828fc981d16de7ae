//! The date and time reported by the Persian calendar service, and the two
//! texts the bot shows of it.

use vstd::prelude::*;

use crate::text::{chars_of, lemma_split_len, push_char, split_chars, split_on, string_of};

verus! {

/// Date and time as the service reports them.
#[derive(Default, Debug, Clone, PartialEq)]
pub struct PersianDateTime {
    pub time24: PersianTime,
    pub date: PersianDate,
}

#[derive(Default, Debug, Clone, PartialEq)]
pub struct PersianTime {
    pub full: FullTime,
}

#[derive(Default, Debug, Clone, PartialEq)]
pub struct PersianDate {
    pub full: FullDate,
}

#[derive(Default, Debug, Clone, PartialEq)]
pub struct FullDate {
    pub official: Official,
}

#[derive(Default, Debug, Clone, PartialEq)]
pub struct Official {
    pub iso: Iso,
}

#[derive(Default, Debug, Clone, PartialEq)]
pub struct Iso {
    pub en: String,
}

#[derive(Default, Debug, Clone, PartialEq)]
pub struct FullTime {
    pub en: String,
}

/// The hour and minute of a `HH:MM:SS` clock text: its first two
/// `:`-separated fields joined by `:`.
pub open spec fn hour_minute_text(clock: Seq<char>) -> Seq<char> {
    split_on(clock, ':')[0] + seq![':'] + split_on(clock, ':')[1]
}

impl PersianDateTime {
    /// The time of day without its seconds. The clock text must hold a `:`.
    pub fn time(&self) -> (r: String)
        requires
            self.time24.full.en@.contains(':'),
        ensures
            r@ == hour_minute_text(self.time24.full.en@),
    {
        proof {
            lemma_split_len(self.time24.full.en@, ':');
        }
        let clock = chars_of(self.time24.full.en.as_str());
        let parts = split_chars(clock.as_slice(), ':');
        let mut r = string_of(parts[0].as_slice());
        push_char(&mut r, ':');
        let minute = string_of(parts[1].as_slice());
        r.append(minute.as_str());
        r
    }

    /// The official date in ISO form.
    pub fn date(&self) -> (r: &String)
        ensures
            *r == self.date.full.official.iso.en,
    {
        &self.date.full.official.iso.en
    }
}

} // verus!

//! Verified core of a class-reminder chat bot: parsing of the commands the
//! bot understands, the texts it answers with, and the rule that decides
//! when a class is announced.

use vstd::prelude::*;

pub mod class_model;
pub mod clock;
pub mod date_time_helpers;
pub mod filters;
pub mod handlers;
pub mod persian_date;
pub mod reminder;
pub mod text;

verus! {

/// The Persian word shown for an enabled or a disabled notification switch.
pub open spec fn status_word(b: bool) -> Seq<char> {
    if b {
        "فعال"@
    } else {
        "غیر فعال"@
    }
}

/// Persian word for "enabled" (`true`) or "disabled" (`false`).
pub fn boolean_to_string<'a>(b: bool) -> (r: &'a str)
    ensures
        r@ == status_word(b),
{
    if b {
        "فعال"
    } else {
        "غیر فعال"
    }
}

/// An enabled switch is called "فعال", a disabled one "غیر فعال", and the
/// two words tell them apart.
pub proof fn lemma_status_words_differ()
    ensures
        status_word(true) == "فعال"@,
        status_word(false) == "غیر فعال"@,
        status_word(true) != status_word(false),
{
    reveal_strlit("فعال");
    reveal_strlit("غیر فعال");
    assert(status_word(true).len() != status_word(false).len());
}

} // verus!

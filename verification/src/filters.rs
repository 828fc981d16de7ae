//! Which messages and updates each command of the bot answers, read from
//! the message text and the ids of the sender and the chat.

use vstd::prelude::*;

use crate::text::{chars_of, is_word, parse_u64, parse_u64_chars, split_chars, split_on, str_is, str_starts_with, trim, trim_chars};

verus! {

/// The `/start` command.
pub fn is_start(text: &str) -> (r: bool)
    ensures
        r == (text@ == "/start"@),
{
    str_is(text, "/start")
}

/// A class registration: the text begins with `add`.
pub fn is_add_new_class(text: &str) -> (r: bool)
    ensures
        r == "add"@.is_prefix_of(text@),
{
    str_starts_with(text, "add")
}

/// Whether the sender is one of the given administrators.
pub fn is_admin(admins: &Vec<u64>, sender: u64) -> (r: bool)
    ensures
        r == admins@.contains(sender),
{
    is_listed(admins, sender)
}

/// Whether the sender is one of the given moderators.
pub fn is_mod(mods: &Vec<u64>, sender: u64) -> (r: bool)
    ensures
        r == mods@.contains(sender),
{
    is_listed(mods, sender)
}

fn is_listed(ids: &Vec<u64>, id: u64) -> (r: bool)
    ensures
        r == ids@.contains(id),
{
    let mut i: usize = 0;
    while i < ids.len()
        invariant
            i <= ids@.len(),
            forall|j: int| 0 <= j < i ==> ids@[j] != id,
        decreases ids@.len() - i,
    {
        if ids[i] == id {
            return true;
        }
        i = i + 1;
    }
    false
}

/// Whether the update comes from the bot's main chat.
pub fn is_main_chat(chat: Option<i64>, main_chat: i64) -> (r: bool)
    ensures
        r == (chat == Some(main_chat)),
{
    match chat {
        Some(c) => c == main_chat,
        None => false,
    }
}

/// Whether the message has a text.
pub fn is_text(text: Option<&str>) -> (r: bool)
    ensures
        r == text is Some,
{
    text.is_some()
}

/// The `off` command, which stops the reminders.
pub fn is_disable_reminder(text: &str) -> (r: bool)
    ensures
        r == (text@ == "off"@),
{
    str_is(text, "off")
}

/// The `on` command, which starts the reminders.
pub fn is_enable_reminder(text: &str) -> (r: bool)
    ensures
        r == (text@ == "on"@),
{
    str_is(text, "on")
}

/// Whether the message has a sender.
pub fn from_valid(sender: Option<u64>) -> (r: bool)
    ensures
        r == sender is Some,
{
    sender.is_some()
}

/// A command that turns the announcements of one class off.
pub fn is_disable_class(text: &str) -> (r: bool)
    ensures
        r == "disable"@.is_prefix_of(text@),
{
    str_starts_with(text, "disable")
}

/// A command that turns the announcements of one class on.
pub fn is_enable_class(text: &str) -> (r: bool)
    ensures
        r == "enable"@.is_prefix_of(text@),
{
    str_starts_with(text, "enable")
}

/// The `list` command.
pub fn is_class_list(text: &str) -> (r: bool)
    ensures
        r == (text@ == "list"@),
{
    str_is(text, "list")
}

/// The command asking for today's classes.
pub fn is_upcoming_classes(text: &str) -> (r: bool)
    ensures
        r == (text@ == "اخیر"@),
{
    str_is(text, "اخیر")
}

/// The words that ask for the date, after trimming white space.
pub open spec fn is_date_word(t: Seq<char>) -> bool {
    t == "date"@ || t == "تاریخ"@ || t == "زمان"@ || t == "تایم"@
}

/// A question for the date and time.
pub fn is_date(text: &str) -> (r: bool)
    ensures
        r == is_date_word(trim(text@)),
{
    let all = chars_of(text);
    let t = trim_chars(all.as_slice());
    let t = t.as_slice();
    is_word(t, "date") || is_word(t, "تاریخ") || is_word(t, "زمان") || is_word(t, "تایم")
}

/// A private chat: the chat id is the sender's id. An update with a sender
/// has a chat.
pub fn is_pv(sender: Option<u64>, chat: Option<i64>) -> (r: bool)
    requires
        sender is Some ==> chat is Some,
    ensures
        r == (sender is Some && chat->0 == sender->0 as i64),
{
    match sender {
        Some(s) => chat.unwrap() == s as i64,
        None => false,
    }
}

/// What the bot does with an update.
#[derive(Clone, Copy, Debug, PartialEq, Eq, Structural)]
pub enum Route {
    Date,
    UpcomingClasses,
    DisableClass,
    EnableClass,
    ClassList,
    Start,
    DisableReminder,
    EnableReminder,
    AddNewClass,
    /// A private message the bot does not understand.
    InvalidCommand,
    /// Handled, with nothing to do.
    Ignore,
    /// Updates without a chat are not handled at all.
    Unhandled,
}

/// The command a text message of the main chat asks for, checked in order:
/// date and today's classes for everyone, class commands for moderators,
/// the rest for administrators.
pub open spec fn command_route(t: Seq<char>, sender: u64, admins: Seq<u64>, mods: Seq<u64>) -> Option<Route> {
    if is_date_word(trim(t)) {
        Some(Route::Date)
    } else if t == "اخیر"@ {
        Some(Route::UpcomingClasses)
    } else if mods.contains(sender) && "disable"@.is_prefix_of(t) {
        Some(Route::DisableClass)
    } else if mods.contains(sender) && "enable"@.is_prefix_of(t) {
        Some(Route::EnableClass)
    } else if mods.contains(sender) && t == "list"@ {
        Some(Route::ClassList)
    } else if !admins.contains(sender) {
        None
    } else if t == "/start"@ {
        Some(Route::Start)
    } else if t == "off"@ {
        Some(Route::DisableReminder)
    } else if t == "on"@ {
        Some(Route::EnableReminder)
    } else if "add"@.is_prefix_of(t) {
        Some(Route::AddNewClass)
    } else {
        None
    }
}

/// Where an update goes: a text message from a sender in the main chat to
/// the command it asks for; failing that, a private update to the
/// invalid-command answer; anything else with a chat is ignored.
pub open spec fn route_of(
    is_message: bool,
    sender: Option<u64>,
    chat: Option<i64>,
    text: Option<Seq<char>>,
    main_chat: i64,
    admins: Seq<u64>,
    mods: Seq<u64>,
) -> Route {
    match chat {
        None => Route::Unhandled,
        Some(c) => {
            let command = if is_message && sender is Some && c == main_chat && text is Some {
                command_route(text->0, sender->0, admins, mods)
            } else {
                None
            };
            match command {
                Some(r) => r,
                None => if sender is Some && c == sender->0 as i64 {
                    Route::InvalidCommand
                } else {
                    Route::Ignore
                },
            }
        },
    }
}

pub open spec fn text_view(text: Option<&str>) -> Option<Seq<char>> {
    match text {
        Some(t) => Some(t@),
        None => None,
    }
}

fn route_command(t: &str, sender: u64, admins: &Vec<u64>, mods: &Vec<u64>) -> (r: Option<Route>)
    ensures
        r == command_route(t@, sender, admins@, mods@),
{
    if is_date(t) {
        Some(Route::Date)
    } else if is_upcoming_classes(t) {
        Some(Route::UpcomingClasses)
    } else if is_mod(mods, sender) && is_disable_class(t) {
        Some(Route::DisableClass)
    } else if is_mod(mods, sender) && is_enable_class(t) {
        Some(Route::EnableClass)
    } else if is_mod(mods, sender) && is_class_list(t) {
        Some(Route::ClassList)
    } else if !is_admin(admins, sender) {
        None
    } else if is_start(t) {
        Some(Route::Start)
    } else if is_disable_reminder(t) {
        Some(Route::DisableReminder)
    } else if is_enable_reminder(t) {
        Some(Route::EnableReminder)
    } else if is_add_new_class(t) {
        Some(Route::AddNewClass)
    } else {
        None
    }
}

/// Where an update goes. `is_message` tells a message update from other
/// kinds; `sender` and `chat` are the update's user and chat ids.
pub fn route(
    is_message: bool,
    sender: Option<u64>,
    chat: Option<i64>,
    text: Option<&str>,
    main_chat: i64,
    admins: &Vec<u64>,
    mods: &Vec<u64>,
) -> (r: Route)
    ensures
        r == route_of(is_message, sender, chat, text_view(text), main_chat, admins@, mods@),
{
    let c = match chat {
        Some(c) => c,
        None => {
            return Route::Unhandled;
        },
    };
    let command = if is_message && from_valid(sender) && is_main_chat(chat, main_chat) && is_text(text) {
        route_command(text.unwrap(), sender.unwrap(), admins, mods)
    } else {
        None
    };
    match command {
        Some(r) => r,
        None => if is_pv(sender, chat) {
            Route::InvalidCommand
        } else {
            Route::Ignore
        },
    }
}

/// Only moderators turn classes on or off or list them, only
/// administrators register classes or use the other commands, and only
/// messages of the main chat run commands.
pub proof fn lemma_commands_need_rights(
    is_message: bool,
    sender: Option<u64>,
    chat: Option<i64>,
    text: Option<Seq<char>>,
    main_chat: i64,
    admins: Seq<u64>,
    mods: Seq<u64>,
)
    ensures
        ({
            let r = route_of(is_message, sender, chat, text, main_chat, admins, mods);
            &&& (r == Route::DisableClass || r == Route::EnableClass || r == Route::ClassList) ==> {
                &&& sender is Some
                &&& mods.contains(sender->0)
            }
            &&& (r == Route::Start || r == Route::DisableReminder || r == Route::EnableReminder
                || r == Route::AddNewClass) ==> {
                &&& sender is Some
                &&& admins.contains(sender->0)
            }
            &&& (r != Route::InvalidCommand && r != Route::Ignore && r != Route::Unhandled) ==> {
                &&& is_message
                &&& chat == Some(main_chat)
                &&& text is Some
            }
        }),
{
}

/// Commands reach whoever has the right to them, in the order the bot
/// checks them: a date question and the question for today's classes from
/// anyone; the class commands from moderators; and, where the text is none
/// of those a moderator may use, the other commands from administrators,
/// whether or not they are moderators too.
pub proof fn lemma_commands_reach_their_users(
    sender: u64,
    t: Seq<char>,
    main_chat: i64,
    admins: Seq<u64>,
    mods: Seq<u64>,
)
    ensures
        ({
            let r = route_of(true, Some(sender), Some(main_chat), Some(t), main_chat, admins, mods);
            let everyone = is_date_word(trim(t)) || t == "اخیر"@;
            let moderated = mods.contains(sender) && ("disable"@.is_prefix_of(t) || "enable"@.is_prefix_of(
                t,
            ) || t == "list"@);
            &&& is_date_word(trim(t)) ==> r == Route::Date
            &&& !is_date_word(trim(t)) && t == "اخیر"@ ==> r == Route::UpcomingClasses
            &&& !everyone && mods.contains(sender) && "disable"@.is_prefix_of(t) ==> r == Route::DisableClass
            &&& !everyone && mods.contains(sender) && !"disable"@.is_prefix_of(t) && "enable"@.is_prefix_of(t)
                ==> r == Route::EnableClass
            &&& !everyone && mods.contains(sender) && t == "list"@ ==> r == Route::ClassList
            &&& !everyone && !moderated && admins.contains(sender) ==> {
                &&& t == "/start"@ ==> r == Route::Start
                &&& t == "off"@ ==> r == Route::DisableReminder
                &&& t == "on"@ ==> r == Route::EnableReminder
                &&& "add"@.is_prefix_of(t) ==> r == Route::AddNewClass
            }
        }),
{
    reveal_strlit("list");
    reveal_strlit("disable");
    reveal_strlit("enable");
    reveal_strlit("/start");
    reveal_strlit("off");
    reveal_strlit("on");
    reveal_strlit("add");
    if t == "list"@ {
        assert(!"disable"@.is_prefix_of(t));
        assert(!"enable"@.is_prefix_of(t));
    }
    if t == "/start"@ {
        assert(t[0] != "add"@[0]);
        assert(!"add"@.is_prefix_of(t));
    }
    if t == "off"@ {
        assert(t[0] != "add"@[0]);
        assert(!"add"@.is_prefix_of(t));
    }
    if t == "on"@ {
        assert(t.len() < "add"@.len());
        assert(!"add"@.is_prefix_of(t));
    }
}

/// The user ids in a comma-separated list, such as the administrators and
/// moderators are configured with; `None` where a piece is no `u64` (no
/// white space is allowed around the commas).
pub fn parse_id_list(text: &str) -> (r: Option<Vec<u64>>)
    ensures
        ({
            let pieces = split_on(text@, ',');
            match r {
                Some(ids) => ids@.len() == pieces.len() && forall|i: int|
                    0 <= i < pieces.len() ==> parse_u64(#[trigger] pieces[i]) == Some(ids@[i]),
                None => exists|i: int| 0 <= i < pieces.len() && #[trigger] parse_u64(pieces[i]) is None,
            }
        }),
{
    let all = chars_of(text);
    let pieces = split_chars(all.as_slice(), ',');
    let ghost spec_pieces = split_on(text@, ',');
    let mut ids: Vec<u64> = Vec::new();
    let mut i: usize = 0;
    while i < pieces.len()
        invariant
            i <= pieces@.len(),
            pieces@.len() == spec_pieces.len(),
            spec_pieces == split_on(text@, ','),
            forall|k: int| 0 <= k < pieces@.len() ==> #[trigger] pieces@[k]@ == spec_pieces[k],
            ids@.len() == i,
            forall|k: int| 0 <= k < i ==> parse_u64(#[trigger] spec_pieces[k]) == Some(ids@[k]),
        decreases pieces@.len() - i,
    {
        match parse_u64_chars(pieces[i].as_slice()) {
            Some(v) => {
                ids.push(v);
            },
            None => {
                assert(parse_u64(spec_pieces[i as int]) is None);
                return None;
            },
        }
        i = i + 1;
    }
    Some(ids)
}

} // verus!

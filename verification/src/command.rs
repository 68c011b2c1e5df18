//! What the commands decide: which sessions a listing shows, what a setting
//! means, and how a person's wishes are shown.

use crate::calendar::Date;
use crate::calendar::civil_at;
use crate::calendar::date_in;
use crate::calendar::date_of;
use crate::calendar::date_text;
use crate::calendar::day_after;
use crate::calendar::next_day;
use crate::calendar::parse_date;
use crate::calendar::write_date;
use crate::message::EmbedField;
use crate::message::Message;
use crate::message::MessageView;
use crate::modul::MessageData;
use crate::modul::Modul;
use crate::modul::ModulGruppe;
use crate::reminder::Rule;
use crate::reminder::by_start;
use crate::reminder::chosen;
use crate::reminder::gather;
use crate::reminder::sort_by_start;
use crate::text::decimal;
use crate::text::decimal_text;
use crate::text::number_in;
use crate::text::parse_number;
use crate::text::same_text;
use crate::user::Duration;
use crate::user::Roles;
use crate::user::User;
use crate::user::Users;
use crate::user::with_send_after;
use crate::user::with_send_before;
use vstd::prelude::*;
use vstd::string::StringExecFns;

verus! {

/// The days, beginning with today, in which a listing without a date looks
/// for sessions.
pub const LISTED_DAYS: u64 = 7;

/// The reply to a date that cannot be read.
pub const INVALID_DATE: &'static str = "Error: Invalid date format";

/// The reply to a person who asks for wishes that were never recorded.
pub const USER_NOT_FOUND: &'static str =
    "Error: User not found (DMs can be enabled with `@lsfbot dm enable`)";

/// The reply after direct messages were switched on.
pub const ENABLED: &'static str = "Enabled direct messages";

/// The reply after direct messages were switched off.
pub const DISABLED: &'static str = "Disabled direct messages";

/// The reply after a person's record was removed.
pub const REMOVED: &'static str = "Disabled direct messages and removed configuration";

/// The reply after the schedule was read anew.
pub const UPDATED: &'static str = "Stundenplan wurde aktualisiert";

/// What a listing shows.
#[derive(Debug)]
pub enum Listing<'a> {
    /// These sessions, in the order in which they begin.
    Sessions(Vec<MessageData<'a>>),
    /// This sentence: there is no session on the day asked for.
    Nothing(String),
    /// The date asked for cannot be read.
    InvalidDate,
}

/// A listing as a mathematical value.
pub enum ListingView<'a> {
    Sessions(Seq<MessageData<'a>>),
    Nothing(Seq<char>),
    InvalidDate,
}

impl<'a> View for Listing<'a> {
    type V = ListingView<'a>;

    open spec fn view(&self) -> ListingView<'a> {
        match self {
            Listing::Sessions(found) => ListingView::Sessions(found@),
            Listing::Nothing(sentence) => ListingView::Nothing(sentence@),
            Listing::InvalidDate => ListingView::InvalidDate,
        }
    }
}

/// The sentence that says that there is no session on `day`.
pub open spec fn nothing_on(day: Date) -> Seq<char> {
    "Keine Lehrveranstaltungen am "@ + (match date_text(day) {
        Some(text) => text,
        None => Seq::empty(),
    })
}

/// The sessions on `day` that are listed for a person who holds `roles`, in
/// the order in which they begin.
pub open spec fn listed_on<'a>(module: Seq<Modul>, day: Date, roles: Roles) -> Seq<MessageData<'a>> {
    by_start(chosen(Rule::Listed { day: Some(day), after: None, roles }, module))
}

/// The sessions that begin after `now` on the first day, of `days` days from
/// `day` on, that has any such session for a person who holds `roles`.
pub open spec fn first_listed<'a>(
    module: Seq<Modul>,
    day: Option<Date>,
    now: i64,
    roles: Roles,
    days: nat,
) -> Seq<MessageData<'a>>
    decreases days,
{
    if days == 0 {
        Seq::empty()
    } else {
        match day {
            Some(d) => {
                let found = chosen(Rule::Listed { day, after: Some(now), roles }, module);
                if found.len() > 0 {
                    found
                } else {
                    first_listed(module, day_after(d), now, roles, (days - 1) as nat)
                }
            },
            None => Seq::empty(),
        }
    }
}

/// What a listing shows. Asked for a date, it shows the sessions on that date,
/// or says that there are none, or that the date cannot be read. Asked for no
/// date, it shows the sessions still to come on the first of the next seven
/// days, today among them, that has any.
pub open spec fn listing<'a>(module: Seq<Modul>, date: Option<Seq<char>>, roles: Roles, now: i64)
    -> ListingView<'a> {
    match date {
        Some(text) => match date_in(text) {
            Some(day) => if listed_on(module, day, roles).len() == 0 {
                ListingView::Nothing(nothing_on(day))
            } else {
                ListingView::Sessions(listed_on(module, day, roles))
            },
            None => ListingView::InvalidDate,
        },
        None => ListingView::Sessions(
            by_start(first_listed(module, date_of(now as int), now, roles, LISTED_DAYS as nat)),
        ),
    }
}

/// Decides what a listing shows.
pub fn list<'a>(module: &'a Vec<Modul>, date: Option<&str>, roles: Roles, now: i64) -> (shown:
    Listing<'a>)
    ensures
        shown@ == listing(
            module@,
            match date {
                Some(text) => Some(text@),
                None => None,
            },
            roles,
            now,
        ),
{
    match date {
        Some(text) => match parse_date(text) {
            Some(day) => {
                let found = sort_by_start(
                    gather(module, Rule::Listed { day: Some(day), after: None, roles }),
                );
                if found.len() == 0 {
                    let mut sentence = String::from_str("Keine Lehrveranstaltungen am ");
                    if let Some(written) = write_date(day) {
                        sentence.append(written.as_str());
                    }
                    assert(sentence@ =~= nothing_on(day));
                    Listing::Nothing(sentence)
                } else {
                    Listing::Sessions(found)
                }
            },
            None => Listing::InvalidDate,
        },
        None => {
            let mut day = match civil_at(now) {
                Some(reading) => Some(reading.date),
                None => None,
            };
            let mut left: u64 = LISTED_DAYS;
            let mut found: Vec<MessageData<'a>> = Vec::new();
            let ghost wanted = first_listed(
                module@,
                date_of(now as int),
                now,
                roles,
                LISTED_DAYS as nat,
            );
            while left > 0
                invariant
                    found@.len() == 0 ==> wanted == first_listed(
                        module@,
                        day,
                        now,
                        roles,
                        left as nat,
                    ),
                    found@.len() > 0 ==> wanted == found@ && left == 0,
                decreases left,
            {
                match day {
                    Some(d) => {
                        let here = gather(module, Rule::Listed { day, after: Some(now), roles });
                        if here.len() > 0 {
                            found = here;
                            left = 0;
                        } else {
                            day = next_day(d);
                            left -= 1;
                        }
                    },
                    None => {
                        left = 0;
                    },
                }
            }
            Listing::Sessions(sort_by_start(found))
        },
    }
}

/// A wish that a person can set.
#[derive(Clone, Copy, Debug, PartialEq, Eq, Structural)]
pub enum Setting {
    /// The lead time, or no reminder ahead of a session.
    SendBefore(Option<Duration>),
    /// Whether to be told of the session that follows.
    SendAfterPrevious(bool),
}

/// Why a wish is not understood.
#[derive(Clone, Copy, Debug, PartialEq, Eq, Structural)]
pub enum SetError {
    /// There is no wish of that name.
    UnknownSubcommand,
    /// A lead time is a number or `off`.
    UnknownLeadTime,
    /// Being told of the session that follows is `on` or `off`.
    UnknownSwitch,
}

/// Whether there is a wish of the name `name`. Only such a name is followed
/// by a value.
pub open spec fn names_setting(name: Seq<char>) -> bool {
    name == "send-before"@ || name == "send-after-previous"@
}

/// Whether there is a wish of that name.
pub fn is_setting(name: &str) -> (yes: bool)
    ensures
        yes == names_setting(name@),
        !yes ==> forall|value: Seq<char>|
            setting_in(name@, value) == Err::<Setting, SetError>(SetError::UnknownSubcommand),
{
    same_text(name, "send-before") || same_text(name, "send-after-previous")
}

/// The wish that the words `name` and `value` express.
pub open spec fn setting_in(name: Seq<char>, value: Seq<char>) -> Result<Setting, SetError> {
    if name == "send-before"@ {
        if value == "off"@ {
            Ok(Setting::SendBefore(None))
        } else {
            match number_in(value) {
                Some(minutes) => Ok(Setting::SendBefore(Some(Duration { minutes }))),
                None => Err(SetError::UnknownLeadTime),
            }
        }
    } else if name == "send-after-previous"@ {
        if value == "off"@ {
            Ok(Setting::SendAfterPrevious(false))
        } else if value == "on"@ {
            Ok(Setting::SendAfterPrevious(true))
        } else {
            Err(SetError::UnknownSwitch)
        }
    } else {
        Err(SetError::UnknownSubcommand)
    }
}

/// The reply to the words `name` and `value`: that the wish was set, or why
/// it is not understood.
pub open spec fn setting_reply(name: Seq<char>, value: Seq<char>) -> Seq<char> {
    match setting_in(name, value) {
        Ok(Setting::SendBefore(_)) => "Set `send-before` to `"@ + value + "`"@,
        Ok(Setting::SendAfterPrevious(_)) => "Set `send-after-previous` to `"@ + value + "`"@,
        Err(SetError::UnknownLeadTime) => "Error: Unknown value `"@ + value
            + "` (available values: number, `off`)"@,
        Err(SetError::UnknownSwitch) => "Error: Unknown value `"@ + value
            + "` (available values: `on`, `off`)"@,
        Err(SetError::UnknownSubcommand) => "Error: Unknown subcommand `"@ + name + "`"@,
    }
}

/// Reads the wish that two words express.
pub fn parse_setting(name: &str, value: &str) -> (setting: Result<Setting, SetError>)
    ensures
        setting == setting_in(name@, value@),
{
    if same_text(name, "send-before") {
        if same_text(value, "off") {
            Ok(Setting::SendBefore(None))
        } else {
            match parse_number(value) {
                Some(minutes) => Ok(Setting::SendBefore(Some(Duration { minutes }))),
                None => Err(SetError::UnknownLeadTime),
            }
        }
    } else if same_text(name, "send-after-previous") {
        if same_text(value, "off") {
            Ok(Setting::SendAfterPrevious(false))
        } else if same_text(value, "on") {
            Ok(Setting::SendAfterPrevious(true))
        } else {
            Err(SetError::UnknownSwitch)
        }
    } else {
        Err(SetError::UnknownSubcommand)
    }
}

/// Writes the reply to two words that express a wish.
pub fn reply_to_setting(name: &str, value: &str) -> (reply: String)
    ensures
        reply@ == setting_reply(name@, value@),
{
    let (before, word, after) = match parse_setting(name, value) {
        Ok(Setting::SendBefore(_)) => ("Set `send-before` to `", value, "`"),
        Ok(Setting::SendAfterPrevious(_)) => ("Set `send-after-previous` to `", value, "`"),
        Err(SetError::UnknownLeadTime) => (
            "Error: Unknown value `",
            value,
            "` (available values: number, `off`)",
        ),
        Err(SetError::UnknownSwitch) => (
            "Error: Unknown value `",
            value,
            "` (available values: `on`, `off`)",
        ),
        Err(SetError::UnknownSubcommand) => ("Error: Unknown subcommand `", name, "`"),
    };
    let mut reply = String::from_str(before);
    reply.append(word);
    reply.append(after);
    reply
}

/// The records after the person `id` has set a wish.
pub open spec fn with_setting(
    users: Seq<User>,
    id: u64,
    gruppe: Option<ModulGruppe>,
    setting: Setting,
) -> Seq<User> {
    match setting {
        Setting::SendBefore(value) => with_send_before(users, id, gruppe, value),
        Setting::SendAfterPrevious(value) => with_send_after(users, id, gruppe, value),
    }
}

/// Records a wish of the person `id`. Where the person has no record yet, a
/// newcomer's record with the group `gruppe` is made first.
pub fn apply_setting(users: &mut Users, id: u64, gruppe: Option<ModulGruppe>, setting: Setting)
    ensures
        final(users)@ == with_setting(old(users)@, id, gruppe, setting),
{
    match setting {
        Setting::SendBefore(value) => users.set_send_before(id, gruppe, value),
        Setting::SendAfterPrevious(value) => users.set_send_after(id, gruppe, value),
    }
}

/// How a person's wishes are shown: a card with one line for each wish.
pub open spec fn configuration_of(user: User) -> MessageView {
    MessageView {
        content: None,
        title: "Configuration"@,
        color: None,
        description: None,
        fields: seq![
            (
                "enabled"@,
                if user.enabled {
                    "true"@
                } else {
                    "false"@
                },
            ),
            (
                "send-before"@,
                match user.send_before {
                    Some(lead) => decimal(lead.minutes as nat) + "min"@,
                    None => "off"@,
                },
            ),
            (
                "send-after-previous"@,
                if user.send_after_previous {
                    "on"@
                } else {
                    "off"@
                },
            ),
        ],
    }
}

/// Shows a person's wishes.
pub fn configuration(user: &User) -> (card: Message)
    ensures
        card@ == configuration_of(*user),
{
    let enabled = if user.enabled {
        "true"
    } else {
        "false"
    };
    let send_before = match user.send_before {
        Some(lead) => {
            let mut text = decimal_text(lead.minutes);
            text.append("min");
            text
        },
        None => String::from_str("off"),
    };
    let send_after = if user.send_after_previous {
        "on"
    } else {
        "off"
    };
    let mut fields: Vec<EmbedField> = Vec::new();
    fields.push(EmbedField { name: String::from_str("enabled"), value: String::from_str(enabled) });
    fields.push(EmbedField { name: String::from_str("send-before"), value: send_before });
    fields.push(
        EmbedField {
            name: String::from_str("send-after-previous"),
            value: String::from_str(send_after),
        },
    );
    let card = Message {
        content: None,
        title: String::from_str("Configuration"),
        color: None,
        description: None,
        fields,
    };
    assert(card@.fields =~= configuration_of(*user).fields);
    card
}

} // verus!

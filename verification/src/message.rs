//! What is sent to a channel: a message with one embedded card.

use crate::calendar::Clock;
use crate::modul::EmbedColor;
use crate::modul::ModulTermin;
use crate::text::opt_text;
use crate::text::two_digit_text;
use crate::text::two_digits;
use vstd::prelude::*;
use vstd::string::StringExecFns;

verus! {

/// One named line of a card.
#[derive(Debug, PartialEq, Eq)]
pub struct EmbedField {
    pub name: String,
    pub value: String,
}

/// A message: an optional line of text above a card with a title, named
/// lines, and where it has them a colour and a description.
#[derive(Debug, PartialEq, Eq)]
pub struct Message {
    pub content: Option<String>,
    pub title: String,
    pub color: Option<EmbedColor>,
    pub description: Option<String>,
    pub fields: Vec<EmbedField>,
}

/// A message as a mathematical value.
pub struct MessageView {
    pub content: Option<Seq<char>>,
    pub title: Seq<char>,
    pub color: Option<EmbedColor>,
    pub description: Option<Seq<char>>,
    pub fields: Seq<(Seq<char>, Seq<char>)>,
}

impl View for Message {
    type V = MessageView;

    open spec fn view(&self) -> MessageView {
        MessageView {
            content: opt_text(self.content),
            title: self.title@,
            color: self.color,
            description: opt_text(self.description),
            fields: self.fields@.map_values(|f: EmbedField| (f.name@, f.value@)),
        }
    }
}

/// The German name of a weekday, counted from Monday as 0.
pub open spec fn weekday_name(weekday: int) -> Seq<char> {
    if weekday == 0 {
        "Montag"@
    } else if weekday == 1 {
        "Dienstag"@
    } else if weekday == 2 {
        "Mittwoch"@
    } else if weekday == 3 {
        "Donnerstag"@
    } else if weekday == 4 {
        "Freitag"@
    } else if weekday == 5 {
        "Samstag"@
    } else {
        "Sonntag"@
    }
}

/// A time of day as `HH:MM`.
pub open spec fn clock_text(clock: Clock) -> Seq<char> {
    two_digits(clock.hour as nat) + ":"@ + two_digits(clock.minute as nat)
}

/// When a session takes place: its weekday, and the times of day at which it
/// begins and ends.
pub open spec fn description_text(termin: ModulTermin) -> Seq<char> {
    weekday_name(termin.start_reading().weekday as int) + " "@ + clock_text(
        termin.start_reading().clock,
    ) + " - "@ + clock_text(termin.end_reading().clock)
}

/// The named lines of a card: where the course is held online, its room and
/// its remark, each present only where the course has it.
pub open spec fn fields_for(
    online: Option<Seq<char>>,
    raum: Option<Seq<char>>,
    bemerkung: Option<Seq<char>>,
) -> Seq<(Seq<char>, Seq<char>)> {
    (match online {
        Some(link) => seq![("Online"@, link)],
        None => seq![],
    }) + (match raum {
        Some(room) => seq![("Raum"@, room)],
        None => seq![],
    }) + (match bemerkung {
        Some(remark) => seq![("Bemerkung"@, remark)],
        None => seq![],
    })
}

/// The German name of a weekday, counted from Monday as 0.
pub fn weekday_text(weekday: u32) -> (name: &'static str)
    ensures
        name@ == weekday_name(weekday as int),
{
    if weekday == 0 {
        "Montag"
    } else if weekday == 1 {
        "Dienstag"
    } else if weekday == 2 {
        "Mittwoch"
    } else if weekday == 3 {
        "Donnerstag"
    } else if weekday == 4 {
        "Freitag"
    } else if weekday == 5 {
        "Samstag"
    } else {
        "Sonntag"
    }
}

/// When a session takes place, as the description of its card.
pub fn description(termin: &ModulTermin) -> (text: String)
    ensures
        text@ == description_text(*termin),
{
    let von = termin.von();
    let bis = termin.bis();
    let mut text = String::from_str(weekday_text(von.weekday));
    text.append(" ");
    text.append(two_digit_text(von.clock.hour).as_str());
    text.append(":");
    text.append(two_digit_text(von.clock.minute).as_str());
    text.append(" - ");
    text.append(two_digit_text(bis.clock.hour).as_str());
    text.append(":");
    text.append(two_digit_text(bis.clock.minute).as_str());
    assert(text@ =~= description_text(*termin));
    text
}

/// The named lines of a card.
pub fn fields(online: Option<String>, raum: Option<String>, bemerkung: Option<String>) -> (lines:
    Vec<EmbedField>)
    ensures
        lines@.map_values(|f: EmbedField| (f.name@, f.value@)) == fields_for(
            opt_text(online),
            opt_text(raum),
            opt_text(bemerkung),
        ),
{
    let ghost expected = fields_for(opt_text(online), opt_text(raum), opt_text(bemerkung));
    let mut lines: Vec<EmbedField> = Vec::new();
    if let Some(link) = online {
        lines.push(EmbedField { name: String::from_str("Online"), value: link });
    }
    if let Some(room) = raum {
        lines.push(EmbedField { name: String::from_str("Raum"), value: room });
    }
    if let Some(remark) = bemerkung {
        lines.push(EmbedField { name: String::from_str("Bemerkung"), value: remark });
    }
    assert(lines@.map_values(|f: EmbedField| (f.name@, f.value@)) =~= expected);
    lines
}

} // verus!

//! The schedule: courses, their groups and their sessions.

use crate::calendar::Civil;
use crate::calendar::Clock;
use crate::calendar::Date;
use crate::calendar::civil_at;
use crate::calendar::civil_of;
use crate::calendar::instant_at;
use crate::calendar::local_instant;
use crate::config::Config;
use crate::config::LinkData;
use crate::error::ExtractError;
use crate::error::UnknownName;
use crate::message::Message;
use crate::message::MessageView;
use crate::message::description;
use crate::message::description_text;
use crate::message::fields;
use crate::message::fields_for;
use crate::text::clone_text;
use crate::text::opt_text;
use crate::text::same_text;
use vstd::prelude::*;
use vstd::string::StringExecFns;

verus! {

/// The courses of the timetable.
#[derive(Clone, Copy, Debug, PartialEq, Eq, Structural)]
pub enum ModulTyp {
    Mathematik1,
    Programmiertechnik1,
    Softwaremodellierung,
    Digitaltechnik,
}

impl ModulTyp {
    /// The course that the timetable lists under `name`. The names are matched
    /// letter for letter.
    pub open spec fn named(name: Seq<char>) -> Option<ModulTyp> {
        if name == "AIN1 Mathematik 1"@ {
            Some(ModulTyp::Mathematik1)
        } else if name == "AIN1 Programmiertechnik1 - findet online statt"@ {
            Some(ModulTyp::Programmiertechnik1)
        } else if name == "AIN1 Softwaremodellierung"@ {
            Some(ModulTyp::Softwaremodellierung)
        } else if name == "AIN1 Digitaltechnik"@ {
            Some(ModulTyp::Digitaltechnik)
        } else {
            None
        }
    }

    /// The course's name as shown to people.
    pub open spec fn display(self) -> Seq<char> {
        match self {
            ModulTyp::Mathematik1 => "Mathematik 1"@,
            ModulTyp::Programmiertechnik1 => "Programmiertechnik 1"@,
            ModulTyp::Softwaremodellierung => "Softwaremodellierung"@,
            ModulTyp::Digitaltechnik => "Digitaltechnik"@,
        }
    }

    /// Looks a course up by the name that the timetable gives it.
    pub fn parse(input: &str) -> (typ: Result<ModulTyp, ExtractError>)
        ensures
            typ == match Self::named(input@) {
                Some(t) => Ok::<ModulTyp, ExtractError>(t),
                None => Err(ExtractError::UnknownEnumValue(UnknownName::Course)),
            },
    {
        if same_text(input, "AIN1 Mathematik 1") {
            Ok(ModulTyp::Mathematik1)
        } else if same_text(input, "AIN1 Programmiertechnik1 - findet online statt") {
            Ok(ModulTyp::Programmiertechnik1)
        } else if same_text(input, "AIN1 Softwaremodellierung") {
            Ok(ModulTyp::Softwaremodellierung)
        } else if same_text(input, "AIN1 Digitaltechnik") {
            Ok(ModulTyp::Digitaltechnik)
        } else {
            Err(ExtractError::UnknownEnumValue(UnknownName::Course))
        }
    }

    /// The course's name as shown to people.
    pub fn to_string(&self) -> (name: String)
        ensures
            name@ == self.display(),
    {
        match self {
            ModulTyp::Mathematik1 => String::from_str("Mathematik 1"),
            ModulTyp::Programmiertechnik1 => String::from_str("Programmiertechnik 1"),
            ModulTyp::Softwaremodellierung => String::from_str("Softwaremodellierung"),
            ModulTyp::Digitaltechnik => String::from_str("Digitaltechnik"),
        }
    }
}

/// The groups into which a course's audience is divided.
#[derive(Clone, Copy, Debug, PartialEq, Eq, Structural)]
pub enum ModulGruppe {
    Gruppe1,
    Gruppe2,
    Gruppe3,
    Gruppe4,
}

impl ModulGruppe {
    /// The group that the timetable lists under `name`. The names are matched
    /// letter for letter.
    pub open spec fn named(name: Seq<char>) -> Option<ModulGruppe> {
        if name == "Gruppe 1"@ {
            Some(ModulGruppe::Gruppe1)
        } else if name == "Gruppe 2"@ {
            Some(ModulGruppe::Gruppe2)
        } else if name == "Gruppe 3"@ {
            Some(ModulGruppe::Gruppe3)
        } else if name == "Gruppe 4"@ {
            Some(ModulGruppe::Gruppe4)
        } else {
            None
        }
    }

    /// The group's name as shown to people.
    pub open spec fn display(self) -> Seq<char> {
        match self {
            ModulGruppe::Gruppe1 => "Gruppe 1"@,
            ModulGruppe::Gruppe2 => "Gruppe 2"@,
            ModulGruppe::Gruppe3 => "Gruppe 3"@,
            ModulGruppe::Gruppe4 => "Gruppe 4"@,
        }
    }

    /// The word under which the group is kept in a person's record.
    pub open spec fn symbol(self) -> Seq<char> {
        match self {
            ModulGruppe::Gruppe1 => "Gruppe1"@,
            ModulGruppe::Gruppe2 => "Gruppe2"@,
            ModulGruppe::Gruppe3 => "Gruppe3"@,
            ModulGruppe::Gruppe4 => "Gruppe4"@,
        }
    }

    /// The group that is kept under `word` in a person's record.
    pub open spec fn of_symbol(word: Seq<char>) -> Option<ModulGruppe> {
        if word == "Gruppe1"@ {
            Some(ModulGruppe::Gruppe1)
        } else if word == "Gruppe2"@ {
            Some(ModulGruppe::Gruppe2)
        } else if word == "Gruppe3"@ {
            Some(ModulGruppe::Gruppe3)
        } else if word == "Gruppe4"@ {
            Some(ModulGruppe::Gruppe4)
        } else {
            None
        }
    }

    /// Reading back the word under which a group is kept gives the group.
    pub proof fn symbol_round_trip(self)
        ensures
            Self::of_symbol(self.symbol()) == Some(self),
    {
        reveal_strlit("Gruppe1");
        reveal_strlit("Gruppe2");
        reveal_strlit("Gruppe3");
        reveal_strlit("Gruppe4");
        assert("Gruppe1"@[6] == '1');
        assert("Gruppe2"@[6] == '2');
        assert("Gruppe3"@[6] == '3');
        assert("Gruppe4"@[6] == '4');
    }

    /// The word under which the group is kept in a person's record.
    pub fn as_symbol(&self) -> (word: &'static str)
        ensures
            word@ == self.symbol(),
    {
        match self {
            ModulGruppe::Gruppe1 => "Gruppe1",
            ModulGruppe::Gruppe2 => "Gruppe2",
            ModulGruppe::Gruppe3 => "Gruppe3",
            ModulGruppe::Gruppe4 => "Gruppe4",
        }
    }

    /// The group that is kept under `word` in a person's record.
    pub fn from_symbol(word: &str) -> (gruppe: Option<ModulGruppe>)
        ensures
            gruppe == Self::of_symbol(word@),
    {
        if same_text(word, "Gruppe1") {
            Some(ModulGruppe::Gruppe1)
        } else if same_text(word, "Gruppe2") {
            Some(ModulGruppe::Gruppe2)
        } else if same_text(word, "Gruppe3") {
            Some(ModulGruppe::Gruppe3)
        } else if same_text(word, "Gruppe4") {
            Some(ModulGruppe::Gruppe4)
        } else {
            None
        }
    }

    /// Looks a group up by the name that the timetable gives it.
    pub fn parse(input: &str) -> (gruppe: Result<ModulGruppe, ExtractError>)
        ensures
            gruppe == match Self::named(input@) {
                Some(g) => Ok::<ModulGruppe, ExtractError>(g),
                None => Err(ExtractError::UnknownEnumValue(UnknownName::Group)),
            },
    {
        if same_text(input, "Gruppe 1") {
            Ok(ModulGruppe::Gruppe1)
        } else if same_text(input, "Gruppe 2") {
            Ok(ModulGruppe::Gruppe2)
        } else if same_text(input, "Gruppe 3") {
            Ok(ModulGruppe::Gruppe3)
        } else if same_text(input, "Gruppe 4") {
            Ok(ModulGruppe::Gruppe4)
        } else {
            Err(ExtractError::UnknownEnumValue(UnknownName::Group))
        }
    }

    /// The group's name as shown to people.
    pub fn to_string(&self) -> (name: String)
        ensures
            name@ == self.display(),
    {
        match self {
            ModulGruppe::Gruppe1 => String::from_str("Gruppe 1"),
            ModulGruppe::Gruppe2 => String::from_str("Gruppe 2"),
            ModulGruppe::Gruppe3 => String::from_str("Gruppe 3"),
            ModulGruppe::Gruppe4 => String::from_str("Gruppe 4"),
        }
    }
}

/// Whether two optional groups are the same.
pub fn same_group(a: Option<ModulGruppe>, b: Option<ModulGruppe>) -> (same: bool)
    ensures
        same == (a == b),
{
    match (a, b) {
        (Some(x), Some(y)) => x == y,
        (None, None) => true,
        _ => false,
    }
}

/// One dated session of a course: it begins at one instant and ends at a
/// later one. Beside the two instants the session keeps what the
/// institution's clocks and calendars show at each of them.
#[derive(Clone, Copy, Debug, PartialEq, Eq, Structural)]
pub struct ModulTermin {
    beginn: i64,
    ende: i64,
    von: Civil,
    bis: Civil,
}

impl ModulTermin {
    /// A session ends after it begins, and its readings are those of its
    /// instants.
    #[verifier::type_invariant]
    pub closed spec fn valid(self) -> bool {
        &&& self.beginn < self.ende
        &&& civil_of(self.beginn as int) == Some(self.von)
        &&& civil_of(self.ende as int) == Some(self.bis)
    }

    /// The instant at which the session begins, in seconds since the Unix epoch.
    pub closed spec fn start(self) -> int {
        self.beginn as int
    }

    /// The instant at which the session ends, in seconds since the Unix epoch.
    pub closed spec fn end(self) -> int {
        self.ende as int
    }

    /// What the institution's clocks and calendars show when the session begins.
    pub closed spec fn start_reading(self) -> Civil {
        self.von
    }

    /// What the institution's clocks and calendars show when the session ends.
    pub closed spec fn end_reading(self) -> Civil {
        self.bis
    }

    /// A session is the same as another when it begins and ends at the same
    /// instants and shows the same readings.
    pub proof fn same_when_same_parts(self, other: ModulTermin)
        requires
            self.start() == other.start(),
            self.end() == other.end(),
            self.start_reading() == other.start_reading(),
            self.end_reading() == other.end_reading(),
        ensures
            self == other,
    {
    }

    /// The session that begins at the instant `start` and ends at the instant
    /// `end`, with the readings of the institution's clocks at both. It is a
    /// session only where `spans(start, end)` holds.
    pub closed spec fn between(start: int, end: int) -> ModulTermin {
        ModulTermin {
            beginn: start as i64,
            ende: end as i64,
            von: civil_of(start).unwrap(),
            bis: civil_of(end).unwrap(),
        }
    }

    /// Whether a session can begin at `start` and end at `end`: it must end
    /// after it begins, and the calendar must reach both instants.
    pub open spec fn spans(start: int, end: int) -> bool {
        &&& i64::MIN <= start < end <= i64::MAX
        &&& civil_of(start) is Some
        &&& civil_of(end) is Some
    }

    /// The session on `date` from the time of day `von` to the time of day
    /// `bis`, as the institution's clocks show them. There is none where one
    /// of the two local times does not exist or exists twice, or where the
    /// second is not after the first.
    pub open spec fn placed(date: Date, von: Clock, bis: Clock) -> Option<ModulTermin> {
        match (instant_at(date, von), instant_at(date, bis)) {
            (Some(start), Some(end)) => if Self::spans(start, end) {
                Some(Self::between(start, end))
            } else {
                None
            },
            _ => None,
        }
    }

    /// Every session ends after it begins, and shows at both instants what the
    /// institution's clocks and calendars show then.
    pub proof fn ends_after_it_begins(self)
        requires
            self.valid(),
        ensures
            self.start() < self.end(),
            civil_of(self.start()) == Some(self.start_reading()),
            civil_of(self.end()) == Some(self.end_reading()),
    {
    }

    /// What `placed` finds is a session, and runs between the two local times.
    pub proof fn placed_is_a_session(date: Date, von: Clock, bis: Clock)
        ensures
            Self::placed(date, von, bis) matches Some(t) ==> t.valid() && instant_at(date, von)
                == Some(t.start()) && instant_at(date, bis) == Some(t.end()),
    {
    }

    /// A session that `between` describes begins and ends where it says.
    pub proof fn between_keeps_instants(start: int, end: int)
        requires
            Self::spans(start, end),
        ensures
            Self::between(start, end).start() == start,
            Self::between(start, end).end() == end,
            Self::between(start, end).start_reading() == civil_of(start).unwrap(),
            Self::between(start, end).end_reading() == civil_of(end).unwrap(),
    {
    }

    /// The session from `beginn` to `ende`, both in seconds since the Unix
    /// epoch. There is none where `ende` is not after `beginn`, or where the
    /// calendar does not reach one of the two instants.
    pub fn new(beginn: i64, ende: i64) -> (termin: Option<ModulTermin>)
        ensures
            termin == (if Self::spans(beginn as int, ende as int) {
                Some(Self::between(beginn as int, ende as int))
            } else {
                None
            }),
            termin matches Some(t) ==> t.start() == beginn && t.end() == ende,
    {
        if beginn >= ende {
            return None;
        }
        match (civil_at(beginn), civil_at(ende)) {
            (Some(von), Some(bis)) => Some(ModulTermin { beginn, ende, von, bis }),
            _ => None,
        }
    }

    /// The session on `date` from the time of day `von` to the time of day
    /// `bis`, as the institution's clocks show them.
    pub fn local(date: Date, von: Clock, bis: Clock) -> (termin: Option<ModulTermin>)
        ensures
            termin == Self::placed(date, von, bis),
    {
        match (local_instant(date, von), local_instant(date, bis)) {
            (Some(beginn), Some(ende)) => Self::new(beginn, ende),
            _ => None,
        }
    }

    /// The instant at which the session begins.
    pub fn beginn(&self) -> (instant: i64)
        ensures
            instant == self.start(),
            self.valid(),
            self.start() < self.end(),
    {
        proof {
            use_type_invariant(self);
        }
        self.beginn
    }

    /// The instant at which the session ends.
    pub fn ende(&self) -> (instant: i64)
        ensures
            instant == self.end(),
            self.valid(),
            self.start() < self.end(),
    {
        proof {
            use_type_invariant(self);
        }
        self.ende
    }

    /// What the institution's clocks and calendars show when the session begins.
    pub fn von(&self) -> (reading: Civil)
        ensures
            reading == self.start_reading(),
            civil_of(self.start()) == Some(reading),
    {
        proof {
            use_type_invariant(self);
        }
        self.von
    }

    /// What the institution's clocks and calendars show when the session ends.
    pub fn bis(&self) -> (reading: Civil)
        ensures
            reading == self.end_reading(),
            civil_of(self.end()) == Some(reading),
    {
        proof {
            use_type_invariant(self);
        }
        self.bis
    }
}

/// One course of the schedule: a lecture or exercise series with its dated
/// sessions.
#[derive(Debug, PartialEq, Eq)]
pub struct Modul {
    pub typ: ModulTyp,
    /// The group that the course is held for; `None` where it is held for all.
    pub gruppe: Option<ModulGruppe>,
    pub termine: Vec<ModulTermin>,
    /// The room, or the rooms joined by `" & "`.
    pub raum: Option<String>,
    pub bemerkung: Option<String>,
}

/// A course as a mathematical value.
pub struct ModulView {
    pub typ: ModulTyp,
    pub gruppe: Option<ModulGruppe>,
    pub termine: Seq<ModulTermin>,
    pub raum: Option<Seq<char>>,
    pub bemerkung: Option<Seq<char>>,
}

impl View for Modul {
    type V = ModulView;

    open spec fn view(&self) -> ModulView {
        ModulView {
            typ: self.typ,
            gruppe: self.gruppe,
            termine: self.termine@,
            raum: opt_text(self.raum),
            bemerkung: opt_text(self.bemerkung),
        }
    }
}

/// The courses of a schedule as mathematical values.
pub open spec fn views(module: Seq<Modul>) -> Seq<ModulView> {
    module.map_values(|m: Modul| m@)
}

/// The colour under which a course is shown.
#[derive(Clone, Copy, Debug, PartialEq, Eq, Structural)]
pub enum EmbedColor {
    Blue,
    Orange,
    Purple,
    DarkGreen,
}

/// The heading of a course: its name, and its group in brackets where it has one.
pub open spec fn title_text(typ: ModulTyp, gruppe: Option<ModulGruppe>) -> Seq<char> {
    match gruppe {
        Some(g) => typ.display() + " ("@ + g.display() + ")"@,
        None => typ.display(),
    }
}

/// The colour under which a course is shown.
pub open spec fn color_of(typ: ModulTyp) -> EmbedColor {
    match typ {
        ModulTyp::Mathematik1 => EmbedColor::Blue,
        ModulTyp::Programmiertechnik1 => EmbedColor::Orange,
        ModulTyp::Softwaremodellierung => EmbedColor::Purple,
        ModulTyp::Digitaltechnik => EmbedColor::DarkGreen,
    }
}

/// The links that the configuration holds for a course.
pub open spec fn links_of(typ: ModulTyp, cfg: Config) -> LinkData {
    match typ {
        ModulTyp::Mathematik1 => cfg.links.mathematik1,
        ModulTyp::Programmiertechnik1 => cfg.links.programmiertechnik1,
        ModulTyp::Softwaremodellierung => cfg.links.softwaremodellierung,
        ModulTyp::Digitaltechnik => cfg.links.digitaltechnik,
    }
}

/// Where a course is held online: the link for exercises where the course is
/// held for one group, the link for lectures where it is held for all.
pub open spec fn online_link_of(typ: ModulTyp, gruppe: Option<ModulGruppe>, cfg: Config) -> Option<
    Seq<char>,
> {
    match gruppe {
        Some(_) => opt_text(links_of(typ, cfg).uebungen),
        None => opt_text(links_of(typ, cfg).vorlesungen),
    }
}

impl Modul {
    /// The heading of the course.
    pub fn title(&self) -> (title: String)
        ensures
            title@ == title_text(self.typ, self.gruppe),
    {
        match &self.gruppe {
            Some(gruppe) => {
                let mut title = self.typ.to_string();
                title.append(" (");
                title.append(gruppe.to_string().as_str());
                title.append(")");
                title
            },
            None => self.typ.to_string(),
        }
    }

    /// Where the course is held online, if the configuration says.
    pub fn online_link(&self, cfg: &Config) -> (link: Option<String>)
        ensures
            opt_text(link) == online_link_of(self.typ, self.gruppe, *cfg),
    {
        let link_data = match self.typ {
            ModulTyp::Mathematik1 => &cfg.links.mathematik1,
            ModulTyp::Programmiertechnik1 => &cfg.links.programmiertechnik1,
            ModulTyp::Softwaremodellierung => &cfg.links.softwaremodellierung,
            ModulTyp::Digitaltechnik => &cfg.links.digitaltechnik,
        };
        match self.gruppe {
            Some(_) => clone_text(&link_data.uebungen),
            None => clone_text(&link_data.vorlesungen),
        }
    }

    /// The colour under which the course is shown.
    pub fn embed_color(&self) -> (color: EmbedColor)
        ensures
            color == color_of(self.typ),
    {
        match self.typ {
            ModulTyp::Mathematik1 => EmbedColor::Blue,
            ModulTyp::Programmiertechnik1 => EmbedColor::Orange,
            ModulTyp::Softwaremodellierung => EmbedColor::Purple,
            ModulTyp::Digitaltechnik => EmbedColor::DarkGreen,
        }
    }
}

/// A session together with the course that it belongs to: what one message
/// is about.
#[derive(Clone, Copy, Debug)]
pub struct MessageData<'m> {
    pub modul: &'m Modul,
    pub modul_termin: &'m ModulTermin,
}

/// The message about one session of a course: the course's heading and
/// colour, the session's weekday and times, and a line each for the online
/// link, the room and the remark where the course has them.
pub open spec fn message_for(modul: Modul, termin: ModulTermin, cfg: Config) -> MessageView {
    MessageView {
        content: None,
        title: title_text(modul.typ, modul.gruppe),
        color: Some(color_of(modul.typ)),
        description: Some(description_text(termin)),
        fields: fields_for(
            online_link_of(modul.typ, modul.gruppe, cfg),
            opt_text(modul.raum),
            opt_text(modul.bemerkung),
        ),
    }
}

impl MessageData<'_> {
    /// The message about this session.
    pub fn to_create_message(&self, cfg: &Config) -> (message: Message)
        ensures
            message@ == message_for(*self.modul, *self.modul_termin, *cfg),
    {
        Message {
            content: None,
            title: self.modul.title(),
            color: Some(self.modul.embed_color()),
            description: Some(description(self.modul_termin)),
            fields: fields(
                self.modul.online_link(cfg),
                clone_text(&self.modul.raum),
                clone_text(&self.modul.bemerkung),
            ),
        }
    }
}

/// The items of `items` at the positions where `kept` holds `true`, in order.
pub open spec fn picked<T>(items: Seq<T>, kept: Seq<bool>) -> Seq<T>
    decreases items.len(),
{
    if items.len() == 0 || kept.len() != items.len() {
        Seq::empty()
    } else {
        let rest = picked(items.drop_last(), kept.drop_last());
        if kept.last() {
            rest.push(items.last())
        } else {
            rest
        }
    }
}

/// Whether `item` stands in `items` at a position where `kept` holds `true`.
pub open spec fn kept_item<T>(items: Seq<T>, kept: Seq<bool>, item: T) -> bool {
    exists|j: int| 0 <= j < items.len() && kept[j] && #[trigger] items[j] == item
}

/// What `picked` returns holds nothing but items at positions where `kept`
/// holds `true`, and every such item.
pub proof fn picked_is_exact<T>(items: Seq<T>, kept: Seq<bool>)
    requires
        kept.len() == items.len(),
    ensures
        forall|k: int|
            0 <= k < picked(items, kept).len() ==> kept_item(
                items,
                kept,
                #[trigger] picked(items, kept)[k],
            ),
        forall|j: int|
            0 <= j < items.len() && kept[j] ==> picked(items, kept).contains(#[trigger] items[j]),
    decreases items.len(),
{
    if items.len() > 0 {
        let fewer = items.drop_last();
        let rest = picked(fewer, kept.drop_last());
        let out = picked(items, kept);
        let last = items.len() - 1;
        picked_is_exact(fewer, kept.drop_last());
        assert forall|k: int| 0 <= k < out.len() implies kept_item(items, kept, #[trigger] out[k]) by {
            if k < rest.len() {
                assert(kept_item(fewer, kept.drop_last(), rest[k]));
                let j = choose|j: int|
                    0 <= j < fewer.len() && kept.drop_last()[j] && #[trigger] fewer[j] == rest[k];
                assert(kept[j] && items[j] == out[k]);
            } else {
                assert(kept[last] && items[last] == out[k]);
            }
        }
        assert forall|j: int| 0 <= j < items.len() && kept[j] implies out.contains(
            #[trigger] items[j],
        ) by {
            if j < last {
                assert(kept.drop_last()[j]);
                assert(rest.contains(fewer[j]));
                let k = choose|k: int| 0 <= k < rest.len() && rest[k] == fewer[j];
                assert(out[k] == items[j]);
            } else {
                assert(out[out.len() - 1] == items[j]);
            }
        }
    }
}

/// Whether `kept` holds, position by position, an answer that `filter` may
/// give for the session at that position.
pub open spec fn answers<F: Fn(&ModulTermin) -> bool>(
    filter: F,
    termine: Seq<ModulTermin>,
    kept: Seq<bool>,
) -> bool {
    &&& kept.len() == termine.len()
    &&& forall|i: int| 0 <= i < termine.len() ==> filter.ensures((&#[trigger] termine[i],), kept[i])
}

/// The sessions that a list of messages is about.
pub open spec fn sessions_of(found: Seq<MessageData>) -> Seq<ModulTermin> {
    found.map_values(|d: MessageData| *d.modul_termin)
}

impl Modul {
    /// The sessions of the course that `filter` lets through, in the course's
    /// order, each with the course itself.
    pub fn messages<F>(&self, filter: F) -> (found: Vec<MessageData<'_>>) where
        F: Fn(&ModulTermin) -> bool,

        requires
            forall|i: int| 0 <= i < self.termine.len() ==> filter.requires((&#[trigger] self.termine[i],)),
        ensures
            exists|kept: Seq<bool>| #[trigger]
                answers(filter, self.termine@, kept) && sessions_of(found@) == picked(
                    self.termine@,
                    kept,
                ),
            forall|k: int| 0 <= k < found.len() ==> (#[trigger] found[k]).modul == self,
    {
        let mut found: Vec<MessageData<'_>> = Vec::new();
        let ghost mut kept: Seq<bool> = Seq::empty();
        let mut i: usize = 0;
        while i < self.termine.len()
            invariant
                i <= self.termine.len(),
                forall|i: int|
                    0 <= i < self.termine.len() ==> filter.requires((&#[trigger] self.termine[i],)),
                answers(filter, self.termine@.take(i as int), kept),
                sessions_of(found@) == picked(self.termine@.take(i as int), kept),
                forall|k: int| 0 <= k < found.len() ==> (#[trigger] found[k]).modul == self,
            decreases self.termine.len() - i,
        {
            let termin = &self.termine[i];
            let keep = filter(termin);
            proof {
                let before = self.termine@.take(i as int);
                let after = self.termine@.take(i + 1);
                assert(after.drop_last() =~= before);
                assert(kept.push(keep).drop_last() =~= kept);
                assert(forall|j: int| 0 <= j < i ==> after[j] == before[j]);
                kept = kept.push(keep);
            }
            if keep {
                let ghost old_found = found@;
                found.push(MessageData { modul: self, modul_termin: termin });
                assert(sessions_of(found@) =~= sessions_of(old_found).push(*termin));
            }
            i += 1;
        }
        assert(self.termine@.take(i as int) =~= self.termine@);
        found
    }
}

} // verus!

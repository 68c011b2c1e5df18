//! Which reminders are due.
//!
//! Every decision is made from the schedule, the people's wishes and the
//! current instant alone: nothing is remembered from one cycle to the next.

use crate::calendar::Date;
use crate::calendar::civil_at;
use crate::calendar::date_of;
use crate::calendar::humanize;
use crate::calendar::phrase_for;
use crate::calendar::seconds_between;
use crate::config::Config;
use crate::config::Group;
use crate::message::Message;
use crate::message::MessageView;
use crate::modul::MessageData;
use crate::modul::Modul;
use crate::modul::ModulGruppe;
use crate::modul::ModulTermin;
use crate::modul::answers;
use crate::modul::kept_item;
use crate::modul::message_for;
use crate::modul::picked;
use crate::modul::picked_is_exact;
use crate::modul::same_group;
use crate::modul::sessions_of;
use crate::text::decimal;
use crate::text::decimal_text;
use crate::user::Roles;
use crate::user::User;
use vstd::prelude::*;
use vstd::string::StringExecFns;

verus! {

/// The minutes between two cycles.
pub const CYCLE_MINUTES: u64 = 5;

/// The seconds between two cycles.
pub const CYCLE_SECONDS: u64 = 60 * CYCLE_MINUTES;

/// A rule that picks sessions out of the schedule.
#[derive(Clone, Copy, Debug, PartialEq, Eq, Structural)]
pub enum Rule {
    /// The sessions of which the groups are reminded in their channels at the
    /// instant `now`.
    GroupChannel { now: i64 },
    /// The sessions of which a person of the group `gruppe` is reminded at the
    /// instant `now`, having asked to be reminded `minutes` minutes ahead.
    LeadTime { now: i64, minutes: u64, gruppe: Option<ModulGruppe> },
    /// The sessions that a person of the group `gruppe` can attend on the day
    /// `day`.
    OnDay { day: Option<Date>, gruppe: Option<ModulGruppe> },
    /// The sessions on the day `day` that are listed for a person who holds
    /// the roles `roles`; where `after` is given, only those that begin after
    /// that instant.
    Listed { day: Option<Date>, after: Option<i64>, roles: Roles },
}

/// Whether a course held for `gruppe` concerns a person of the group `own`:
/// a course held for all concerns everyone.
pub open spec fn visible(gruppe: Option<ModulGruppe>, own: Option<ModulGruppe>) -> bool {
    gruppe is None || gruppe == own
}

/// Whether a session that begins at `start` is due in the groups' channels at
/// `now`: it begins more than 25 and less than 30 minutes later. Instants are
/// counted in seconds, and both ends of the window are left out.
pub open spec fn group_due(now: int, start: int) -> bool {
    25 * 60 < start - now < 30 * 60
}

/// Whether a session that begins at `start` is due at `now` for a person who
/// asked to be reminded `minutes` minutes ahead: it begins less than `minutes`
/// minutes later, and more than five minutes less than that. Instants are
/// counted in seconds, and both ends of the window are left out.
pub open spec fn lead_due(now: int, minutes: int, start: int) -> bool {
    (minutes - CYCLE_MINUTES) * 60 < start - now < minutes * 60
}

/// Whether `rule` picks the session `termin` of the course `modul`.
pub open spec fn holds(rule: Rule, modul: Modul, termin: ModulTermin) -> bool {
    match rule {
        Rule::GroupChannel { now } => group_due(now as int, termin.start()),
        Rule::LeadTime { now, minutes, gruppe } => lead_due(
            now as int,
            minutes as int,
            termin.start(),
        ) && visible(modul.gruppe, gruppe),
        Rule::OnDay { day, gruppe } => day == Some(termin.start_reading().date) && visible(
            modul.gruppe,
            gruppe,
        ),
        Rule::Listed { day, after, roles } => {
            &&& day == Some(termin.start_reading().date)
            &&& after matches Some(instant) ==> termin.start() > instant
            &&& modul.gruppe matches Some(g) ==> roles.holds(g)
        },
    }
}

/// Whether a course held for `gruppe` concerns a person of the group `own`.
pub fn is_visible(gruppe: Option<ModulGruppe>, own: Option<ModulGruppe>) -> (yes: bool)
    ensures
        yes == visible(gruppe, own),
{
    gruppe.is_none() || same_group(gruppe, own)
}

/// Whether `rule` picks the session `termin` of the course `modul`.
pub fn applies(rule: &Rule, modul: &Modul, termin: &ModulTermin) -> (yes: bool)
    ensures
        yes == holds(*rule, *modul, *termin),
{
    match rule {
        Rule::GroupChannel { now } => {
            let until: i128 = termin.beginn() as i128 - *now as i128;
            25 * 60 < until && until < 30 * 60
        },
        Rule::LeadTime { now, minutes, gruppe } => {
            let until: i128 = termin.beginn() as i128 - *now as i128;
            let ahead: i128 = *minutes as i128;
            (ahead - 5) * 60 < until && until < ahead * 60 && is_visible(modul.gruppe, *gruppe)
        },
        Rule::OnDay { day, gruppe } => {
            let date = termin.von().date;
            let same_day = match day {
                Some(d) => *d == date,
                None => false,
            };
            same_day && is_visible(modul.gruppe, *gruppe)
        },
        Rule::Listed { day, after, roles } => {
            let date = termin.von().date;
            let same_day = match day {
                Some(d) => *d == date,
                None => false,
            };
            let later = match after {
                Some(instant) => termin.beginn() > *instant,
                None => true,
            };
            let shown = match modul.gruppe {
                Some(g) => roles.has(g),
                None => true,
            };
            same_day && later && shown
        },
    }
}

/// The sessions in `termine`, each with the course `modul`.
pub open spec fn messages_about<'a>(modul: &'a Modul, termine: Seq<ModulTermin>) -> Seq<
    MessageData<'a>,
> {
    Seq::new(termine.len(), |k: int| MessageData { modul: modul, modul_termin: &termine[k] })
}

/// For each session of `modul`, whether `rule` picks it.
pub open spec fn verdicts(rule: Rule, modul: Modul) -> Seq<bool> {
    Seq::new(modul.termine@.len(), |i: int| holds(rule, modul, modul.termine@[i]))
}

/// The sessions of the course `modul` that `rule` picks, in the course's order.
pub open spec fn chosen_in<'a>(rule: Rule, modul: &'a Modul) -> Seq<MessageData<'a>> {
    messages_about(modul, picked(modul.termine@, verdicts(rule, *modul)))
}

/// The sessions of the schedule that `rule` picks: course by course in the
/// schedule's order, and within a course in the course's order.
pub open spec fn chosen<'a>(rule: Rule, module: Seq<Modul>) -> Seq<MessageData<'a>>
    decreases module.len(),
{
    if module.len() == 0 {
        Seq::empty()
    } else {
        chosen(rule, module.drop_last()) + chosen_in(rule, &module.last())
    }
}

/// Whether `item` is a session of the schedule that `rule` picks, with its
/// own course.
pub open spec fn picks(rule: Rule, module: Seq<Modul>, item: MessageData) -> bool {
    exists|i: int, j: int|
        0 <= i < module.len() && 0 <= j < module[i].termine@.len() && holds(
            rule,
            module[i],
            #[trigger] module[i].termine@[j],
        ) && item == (MessageData { modul: &module[i], modul_termin: &module[i].termine@[j] })
}

/// What `chosen` returns holds nothing but sessions of the schedule that
/// `rule` picks, each with its own course, and every such session.
pub proof fn chosen_is_exact(rule: Rule, module: Seq<Modul>)
    ensures
        forall|k: int|
            0 <= k < chosen(rule, module).len() ==> picks(
                rule,
                module,
                #[trigger] chosen(rule, module)[k],
            ),
        forall|i: int, j: int|
            0 <= i < module.len() && 0 <= j < module[i].termine@.len() && holds(
                rule,
                module[i],
                #[trigger] module[i].termine@[j],
            ) ==> chosen(rule, module).contains(
                MessageData { modul: &module[i], modul_termin: &module[i].termine@[j] },
            ),
    decreases module.len(),
{
    if module.len() > 0 {
        let rest = module.drop_last();
        let course = module.last();
        let at = module.len() - 1;
        let before = chosen(rule, rest);
        let here = chosen_in(rule, &course);
        let out = chosen(rule, module);
        let sessions = picked(course.termine@, verdicts(rule, course));
        chosen_is_exact(rule, rest);
        picked_is_exact(course.termine@, verdicts(rule, course));
        assert forall|k: int| 0 <= k < out.len() implies picks(rule, module, #[trigger] out[k]) by {
            if k < before.len() {
                assert(picks(rule, rest, before[k]));
                let (i, j) = choose|i: int, j: int|
                    0 <= i < rest.len() && 0 <= j < rest[i].termine@.len() && holds(
                        rule,
                        rest[i],
                        #[trigger] rest[i].termine@[j],
                    ) && before[k] == (MessageData {
                        modul: &rest[i],
                        modul_termin: &rest[i].termine@[j],
                    });
                assert(module[i] == rest[i]);
                assert(holds(rule, module[i], module[i].termine@[j]));
            } else {
                assert(kept_item(course.termine@, verdicts(rule, course), sessions[k - before.len()]));
                let j = choose|j: int|
                    0 <= j < course.termine@.len() && verdicts(rule, course)[j]
                        && #[trigger] course.termine@[j] == sessions[k - before.len()];
                assert(out[k] == here[k - before.len()]);
                assert(holds(rule, module[at], module[at].termine@[j]));
            }
        }
        assert forall|i: int, j: int|
            0 <= i < module.len() && 0 <= j < module[i].termine@.len() && holds(
                rule,
                module[i],
                #[trigger] module[i].termine@[j],
            ) implies out.contains(
            MessageData { modul: &module[i], modul_termin: &module[i].termine@[j] },
        ) by {
            let wanted = MessageData { modul: &module[i], modul_termin: &module[i].termine@[j] };
            if i < at {
                assert(module[i] == rest[i]);
                assert(holds(rule, rest[i], rest[i].termine@[j]));
                assert(before.contains(wanted));
                let k = choose|k: int| 0 <= k < before.len() && before[k] == wanted;
                assert(out[k] == wanted);
            } else {
                assert(verdicts(rule, course)[j]);
                assert(sessions.contains(course.termine@[j]));
                let k = choose|k: int| 0 <= k < sessions.len() && sessions[k] == course.termine@[j];
                assert(here[k] == wanted);
                assert(out[before.len() + k] == wanted);
            }
        }
    }
}

/// Picks the sessions of one course.
pub fn gather_in<'a>(modul: &'a Modul, rule: Rule) -> (found: Vec<MessageData<'a>>)
    ensures
        found@ == chosen_in(rule, modul),
{
    let filter = |termin: &ModulTermin| -> (keep: bool)
        ensures
            keep == holds(rule, *modul, *termin),
        { applies(&rule, modul, termin) };
    let found = modul.messages(filter);
    proof {
        let kept = choose|kept: Seq<bool>| #[trigger]
            answers(filter, modul.termine@, kept) && sessions_of(found@) == picked(
                modul.termine@,
                kept,
            );
        assert(kept =~= verdicts(rule, *modul));
        assert(sessions_of(found@).len() == found@.len());
        assert forall|k: int| 0 <= k < found@.len() implies found@[k] == chosen_in(rule, modul)[k] by {
            assert(found[k].modul == modul);
            assert(sessions_of(found@)[k] == *found@[k].modul_termin);
        }
        assert(found@ =~= chosen_in(rule, modul));
    }
    found
}

/// Picks the sessions of the schedule.
pub fn gather<'a>(module: &'a Vec<Modul>, rule: Rule) -> (found: Vec<MessageData<'a>>)
    ensures
        found@ == chosen(rule, module@),
{
    let mut found: Vec<MessageData<'a>> = Vec::new();
    let mut i: usize = 0;
    assert(module@.take(0) =~= Seq::<Modul>::empty());
    while i < module.len()
        invariant
            i <= module.len(),
            found@ == chosen(rule, module@.take(i as int)),
        decreases module.len() - i,
    {
        let mut part = gather_in(&module[i], rule);
        proof {
            assert(module@.take(i + 1).drop_last() =~= module@.take(i as int));
            assert(module@.take(i + 1).last() == module@[i as int]);
        }
        found.append(&mut part);
        i += 1;
    }
    assert(module@.take(i as int) =~= module@);
    found
}

/// The instant at which the session of a message begins.
pub open spec fn start_of(item: MessageData) -> int {
    item.modul_termin.start()
}

/// `sorted` with `item` put in behind every item that begins no later than it.
pub open spec fn inserted<'a>(sorted: Seq<MessageData<'a>>, item: MessageData<'a>) -> Seq<
    MessageData<'a>,
>
    decreases sorted.len(),
{
    if sorted.len() == 0 {
        seq![item]
    } else if start_of(sorted.last()) <= start_of(item) {
        sorted.push(item)
    } else {
        inserted(sorted.drop_last(), item).push(sorted.last())
    }
}

/// `items` in the order in which their sessions begin; sessions that begin
/// together keep the order they had.
pub open spec fn by_start<'a>(items: Seq<MessageData<'a>>) -> Seq<MessageData<'a>>
    decreases items.len(),
{
    if items.len() == 0 {
        Seq::empty()
    } else {
        inserted(by_start(items.drop_last()), items.last())
    }
}

/// Whether the sessions of `items` begin in order.
pub open spec fn ordered(items: Seq<MessageData>) -> bool {
    forall|i: int, j: int|
        0 <= i <= j < items.len() ==> start_of(#[trigger] items[i]) <= start_of(#[trigger] items[j])
}

/// Putting an item in at the place behind the last item that begins no later
/// is what `inserted` does.
proof fn inserted_at<'a>(sorted: Seq<MessageData<'a>>, item: MessageData<'a>, p: int)
    requires
        0 <= p <= sorted.len(),
        forall|k: int| p <= k < sorted.len() ==> start_of(#[trigger] sorted[k]) > start_of(item),
        p == 0 || start_of(sorted[p - 1]) <= start_of(item),
    ensures
        inserted(sorted, item) == sorted.insert(p, item),
    decreases sorted.len() - p,
{
    if sorted.len() == 0 {
        assert(sorted.insert(p, item) =~= seq![item]);
    } else if p == sorted.len() {
        assert(sorted.insert(p, item) =~= sorted.push(item));
    } else {
        assert(start_of(sorted[sorted.len() - 1]) > start_of(item));
        inserted_at(sorted.drop_last(), item, p);
        assert(sorted.insert(p, item) =~= sorted.drop_last().insert(p, item).push(sorted.last()));
    }
}

/// Putting an item into an ordered list leaves it ordered, and adds the item
/// and nothing else.
proof fn inserted_is_sound<'a>(sorted: Seq<MessageData<'a>>, item: MessageData<'a>)
    requires
        ordered(sorted),
    ensures
        ordered(inserted(sorted, item)),
        inserted(sorted, item).to_multiset() == sorted.to_multiset().insert(item),
        inserted(sorted, item).len() == sorted.len() + 1,
    decreases sorted.len(),
{
    broadcast use vstd::seq_lib::group_to_multiset_ensures;

    if sorted.len() == 0 {
        assert(sorted =~= Seq::empty());
    } else if start_of(sorted.last()) <= start_of(item) {
        let out = sorted.push(item);
        assert forall|i: int, j: int| 0 <= i <= j < out.len() implies start_of(
            #[trigger] out[i],
        ) <= start_of(#[trigger] out[j]) by {
            if j == sorted.len() && i < sorted.len() {
                assert(start_of(sorted[i]) <= start_of(sorted[sorted.len() - 1]));
            }
        }
    } else {
        let rest = sorted.drop_last();
        assert(ordered(rest)) by {
            assert forall|i: int, j: int| 0 <= i <= j < rest.len() implies start_of(
                #[trigger] rest[i],
            ) <= start_of(#[trigger] rest[j]) by {
                assert(rest[i] == sorted[i] && rest[j] == sorted[j]);
            }
        }
        inserted_is_sound(rest, item);
        let inner = inserted(rest, item);
        let out = inner.push(sorted.last());
        assert(sorted =~= rest.push(sorted.last()));
        assert(out.to_multiset() =~= sorted.to_multiset().insert(item));
        assert forall|i: int, j: int| 0 <= i <= j < out.len() implies start_of(
            #[trigger] out[i],
        ) <= start_of(#[trigger] out[j]) by {
            if j == inner.len() && i < inner.len() {
                assert(inner.to_multiset().count(inner[i]) > 0);
                if inner[i] != item {
                    assert(rest.to_multiset().count(inner[i]) > 0);
                    let k = choose|k: int| 0 <= k < rest.len() && rest[k] == inner[i];
                    assert(start_of(sorted[k]) <= start_of(sorted[sorted.len() - 1]));
                }
            }
        }
    }
}

/// What `by_start` returns is in the order in which the sessions begin, and
/// holds the same messages as what it was given, each as often.
pub proof fn by_start_sorts<'a>(items: Seq<MessageData<'a>>)
    ensures
        ordered(by_start(items)),
        by_start(items).to_multiset() == items.to_multiset(),
        by_start(items).len() == items.len(),
    decreases items.len(),
{
    broadcast use vstd::seq_lib::group_to_multiset_ensures;

    if items.len() > 0 {
        by_start_sorts(items.drop_last());
        inserted_is_sound(by_start(items.drop_last()), items.last());
        assert(items =~= items.drop_last().push(items.last()));
    }
}

/// The items of `items` whose sessions begin at the instant `start`, in order.
pub open spec fn beginning_at<'a>(items: Seq<MessageData<'a>>, start: int) -> Seq<MessageData<'a>>
    decreases items.len(),
{
    if items.len() == 0 {
        Seq::empty()
    } else {
        let rest = beginning_at(items.drop_last(), start);
        if start_of(items.last()) == start {
            rest.push(items.last())
        } else {
            rest
        }
    }
}

/// Putting an item in leaves the items that begin at any one instant in the
/// order they had, the new item behind them.
proof fn inserted_keeps_ties<'a>(sorted: Seq<MessageData<'a>>, item: MessageData<'a>, start: int)
    ensures
        beginning_at(inserted(sorted, item), start) == if start_of(item) == start {
            beginning_at(sorted, start).push(item)
        } else {
            beginning_at(sorted, start)
        },
    decreases sorted.len(),
{
    if sorted.len() == 0 {
        assert(seq![item].drop_last() =~= sorted);
    } else if start_of(sorted.last()) <= start_of(item) {
        assert(sorted.push(item).drop_last() =~= sorted);
    } else {
        let inner = inserted(sorted.drop_last(), item);
        inserted_keeps_ties(sorted.drop_last(), item, start);
        assert(inner.push(sorted.last()).drop_last() =~= inner);
    }
}

/// Sessions that begin at the same instant keep the order they had.
pub proof fn by_start_keeps_ties<'a>(items: Seq<MessageData<'a>>, start: int)
    ensures
        beginning_at(by_start(items), start) == beginning_at(items, start),
    decreases items.len(),
{
    if items.len() > 0 {
        by_start_keeps_ties(items.drop_last(), start);
        inserted_keeps_ties(by_start(items.drop_last()), items.last(), start);
    }
}

/// Puts messages in the order in which their sessions begin; sessions that
/// begin together keep the order they had.
pub fn sort_by_start<'a>(items: Vec<MessageData<'a>>) -> (sorted: Vec<MessageData<'a>>)
    ensures
        sorted@ == by_start(items@),
{
    let mut sorted: Vec<MessageData<'a>> = Vec::new();
    let mut i: usize = 0;
    assert(items@.take(0) =~= Seq::<MessageData<'a>>::empty());
    while i < items.len()
        invariant
            i <= items.len(),
            sorted@ == by_start(items@.take(i as int)),
            sorted.len() == i,
        decreases items.len() - i,
    {
        let item = items[i];
        let start = item.modul_termin.beginn();
        let mut p: usize = sorted.len();
        while p > 0 && sorted[p - 1].modul_termin.beginn() > start
            invariant
                p <= sorted.len(),
                start == start_of(item),
                forall|k: int| p <= k < sorted.len() ==> start_of(#[trigger] sorted@[k]) > start,
            decreases p,
        {
            p -= 1;
        }
        proof {
            inserted_at(sorted@, item, p as int);
            assert(items@.take(i + 1).drop_last() =~= items@.take(i as int));
            assert(items@.take(i + 1).last() == item);
        }
        sorted.insert(p, item);
        i += 1;
    }
    assert(items@.take(i as int) =~= items@);
    sorted
}

/// Where a notification goes.
#[derive(Clone, Copy, Debug, PartialEq, Eq, Structural)]
pub enum Target {
    /// Into the channel with this id.
    Channel(u64),
    /// To the person with this id, as a direct message.
    Direct(u64),
}

/// A message on its way to a channel or to a person.
#[derive(Debug, PartialEq, Eq)]
pub struct Notification {
    pub target: Target,
    pub message: Message,
}

/// A notification as a mathematical value.
pub struct NotificationView {
    pub target: Target,
    pub message: MessageView,
}

impl View for Notification {
    type V = NotificationView;

    open spec fn view(&self) -> NotificationView {
        NotificationView { target: self.target, message: self.message@ }
    }
}

/// The notifications of a queue as mathematical values.
pub open spec fn notices(queue: Seq<Notification>) -> Seq<NotificationView> {
    queue.map_values(|n: Notification| n@)
}

/// The channel and role that the configuration gives a group.
pub open spec fn group_of(gruppe: ModulGruppe, cfg: Config) -> Group {
    match gruppe {
        ModulGruppe::Gruppe1 => cfg.discord.gruppe_1,
        ModulGruppe::Gruppe2 => cfg.discord.gruppe_2,
        ModulGruppe::Gruppe3 => cfg.discord.gruppe_3,
        ModulGruppe::Gruppe4 => cfg.discord.gruppe_4,
    }
}

/// The groups that are reminded of a course held for `gruppe`: that group, or
/// all four where the course is held for all.
pub open spec fn targets(gruppe: Option<ModulGruppe>, cfg: Config) -> Seq<Group> {
    match gruppe {
        Some(g) => seq![group_of(g, cfg)],
        None => seq![
            cfg.discord.gruppe_1,
            cfg.discord.gruppe_2,
            cfg.discord.gruppe_3,
            cfg.discord.gruppe_4,
        ],
    }
}

/// The line that calls on the holders of a role.
pub open spec fn mention(role_id: nat) -> Seq<char> {
    "<@&"@ + decimal(role_id) + ">"@
}

/// The reminder of a session in the channel of `group`: the message about the
/// session, under a line that calls on the group.
pub open spec fn group_notice(item: MessageData, group: Group, cfg: Config) -> NotificationView {
    NotificationView {
        target: Target::Channel(group.channel_id),
        message: MessageView {
            content: Some(mention(group.role_id as nat)),
            ..message_for(*item.modul, *item.modul_termin, cfg)
        },
    }
}

/// The reminders of one session in the channels of the groups it concerns.
pub open spec fn group_notices_for(item: MessageData, cfg: Config) -> Seq<NotificationView> {
    let groups = targets(item.modul.gruppe, cfg);
    Seq::new(groups.len(), |k: int| group_notice(item, groups[k], cfg))
}

/// The reminders of the sessions `items` in the groups' channels, session by
/// session.
pub open spec fn notices_to_groups(items: Seq<MessageData>, cfg: Config) -> Seq<NotificationView>
    decreases items.len(),
{
    if items.len() == 0 {
        Seq::empty()
    } else {
        notices_to_groups(items.drop_last(), cfg) + group_notices_for(items.last(), cfg)
    }
}

/// What goes into the groups' channels at `now`: a reminder of every session
/// that is due, in the order in which the sessions begin, each in the channel
/// of every group that the session's course concerns.
pub open spec fn group_notices(module: Seq<Modul>, cfg: Config, now: i64) -> Seq<NotificationView> {
    notices_to_groups(by_start(chosen(Rule::GroupChannel { now }, module)), cfg)
}

/// The direct message to a person about a session.
pub open spec fn direct_notice(id: u64, item: MessageData, cfg: Config) -> NotificationView {
    NotificationView {
        target: Target::Direct(id),
        message: message_for(*item.modul, *item.modul_termin, cfg),
    }
}

/// Whether a session that ends at `end` has just ended at `now`: it ended
/// before `now`, and less than 5 minutes before. Instants are counted in
/// seconds, and both ends of the window are left out.
pub open spec fn just_ended(now: int, end: int) -> bool {
    0 < now - end < CYCLE_MINUTES * 60
}

/// The position of the first of `items`, at or after `from`, whose session
/// has just ended.
pub open spec fn ended_from(items: Seq<MessageData>, now: int, from: int) -> Option<int>
    decreases items.len() - from,
{
    if from < 0 || from >= items.len() {
        None
    } else if just_ended(now, items[from].modul_termin.end()) {
        Some(from)
    } else {
        ended_from(items, now, from + 1)
    }
}

/// Of two candidates the one whose session begins first; the earlier
/// candidate where both begin together.
pub open spec fn earlier<'a>(best: Option<MessageData<'a>>, item: MessageData<'a>) -> MessageData<
    'a,
> {
    match best {
        Some(b) => if start_of(item) < start_of(b) {
            item
        } else {
            b
        },
        None => item,
    }
}

/// Among `items`, the one whose session begins first after the instant
/// `after`; the first such in the order of `items` where several begin
/// together.
pub open spec fn earliest_after<'a>(items: Seq<MessageData<'a>>, after: int) -> Option<
    MessageData<'a>,
>
    decreases items.len(),
{
    if items.len() == 0 {
        None
    } else {
        let best = earliest_after(items.drop_last(), after);
        if start_of(items.last()) > after {
            Some(earlier(best, items.last()))
        } else {
            best
        }
    }
}

/// The session that follows the one that has just ended, for a person of the
/// group `gruppe`: among the sessions of today that concern the person, the
/// first in the schedule's order that has just ended is looked for, and the
/// session that begins first after its end is the one that follows.
pub open spec fn follower<'a>(module: Seq<Modul>, gruppe: Option<ModulGruppe>, now: i64) -> Option<
    MessageData<'a>,
> {
    let today = chosen(Rule::OnDay { day: date_of(now as int), gruppe }, module);
    match ended_from(today, now as int, 0) {
        Some(k) => earliest_after(today, today[k].modul_termin.end()),
        None => None,
    }
}

/// The line above the message about the session that follows: how long it is
/// until the session begins.
pub open spec fn lead_phrase(now: int, start: int) -> Option<Seq<char>> {
    if i64::MIN <= start - now <= i64::MAX {
        phrase_for(start - now)
    } else {
        None
    }
}

/// The direct message to a person about the session that follows.
pub open spec fn follow_notice(id: u64, item: MessageData, cfg: Config, now: i64) -> NotificationView {
    NotificationView {
        target: Target::Direct(id),
        message: MessageView {
            content: lead_phrase(now as int, start_of(item)),
            ..message_for(*item.modul, *item.modul_termin, cfg)
        },
    }
}

/// The direct messages to a person about the sessions `items`.
pub open spec fn direct_notices(id: u64, items: Seq<MessageData>, cfg: Config) -> Seq<
    NotificationView,
> {
    Seq::new(items.len(), |k: int| direct_notice(id, items[k], cfg))
}

/// What is sent to one person at `now`. Nothing where the person has direct
/// messages switched off. Otherwise a reminder of every session that is due by
/// the person's lead time, in the schedule's order; and after them, where the
/// person asked for it and a session has just ended, a message about the
/// session that follows.
pub open spec fn user_notices(module: Seq<Modul>, cfg: Config, user: User, now: i64) -> Seq<
    NotificationView,
> {
    if !user.enabled {
        Seq::empty()
    } else {
        (match user.send_before {
            Some(lead) => direct_notices(
                user.id,
                chosen(Rule::LeadTime { now, minutes: lead.minutes, gruppe: user.gruppe }, module),
                cfg,
            ),
            None => Seq::empty(),
        }) + (if user.send_after_previous {
            match follower(module, user.gruppe, now) {
                Some(item) => seq![follow_notice(user.id, item, cfg, now)],
                None => Seq::empty(),
            }
        } else {
            Seq::empty()
        })
    }
}

/// What is sent to the people `users` at `now`, person by person.
pub open spec fn users_notices(module: Seq<Modul>, cfg: Config, users: Seq<User>, now: i64) -> Seq<
    NotificationView,
>
    decreases users.len(),
{
    if users.len() == 0 {
        Seq::empty()
    } else {
        users_notices(module, cfg, users.drop_last(), now) + user_notices(
            module,
            cfg,
            users.last(),
            now,
        )
    }
}

/// Everything that one cycle sends at `now`: first what goes into the groups'
/// channels, then what goes to each person.
pub open spec fn cycle_notices(module: Seq<Modul>, cfg: Config, users: Seq<User>, now: i64) -> Seq<
    NotificationView,
> {
    group_notices(module, cfg, now) + users_notices(module, cfg, users, now)
}

/// The groups that are reminded of a course.
pub fn targets_for(modul: &Modul, cfg: &Config) -> (groups: Vec<Group>)
    ensures
        groups@ == targets(modul.gruppe, *cfg),
{
    let mut groups: Vec<Group> = Vec::new();
    match modul.gruppe {
        Some(ModulGruppe::Gruppe1) => groups.push(cfg.discord.gruppe_1),
        Some(ModulGruppe::Gruppe2) => groups.push(cfg.discord.gruppe_2),
        Some(ModulGruppe::Gruppe3) => groups.push(cfg.discord.gruppe_3),
        Some(ModulGruppe::Gruppe4) => groups.push(cfg.discord.gruppe_4),
        None => {
            groups.push(cfg.discord.gruppe_1);
            groups.push(cfg.discord.gruppe_2);
            groups.push(cfg.discord.gruppe_3);
            groups.push(cfg.discord.gruppe_4);
        },
    }
    assert(groups@ =~= targets(modul.gruppe, *cfg));
    groups
}

/// The line that calls on the holders of a role.
pub fn mention_text(role_id: u64) -> (line: String)
    ensures
        line@ == mention(role_id as nat),
{
    let mut line = String::from_str("<@&");
    line.append(decimal_text(role_id).as_str());
    line.append(">");
    line
}

/// What goes into the groups' channels at `now`.
pub fn group_notifications(module: &Vec<Modul>, cfg: &Config, now: i64) -> (queue: Vec<
    Notification,
>)
    ensures
        notices(queue@) == group_notices(module@, *cfg, now),
{
    let due = sort_by_start(gather(module, Rule::GroupChannel { now }));
    let mut queue: Vec<Notification> = Vec::new();
    let mut i: usize = 0;
    assert(due@.take(0) =~= Seq::<MessageData>::empty());
    while i < due.len()
        invariant
            i <= due.len(),
            notices(queue@) == notices_to_groups(due@.take(i as int), *cfg),
        decreases due.len() - i,
    {
        let item = due[i];
        let groups = targets_for(item.modul, cfg);
        let ghost base = notices(queue@);
        let mut k: usize = 0;
        while k < groups.len()
            invariant
                k <= groups.len(),
                groups@ == targets(item.modul.gruppe, *cfg),
                notices(queue@) == base + group_notices_for(item, *cfg).take(k as int),
            decreases groups.len() - k,
        {
            let mut message = item.to_create_message(cfg);
            message.content = Some(mention_text(groups[k].role_id));
            let ghost before = notices(queue@);
            queue.push(Notification { target: Target::Channel(groups[k].channel_id), message });
            assert(notices(queue@) =~= before.push(group_notice(item, groups@[k as int], *cfg)));
            assert(group_notices_for(item, *cfg).take(k + 1) =~= group_notices_for(
                item,
                *cfg,
            ).take(k as int).push(group_notice(item, groups@[k as int], *cfg)));
            k += 1;
        }
        proof {
            assert(group_notices_for(item, *cfg).take(k as int) =~= group_notices_for(item, *cfg));
            assert(due@.take(i + 1).drop_last() =~= due@.take(i as int));
            assert(due@.take(i + 1).last() == item);
        }
        i += 1;
    }
    assert(due@.take(i as int) =~= due@);
    queue
}

/// The first of `items` whose session has just ended.
fn first_ended<'a>(items: &Vec<MessageData<'a>>, now: i64) -> (found: Option<usize>)
    ensures
        ended_from(items@, now as int, 0) == match found {
            Some(k) => Some(k as int),
            None => None,
        },
        found matches Some(k) ==> k < items.len(),
{
    let mut i: usize = 0;
    while i < items.len()
        invariant
            i <= items.len(),
            ended_from(items@, now as int, 0) == ended_from(items@, now as int, i as int),
        decreases items.len() - i,
    {
        let ago: i128 = now as i128 - items[i].modul_termin.ende() as i128;
        if 0 < ago && ago < 5 * 60 {
            return Some(i);
        }
        i += 1;
    }
    None
}

/// Among `items`, the one whose session begins first after `after`.
fn first_after<'a>(items: &Vec<MessageData<'a>>, after: i64) -> (best: Option<MessageData<'a>>)
    ensures
        best == earliest_after(items@, after as int),
{
    let mut best: Option<MessageData<'a>> = None;
    let mut i: usize = 0;
    assert(items@.take(0) =~= Seq::<MessageData<'a>>::empty());
    while i < items.len()
        invariant
            i <= items.len(),
            best == earliest_after(items@.take(i as int), after as int),
        decreases items.len() - i,
    {
        let item = items[i];
        proof {
            assert(items@.take(i + 1).drop_last() =~= items@.take(i as int));
            assert(items@.take(i + 1).last() == item);
        }
        if item.modul_termin.beginn() > after {
            best = match best {
                Some(b) => if item.modul_termin.beginn() < b.modul_termin.beginn() {
                    Some(item)
                } else {
                    Some(b)
                },
                None => Some(item),
            };
        }
        i += 1;
    }
    assert(items@.take(i as int) =~= items@);
    best
}

/// The session that follows the one that has just ended, for a person of the
/// group `gruppe`.
pub fn following<'a>(module: &'a Vec<Modul>, gruppe: Option<ModulGruppe>, now: i64) -> (next:
    Option<MessageData<'a>>)
    ensures
        next == follower(module@, gruppe, now),
{
    let day = match civil_at(now) {
        Some(reading) => Some(reading.date),
        None => None,
    };
    let today = gather(module, Rule::OnDay { day, gruppe });
    match first_ended(&today, now) {
        Some(k) => first_after(&today, today[k].modul_termin.ende()),
        None => None,
    }
}

/// What is sent to one person at `now`.
pub fn user_notifications(module: &Vec<Modul>, cfg: &Config, user: &User, now: i64) -> (queue:
    Vec<Notification>)
    ensures
        notices(queue@) == user_notices(module@, *cfg, *user, now),
{
    let mut queue: Vec<Notification> = Vec::new();
    if !user.enabled {
        assert(notices(queue@) =~= Seq::<NotificationView>::empty());
        return queue;
    }
    let ghost lead_part = match user.send_before {
        Some(lead) => direct_notices(
            user.id,
            chosen(Rule::LeadTime { now, minutes: lead.minutes, gruppe: user.gruppe }, module@),
            *cfg,
        ),
        None => Seq::empty(),
    };
    if let Some(lead) = user.send_before {
        let due = gather(
            module,
            Rule::LeadTime { now, minutes: lead.minutes, gruppe: user.gruppe },
        );
        let mut i: usize = 0;
        while i < due.len()
            invariant
                i <= due.len(),
                lead_part == direct_notices(user.id, due@, *cfg),
                notices(queue@) == lead_part.take(i as int),
            decreases due.len() - i,
        {
            let message = due[i].to_create_message(cfg);
            let ghost before = notices(queue@);
            queue.push(Notification { target: Target::Direct(user.id), message });
            assert(notices(queue@) =~= before.push(direct_notice(user.id, due@[i as int], *cfg)));
            assert(lead_part.take(i + 1) =~= lead_part.take(i as int).push(
                direct_notice(user.id, due@[i as int], *cfg),
            ));
            i += 1;
        }
        assert(lead_part.take(i as int) =~= lead_part);
    }
    assert(notices(queue@) =~= lead_part);
    if user.send_after_previous {
        if let Some(item) = following(module, user.gruppe, now) {
            let mut message = item.to_create_message(cfg);
            message.content = match seconds_between(now, item.modul_termin.beginn()) {
                Some(seconds) => humanize(seconds),
                None => None,
            };
            queue.push(Notification { target: Target::Direct(user.id), message });
            assert(notices(queue@) =~= lead_part + seq![follow_notice(user.id, item, *cfg, now)]);
        } else {
            assert(notices(queue@) =~= lead_part + Seq::<NotificationView>::empty());
        }
    } else {
        assert(notices(queue@) =~= lead_part + Seq::<NotificationView>::empty());
    }
    queue
}

/// Everything that one cycle sends at `now`.
pub fn cycle(module: &Vec<Modul>, cfg: &Config, users: &Vec<User>, now: i64) -> (queue: Vec<
    Notification,
>)
    ensures
        notices(queue@) == cycle_notices(module@, *cfg, users@, now),
{
    let mut queue = group_notifications(module, cfg, now);
    let ghost groups_part = notices(queue@);
    let mut i: usize = 0;
    assert(users@.take(0) =~= Seq::<User>::empty());
    assert(notices(queue@) =~= groups_part + Seq::<NotificationView>::empty());
    while i < users.len()
        invariant
            i <= users.len(),
            groups_part == group_notices(module@, *cfg, now),
            notices(queue@) == groups_part + users_notices(
                module@,
                *cfg,
                users@.take(i as int),
                now,
            ),
        decreases users.len() - i,
    {
        let mut part = user_notifications(module, cfg, &users[i], now);
        let ghost before = notices(queue@);
        let ghost added = notices(part@);
        queue.append(&mut part);
        proof {
            assert(notices(queue@) =~= before + added);
            assert(users@.take(i + 1).drop_last() =~= users@.take(i as int));
            assert(users@.take(i + 1).last() == users@[i as int]);
            assert(before + added =~= groups_part + (users_notices(
                module@,
                *cfg,
                users@.take(i as int),
                now,
            ) + added));
        }
        i += 1;
    }
    assert(users@.take(i as int) =~= users@);
    queue
}

/// A shift by a whole number of cycles, other than none, is a shift by at
/// least one cycle.
proof fn shift_is_a_cycle_or_more(cycles: int)
    requires
        cycles != 0,
    ensures
        cycles * CYCLE_SECONDS >= 300 || cycles * CYCLE_SECONDS <= -300,
{
    assert(CYCLE_SECONDS == 300);
    assert(cycles >= 1 ==> cycles * 300 >= 300) by (nonlinear_arith);
    assert(cycles <= -1 ==> cycles * 300 <= -300) by (nonlinear_arith);
}

/// A session is due in the groups' channels in at most one of the cycles that
/// run five minutes apart.
pub proof fn group_reminder_fires_once(start: int, now: int, cycles: int)
    requires
        cycles != 0,
    ensures
        !(group_due(now, start) && group_due(now + cycles * CYCLE_SECONDS, start)),
{
    shift_is_a_cycle_or_more(cycles);
}

/// A session is due for a person's lead time in at most one of the cycles
/// that run five minutes apart.
pub proof fn lead_reminder_fires_once(start: int, now: int, minutes: int, cycles: int)
    requires
        cycles != 0,
    ensures
        !(lead_due(now, minutes, start) && lead_due(now + cycles * CYCLE_SECONDS, minutes, start)),
{
    shift_is_a_cycle_or_more(cycles);
}

/// A session has just ended in at most one of the cycles that run five minutes
/// apart.
pub proof fn end_is_seen_once(end: int, now: int, cycles: int)
    requires
        cycles != 0,
    ensures
        !(just_ended(now, end) && just_ended(now + cycles * CYCLE_SECONDS, end)),
{
    shift_is_a_cycle_or_more(cycles);
}

/// Where one cycle finds a session 30 minutes away or more, and the cycle five
/// minutes later finds it less than 30 minutes away, that later cycle finds it
/// due in the groups' channels, unless it is then 25 minutes away to the
/// second.
pub proof fn group_reminder_is_not_missed(start: int, now: int)
    requires
        start - now >= 30 * 60,
        start - (now + CYCLE_SECONDS) < 30 * 60,
        start - (now + CYCLE_SECONDS) != 25 * 60,
    ensures
        group_due(now + CYCLE_SECONDS, start),
{
}

/// What `ended_from` finds is the first item at or after `from` whose session
/// has just ended; where it finds none, there is none.
pub proof fn ended_from_is_first(items: Seq<MessageData>, now: int, from: int)
    requires
        0 <= from,
    ensures
        match ended_from(items, now, from) {
            Some(k) => from <= k < items.len() && just_ended(now, items[k].modul_termin.end())
                && forall|j: int|
                from <= j < k ==> !just_ended(now, (#[trigger] items[j]).modul_termin.end()),
            None => forall|j: int|
                from <= j < items.len() ==> !just_ended(
                    now,
                    (#[trigger] items[j]).modul_termin.end(),
                ),
        },
    decreases items.len() - from,
{
    if from < items.len() && !just_ended(now, items[from].modul_termin.end()) {
        ended_from_is_first(items, now, from + 1);
    }
}

/// What `earliest_after` finds is one of the items, begins after the instant
/// asked for, and begins no later than any other item that does; where it
/// finds none, no item begins after that instant.
pub proof fn earliest_after_is_earliest<'a>(items: Seq<MessageData<'a>>, after: int)
    ensures
        match earliest_after(items, after) {
            Some(best) => items.contains(best) && start_of(best) > after && forall|k: int|
                0 <= k < items.len() && start_of(#[trigger] items[k]) > after ==> start_of(best)
                    <= start_of(items[k]),
            None => forall|k: int| 0 <= k < items.len() ==> start_of(#[trigger] items[k]) <= after,
        },
    decreases items.len(),
{
    if items.len() > 0 {
        let rest = items.drop_last();
        earliest_after_is_earliest(rest, after);
        match earliest_after(rest, after) {
            Some(b) => {
                let k = choose|k: int| 0 <= k < rest.len() && rest[k] == b;
                assert(items[k] == b);
            },
            None => {},
        }
        assert(items[items.len() - 1] == items.last());
        assert forall|k: int| 0 <= k < rest.len() implies rest[k] == items[k] by {}
    }
}

} // verus!

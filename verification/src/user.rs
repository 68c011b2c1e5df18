//! The people who asked for direct messages, and what each of them asked for.

use crate::modul::ModulGruppe;
use crate::text::opt_text;
use vstd::prelude::*;
use vstd::string::StringExecFns;

verus! {

/// A number of minutes.
#[derive(Clone, Copy, Debug, PartialEq, Eq, Structural)]
pub struct Duration {
    pub minutes: u64,
}

/// What one person asked for.
#[derive(Clone, Copy, Debug, PartialEq, Eq, Structural)]
pub struct User {
    /// The person's id on the chat server.
    pub id: u64,
    /// The group that the person belongs to, found when the person first
    /// asked for anything.
    pub gruppe: Option<ModulGruppe>,
    /// Whether the person wants direct messages at all.
    pub enabled: bool,
    /// How long before a session the person wants to be reminded of it.
    pub send_before: Option<Duration>,
    /// Whether the person wants to be told of the next session when one ends.
    pub send_after_previous: bool,
}

/// The roles of the four groups that a person holds on the chat server.
#[derive(Clone, Copy, Debug, PartialEq, Eq, Structural)]
pub struct Roles {
    pub gruppe_1: bool,
    pub gruppe_2: bool,
    pub gruppe_3: bool,
    pub gruppe_4: bool,
}

impl Roles {
    /// Whether the person holds the role of `gruppe`.
    pub open spec fn holds(self, gruppe: ModulGruppe) -> bool {
        match gruppe {
            ModulGruppe::Gruppe1 => self.gruppe_1,
            ModulGruppe::Gruppe2 => self.gruppe_2,
            ModulGruppe::Gruppe3 => self.gruppe_3,
            ModulGruppe::Gruppe4 => self.gruppe_4,
        }
    }

    /// The group that the person belongs to: the first of the four whose role
    /// the person holds.
    pub open spec fn group(self) -> Option<ModulGruppe> {
        if self.gruppe_1 {
            Some(ModulGruppe::Gruppe1)
        } else if self.gruppe_2 {
            Some(ModulGruppe::Gruppe2)
        } else if self.gruppe_3 {
            Some(ModulGruppe::Gruppe3)
        } else if self.gruppe_4 {
            Some(ModulGruppe::Gruppe4)
        } else {
            None
        }
    }

    /// Whether the person holds the role of `gruppe`.
    pub fn has(&self, gruppe: ModulGruppe) -> (yes: bool)
        ensures
            yes == self.holds(gruppe),
    {
        match gruppe {
            ModulGruppe::Gruppe1 => self.gruppe_1,
            ModulGruppe::Gruppe2 => self.gruppe_2,
            ModulGruppe::Gruppe3 => self.gruppe_3,
            ModulGruppe::Gruppe4 => self.gruppe_4,
        }
    }

    /// The group that the person belongs to.
    pub fn gruppe(&self) -> (gruppe: Option<ModulGruppe>)
        ensures
            gruppe == self.group(),
    {
        if self.gruppe_1 {
            Some(ModulGruppe::Gruppe1)
        } else if self.gruppe_2 {
            Some(ModulGruppe::Gruppe2)
        } else if self.gruppe_3 {
            Some(ModulGruppe::Gruppe3)
        } else if self.gruppe_4 {
            Some(ModulGruppe::Gruppe4)
        } else {
            None
        }
    }
}

/// The minutes ahead of a session at which a person is reminded who has not
/// said otherwise.
pub const DEFAULT_LEAD_MINUTES: u64 = 30;

/// What is recorded for a person who asks for something for the first time:
/// no direct messages yet, a reminder half an hour ahead, no message about the
/// session that follows.
pub open spec fn newcomer(id: u64, gruppe: Option<ModulGruppe>) -> User {
    User {
        id,
        gruppe,
        enabled: false,
        send_before: Some(Duration { minutes: DEFAULT_LEAD_MINUTES }),
        send_after_previous: false,
    }
}

/// The position of the first record at or after `from` for the person `id`.
pub open spec fn record_from(users: Seq<User>, id: u64, from: int) -> Option<int>
    decreases users.len() - from,
{
    if from < 0 || from >= users.len() {
        None
    } else if users[from].id == id {
        Some(from)
    } else {
        record_from(users, id, from + 1)
    }
}

/// The position of the first record for the person `id`.
pub open spec fn record_of(users: Seq<User>, id: u64) -> Option<int> {
    record_from(users, id, 0)
}

/// The records with one for the person `id` among them: as they are where the
/// person has a record, with a newcomer's record at the end where not.
pub open spec fn with_record(users: Seq<User>, id: u64, gruppe: Option<ModulGruppe>) -> Seq<User> {
    match record_of(users, id) {
        Some(_) => users,
        None => users.push(newcomer(id, gruppe)),
    }
}

/// The records after the person `id` has switched direct messages on.
pub open spec fn enabled(users: Seq<User>, id: u64, gruppe: Option<ModulGruppe>) -> Seq<User> {
    let all = with_record(users, id, gruppe);
    let k = record_of(all, id).unwrap();
    all.update(k, User { enabled: true, ..all[k] })
}

/// The records after the person `id` has switched direct messages off.
pub open spec fn disabled(users: Seq<User>, id: u64) -> Seq<User> {
    match record_of(users, id) {
        Some(k) => users.update(k, User { enabled: false, ..users[k] }),
        None => users,
    }
}

/// The records after the person `id` has had the record removed.
pub open spec fn removed(users: Seq<User>, id: u64) -> Seq<User> {
    match record_of(users, id) {
        Some(k) => users.remove(k),
        None => users,
    }
}

/// The records after the person `id` has chosen a lead time, or none.
pub open spec fn with_send_before(
    users: Seq<User>,
    id: u64,
    gruppe: Option<ModulGruppe>,
    value: Option<Duration>,
) -> Seq<User> {
    let all = with_record(users, id, gruppe);
    let k = record_of(all, id).unwrap();
    all.update(k, User { send_before: value, ..all[k] })
}

/// The records after the person `id` has chosen whether to be told of the
/// session that follows.
pub open spec fn with_send_after(
    users: Seq<User>,
    id: u64,
    gruppe: Option<ModulGruppe>,
    value: bool,
) -> Seq<User> {
    let all = with_record(users, id, gruppe);
    let k = record_of(all, id).unwrap();
    all.update(k, User { send_after_previous: value, ..all[k] })
}

/// What `record_from` finds is the first record of the person at or after
/// `from`; where it finds none, there is none.
pub proof fn record_from_is_first(users: Seq<User>, id: u64, from: int)
    requires
        0 <= from,
    ensures
        match record_from(users, id, from) {
            Some(k) => from <= k < users.len() && users[k].id == id && forall|j: int|
                from <= j < k ==> (#[trigger] users[j]).id != id,
            None => forall|j: int| from <= j < users.len() ==> (#[trigger] users[j]).id != id,
        },
    decreases users.len() - from,
{
    if from < users.len() && users[from].id != id {
        record_from_is_first(users, id, from + 1);
    }
}

/// Among records that have one for the person, `with_record` changes nothing;
/// in any case the person has a record afterwards.
pub proof fn with_record_has_record(users: Seq<User>, id: u64, gruppe: Option<ModulGruppe>)
    ensures
        record_of(with_record(users, id, gruppe), id) is Some,
        record_of(with_record(users, id, gruppe), id) == match record_of(users, id) {
            Some(k) => Some(k),
            None => Some(users.len() as int),
        },
{
    record_from_is_first(users, id, 0);
    record_from_is_first(with_record(users, id, gruppe), id, 0);
    if record_of(users, id) is None {
        let all = users.push(newcomer(id, gruppe));
        assert(all[users.len() as int].id == id);
        assert forall|j: int| 0 <= j < users.len() implies (#[trigger] all[j]).id != id by {
            assert(all[j] == users[j]);
        }
    }
}

/// The people who asked for direct messages, in the order in which they first
/// asked.
pub struct Users {
    users: Vec<User>,
}

impl View for Users {
    type V = Seq<User>;

    closed spec fn view(&self) -> Seq<User> {
        self.users@
    }
}

impl Users {
    /// The store that holds the records `users`.
    pub fn new(users: Vec<User>) -> (store: Users)
        ensures
            store@ == users@,
    {
        Users { users }
    }

    /// Replaces the records by `users`, as read anew.
    pub fn refresh(&mut self, users: Vec<User>)
        ensures
            final(self)@ == users@,
    {
        self.users = users;
    }

    /// All records.
    pub fn get_all(&self) -> (all: &[User])
        ensures
            all@ == self@,
    {
        self.users.as_slice()
    }

    /// The position of the first record for the person `user_id`.
    pub fn position(&self, user_id: u64) -> (at: Option<usize>)
        ensures
            record_of(self@, user_id) == match at {
                Some(k) => Some(k as int),
                None => None,
            },
            at matches Some(k) ==> k < self@.len() && self@[k as int].id == user_id,
    {
        let mut i: usize = 0;
        while i < self.users.len()
            invariant
                i <= self.users.len(),
                record_of(self@, user_id) == record_from(self@, user_id, i as int),
            decreases self.users.len() - i,
        {
            if self.users[i].id == user_id {
                return Some(i);
            }
            i += 1;
        }
        None
    }

    /// The record for the person `user_id`, if there is one.
    pub fn get(&self, user_id: u64) -> (user: Option<&User>)
        ensures
            match user {
                Some(u) => record_of(self@, user_id) is Some && *u == self@[record_of(
                    self@,
                    user_id,
                ).unwrap()],
                None => record_of(self@, user_id) is None,
            },
    {
        match self.position(user_id) {
            Some(k) => Some(&self.users[k]),
            None => None,
        }
    }

    /// The position of the record for the person `user_id`, after a
    /// newcomer's record has been added where the person had none.
    fn get_or_add(&mut self, user_id: u64, gruppe: Option<ModulGruppe>) -> (at: usize)
        ensures
            final(self)@ == with_record(old(self)@, user_id, gruppe),
            record_of(final(self)@, user_id) == Some(at as int),
            at < final(self)@.len(),
    {
        proof {
            with_record_has_record(self@, user_id, gruppe);
        }
        match self.position(user_id) {
            Some(k) => k,
            None => {
                self.users.push(
                    User {
                        id: user_id,
                        gruppe,
                        enabled: false,
                        send_before: Some(Duration { minutes: DEFAULT_LEAD_MINUTES }),
                        send_after_previous: false,
                    },
                );
                self.users.len() - 1
            },
        }
    }

    /// Switches direct messages on for the person `user_id`. Where the person
    /// has no record yet, a newcomer's record with the group `gruppe` is made
    /// first.
    pub fn enable(&mut self, user_id: u64, gruppe: Option<ModulGruppe>)
        ensures
            final(self)@ == enabled(old(self)@, user_id, gruppe),
    {
        let k = self.get_or_add(user_id, gruppe);
        let mut user = self.users[k];
        user.enabled = true;
        self.users.set(k, user);
    }

    /// Switches direct messages off for the person `user_id`. Nothing changes
    /// where the person has no record.
    pub fn disable(&mut self, user_id: u64)
        ensures
            final(self)@ == disabled(old(self)@, user_id),
    {
        if let Some(k) = self.position(user_id) {
            let mut user = self.users[k];
            user.enabled = false;
            self.users.set(k, user);
        }
    }

    /// Removes the record of the person `user_id`. Nothing changes where the
    /// person has no record.
    pub fn remove(&mut self, user_id: u64)
        ensures
            final(self)@ == removed(old(self)@, user_id),
    {
        if let Some(k) = self.position(user_id) {
            self.users.remove(k);
        }
    }

    /// Sets the lead time of the person `user_id`, or switches reminders ahead
    /// of a session off with `None`. Where the person has no record yet, a
    /// newcomer's record with the group `gruppe` is made first.
    pub fn set_send_before(
        &mut self,
        user_id: u64,
        gruppe: Option<ModulGruppe>,
        value: Option<Duration>,
    )
        ensures
            final(self)@ == with_send_before(old(self)@, user_id, gruppe, value),
    {
        let k = self.get_or_add(user_id, gruppe);
        let mut user = self.users[k];
        user.send_before = value;
        self.users.set(k, user);
    }

    /// Sets whether the person `user_id` is told of the session that follows.
    /// Where the person has no record yet, a newcomer's record with the group
    /// `gruppe` is made first.
    pub fn set_send_after(&mut self, user_id: u64, gruppe: Option<ModulGruppe>, value: bool)
        ensures
            final(self)@ == with_send_after(old(self)@, user_id, gruppe, value),
    {
        let k = self.get_or_add(user_id, gruppe);
        let mut user = self.users[k];
        user.send_after_previous = value;
        self.users.set(k, user);
    }
}

/// One person's wishes as they are kept in the store's file: the group as a
/// word, the lead time as a number of minutes.
#[derive(Clone, Debug, PartialEq, Eq)]
pub struct Record {
    pub id: u64,
    pub gruppe: Option<String>,
    pub enabled: bool,
    pub send_before: Option<u64>,
    pub send_after_previous: bool,
}

/// A record as a mathematical value.
pub struct RecordView {
    pub id: u64,
    pub gruppe: Option<Seq<char>>,
    pub enabled: bool,
    pub send_before: Option<u64>,
    pub send_after_previous: bool,
}

impl View for Record {
    type V = RecordView;

    open spec fn view(&self) -> RecordView {
        RecordView {
            id: self.id,
            gruppe: opt_text(self.gruppe),
            enabled: self.enabled,
            send_before: self.send_before,
            send_after_previous: self.send_after_previous,
        }
    }
}

/// The record that is kept for a person's wishes: field for field, with the
/// group as its word and the lead time as its minutes; what is absent stays
/// absent.
pub open spec fn written(user: User) -> RecordView {
    RecordView {
        id: user.id,
        gruppe: match user.gruppe {
            Some(g) => Some(g.symbol()),
            None => None,
        },
        enabled: user.enabled,
        send_before: match user.send_before {
            Some(lead) => Some(lead.minutes),
            None => None,
        },
        send_after_previous: user.send_after_previous,
    }
}

/// The wishes that a record holds. There are none where the record names a
/// group by a word that stands for no group.
pub open spec fn read_back(record: RecordView) -> Option<User> {
    match record.gruppe {
        Some(word) => match ModulGruppe::of_symbol(word) {
            Some(g) => Some(
                User {
                    id: record.id,
                    gruppe: Some(g),
                    enabled: record.enabled,
                    send_before: match record.send_before {
                        Some(minutes) => Some(Duration { minutes }),
                        None => None,
                    },
                    send_after_previous: record.send_after_previous,
                },
            ),
            None => None,
        },
        None => Some(
            User {
                id: record.id,
                gruppe: None,
                enabled: record.enabled,
                send_before: match record.send_before {
                    Some(minutes) => Some(Duration { minutes }),
                    None => None,
                },
                send_after_previous: record.send_after_previous,
            },
        ),
    }
}

/// The records as mathematical values.
pub open spec fn record_views(records: Seq<Record>) -> Seq<RecordView> {
    records.map_values(|r: Record| r@)
}

/// The records that are kept for the wishes `users`, in their order.
pub open spec fn written_all(users: Seq<User>) -> Seq<RecordView> {
    users.map_values(|u: User| written(u))
}

/// The wishes that the records hold, in their order. There are none where one
/// of the records holds none.
pub open spec fn read_all(records: Seq<RecordView>) -> Option<Seq<User>>
    decreases records.len(),
{
    if records.len() == 0 {
        Some(Seq::empty())
    } else {
        match (read_all(records.drop_last()), read_back(records.last())) {
            (Some(before), Some(user)) => Some(before.push(user)),
            _ => None,
        }
    }
}

/// What is kept for a person's wishes is read back as the same wishes, field
/// for field, with what is absent still absent.
pub proof fn record_round_trip(user: User)
    ensures
        read_back(written(user)) == Some(user),
{
    if let Some(g) = user.gruppe {
        g.symbol_round_trip();
    }
}

/// What is kept for the wishes of all people is read back as the same wishes
/// in the same order.
pub proof fn records_round_trip(users: Seq<User>)
    ensures
        read_all(written_all(users)) == Some(users),
    decreases users.len(),
{
    if users.len() > 0 {
        records_round_trip(users.drop_last());
        record_round_trip(users.last());
        assert(written_all(users).drop_last() =~= written_all(users.drop_last()));
        assert(users.drop_last().push(users.last()) =~= users);
    } else {
        assert(users =~= Seq::empty());
    }
}

/// Once the records up to a position hold no wishes, no longer list does.
proof fn unread_stays_unread(records: Seq<RecordView>, upto: int)
    requires
        0 <= upto <= records.len(),
        read_all(records.take(upto)) is None,
    ensures
        read_all(records) is None,
    decreases records.len() - upto,
{
    if upto < records.len() {
        assert(records.take(upto + 1).drop_last() =~= records.take(upto));
        unread_stays_unread(records, upto + 1);
    } else {
        assert(records.take(upto) =~= records);
    }
}

impl User {
    /// The record that is kept for these wishes.
    pub fn to_record(&self) -> (record: Record)
        ensures
            record@ == written(*self),
    {
        Record {
            id: self.id,
            gruppe: match self.gruppe {
                Some(g) => Some(String::from_str(g.as_symbol())),
                None => None,
            },
            enabled: self.enabled,
            send_before: match self.send_before {
                Some(lead) => Some(lead.minutes),
                None => None,
            },
            send_after_previous: self.send_after_previous,
        }
    }

    /// The wishes that a record holds; none where the record names a group by
    /// a word that stands for no group.
    pub fn from_record(record: &Record) -> (user: Option<User>)
        ensures
            user == read_back(record@),
    {
        let gruppe = match &record.gruppe {
            Some(word) => match ModulGruppe::from_symbol(word.as_str()) {
                Some(g) => Some(g),
                None => {
                    return None;
                },
            },
            None => None,
        };
        Some(
            User {
                id: record.id,
                gruppe,
                enabled: record.enabled,
                send_before: match record.send_before {
                    Some(minutes) => Some(Duration { minutes }),
                    None => None,
                },
                send_after_previous: record.send_after_previous,
            },
        )
    }
}

impl Users {
    /// The records that are kept for all wishes, in their order.
    pub fn records(&self) -> (records: Vec<Record>)
        ensures
            record_views(records@) == written_all(self@),
    {
        let mut records: Vec<Record> = Vec::new();
        let mut i: usize = 0;
        while i < self.users.len()
            invariant
                i <= self.users.len(),
                record_views(records@) == written_all(self@.take(i as int)),
            decreases self.users.len() - i,
        {
            let ghost before = record_views(records@);
            records.push(self.users[i].to_record());
            assert(record_views(records@) =~= before.push(written(self@[i as int])));
            assert(written_all(self@.take(i + 1)) =~= written_all(self@.take(i as int)).push(
                written(self@[i as int]),
            ));
            i += 1;
        }
        assert(self@.take(i as int) =~= self@);
        records
    }

    /// The wishes that the records of a file hold, in their order; none where
    /// one of the records names a group by a word that stands for no group.
    pub fn read(records: &Vec<Record>) -> (users: Option<Vec<User>>)
        ensures
            read_all(record_views(records@)) == match users {
                Some(u) => Some(u@),
                None => None,
            },
    {
        let ghost all = record_views(records@);
        let mut users: Vec<User> = Vec::new();
        let mut i: usize = 0;
        assert(all.take(0) =~= Seq::<RecordView>::empty());
        while i < records.len()
            invariant
                i <= records.len(),
                all == record_views(records@),
                read_all(all.take(i as int)) == Some(users@),
            decreases records.len() - i,
        {
            assert(all.take(i + 1).drop_last() =~= all.take(i as int));
            assert(all.take(i + 1).last() == records@[i as int]@);
            match User::from_record(&records[i]) {
                Some(user) => {
                    users.push(user);
                },
                None => {
                    proof {
                        unread_stays_unread(all, i + 1);
                    }
                    return None;
                },
            }
            i += 1;
        }
        assert(all.take(i as int) =~= all);
        Some(users)
    }
}

} // verus!

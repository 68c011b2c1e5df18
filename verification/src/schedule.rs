//! Building a schedule from raw timetable entries: two entries for the same
//! course, group and sessions become one course whose rooms are joined.

use crate::modul::Modul;
use crate::modul::ModulGruppe;
use crate::modul::ModulTermin;
use crate::modul::ModulView;
use crate::modul::same_group;
use crate::modul::views;
use vstd::prelude::*;
use vstd::string::StringExecFns;

verus! {

/// Whether two lists hold the same sessions, in whatever order.
pub open spec fn same_sessions(a: Seq<ModulTermin>, b: Seq<ModulTermin>) -> bool {
    forall|t: ModulTermin| a.contains(t) <==> b.contains(t)
}

/// Whether two entries stand for the same course: the same kind, the same
/// group and the same sessions.
pub open spec fn same_slot(a: ModulView, b: ModulView) -> bool {
    &&& a.typ == b.typ
    &&& a.gruppe == b.gruppe
    &&& same_sessions(a.termine, b.termine)
}

/// The first position at or after `from` of a course that stands for the same
/// course as `entry`.
pub open spec fn slot_from(module: Seq<ModulView>, entry: ModulView, from: int) -> Option<int>
    decreases module.len() - from,
{
    if from < 0 || from >= module.len() {
        None
    } else if same_slot(module[from], entry) {
        Some(from)
    } else {
        slot_from(module, entry, from + 1)
    }
}

/// The rooms of a course after an entry with the room `new` has been merged
/// into it: the rooms it had, then `" & "`, then the new one.
pub open spec fn joined_room(have: Option<Seq<char>>, new: Option<Seq<char>>) -> Option<Seq<char>> {
    match (have, new) {
        (Some(a), Some(b)) => Some(a + " & "@ + b),
        (None, Some(b)) => Some(b),
        (have, None) => have,
    }
}

/// The schedule after `entry` has been taken in: where a course for the same
/// kind, group and sessions is there already, it takes the entry's room beside
/// its own and nothing else changes; otherwise the entry is added at the end.
pub open spec fn merged(module: Seq<ModulView>, entry: ModulView) -> Seq<ModulView> {
    match slot_from(module, entry, 0) {
        Some(k) => module.update(
            k,
            ModulView { raum: joined_room(module[k].raum, entry.raum), ..module[k] },
        ),
        None => module.push(entry),
    }
}

/// The schedule that comes of taking in `entries` one after another.
pub open spec fn merged_all(entries: Seq<ModulView>) -> Seq<ModulView>
    decreases entries.len(),
{
    if entries.len() == 0 {
        Seq::empty()
    } else {
        merged(merged_all(entries.drop_last()), entries.last())
    }
}

/// The rooms named by those of `entries` that stand for the same course as
/// `key`, in the order of `entries`.
pub open spec fn rooms_of(entries: Seq<ModulView>, key: ModulView) -> Seq<Seq<char>>
    decreases entries.len(),
{
    if entries.len() == 0 {
        Seq::empty()
    } else {
        let before = rooms_of(entries.drop_last(), key);
        match entries.last().raum {
            Some(room) => if same_slot(entries.last(), key) {
                before.push(room)
            } else {
                before
            },
            None => before,
        }
    }
}

/// The rooms joined by `" & "`; `None` where there is no room.
pub open spec fn joined(rooms: Seq<Seq<char>>) -> Option<Seq<char>>
    decreases rooms.len(),
{
    if rooms.len() == 0 {
        None
    } else {
        match joined(rooms.drop_last()) {
            Some(before) => Some(before + " & "@ + rooms.last()),
            None => Some(rooms.last()),
        }
    }
}

/// Whether no two courses of a schedule stand for the same course.
pub open spec fn distinct(module: Seq<ModulView>) -> bool {
    forall|i: int, j: int|
        0 <= i < module.len() && 0 <= j < module.len() && i != j ==> !same_slot(
            #[trigger] module[i],
            #[trigger] module[j],
        )
}

/// Whether `termine` holds the session `t`.
fn holds(termine: &Vec<ModulTermin>, t: &ModulTermin) -> (found: bool)
    ensures
        found == termine@.contains(*t),
{
    let mut i: usize = 0;
    while i < termine.len()
        invariant
            i <= termine.len(),
            forall|k: int| 0 <= k < i ==> termine@[k] != *t,
        decreases termine.len() - i,
    {
        if termine[i] == *t {
            return true;
        }
        i += 1;
    }
    false
}

/// Whether every session of `a` is among those of `b`.
fn all_held(a: &Vec<ModulTermin>, b: &Vec<ModulTermin>) -> (all: bool)
    ensures
        all == (forall|t: ModulTermin| a@.contains(t) ==> b@.contains(t)),
{
    let mut i: usize = 0;
    while i < a.len()
        invariant
            i <= a.len(),
            forall|k: int| 0 <= k < i ==> b@.contains(#[trigger] a@[k]),
        decreases a.len() - i,
    {
        if !holds(b, &a[i]) {
            assert(a@.contains(a@[i as int]));
            return false;
        }
        i += 1;
    }
    true
}

/// Whether two lists hold the same sessions, in whatever order.
pub fn sessions_agree(a: &Vec<ModulTermin>, b: &Vec<ModulTermin>) -> (same: bool)
    ensures
        same == same_sessions(a@, b@),
{
    all_held(a, b) && all_held(b, a)
}

/// The position of the first course of `module` that stands for the same
/// course as `entry`.
pub fn position(module: &Vec<Modul>, entry: &Modul) -> (at: Option<usize>)
    ensures
        at.is_some() == slot_from(views(module@), entry@, 0).is_some(),
        at matches Some(k) ==> slot_from(views(module@), entry@, 0) == Some(k as int) && k
            < module.len(),
{
    let mut i: usize = 0;
    while i < module.len()
        invariant
            i <= module.len(),
            slot_from(views(module@), entry@, 0) == slot_from(views(module@), entry@, i as int),
        decreases module.len() - i,
    {
        let course = &module[i];
        assert(views(module@)[i as int] == course@);
        if course.typ == entry.typ && same_group(course.gruppe, entry.gruppe) && sessions_agree(
            &course.termine,
            &entry.termine,
        ) {
            return Some(i);
        }
        i += 1;
    }
    None
}

/// Takes `entry` into the schedule: where a course for the same kind, group
/// and sessions is there already, it takes the entry's room beside its own;
/// otherwise the entry is added at the end.
pub fn merge(module: &mut Vec<Modul>, entry: Modul)
    ensures
        views(final(module)@) == merged(views(old(module)@), entry@),
{
    let ghost before = views(module@);
    match position(module, &entry) {
        Some(k) => {
            if let Some(room) = entry.raum {
                let mut course = module.remove(k);
                let ghost had = course@;
                course.raum = match course.raum {
                    Some(mut rooms) => {
                        rooms.append(" & ");
                        rooms.append(room.as_str());
                        Some(rooms)
                    },
                    None => Some(room),
                };
                assert(course@ == ModulView {
                    raum: joined_room(had.raum, entry@.raum),
                    ..had
                });
                module.insert(k, course);
                assert(views(module@) =~= merged(before, entry@));
            } else {
                assert(before[k as int] == ModulView {
                    raum: joined_room(before[k as int].raum, entry@.raum),
                    ..before[k as int]
                });
                assert(views(module@) =~= merged(before, entry@));
            }
        },
        None => {
            module.push(entry);
            assert(views(module@) =~= merged(before, entry@));
        },
    }
}

/// Whether some course of `module` stands for the same course as `key`.
pub open spec fn holds_slot(module: Seq<ModulView>, key: ModulView) -> bool {
    exists|k: int| 0 <= k < module.len() && same_slot(#[trigger] module[k], key)
}

/// What `slot_from` finds is the first course at or after `from` that stands
/// for the same course as `entry`; where it finds none, there is none.
pub proof fn slot_from_is_first(module: Seq<ModulView>, entry: ModulView, from: int)
    requires
        0 <= from,
    ensures
        match slot_from(module, entry, from) {
            Some(k) => from <= k < module.len() && same_slot(module[k], entry) && forall|j: int|
                from <= j < k ==> !same_slot(#[trigger] module[j], entry),
            None => forall|j: int|
                from <= j < module.len() ==> !same_slot(#[trigger] module[j], entry),
        },
    decreases module.len() - from,
{
    if from < module.len() && !same_slot(module[from], entry) {
        slot_from_is_first(module, entry, from + 1);
    }
}

/// The rooms named for a course depend only on what makes it that course: its
/// kind, its group and its sessions.
proof fn rooms_of_same_slot(entries: Seq<ModulView>, a: ModulView, b: ModulView)
    requires
        same_slot(a, b),
    ensures
        rooms_of(entries, a) == rooms_of(entries, b),
    decreases entries.len(),
{
    if entries.len() > 0 {
        rooms_of_same_slot(entries.drop_last(), a, b);
    }
}

/// Where no entry stands for a course, no room is named for it.
proof fn rooms_of_none(entries: Seq<ModulView>, key: ModulView)
    requires
        forall|i: int| 0 <= i < entries.len() ==> !same_slot(#[trigger] entries[i], key),
    ensures
        rooms_of(entries, key) == Seq::<Seq<char>>::empty(),
    decreases entries.len(),
{
    if entries.len() > 0 {
        assert(!same_slot(entries[entries.len() - 1], key));
        rooms_of_none(entries.drop_last(), key);
    }
}

/// Joining one more room is what `joined_room` does.
proof fn joined_push(rooms: Seq<Seq<char>>, room: Seq<char>)
    ensures
        joined(rooms.push(room)) == joined_room(joined(rooms), Some(room)),
{
    assert(rooms.push(room).drop_last() =~= rooms);
}

/// What holds of every schedule that `merged_all` builds: no two of its
/// courses stand for the same course, every entry is stood for by one of them,
/// and each of them names the rooms of its entries, joined in their order.
pub proof fn merged_all_is_sound(entries: Seq<ModulView>)
    ensures
        distinct(merged_all(entries)),
        forall|e: int| 0 <= e < entries.len() ==> holds_slot(merged_all(entries), #[trigger] entries[e]),
        forall|k: int|
            0 <= k < merged_all(entries).len() ==> (#[trigger] merged_all(entries)[k]).raum
                == joined(rooms_of(entries, merged_all(entries)[k])),
    decreases entries.len(),
{
    if entries.len() > 0 {
        let prev = entries.drop_last();
        let entry = entries.last();
        let had = merged_all(prev);
        let out = merged(had, entry);
        merged_all_is_sound(prev);
        slot_from_is_first(had, entry, 0);
        match slot_from(had, entry, 0) {
            Some(p) => {
                assert forall|e: int| 0 <= e < entries.len() implies holds_slot(
                    out,
                    #[trigger] entries[e],
                ) by {
                    if e < prev.len() {
                        assert(holds_slot(had, prev[e]));
                        let k = choose|k: int| 0 <= k < had.len() && same_slot(had[k], prev[e]);
                        assert(same_slot(out[k], entries[e]));
                    } else {
                        assert(same_slot(out[p], entries[e]));
                    }
                }
                assert forall|k: int| 0 <= k < out.len() implies (#[trigger] out[k]).raum == joined(
                    rooms_of(entries, out[k]),
                ) by {
                    if k == p {
                        rooms_of_same_slot(prev, out[p], had[p]);
                        assert(same_slot(entry, out[p]));
                        match entry.raum {
                            Some(room) => {
                                joined_push(rooms_of(prev, had[p]), room);
                            },
                            None => {},
                        }
                    } else {
                        assert(!same_slot(had[p], had[k]));
                        assert(!same_slot(entry, out[k]));
                    }
                }
                assert(distinct(out)) by {
                    assert forall|i: int, j: int|
                        0 <= i < out.len() && 0 <= j < out.len() && i != j implies !same_slot(
                        #[trigger] out[i],
                        #[trigger] out[j],
                    ) by {
                        assert(!same_slot(had[i], had[j]));
                    }
                }
            },
            None => {
                assert forall|e: int| 0 <= e < entries.len() implies holds_slot(
                    out,
                    #[trigger] entries[e],
                ) by {
                    if e < prev.len() {
                        assert(holds_slot(had, prev[e]));
                        let k = choose|k: int| 0 <= k < had.len() && same_slot(had[k], prev[e]);
                        assert(same_slot(out[k], entries[e]));
                    } else {
                        assert(same_slot(out[had.len() as int], entries[e]));
                    }
                }
                assert forall|i: int| 0 <= i < prev.len() implies !same_slot(
                    #[trigger] prev[i],
                    entry,
                ) by {
                    assert(holds_slot(had, prev[i]));
                    let k = choose|k: int| 0 <= k < had.len() && same_slot(had[k], prev[i]);
                    assert(!same_slot(had[k], entry));
                }
                assert forall|k: int| 0 <= k < out.len() implies (#[trigger] out[k]).raum == joined(
                    rooms_of(entries, out[k]),
                ) by {
                    if k == had.len() {
                        rooms_of_none(prev, entry);
                        assert(same_slot(entry, entry));
                        match entry.raum {
                            Some(room) => {
                                joined_push(Seq::<Seq<char>>::empty(), room);
                            },
                            None => {},
                        }
                    } else {
                        assert(!same_slot(had[k], entry));
                        assert(!same_slot(entry, out[k]));
                    }
                }
                assert(distinct(out)) by {
                    assert forall|i: int, j: int|
                        0 <= i < out.len() && 0 <= j < out.len() && i != j implies !same_slot(
                        #[trigger] out[i],
                        #[trigger] out[j],
                    ) by {
                        if i < had.len() && j < had.len() {
                            assert(!same_slot(had[i], had[j]));
                        } else if i < had.len() {
                            assert(!same_slot(had[i], entry));
                        } else {
                            assert(!same_slot(had[j], entry));
                        }
                    }
                }
            },
        }
    }
}

/// Entries for the same kind, group and sessions become one course: for every
/// entry, the schedule built from `entries` holds exactly one course that
/// stands for it, and that course's room is the rooms that the entries for it
/// name, joined by `" & "` in the order of the entries.
pub proof fn merge_invariant(entries: Seq<ModulView>, e: int)
    requires
        0 <= e < entries.len(),
    ensures
        exists|k: int|
            0 <= k < merged_all(entries).len() && same_slot(
                #[trigger] merged_all(entries)[k],
                entries[e],
            ) && merged_all(entries)[k].raum == joined(rooms_of(entries, entries[e])) && forall|
                j: int,
            |
                0 <= j < merged_all(entries).len() && j != k ==> !same_slot(
                    #[trigger] merged_all(entries)[j],
                    entries[e],
                ),
{
    let out = merged_all(entries);
    merged_all_is_sound(entries);
    assert(holds_slot(out, entries[e]));
    let k = choose|k: int| 0 <= k < out.len() && same_slot(out[k], entries[e]);
    rooms_of_same_slot(entries, out[k], entries[e]);
    assert forall|j: int| 0 <= j < out.len() && j != k implies !same_slot(
        #[trigger] out[j],
        entries[e],
    ) by {
        assert(!same_slot(out[j], out[k]));
    }
}

} // verus!

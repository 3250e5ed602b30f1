//! The shared device registry: a mapping from device identity to device
//! record that emits one membership event per successful mutation.
//!
//! The registry's abstract state is a `Map` from identity to record
//! together with the sequence of membership events emitted so far.
//! Mutation and event emission happen in one call, so no observer can
//! see the record without the event or vice versa.

use vstd::prelude::*;
use vstd::map::*;

use crate::device::{Device, DeviceId};
use crate::room::{RoomAction, RoomEvent};

verus! {

/// No identity occurs twice among the stored entries.
pub open spec fn unique_keys(s: Seq<(DeviceId, Device)>) -> bool {
    forall|i: int, j: int| 0 <= i < j < s.len() ==> s[i].0 != s[j].0
}

/// The mapping an entry sequence stands for; later entries win, though
/// under `unique_keys` there is nothing to win over.
pub open spec fn entries_map(s: Seq<(DeviceId, Device)>) -> Map<DeviceId, Device>
    decreases s.len(),
{
    if s.len() == 0 {
        Map::empty()
    } else {
        entries_map(s.drop_last()).insert(s.last().0, s.last().1)
    }
}

/// What registering does to the registry mapping.
pub open spec fn spec_register(m: Map<DeviceId, Device>, id: DeviceId, r: Device) -> Map<
    DeviceId,
    Device,
> {
    m.insert(id, r)
}

/// What registering appends to the emitted-event sequence: exactly one
/// `Join`, whether or not the identity was present before.
pub open spec fn spec_register_events(ev: Seq<RoomEvent>, id: DeviceId) -> Seq<RoomEvent> {
    ev.push(RoomEvent { id, action: RoomAction::Join })
}

/// What unregistering does to the registry mapping.
pub open spec fn spec_unregister(m: Map<DeviceId, Device>, id: DeviceId) -> Map<
    DeviceId,
    Device,
> {
    m.remove(id)
}

/// What unregistering appends to the emitted-event sequence: one `Leave`
/// when the identity was present, nothing otherwise.
pub open spec fn spec_unregister_events(
    ev: Seq<RoomEvent>,
    m: Map<DeviceId, Device>,
    id: DeviceId,
) -> Seq<RoomEvent> {
    if m.contains_key(id) {
        ev.push(RoomEvent { id, action: RoomAction::Leave })
    } else {
        ev
    }
}

/// The registry. Entries are held as an association list with unique
/// keys; emitted events accumulate until the embedding drains them with
/// `take_events` and forwards them to the membership event bus.
pub struct DeviceMap {
    entries: Vec<(DeviceId, Device)>,
    events: Vec<RoomEvent>,
}

impl View for DeviceMap {
    type V = Map<DeviceId, Device>;

    closed spec fn view(&self) -> Map<DeviceId, Device> {
        entries_map(self.entries@)
    }
}

proof fn lemma_entries_map_index(s: Seq<(DeviceId, Device)>, i: int)
    requires
        unique_keys(s),
        0 <= i < s.len(),
    ensures
        entries_map(s).contains_key(s[i].0),
        entries_map(s)[s[i].0] == s[i].1,
    decreases s.len(),
{
    if i == s.len() - 1 {
    } else {
        assert(unique_keys(s.drop_last()));
        lemma_entries_map_index(s.drop_last(), i);
        assert(s.drop_last()[i] == s[i]);
        assert(s.last().0 != s[i].0);
    }
}

proof fn lemma_entries_map_dom(s: Seq<(DeviceId, Device)>, k: DeviceId)
    ensures
        entries_map(s).contains_key(k) <==> exists|i: int| 0 <= i < s.len() && s[i].0 == k,
    decreases s.len(),
{
    if s.len() == 0 {
    } else {
        lemma_entries_map_dom(s.drop_last(), k);
        if s.last().0 == k {
            assert(s[s.len() - 1].0 == k);
        } else {
            if entries_map(s).contains_key(k) {
                let i = choose|i: int| 0 <= i < s.drop_last().len() && s.drop_last()[i].0 == k;
                assert(s[i].0 == k);
            }
            if exists|i: int| 0 <= i < s.len() && s[i].0 == k {
                let i = choose|i: int| 0 <= i < s.len() && s[i].0 == k;
                assert(s.drop_last()[i].0 == k);
            }
        }
    }
}

impl DeviceMap {
    /// The entries hold each identity at most once.
    pub closed spec fn wf(&self) -> bool {
        unique_keys(self.entries@)
    }

    /// Every membership event emitted so far, oldest first.
    pub closed spec fn events(&self) -> Seq<RoomEvent> {
        self.events@
    }

    pub fn new() -> (m: DeviceMap)
        ensures
            m.wf(),
            m@ == Map::<DeviceId, Device>::empty(),
            m.events() == Seq::<RoomEvent>::empty(),
    {
        DeviceMap { entries: Vec::new(), events: Vec::new() }
    }

    /// Index of the entry holding `key`, if any.
    fn find(&self, key: &DeviceId) -> (r: Option<usize>)
        ensures
            match r {
                Some(i) => i < self.entries@.len() && self.entries@[i as int].0 == *key,
                None => forall|j: int|
                    0 <= j < self.entries@.len() ==> self.entries@[j].0 != *key,
            },
    {
        let n = self.entries.len();
        let mut i: usize = 0;
        while i < n
            invariant
                i <= n,
                n == self.entries@.len(),
                forall|j: int| 0 <= j < i ==> self.entries@[j].0 != *key,
            decreases n - i,
        {
            if self.entries[i].0 == *key {
                return Some(i);
            }
            i += 1;
        }
        None
    }

    /// Register a record under `key`, replacing any record stored there
    /// and emitting exactly one `Join` event; returns the replaced
    /// record if the identity was already present.
    pub fn insert(&mut self, key: DeviceId, value: Device) -> (prev: Option<Device>)
        requires
            old(self).wf(),
        ensures
            final(self).wf(),
            final(self)@ == spec_register(old(self)@, key, value),
            final(self).events() == spec_register_events(old(self).events(), key),
            prev == if old(self)@.contains_key(key) {
                Some(old(self)@[key])
            } else {
                None::<Device>
            },
    {
        let ghost s = self.entries@;
        let found = self.find(&key);
        let prev: Option<Device> = match found {
            Some(i) => {
                let pair = self.entries.remove(i);
                proof {
                    lemma_entries_map_index(s, i as int);
                    lemma_remove_then_push(s, i as int, key, value);
                }
                self.entries.push((key, value));
                Some(pair.1)
            },
            None => {
                proof {
                    lemma_entries_map_dom(s, key);
                    assert(entries_map(s.push((key, value))) == entries_map(s).insert(
                        key,
                        value,
                    )) by {
                        assert(s.push((key, value)).drop_last() == s);
                    }
                }
                self.entries.push((key, value));
                None
            },
        };
        self.events.push(RoomEvent::new(key, RoomAction::Join));
        proof {
            if found is None {
                lemma_entries_map_dom(s, key);
            }
        }
        prev
    }

    /// Look up the record registered under `key`.
    pub fn get(&self, key: &DeviceId) -> (r: Option<&Device>)
        requires
            self.wf(),
        ensures
            match r {
                Some(d) => self@.contains_key(*key) && *d == self@[*key],
                None => !self@.contains_key(*key),
            },
    {
        match self.find(key) {
            Some(i) => {
                proof {
                    lemma_entries_map_index(self.entries@, i as int);
                }
                let pair: &(DeviceId, Device) = &self.entries[i];
                Some(&pair.1)
            },
            None => {
                proof {
                    lemma_entries_map_dom(self.entries@, *key);
                }
                None
            },
        }
    }

    /// Unregister `key`: removes and returns its record and emits one
    /// `Leave` event if the identity is present; a no-op that emits
    /// nothing otherwise.
    pub fn remove(&mut self, key: &DeviceId) -> (prev: Option<Device>)
        requires
            old(self).wf(),
        ensures
            final(self).wf(),
            final(self)@ == spec_unregister(old(self)@, *key),
            final(self).events() == spec_unregister_events(
                old(self).events(),
                old(self)@,
                *key,
            ),
            prev == if old(self)@.contains_key(*key) {
                Some(old(self)@[*key])
            } else {
                None::<Device>
            },
    {
        let ghost s = self.entries@;
        match self.find(key) {
            Some(i) => {
                proof {
                    lemma_entries_map_index(s, i as int);
                    lemma_entries_map_remove(s, i as int);
                }
                let pair = self.entries.remove(i);
                self.events.push(RoomEvent::new(*key, RoomAction::Leave));
                Some(pair.1)
            },
            None => {
                proof {
                    lemma_entries_map_dom(s, *key);
                    assert(entries_map(s) =~= entries_map(s).remove(*key));
                }
                None
            },
        }
    }

    /// A snapshot of the registered identities, each exactly once, in
    /// no significant order.
    pub fn keys(&self) -> (ks: Vec<DeviceId>)
        requires
            self.wf(),
        ensures
            forall|i: int| 0 <= i < ks@.len() ==> self@.contains_key(ks@[i]),
            forall|k: DeviceId| self@.contains_key(k) ==> ks@.contains(k),
            forall|i: int, j: int| 0 <= i < j < ks@.len() ==> ks@[i] != ks@[j],
    {
        let n = self.entries.len();
        let mut ks: Vec<DeviceId> = Vec::new();
        let mut i: usize = 0;
        while i < n
            invariant
                i <= n,
                n == self.entries@.len(),
                self.wf(),
                ks@.len() == i,
                forall|j: int| 0 <= j < i ==> ks@[j] == self.entries@[j].0,
            decreases n - i,
        {
            let pair: &(DeviceId, Device) = &self.entries[i];
            ks.push(pair.0);
            i += 1;
        }
        proof {
            assert forall|j: int| 0 <= j < ks@.len() implies self@.contains_key(ks@[j]) by {
                lemma_entries_map_index(self.entries@, j);
            }
            assert forall|k: DeviceId| self@.contains_key(k) implies ks@.contains(k) by {
                lemma_entries_map_dom(self.entries@, k);
                let j = choose|j: int|
                    0 <= j < self.entries@.len() && self.entries@[j].0 == k;
                assert(ks@[j] == k);
            }
        }
        ks
    }

    /// Drain the emitted events, oldest first, leaving the mapping
    /// untouched; the embedding forwards them to the event bus.
    pub fn take_events(&mut self) -> (evs: Vec<RoomEvent>)
        ensures
            final(self).wf() == old(self).wf(),
            final(self)@ == old(self)@,
            final(self).events() == Seq::<RoomEvent>::empty(),
            evs@ == old(self).events(),
    {
        let mut evs: Vec<RoomEvent> = Vec::new();
        core::mem::swap(&mut evs, &mut self.events);
        evs
    }
}

impl Default for DeviceMap {
    fn default() -> (m: DeviceMap)
        ensures
            m.wf(),
            m@ == Map::<DeviceId, Device>::empty(),
            m.events() == Seq::<RoomEvent>::empty(),
    {
        DeviceMap::new()
    }
}

/// Removing the one entry that holds a key takes that key out of the
/// mapping.
proof fn lemma_entries_map_remove(s: Seq<(DeviceId, Device)>, i: int)
    requires
        unique_keys(s),
        0 <= i < s.len(),
    ensures
        unique_keys(s.remove(i)),
        entries_map(s.remove(i)) == entries_map(s).remove(s[i].0),
{
    let k = s[i].0;
    let s2 = s.remove(i);
    s.remove_ensures(i);
    assert(unique_keys(s2)) by {
        assert forall|a: int, b: int| 0 <= a < b < s2.len() implies s2[a].0 != s2[b].0 by {
            let a0 = if a < i { a } else { a + 1 };
            let b0 = if b < i { b } else { b + 1 };
            assert(s2[a] == s[a0] && s2[b] == s[b0]);
        }
    }
    assert_maps_equal!(entries_map(s2), entries_map(s).remove(k), k2 => {
        lemma_entries_map_dom(s2, k2);
        lemma_entries_map_dom(s, k2);
        if entries_map(s2).dom().contains(k2) {
            let j = choose|j: int| 0 <= j < s2.len() && s2[j].0 == k2;
            let j0 = if j < i { j } else { j + 1 };
            assert(s[j0].0 == k2);
            assert(k2 != k);
            lemma_entries_map_index(s2, j);
            lemma_entries_map_index(s, j0);
        }
        if entries_map(s).remove(k).dom().contains(k2) {
            let j0 = choose|j0: int| 0 <= j0 < s.len() && s[j0].0 == k2;
            let j = if j0 < i { j0 } else { j0 - 1 };
            assert(s2[j].0 == k2);
        }
    });
}

/// Replacing the one entry that holds a key, by removing it and pushing
/// the key with a new record, acts as `insert` on the mapping.
proof fn lemma_remove_then_push(s: Seq<(DeviceId, Device)>, i: int, k: DeviceId, v: Device)
    requires
        unique_keys(s),
        0 <= i < s.len(),
        s[i].0 == k,
    ensures
        unique_keys(s.remove(i).push((k, v))),
        entries_map(s.remove(i).push((k, v))) == entries_map(s).insert(k, v),
{
    lemma_entries_map_remove(s, i);
    let s2 = s.remove(i);
    s.remove_ensures(i);
    assert(unique_keys(s2.push((k, v)))) by {
        assert forall|a: int, b: int| 0 <= a < b < s2.push((k, v)).len() implies s2.push(
            (k, v),
        )[a].0 != s2.push((k, v))[b].0 by {
            if b == s2.len() {
                let a0 = if a < i { a } else { a + 1 };
                assert(s2[a] == s[a0] && a0 != i);
            }
        }
    }
    assert(s2.push((k, v)).drop_last() == s2);
    assert(entries_map(s2.push((k, v))) == entries_map(s2).insert(k, v));
    assert(entries_map(s).remove(k).insert(k, v) =~= entries_map(s).insert(k, v));
}

/// For all identities: after registering a record, lookup returns that
/// record; after unregistering, lookup returns nothing.
pub proof fn lemma_register_then_lookup(m: Map<DeviceId, Device>, id: DeviceId, r: Device)
    ensures
        spec_register(m, id, r).contains_key(id),
        spec_register(m, id, r)[id] == r,
        !spec_unregister(m, id).contains_key(id),
{
}

/// Exactly one `Join` event is emitted per registration and exactly one
/// `Leave` per removal of a present identity; unregistering an absent
/// identity emits nothing.
pub proof fn lemma_one_event_per_mutation(
    ev: Seq<RoomEvent>,
    m: Map<DeviceId, Device>,
    id: DeviceId,
)
    ensures
        spec_register_events(ev, id).len() == ev.len() + 1,
        spec_register_events(ev, id).last() == (RoomEvent { id, action: RoomAction::Join }),
        forall|i: int| 0 <= i < ev.len() ==> spec_register_events(ev, id)[i] == ev[i],
        m.contains_key(id) ==> spec_unregister_events(ev, m, id).len() == ev.len() + 1
            && spec_unregister_events(ev, m, id).last() == (RoomEvent {
            id,
            action: RoomAction::Leave,
        }) && forall|i: int| 0 <= i < ev.len() ==> spec_unregister_events(ev, m, id)[i] == ev[i],
        !m.contains_key(id) ==> spec_unregister_events(ev, m, id) == ev,
{
}

/// Re-registering an existing identity replaces the stored record and
/// appends one `Join`: no `Leave` is emitted for the replaced record.
pub proof fn lemma_reregister_replaces_without_leave(
    ev: Seq<RoomEvent>,
    m: Map<DeviceId, Device>,
    id: DeviceId,
    r: Device,
)
    requires
        m.contains_key(id),
    ensures
        spec_register(m, id, r).contains_key(id),
        spec_register(m, id, r)[id] == r,
        spec_register(m, id, r).dom() == m.dom(),
        spec_register_events(ev, id).len() == ev.len() + 1,
        forall|i: int| 0 <= i < ev.len() ==> spec_register_events(ev, id)[i] == ev[i],
        spec_register_events(ev, id).last().action == RoomAction::Join,
{
    assert(spec_register(m, id, r).dom() =~= m.dom());
}

/// The membership events that concern one identity, in the order they
/// were emitted.
pub open spec fn events_for(ev: Seq<RoomEvent>, id: DeviceId) -> Seq<RoomEvent> {
    ev.filter(|e: RoomEvent| e.id == id)
}

/// Appending one event extends exactly that event's identity stream
/// and no other.
proof fn lemma_events_for_push(ev: Seq<RoomEvent>, e: RoomEvent, id: DeviceId)
    ensures
        events_for(ev.push(e), id) == if e.id == id {
            events_for(ev, id).push(e)
        } else {
            events_for(ev, id)
        },
{
    reveal(Seq::filter);
    assert(ev.push(e).drop_last() == ev);
    assert(ev.push(e).last() == e);
}

/// Registering or unregistering one identity never changes what the
/// registry holds for another identity, nor the other identity's event
/// stream: sessions for distinct identities do not affect each other,
/// whatever the interleaving.
pub proof fn lemma_distinct_identities_independent(
    m: Map<DeviceId, Device>,
    ev: Seq<RoomEvent>,
    a: DeviceId,
    b: DeviceId,
    r: Device,
)
    requires
        a != b,
    ensures
        spec_register(m, a, r).contains_key(b) == m.contains_key(b),
        m.contains_key(b) ==> spec_register(m, a, r)[b] == m[b],
        spec_unregister(m, a).contains_key(b) == m.contains_key(b),
        m.contains_key(b) ==> spec_unregister(m, a)[b] == m[b],
        events_for(spec_register_events(ev, a), b) == events_for(ev, b),
        events_for(spec_unregister_events(ev, m, a), b) == events_for(ev, b),
{
    lemma_events_for_push(ev, RoomEvent { id: a, action: RoomAction::Join }, b);
    if m.contains_key(a) {
        lemma_events_for_push(ev, RoomEvent { id: a, action: RoomAction::Leave }, b);
    }
}

/// An identity's own event stream gains exactly its own event: `Join`
/// on register, `Leave` on unregister of a present identity, nothing
/// on unregister of an absent one. A session's register followed by
/// its unregister therefore appends that identity's `Join`/`Leave`
/// pair, `Join` first, whatever other identities do in between.
pub proof fn lemma_own_event_stream(
    ev: Seq<RoomEvent>,
    m: Map<DeviceId, Device>,
    id: DeviceId,
)
    ensures
        events_for(spec_register_events(ev, id), id) == events_for(ev, id).push(
            (RoomEvent { id, action: RoomAction::Join }),
        ),
        m.contains_key(id) ==> events_for(spec_unregister_events(ev, m, id), id) == events_for(
            ev,
            id,
        ).push((RoomEvent { id, action: RoomAction::Leave })),
        !m.contains_key(id) ==> events_for(spec_unregister_events(ev, m, id), id)
            == events_for(ev, id),
{
    lemma_events_for_push(ev, RoomEvent { id, action: RoomAction::Join }, id);
    if m.contains_key(id) {
        lemma_events_for_push(ev, RoomEvent { id, action: RoomAction::Leave }, id);
    }
}

/// Registry operations on distinct identities commute: the final
/// mapping is the same in either order, so it reflects each identity's
/// own last operation independent of the interleaving.
pub proof fn lemma_distinct_ops_commute(
    m: Map<DeviceId, Device>,
    a: DeviceId,
    b: DeviceId,
    ra: Device,
    rb: Device,
)
    requires
        a != b,
    ensures
        spec_register(spec_register(m, a, ra), b, rb) == spec_register(
            spec_register(m, b, rb),
            a,
            ra,
        ),
        spec_unregister(spec_unregister(m, a), b) == spec_unregister(
            spec_unregister(m, b),
            a,
        ),
        spec_unregister(spec_register(m, a, ra), b) == spec_register(
            spec_unregister(m, b),
            a,
            ra,
        ),
{
    assert(spec_register(spec_register(m, a, ra), b, rb) =~= spec_register(
        spec_register(m, b, rb),
        a,
        ra,
    ));
    assert(spec_unregister(spec_unregister(m, a), b) =~= spec_unregister(
        spec_unregister(m, b),
        a,
    ));
    assert(spec_unregister(spec_register(m, a, ra), b) =~= spec_register(
        spec_unregister(m, b),
        a,
        ra,
    ));
}

} // verus!

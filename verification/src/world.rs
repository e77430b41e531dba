//! The entity/component store: entities are opaque identifiers, all state
//! lives in typed tables keyed by entity. Tables keep their entries sorted
//! by entity id, so every query walks entities in one stable order.
//! Creation and deletion requested while systems iterate are queued and
//! applied at an explicit reconciliation point once per frame.
use vstd::prelude::*;
use vstd::string::StringExecFns;

use crate::Name;
use crate::Position;
use crate::Renderable;
use crate::components::items::{
    Axe, BlocksMovement, Bush, CraftQueue, FirePit, Flint, InBackpack, Item, PickupQueue, Rose,
    Tier, WoodenStick,
};
use crate::gui::{MenuMode, UserInterfaceState};
use crate::logs::Log;
use crate::map::TileType;
use crate::player::{ControlMode, Player};

verus! {

/// An opaque entity identifier. Ids are allocated in increasing order and
/// never reused, so a stale reference can never alias a newer entity.
#[derive(Copy, Clone, PartialEq, Eq, Structural, Debug)]
pub struct Entity {
    pub id: u64,
}

// --- The mathematical reading of a component table ---
//
// A table is viewed as a sequence of (entity, component) pairs with
// strictly increasing ids. The spec functions below say what lookup,
// insertion and removal mean on such sequences; the executable methods
// of `Table` mirror them exactly.

/// The component attached to `e`, if any (the last binding wins, though
/// under `tsorted` there is at most one).
pub open spec fn tlookup<T>(s: Seq<(Entity, T)>, e: Entity) -> Option<T>
    decreases s.len(),
{
    if s.len() == 0 {
        None
    } else if s.last().0 == e {
        Some(s.last().1)
    } else {
        tlookup(s.drop_last(), e)
    }
}

/// Whether `e` carries a component in `s`.
pub open spec fn thas<T>(s: Seq<(Entity, T)>, e: Entity) -> bool {
    tlookup(s, e) is Some
}

/// The component attached to `e`.
pub open spec fn tval<T>(s: Seq<(Entity, T)>, e: Entity) -> T
    recommends
        thas(s, e),
{
    tlookup(s, e)->Some_0
}

/// Insertion in id order, overwriting any binding `e` already has.
pub open spec fn tinsert<T>(s: Seq<(Entity, T)>, e: Entity, v: T) -> Seq<(Entity, T)>
    decreases s.len(),
{
    if s.len() == 0 {
        seq![(e, v)]
    } else if s.last().0.id < e.id {
        s.push((e, v))
    } else if s.last().0.id == e.id {
        s.drop_last().push((e, v))
    } else {
        tinsert(s.drop_last(), e, v).push(s.last())
    }
}

/// Removal of the binding of `e`, if any.
pub open spec fn tremove<T>(s: Seq<(Entity, T)>, e: Entity) -> Seq<(Entity, T)>
    decreases s.len(),
{
    if s.len() == 0 {
        s
    } else if s.last().0 == e {
        tremove(s.drop_last(), e)
    } else {
        tremove(s.drop_last(), e).push(s.last())
    }
}

/// Entries are strictly sorted by entity id (hence keys are unique).
pub open spec fn tsorted<T>(s: Seq<(Entity, T)>) -> bool {
    forall|i: int, j: int| 0 <= i < j < s.len() ==> s[i].0.id < s[j].0.id
}

/// All keys are below the allocation bound `n`.
pub open spec fn tbounded<T>(s: Seq<(Entity, T)>, n: u64) -> bool {
    forall|i: int| 0 <= i < s.len() ==> (#[trigger] s[i]).0.id < n
}

/// Map the component values of a table view, keeping the keys.
pub open spec fn vmap<T, U>(s: Seq<(Entity, T)>, f: spec_fn(T) -> U) -> Seq<(Entity, U)> {
    s.map_values(|p: (Entity, T)| (p.0, f(p.1)))
}

// --- Lemmas relating the table spec functions ---

pub proof fn lemma_tlookup_at<T>(s: Seq<(Entity, T)>, i: int)
    requires
        tsorted(s),
        0 <= i < s.len(),
    ensures
        tlookup(s, s[i].0) == Some(s[i].1),
    decreases s.len(),
{
    if s.len() > 0 {
        if i == s.len() - 1 {
        } else {
            assert(s[i].0.id < s.last().0.id);
            assert(tsorted(s.drop_last())) by {
                assert(forall|a: int, b: int|
                    0 <= a < b < s.drop_last().len() ==> s.drop_last()[a].0.id < s.drop_last()[b].0.id);
            }
            lemma_tlookup_at(s.drop_last(), i);
        }
    }
}

pub proof fn lemma_tlookup_witness<T>(s: Seq<(Entity, T)>, e: Entity)
    requires
        thas(s, e),
    ensures
        exists|i: int| 0 <= i < s.len() && s[i] == (e, tval(s, e)),
    decreases s.len(),
{
    if s.last().0 == e {
        assert(s[s.len() - 1] == (e, tval(s, e)));
    } else {
        lemma_tlookup_witness(s.drop_last(), e);
        let i = choose|i: int|
            0 <= i < s.drop_last().len() && s.drop_last()[i] == (e, tval(s.drop_last(), e));
        assert(s[i] == (e, tval(s, e)));
    }
}

pub proof fn lemma_tsorted_drop_last<T>(s: Seq<(Entity, T)>)
    requires
        tsorted(s),
        s.len() > 0,
    ensures
        tsorted(s.drop_last()),
{
    assert(forall|a: int, b: int|
        0 <= a < b < s.len() - 1 ==> (#[trigger] s.drop_last()[a]).0.id
            < (#[trigger] s.drop_last()[b]).0.id) by {
        assert(forall|a: int| 0 <= a < s.len() - 1 ==> #[trigger] s.drop_last()[a] == s[a]);
    }
}

/// Inserting preserves sortedness and acts as map update on lookups.
pub proof fn lemma_tinsert<T>(s: Seq<(Entity, T)>, e: Entity, v: T)
    requires
        tsorted(s),
    ensures
        tsorted(tinsert(s, e, v)),
        tlookup(tinsert(s, e, v), e) == Some(v),
        forall|x: Entity| x != e ==> #[trigger] tlookup(tinsert(s, e, v), x) == tlookup(s, x),
        tinsert(s, e, v).len() == if thas(s, e) {
            s.len()
        } else {
            s.len() + 1
        },
    decreases s.len(),
{
    let r = tinsert(s, e, v);
    if s.len() == 0 {
        assert(r =~= seq![(e, v)]);
        assert(r.last().0 == e);
        assert(!thas(s, e));
        assert forall|x: Entity| x != e implies #[trigger] tlookup(r, x) == tlookup(s, x) by {
            assert(r.drop_last() =~= Seq::<(Entity, T)>::empty());
            assert(tlookup(r, x) == tlookup(r.drop_last(), x));
            assert(tlookup(r.drop_last(), x) == None::<T>);
            assert(tlookup(s, x) == None::<T>);
        }
    } else if s.last().0.id < e.id {
        // r == s.push((e, v))
        assert(forall|i: int| 0 <= i < s.len() ==> (#[trigger] r[i]) == s[i]);
        assert(r.drop_last() =~= s);
        assert(r.last() == (e, v));
        assert(!thas(s, e)) by {
            if thas(s, e) {
                lemma_tlookup_witness(s, e);
                let i = choose|i: int| 0 <= i < s.len() && s[i] == (e, tval(s, e));
                assert(s[i].0.id <= s.last().0.id);
            }
        }
        assert forall|x: Entity| x != e implies #[trigger] tlookup(r, x) == tlookup(s, x) by {
            assert(tlookup(r, x) == tlookup(r.drop_last(), x));
        }
    } else if s.last().0.id == e.id {
        lemma_tsorted_drop_last(s);
        assert(r =~= s.drop_last().push((e, v)));
        assert(forall|i: int| 0 <= i < s.len() - 1 ==> (#[trigger] r[i]) == s[i]);
        assert(r.drop_last() =~= s.drop_last());
        assert(s.last().0 == e);
        assert(thas(s, e));
        assert(r.last() == (e, v));
        assert forall|x: Entity| x != e implies #[trigger] tlookup(r, x) == tlookup(s, x) by {
            assert(tlookup(r, x) == tlookup(r.drop_last(), x));
            assert(tlookup(s, x) == tlookup(s.drop_last(), x));
        }
    } else {
        lemma_tsorted_drop_last(s);
        lemma_tinsert(s.drop_last(), e, v);
        let q = tinsert(s.drop_last(), e, v);
        // r == q.push(s.last())
        assert(r.last() == s.last());
        assert(r.drop_last() =~= q);
        // sortedness of r: q is sorted, all keys of q are below s.last().0.id
        assert forall|i: int| 0 <= i < q.len() implies (#[trigger] q[i]).0.id < s.last().0.id by {
            lemma_tlookup_at(q, i);
            if q[i].0 == e {
            } else {
                assert(tlookup(s.drop_last(), q[i].0) == Some(q[i].1));
                lemma_tlookup_witness(s.drop_last(), q[i].0);
            }
        }
        assert(tsorted(r)) by {
            assert(forall|i: int| 0 <= i < q.len() ==> (#[trigger] r[i]) == q[i]);
        }
        assert(s.last().0 != e);
        assert(tlookup(r, e) == Some(v)) by {
            assert(r.last() == s.last());
            assert(tlookup(r, e) == tlookup(r.drop_last(), e));
        }
        assert(thas(s, e) == thas(s.drop_last(), e)) by {
            assert(tlookup(s, e) == tlookup(s.drop_last(), e));
        }
        assert forall|x: Entity| x != e implies #[trigger] tlookup(r, x) == tlookup(s, x) by {
            if x == s.last().0 {
                assert(tlookup(r, x) == Some(r.last().1));
                assert(tlookup(s, x) == Some(s.last().1));
            } else {
                assert(tlookup(r, x) == tlookup(r.drop_last(), x));
                assert(tlookup(s, x) == tlookup(s.drop_last(), x));
            }
        }
    }
}

/// Removing preserves sortedness and acts as map removal on lookups.
pub proof fn lemma_tremove<T>(s: Seq<(Entity, T)>, e: Entity)
    requires
        tsorted(s),
    ensures
        tsorted(tremove(s, e)),
        tlookup(tremove(s, e), e) == None::<T>,
        forall|x: Entity| x != e ==> #[trigger] tlookup(tremove(s, e), x) == tlookup(s, x),
        tremove(s, e).len() == if thas(s, e) {
            s.len() - 1
        } else {
            s.len() as int
        },
    decreases s.len(),
{
    let r = tremove(s, e);
    if s.len() == 0 {
    } else {
        lemma_tsorted_drop_last(s);
        lemma_tremove(s.drop_last(), e);
        let q = tremove(s.drop_last(), e);
        assert forall|i: int| 0 <= i < q.len() implies (#[trigger] q[i]).0.id < s.last().0.id by {
            lemma_tlookup_at(q, i);
            assert(tlookup(s.drop_last(), q[i].0) == Some(q[i].1));
            lemma_tlookup_witness(s.drop_last(), q[i].0);
        }
        if s.last().0 == e {
            // also need: e not in drop_last, so lookup in s equals lookup at last
            assert(!thas(s.drop_last(), e)) by {
                if thas(s.drop_last(), e) {
                    lemma_tlookup_witness(s.drop_last(), e);
                    let i = choose|i: int|
                        0 <= i < s.drop_last().len() && s.drop_last()[i] == (
                        e,
                        tval(s.drop_last(), e),
                        );
                    assert(s[i].0.id < s.last().0.id);
                }
            }
        } else {
            assert(r.last() == s.last());
            assert(r.drop_last() =~= q);
            assert(tsorted(r)) by {
                assert(forall|i: int| 0 <= i < q.len() ==> (#[trigger] r[i]) == q[i]);
            }
        }
    }
}

/// `vmap` commutes with lookup, insertion and removal.
pub proof fn lemma_vmap_tlookup<T, U>(s: Seq<(Entity, T)>, f: spec_fn(T) -> U, e: Entity)
    ensures
        tlookup(vmap(s, f), e) == match tlookup(s, e) {
            Some(v) => Some(f(v)),
            None => None::<U>,
        },
    decreases s.len(),
{
    if s.len() > 0 {
        assert(vmap(s, f).last() == (s.last().0, f(s.last().1)));
        assert(vmap(s, f).drop_last() =~= vmap(s.drop_last(), f));
        lemma_vmap_tlookup(s.drop_last(), f, e);
    } else {
        assert(vmap(s, f).len() == 0);
    }
}

pub proof fn lemma_vmap_tinsert<T, U>(s: Seq<(Entity, T)>, f: spec_fn(T) -> U, e: Entity, v: T)
    ensures
        vmap(tinsert(s, e, v), f) == tinsert(vmap(s, f), e, f(v)),
    decreases s.len(),
{
    let m = vmap(s, f);
    if s.len() == 0 {
        assert(vmap(tinsert(s, e, v), f) =~= tinsert(m, e, f(v)));
    } else {
        assert(m.last() == (s.last().0, f(s.last().1)));
        assert(m.drop_last() =~= vmap(s.drop_last(), f));
        if s.last().0.id < e.id {
            assert(vmap(s.push((e, v)), f) =~= m.push((e, f(v))));
        } else if s.last().0.id == e.id {
            assert(vmap(s.drop_last().push((e, v)), f) =~= vmap(s.drop_last(), f).push((
                e,
                f(v),
            )));
        } else {
            lemma_vmap_tinsert(s.drop_last(), f, e, v);
            assert(vmap(tinsert(s.drop_last(), e, v).push(s.last()), f) =~= vmap(
                tinsert(s.drop_last(), e, v),
                f,
            ).push((s.last().0, f(s.last().1))));
        }
    }
}

pub proof fn lemma_vmap_tremove<T, U>(s: Seq<(Entity, T)>, f: spec_fn(T) -> U, e: Entity)
    ensures
        vmap(tremove(s, e), f) == tremove(vmap(s, f), e),
    decreases s.len(),
{
    let m = vmap(s, f);
    if s.len() == 0 {
        assert(vmap(tremove(s, e), f) =~= tremove(m, e));
    } else {
        assert(m.last() == (s.last().0, f(s.last().1)));
        assert(m.drop_last() =~= vmap(s.drop_last(), f));
        lemma_vmap_tremove(s.drop_last(), f, e);
        if s.last().0 == e {
        } else {
            assert(vmap(tremove(s.drop_last(), e).push(s.last()), f) =~= vmap(
                tremove(s.drop_last(), e),
                f,
            ).push((s.last().0, f(s.last().1))));
        }
    }
}

// --- The executable table ---

/// A typed component table: entity-sorted storage of one component type.
pub struct Table<T> {
    entries: Vec<(Entity, T)>,
}

impl<T> View for Table<T> {
    type V = Seq<(Entity, T)>;

    closed spec fn view(&self) -> Seq<(Entity, T)> {
        self.entries@
    }
}

impl<T> Table<T> {
    pub fn new() -> (t: Table<T>)
        ensures
            t@ == Seq::<(Entity, T)>::empty(),
    {
        Table { entries: Vec::new() }
    }

    pub fn len(&self) -> (n: usize)
        ensures
            n == self@.len(),
    {
        self.entries.len()
    }

    pub fn is_empty(&self) -> (r: bool)
        ensures
            r == (self@.len() == 0),
    {
        self.entries.len() == 0
    }

    pub fn key_at(&self, i: usize) -> (e: Entity)
        requires
            i < self@.len(),
        ensures
            e == self@[i as int].0,
    {
        self.entries[i].0
    }

    pub fn val_at(&self, i: usize) -> (v: &T)
        requires
            i < self@.len(),
        ensures
            *v == self@[i as int].1,
    {
        &self.entries[i].1
    }

    pub fn contains(&self, e: Entity) -> (r: bool)
        requires
            tsorted(self@),
        ensures
            r == thas(self@, e),
    {
        let mut i: usize = 0;
        while i < self.entries.len()
            invariant
                tsorted(self@),
                0 <= i <= self@.len(),
                forall|k: int| 0 <= k < i ==> (#[trigger] self@[k]).0 != e,
            decreases self@.len() - i,
        {
            if self.entries[i].0.id == e.id {
                proof {
                    assert(self@[i as int].0 == e);
                    lemma_tlookup_at(self@, i as int);
                }
                return true;
            }
            i = i + 1;
        }
        proof {
            if thas(self@, e) {
                lemma_tlookup_witness(self@, e);
            }
        }
        false
    }

    pub fn get(&self, e: Entity) -> (r: Option<&T>)
        requires
            tsorted(self@),
        ensures
            match r {
                Some(v) => thas(self@, e) && *v == tval(self@, e),
                None => !thas(self@, e),
            },
    {
        let mut i: usize = 0;
        while i < self.entries.len()
            invariant
                tsorted(self@),
                0 <= i <= self@.len(),
                forall|k: int| 0 <= k < i ==> (#[trigger] self@[k]).0 != e,
            decreases self@.len() - i,
        {
            if self.entries[i].0.id == e.id {
                proof {
                    assert(self@[i as int].0 == e);
                    lemma_tlookup_at(self@, i as int);
                }
                return Some(&self.entries[i].1);
            }
            i = i + 1;
        }
        proof {
            if thas(self@, e) {
                lemma_tlookup_witness(self@, e);
            }
        }
        None
    }

    pub fn insert(&mut self, e: Entity, v: T)
        ensures
            final(self)@ == tinsert(old(self)@, e, v),
        decreases old(self)@.len(),
    {
        let n = self.entries.len();
        if n == 0 {
            self.entries.push((e, v));
            proof {
                assert(self@ =~= tinsert(old(self)@, e, v));
            }
        } else {
            let last_id = self.entries[n - 1].0.id;
            if last_id < e.id {
                self.entries.push((e, v));
            } else if last_id == e.id {
                proof {
                    assert(old(self)@.last().0.id == e.id);
                }
                self.entries[n - 1] = (e, v);
                proof {
                    assert(self@ =~= old(self)@.drop_last().push((e, v)));
                }
            } else {
                let last = self.entries.pop().unwrap();
                proof {
                    assert(self@ =~= old(self)@.drop_last());
                }
                self.insert(e, v);
                self.entries.push(last);
                proof {
                    assert(self@ =~= tinsert(old(self)@.drop_last(), e, v).push(old(self)@.last()));
                }
            }
        }
    }

    pub fn remove(&mut self, e: Entity)
        ensures
            final(self)@ == tremove(old(self)@, e),
        decreases old(self)@.len(),
    {
        let n = self.entries.len();
        if n == 0 {
            proof {
                assert(self@ =~= tremove(old(self)@, e));
            }
        } else {
            let last = self.entries.pop().unwrap();
            proof {
                assert(self@ =~= old(self)@.drop_last());
            }
            self.remove(e);
            if last.0.id == e.id {
                proof {
                    assert(old(self)@.last().0 == e);
                }
            } else {
                self.entries.push(last);
                proof {
                    assert(self@ =~= tremove(old(self)@.drop_last(), e).push(old(self)@.last()));
                }
            }
        }
    }

    pub fn clear(&mut self)
        ensures
            final(self)@ == Seq::<(Entity, T)>::empty(),
    {
        self.entries.clear();
    }
}


// --- The world ---

/// A deferred entity creation: the crafted-item kinds the Craft System can
/// request. Only tier level 0 exists so far.
#[derive(Copy, Clone, PartialEq, Eq, Structural, Debug)]
pub enum SpawnRequest {
    Axe { owner: Entity, level: u8 },
    FirePit { owner: Entity },
}

/// The name the spawned entity will bear.
pub open spec fn spawn_name(r: SpawnRequest) -> Seq<char> {
    match r {
        SpawnRequest::Axe { .. } => "Flint Axe"@,
        SpawnRequest::FirePit { .. } => "Fire Pit"@,
    }
}

/// Who will hold the spawned entity.
pub open spec fn spawn_owner(r: SpawnRequest) -> Entity {
    match r {
        SpawnRequest::Axe { owner, .. } => owner,
        SpawnRequest::FirePit { owner } => owner,
    }
}

/// The name components of a table, as sequences of characters.
pub open spec fn names_v(s: Seq<(Entity, Name)>) -> Seq<(Entity, Seq<char>)> {
    vmap(s, |n: Name| n.name@)
}

/// The craft-intent names of a table, as sequences of characters.
pub open spec fn crafts_v(s: Seq<(Entity, CraftQueue)>) -> Seq<(Entity, Seq<char>)> {
    vmap(s, |c: CraftQueue| c.item_name@)
}

/// The tier components of a table, as their mathematical images.
pub open spec fn tiers_v(s: Seq<(Entity, Tier)>) -> Seq<(
    Entity,
    crate::components::items::TierView,
)> {
    vmap(s, |t: Tier| t@)
}

/// Removal of all bindings of the listed entities, in order.
pub open spec fn tremove_all<T>(s: Seq<(Entity, T)>, del: Seq<Entity>) -> Seq<(Entity, T)>
    decreases del.len(),
{
    if del.len() == 0 {
        s
    } else {
        tremove_all(tremove(s, del[0]), del.drop_first())
    }
}


/// The item-slot law: an item entity is free on the map or held in a
/// backpack, never both and never neither, in every well-formed world.
pub proof fn lemma_item_slot_exclusive(w: &World, e: Entity)
    requires
        w.wf(),
        thas(w.items@, e),
    ensures
        thas(w.positions@, e) != thas(w.backpacks@, e),
{
}

/// Removing from an empty table leaves it empty.
pub proof fn lemma_tremove_all_empty<T>(del: Seq<Entity>)
    ensures
        tremove_all(Seq::<(Entity, T)>::empty(), del) == Seq::<(Entity, T)>::empty(),
    decreases del.len(),
{
    if del.len() > 0 {
        assert(tremove(Seq::<(Entity, T)>::empty(), del[0]) == Seq::<(Entity, T)>::empty());
        lemma_tremove_all_empty::<T>(del.drop_first());
    }
}

pub proof fn lemma_bounded_fresh<T>(s: Seq<(Entity, T)>, n: u64, e: Entity)
    requires
        tbounded(s, n),
        e.id >= n,
    ensures
        !thas(s, e),
    decreases s.len(),
{
    if s.len() > 0 {
        assert(s.last().0.id < n);
        assert(forall|i: int| 0 <= i < s.len() - 1 ==> (#[trigger] s.drop_last()[i]) == s[i]);
        lemma_bounded_fresh(s.drop_last(), n, e);
    }
}

pub proof fn lemma_tinsert_bounded<T>(s: Seq<(Entity, T)>, e: Entity, v: T, n: u64)
    requires
        tbounded(s, n),
        e.id < n,
    ensures
        tbounded(tinsert(s, e, v), n),
    decreases s.len(),
{
    if s.len() > 0 {
        assert(forall|i: int| 0 <= i < s.len() - 1 ==> (#[trigger] s.drop_last()[i]) == s[i]);
        lemma_tinsert_bounded(s.drop_last(), e, v, n);
        if s.last().0.id < e.id {
            assert(forall|i: int| 0 <= i < s.len() ==> (#[trigger] tinsert(s, e, v)[i]) == s[i]);
        } else if s.last().0.id == e.id {
            assert(forall|i: int|
                0 <= i < s.len() - 1 ==> (#[trigger] tinsert(s, e, v)[i]) == s[i]);
        } else {
            assert(forall|i: int|
                0 <= i < tinsert(s.drop_last(), e, v).len() ==> (#[trigger] tinsert(s, e, v)[i])
                    == tinsert(s.drop_last(), e, v)[i]);
        }
    }
}

pub proof fn lemma_tremove_bounded<T>(s: Seq<(Entity, T)>, e: Entity, n: u64)
    requires
        tbounded(s, n),
    ensures
        tbounded(tremove(s, e), n),
    decreases s.len(),
{
    if s.len() > 0 {
        assert(forall|i: int| 0 <= i < s.len() - 1 ==> (#[trigger] s.drop_last()[i]) == s[i]);
        lemma_tremove_bounded(s.drop_last(), e, n);
        if s.last().0 == e {
        } else {
            assert(forall|i: int|
                0 <= i < tremove(s.drop_last(), e).len() ==> (#[trigger] tremove(s, e)[i])
                    == tremove(s.drop_last(), e)[i]);
            assert(tremove(s, e).last() == s.last());
        }
    }
}

pub proof fn lemma_tremove_all_bounded<T>(s: Seq<(Entity, T)>, del: Seq<Entity>, n: u64)
    requires
        tbounded(s, n),
    ensures
        tbounded(tremove_all(s, del), n),
    decreases del.len(),
{
    if del.len() > 0 {
        lemma_tremove_bounded(s, del[0], n);
        lemma_tremove_all_bounded(tremove(s, del[0]), del.drop_first(), n);
    }
}


// --- The stage view: one record of every table and resource ---

/// The whole observable world at one point of a frame, up to views: every
/// table as its entry sequence (names, craft intents and tiers as their
/// character-level images), the resources beside them, and the deferred
/// queues. The frame driver's contracts compose the systems as functions
/// over this record.
#[verifier::ext_equal]
pub ghost struct WorldStage {
    pub next_id: int,
    pub positions: Seq<(Entity, Position)>,
    pub renderables: Seq<(Entity, Renderable)>,
    pub players: Seq<(Entity, Player)>,
    pub names: Seq<(Entity, Seq<char>)>,
    pub items: Seq<(Entity, Item)>,
    pub flints: Seq<(Entity, Flint)>,
    pub bushes: Seq<(Entity, Bush)>,
    pub wooden_sticks: Seq<(Entity, WoodenStick)>,
    pub roses: Seq<(Entity, Rose)>,
    pub axes: Seq<(Entity, Axe)>,
    pub fire_pits: Seq<(Entity, FirePit)>,
    pub pickup_queue: Seq<(Entity, PickupQueue)>,
    pub craft_queue: Seq<(Entity, Seq<char>)>,
    pub backpacks: Seq<(Entity, InBackpack)>,
    pub tiers: Seq<(Entity, crate::components::items::TierView)>,
    pub blockers: Seq<(Entity, BlocksMovement)>,
    pub map: Seq<TileType>,
    pub log: Seq<Seq<char>>,
    pub ui: UserInterfaceState,
    pub player: Entity,
    pub pending_deletes: Seq<Entity>,
    pub pending_spawns: Seq<SpawnRequest>,
}

/// The stage view of a world.
pub open spec fn stage_of(w: &World) -> WorldStage {
    WorldStage {
        next_id: w.next_id as int,
        positions: w.positions@,
        renderables: w.renderables@,
        players: w.players@,
        names: names_v(w.names@),
        items: w.items@,
        flints: w.flints@,
        bushes: w.bushes@,
        wooden_sticks: w.wooden_sticks@,
        roses: w.roses@,
        axes: w.axes@,
        fire_pits: w.fire_pits@,
        pickup_queue: w.pickup_queue@,
        craft_queue: crafts_v(w.craft_queue@),
        backpacks: w.backpacks@,
        tiers: tiers_v(w.tiers@),
        blockers: w.blockers@,
        map: w.map@,
        log: crate::logs::log_v(w.log.entries@),
        ui: w.ui,
        player: w.player,
        pending_deletes: w.pending_deletes@,
        pending_spawns: w.pending_spawns@,
    }
}

/// What the reconciliation point does, as a function of the stage: every
/// queued deletion is applied to every table, then every queued spawn is
/// materialized at consecutive fresh ids, and both queues empty.
pub open spec fn maintain_stage(w: WorldStage) -> WorldStage {
    WorldStage {
        next_id: w.next_id + w.pending_spawns.len(),
        positions: tremove_all(w.positions, w.pending_deletes),
        renderables: tremove_all(w.renderables, w.pending_deletes),
        players: tremove_all(w.players, w.pending_deletes),
        names: spawn_names_from(
            tremove_all(w.names, w.pending_deletes),
            w.pending_spawns,
            w.next_id,
        ),
        items: spawn_items_from(
            tremove_all(w.items, w.pending_deletes),
            w.pending_spawns,
            w.next_id,
        ),
        flints: tremove_all(w.flints, w.pending_deletes),
        bushes: tremove_all(w.bushes, w.pending_deletes),
        wooden_sticks: tremove_all(w.wooden_sticks, w.pending_deletes),
        roses: tremove_all(w.roses, w.pending_deletes),
        axes: spawn_axes_from(tremove_all(w.axes, w.pending_deletes), w.pending_spawns, w.next_id),
        fire_pits: spawn_fire_pits_from(
            tremove_all(w.fire_pits, w.pending_deletes),
            w.pending_spawns,
            w.next_id,
        ),
        pickup_queue: tremove_all(w.pickup_queue, w.pending_deletes),
        craft_queue: tremove_all(w.craft_queue, w.pending_deletes),
        backpacks: spawn_backpacks_from(
            tremove_all(w.backpacks, w.pending_deletes),
            w.pending_spawns,
            w.next_id,
        ),
        tiers: spawn_tiers_from(
            tremove_all(w.tiers, w.pending_deletes),
            w.pending_spawns,
            w.next_id,
        ),
        blockers: tremove_all(w.blockers, w.pending_deletes),
        map: w.map,
        log: w.log,
        ui: w.ui,
        player: w.player,
        pending_deletes: Seq::empty(),
        pending_spawns: Seq::empty(),
    }
}

/// The shared world: all component tables, the resources beside them, and
/// the queues of deferred creations and deletions.
pub struct World {
    /// The next entity id to allocate; ids below it are in use or retired.
    pub next_id: u64,
    pub positions: Table<Position>,
    pub renderables: Table<Renderable>,
    pub players: Table<Player>,
    pub names: Table<Name>,
    pub items: Table<Item>,
    pub flints: Table<Flint>,
    pub bushes: Table<Bush>,
    pub wooden_sticks: Table<WoodenStick>,
    pub roses: Table<Rose>,
    pub axes: Table<Axe>,
    pub fire_pits: Table<FirePit>,
    pub pickup_queue: Table<PickupQueue>,
    pub craft_queue: Table<CraftQueue>,
    pub backpacks: Table<InBackpack>,
    pub tiers: Table<Tier>,
    pub blockers: Table<BlocksMovement>,
    pub map: Vec<TileType>,
    pub log: Log,
    pub ui: UserInterfaceState,
    /// The primary player entity, set once at spawn time.
    pub player: Entity,
    pub pending_deletes: Vec<Entity>,
    pub pending_spawns: Vec<SpawnRequest>,
}

impl World {
    /// All tables keep their entries in strictly increasing id order.
    pub open spec fn tables_sorted(&self) -> bool {
        &&& tsorted(self.positions@)
        &&& tsorted(self.renderables@)
        &&& tsorted(self.players@)
        &&& tsorted(self.names@)
        &&& tsorted(self.items@)
        &&& tsorted(self.flints@)
        &&& tsorted(self.bushes@)
        &&& tsorted(self.wooden_sticks@)
        &&& tsorted(self.roses@)
        &&& tsorted(self.axes@)
        &&& tsorted(self.fire_pits@)
        &&& tsorted(self.pickup_queue@)
        &&& tsorted(self.craft_queue@)
        &&& tsorted(self.backpacks@)
        &&& tsorted(self.tiers@)
        &&& tsorted(self.blockers@)
    }

    /// No table mentions an id that was never allocated.
    pub open spec fn tables_bounded(&self) -> bool {
        &&& tbounded(self.positions@, self.next_id)
        &&& tbounded(self.renderables@, self.next_id)
        &&& tbounded(self.players@, self.next_id)
        &&& tbounded(self.names@, self.next_id)
        &&& tbounded(self.items@, self.next_id)
        &&& tbounded(self.flints@, self.next_id)
        &&& tbounded(self.bushes@, self.next_id)
        &&& tbounded(self.wooden_sticks@, self.next_id)
        &&& tbounded(self.roses@, self.next_id)
        &&& tbounded(self.axes@, self.next_id)
        &&& tbounded(self.fire_pits@, self.next_id)
        &&& tbounded(self.pickup_queue@, self.next_id)
        &&& tbounded(self.craft_queue@, self.next_id)
        &&& tbounded(self.backpacks@, self.next_id)
        &&& tbounded(self.tiers@, self.next_id)
        &&& tbounded(self.blockers@, self.next_id)
    }

    /// Every item entity is either free on the map (has a position) or held
    /// in a backpack, never both and never neither, while it exists.
    pub open spec fn item_slot_invariant(&self) -> bool {
        forall|e: Entity|
            #[trigger] thas(self.items@, e) ==> (thas(self.positions@, e) != thas(
                self.backpacks@,
                e,
            ))
    }

    /// Queued spawns only name tier levels that exist.
    pub open spec fn pending_spawns_wf(&self) -> bool {
        forall|k: int|
            0 <= k < self.pending_spawns@.len() ==> match #[trigger] self.pending_spawns@[k] {
                SpawnRequest::Axe { level, .. } => level == 0,
                SpawnRequest::FirePit { .. } => true,
            }
    }

    /// Well-formedness: sorted bounded tables, the item-slot invariant, a
    /// full-size generated map, and an in-range craft selection.
    pub open spec fn wf(&self) -> bool {
        &&& self.tables_sorted()
        &&& self.tables_bounded()
        &&& self.item_slot_invariant()
        &&& self.pending_spawns_wf()
        &&& self.player.id < self.next_id
        &&& crate::map::is_generated_map(self.map@)
        &&& self.ui.selected_option < 2
    }

    /// A fresh world: no entities, a generated map, an empty log, both
    /// panels shown and both modes at their defaults.
    pub fn new() -> (w: World)
        ensures
            w.wf(),
            w.next_id == 1,
            w.player == (Entity { id: 0 }),
            w.positions@ =~= Seq::<(Entity, Position)>::empty(),
            w.renderables@ =~= Seq::<(Entity, Renderable)>::empty(),
            w.players@ =~= Seq::<(Entity, Player)>::empty(),
            w.names@ =~= Seq::<(Entity, Name)>::empty(),
            w.items@ =~= Seq::<(Entity, Item)>::empty(),
            w.flints@ =~= Seq::<(Entity, Flint)>::empty(),
            w.bushes@ =~= Seq::<(Entity, Bush)>::empty(),
            w.wooden_sticks@ =~= Seq::<(Entity, WoodenStick)>::empty(),
            w.roses@ =~= Seq::<(Entity, Rose)>::empty(),
            w.axes@ =~= Seq::<(Entity, Axe)>::empty(),
            w.fire_pits@ =~= Seq::<(Entity, FirePit)>::empty(),
            w.pickup_queue@ =~= Seq::<(Entity, PickupQueue)>::empty(),
            w.craft_queue@ =~= Seq::<(Entity, CraftQueue)>::empty(),
            w.backpacks@ =~= Seq::<(Entity, InBackpack)>::empty(),
            w.tiers@ =~= Seq::<(Entity, Tier)>::empty(),
            w.blockers@ =~= Seq::<(Entity, BlocksMovement)>::empty(),
            crate::map::is_generated_map(w.map@),
            w.log.entries@ =~= Seq::<String>::empty(),
            w.ui == (UserInterfaceState {
                log: true,
                menu: true,
                menu_mode: MenuMode::Default,
                control_mode: ControlMode::Default,
                selected_option: 0,
            }),
            w.pending_deletes@ =~= Seq::<Entity>::empty(),
            w.pending_spawns@ =~= Seq::<SpawnRequest>::empty(),
    {
        World {
            next_id: 1,
            positions: Table::new(),
            renderables: Table::new(),
            players: Table::new(),
            names: Table::new(),
            items: Table::new(),
            flints: Table::new(),
            bushes: Table::new(),
            wooden_sticks: Table::new(),
            roses: Table::new(),
            axes: Table::new(),
            fire_pits: Table::new(),
            pickup_queue: Table::new(),
            craft_queue: Table::new(),
            backpacks: Table::new(),
            tiers: Table::new(),
            blockers: Table::new(),
            map: crate::map::new_map(),
            log: Log { entries: Vec::new() },
            ui: UserInterfaceState {
                log: true,
                menu: true,
                menu_mode: MenuMode::Default,
                control_mode: ControlMode::Default,
                selected_option: 0,
            },
            player: Entity { id: 0 },
            pending_deletes: Vec::new(),
            pending_spawns: Vec::new(),
        }
    }

    /// Allocate a fresh entity id.
    pub(crate) fn allocate(&mut self) -> (e: Entity)
        requires
            old(self).next_id < u64::MAX,
        ensures
            e.id == old(self).next_id,
            final(self).next_id == old(self).next_id + 1,
            final(self).positions == old(self).positions,
            final(self).renderables == old(self).renderables,
            final(self).players == old(self).players,
            final(self).names == old(self).names,
            final(self).items == old(self).items,
            final(self).flints == old(self).flints,
            final(self).bushes == old(self).bushes,
            final(self).wooden_sticks == old(self).wooden_sticks,
            final(self).roses == old(self).roses,
            final(self).axes == old(self).axes,
            final(self).fire_pits == old(self).fire_pits,
            final(self).pickup_queue == old(self).pickup_queue,
            final(self).craft_queue == old(self).craft_queue,
            final(self).backpacks == old(self).backpacks,
            final(self).tiers == old(self).tiers,
            final(self).blockers == old(self).blockers,
            final(self).map == old(self).map,
            final(self).log == old(self).log,
            final(self).ui == old(self).ui,
            final(self).player == old(self).player,
            final(self).pending_deletes == old(self).pending_deletes,
            final(self).pending_spawns == old(self).pending_spawns,
    {
        let e = Entity { id: self.next_id };
        self.next_id = self.next_id + 1;
        e
    }

    /// Queue an entity for deletion at the next reconciliation point.
    pub fn delete_deferred(&mut self, e: Entity)
        ensures
            final(self).pending_deletes@ == old(self).pending_deletes@.push(e),
            final(self).positions == old(self).positions,
            final(self).renderables == old(self).renderables,
            final(self).players == old(self).players,
            final(self).names == old(self).names,
            final(self).items == old(self).items,
            final(self).flints == old(self).flints,
            final(self).bushes == old(self).bushes,
            final(self).wooden_sticks == old(self).wooden_sticks,
            final(self).roses == old(self).roses,
            final(self).axes == old(self).axes,
            final(self).fire_pits == old(self).fire_pits,
            final(self).pickup_queue == old(self).pickup_queue,
            final(self).craft_queue == old(self).craft_queue,
            final(self).backpacks == old(self).backpacks,
            final(self).tiers == old(self).tiers,
            final(self).blockers == old(self).blockers,
            final(self).map == old(self).map,
            final(self).log == old(self).log,
            final(self).ui == old(self).ui,
            final(self).player == old(self).player,
            final(self).next_id == old(self).next_id,
            final(self).pending_spawns == old(self).pending_spawns,
    {
        self.pending_deletes.push(e);
    }

    /// Queue a deferred creation at the next reconciliation point.
    pub fn spawn_deferred(&mut self, r: SpawnRequest)
        ensures
            final(self).pending_spawns@ == old(self).pending_spawns@.push(r),
            final(self).positions == old(self).positions,
            final(self).renderables == old(self).renderables,
            final(self).players == old(self).players,
            final(self).names == old(self).names,
            final(self).items == old(self).items,
            final(self).flints == old(self).flints,
            final(self).bushes == old(self).bushes,
            final(self).wooden_sticks == old(self).wooden_sticks,
            final(self).roses == old(self).roses,
            final(self).axes == old(self).axes,
            final(self).fire_pits == old(self).fire_pits,
            final(self).pickup_queue == old(self).pickup_queue,
            final(self).craft_queue == old(self).craft_queue,
            final(self).backpacks == old(self).backpacks,
            final(self).tiers == old(self).tiers,
            final(self).blockers == old(self).blockers,
            final(self).map == old(self).map,
            final(self).log == old(self).log,
            final(self).ui == old(self).ui,
            final(self).player == old(self).player,
            final(self).next_id == old(self).next_id,
            final(self).pending_deletes == old(self).pending_deletes,
    {
        self.pending_spawns.push(r);
    }

    /// Remove every component of `e`; a no-op for components it lacks.
    pub fn destroy(&mut self, e: Entity)
        requires
            old(self).wf(),
        ensures
            final(self).wf(),
            final(self).positions@ == tremove(old(self).positions@, e),
            final(self).renderables@ == tremove(old(self).renderables@, e),
            final(self).players@ == tremove(old(self).players@, e),
            final(self).names@ == tremove(old(self).names@, e),
            final(self).items@ == tremove(old(self).items@, e),
            final(self).flints@ == tremove(old(self).flints@, e),
            final(self).bushes@ == tremove(old(self).bushes@, e),
            final(self).wooden_sticks@ == tremove(old(self).wooden_sticks@, e),
            final(self).roses@ == tremove(old(self).roses@, e),
            final(self).axes@ == tremove(old(self).axes@, e),
            final(self).fire_pits@ == tremove(old(self).fire_pits@, e),
            final(self).pickup_queue@ == tremove(old(self).pickup_queue@, e),
            final(self).craft_queue@ == tremove(old(self).craft_queue@, e),
            final(self).backpacks@ == tremove(old(self).backpacks@, e),
            final(self).tiers@ == tremove(old(self).tiers@, e),
            final(self).blockers@ == tremove(old(self).blockers@, e),
            final(self).map == old(self).map,
            final(self).log == old(self).log,
            final(self).ui == old(self).ui,
            final(self).player == old(self).player,
            final(self).next_id == old(self).next_id,
            final(self).pending_deletes == old(self).pending_deletes,
            final(self).pending_spawns == old(self).pending_spawns,
    {
        self.positions.remove(e);
        self.renderables.remove(e);
        self.players.remove(e);
        self.names.remove(e);
        self.items.remove(e);
        self.flints.remove(e);
        self.bushes.remove(e);
        self.wooden_sticks.remove(e);
        self.roses.remove(e);
        self.axes.remove(e);
        self.fire_pits.remove(e);
        self.pickup_queue.remove(e);
        self.craft_queue.remove(e);
        self.backpacks.remove(e);
        self.tiers.remove(e);
        self.blockers.remove(e);
        proof {
            lemma_tremove(old(self).positions@, e);
            lemma_tremove(old(self).items@, e);
            lemma_tremove(old(self).backpacks@, e);
            lemma_tremove(old(self).renderables@, e);
            lemma_tremove(old(self).players@, e);
            lemma_tremove(old(self).names@, e);
            lemma_tremove(old(self).flints@, e);
            lemma_tremove(old(self).bushes@, e);
            lemma_tremove(old(self).wooden_sticks@, e);
            lemma_tremove(old(self).roses@, e);
            lemma_tremove(old(self).axes@, e);
            lemma_tremove(old(self).fire_pits@, e);
            lemma_tremove(old(self).pickup_queue@, e);
            lemma_tremove(old(self).craft_queue@, e);
            lemma_tremove(old(self).tiers@, e);
            lemma_tremove(old(self).blockers@, e);
            lemma_tremove_bounded(old(self).positions@, e, old(self).next_id);
            lemma_tremove_bounded(old(self).renderables@, e, old(self).next_id);
            lemma_tremove_bounded(old(self).players@, e, old(self).next_id);
            lemma_tremove_bounded(old(self).names@, e, old(self).next_id);
            lemma_tremove_bounded(old(self).items@, e, old(self).next_id);
            lemma_tremove_bounded(old(self).flints@, e, old(self).next_id);
            lemma_tremove_bounded(old(self).bushes@, e, old(self).next_id);
            lemma_tremove_bounded(old(self).wooden_sticks@, e, old(self).next_id);
            lemma_tremove_bounded(old(self).roses@, e, old(self).next_id);
            lemma_tremove_bounded(old(self).axes@, e, old(self).next_id);
            lemma_tremove_bounded(old(self).fire_pits@, e, old(self).next_id);
            lemma_tremove_bounded(old(self).pickup_queue@, e, old(self).next_id);
            lemma_tremove_bounded(old(self).craft_queue@, e, old(self).next_id);
            lemma_tremove_bounded(old(self).backpacks@, e, old(self).next_id);
            lemma_tremove_bounded(old(self).tiers@, e, old(self).next_id);
            lemma_tremove_bounded(old(self).blockers@, e, old(self).next_id);
            assert forall|x: Entity| #[trigger] thas(self.items@, x) implies (thas(
                self.positions@,
                x,
            ) != thas(self.backpacks@, x)) by {
                if x == e {
                    assert(tlookup(self.items@, e) == None::<Item>);
                } else {
                    assert(tlookup(self.items@, x) == tlookup(old(self).items@, x));
                    assert(tlookup(self.positions@, x) == tlookup(old(self).positions@, x));
                    assert(tlookup(self.backpacks@, x) == tlookup(old(self).backpacks@, x));
                    assert(thas(old(self).items@, x) ==> (thas(old(self).positions@, x) != thas(
                        old(self).backpacks@,
                        x,
                    )));
                }
            }
        }
    }
}


// --- Deferred spawning ---

/// Successive insertions of the item flags of each queued spawn, at
/// consecutive fresh ids starting from `base`.
pub open spec fn spawn_items_from(
    s: Seq<(Entity, Item)>,
    spawns: Seq<SpawnRequest>,
    base: int,
) -> Seq<(Entity, Item)>
    decreases spawns.len(),
{
    if spawns.len() == 0 {
        s
    } else {
        spawn_items_from(
            tinsert(s, Entity { id: base as u64 }, Item { can_be_picked: true, can_be_crafted: true }),
            spawns.drop_first(),
            base + 1,
        )
    }
}

/// Successive insertions of the names of each queued spawn.
pub open spec fn spawn_names_from(
    s: Seq<(Entity, Seq<char>)>,
    spawns: Seq<SpawnRequest>,
    base: int,
) -> Seq<(Entity, Seq<char>)>
    decreases spawns.len(),
{
    if spawns.len() == 0 {
        s
    } else {
        spawn_names_from(
            tinsert(s, Entity { id: base as u64 }, spawn_name(spawns[0])),
            spawns.drop_first(),
            base + 1,
        )
    }
}

/// Successive insertions of the ownership of each queued spawn.
pub open spec fn spawn_backpacks_from(
    s: Seq<(Entity, InBackpack)>,
    spawns: Seq<SpawnRequest>,
    base: int,
) -> Seq<(Entity, InBackpack)>
    decreases spawns.len(),
{
    if spawns.len() == 0 {
        s
    } else {
        spawn_backpacks_from(
            tinsert(s, Entity { id: base as u64 }, InBackpack { owner: spawn_owner(spawns[0]) }),
            spawns.drop_first(),
            base + 1,
        )
    }
}

/// Successive insertions of the axe markers of the queued axe spawns.
pub open spec fn spawn_axes_from(
    s: Seq<(Entity, Axe)>,
    spawns: Seq<SpawnRequest>,
    base: int,
) -> Seq<(Entity, Axe)>
    decreases spawns.len(),
{
    if spawns.len() == 0 {
        s
    } else {
        spawn_axes_from(
            match spawns[0] {
                SpawnRequest::Axe { .. } => tinsert(s, Entity { id: base as u64 }, Axe {}),
                SpawnRequest::FirePit { .. } => s,
            },
            spawns.drop_first(),
            base + 1,
        )
    }
}

/// Successive insertions of the fire-pit markers of the queued fire-pit
/// spawns.
pub open spec fn spawn_fire_pits_from(
    s: Seq<(Entity, FirePit)>,
    spawns: Seq<SpawnRequest>,
    base: int,
) -> Seq<(Entity, FirePit)>
    decreases spawns.len(),
{
    if spawns.len() == 0 {
        s
    } else {
        spawn_fire_pits_from(
            match spawns[0] {
                SpawnRequest::Axe { .. } => s,
                SpawnRequest::FirePit { .. } => tinsert(s, Entity { id: base as u64 }, FirePit {}),
            },
            spawns.drop_first(),
            base + 1,
        )
    }
}

/// Successive insertions of the tiers of the queued axe spawns.
pub open spec fn spawn_tiers_from(
    s: Seq<(Entity, crate::components::items::TierView)>,
    spawns: Seq<SpawnRequest>,
    base: int,
) -> Seq<(Entity, crate::components::items::TierView)>
    decreases spawns.len(),
{
    if spawns.len() == 0 {
        s
    } else {
        spawn_tiers_from(
            match spawns[0] {
                SpawnRequest::Axe { level, .. } => tinsert(
                    s,
                    Entity { id: base as u64 },
                    crate::components::items::TierView {
                        level,
                        alternative_name: Some("Flint Axe"@),
                    },
                ),
                SpawnRequest::FirePit { .. } => s,
            },
            spawns.drop_first(),
            base + 1,
        )
    }
}

pub proof fn lemma_vmap_tremove_all<T, U>(s: Seq<(Entity, T)>, f: spec_fn(T) -> U, del: Seq<Entity>)
    ensures
        vmap(tremove_all(s, del), f) == tremove_all(vmap(s, f), del),
    decreases del.len(),
{
    if del.len() > 0 {
        lemma_vmap_tremove(s, f, del[0]);
        lemma_vmap_tremove_all(tremove(s, del[0]), f, del.drop_first());
    }
}

impl World {
    /// Create one queued entity: allocate a fresh id and attach the
    /// components of the requested kind, inserted directly into the
    /// owner's backpack.
    fn apply_spawn(&mut self, r: SpawnRequest)
        requires
            old(self).wf(),
            old(self).next_id < u64::MAX,
            (match r {
                SpawnRequest::Axe { level, .. } => level == 0,
                SpawnRequest::FirePit { .. } => true,
            }),
        ensures
            final(self).wf(),
            final(self).next_id == old(self).next_id + 1,
            final(self).items@ == tinsert(
                old(self).items@,
                Entity { id: old(self).next_id },
                Item { can_be_picked: true, can_be_crafted: true },
            ),
            names_v(final(self).names@) == tinsert(
                names_v(old(self).names@),
                Entity { id: old(self).next_id },
                spawn_name(r),
            ),
            final(self).backpacks@ == tinsert(
                old(self).backpacks@,
                Entity { id: old(self).next_id },
                InBackpack { owner: spawn_owner(r) },
            ),
            final(self).axes@ == (match r {
                SpawnRequest::Axe { .. } => tinsert(
                    old(self).axes@,
                    Entity { id: old(self).next_id },
                    Axe {},
                ),
                SpawnRequest::FirePit { .. } => old(self).axes@,
            }),
            final(self).fire_pits@ == (match r {
                SpawnRequest::Axe { .. } => old(self).fire_pits@,
                SpawnRequest::FirePit { .. } => tinsert(
                    old(self).fire_pits@,
                    Entity { id: old(self).next_id },
                    FirePit {},
                ),
            }),
            tiers_v(final(self).tiers@) == (match r {
                SpawnRequest::Axe { level, .. } => tinsert(
                    tiers_v(old(self).tiers@),
                    Entity { id: old(self).next_id },
                    crate::components::items::TierView {
                        level,
                        alternative_name: Some("Flint Axe"@),
                    },
                ),
                SpawnRequest::FirePit { .. } => tiers_v(old(self).tiers@),
            }),
            final(self).positions == old(self).positions,
            final(self).renderables == old(self).renderables,
            final(self).players == old(self).players,
            final(self).flints == old(self).flints,
            final(self).bushes == old(self).bushes,
            final(self).wooden_sticks == old(self).wooden_sticks,
            final(self).roses == old(self).roses,
            final(self).pickup_queue == old(self).pickup_queue,
            final(self).craft_queue == old(self).craft_queue,
            final(self).blockers == old(self).blockers,
            final(self).map == old(self).map,
            final(self).log == old(self).log,
            final(self).ui == old(self).ui,
            final(self).player == old(self).player,
            final(self).pending_deletes == old(self).pending_deletes,
            final(self).pending_spawns == old(self).pending_spawns,
    {
        let e = self.allocate();
        self.items.insert(e, Item { can_be_picked: true, can_be_crafted: true });
        match r {
            SpawnRequest::Axe { owner, level } => {
                let base = crate::components::items::name_by_tier(level);
                let mut n = base.to_owned();
                n.append(" Axe");
                proof {
                    reveal_strlit("Flint");
                    reveal_strlit(" Axe");
                    reveal_strlit("Flint Axe");
                    assert(n@ =~= "Flint Axe"@);
                }
                let alt = n.clone();
                self.names.insert(e, Name { name: n });
                self.axes.insert(e, Axe {  });
                self.tiers.insert(e, Tier { level, alternative_name: Some(alt) });
                self.backpacks.insert(e, InBackpack { owner });
            },
            SpawnRequest::FirePit { owner } => {
                let n = "Fire Pit".to_owned();
                self.names.insert(e, Name { name: n });
                self.fire_pits.insert(e, FirePit {  });
                self.backpacks.insert(e, InBackpack { owner });
            },
        }
        proof {
            let eg = Entity { id: old(self).next_id };
            let nn: u64 = (old(self).next_id + 1) as u64;
            lemma_vmap_tinsert(old(self).names@, |na: Name| na.name@, eg, self.names@.last().1);
            assert(names_v(self.names@) == tinsert(names_v(old(self).names@), eg, spawn_name(r)))
                by {
                assert(self.names@ == tinsert(old(self).names@, eg, self.names@.last().1)
                    ==> names_v(self.names@) == tinsert(
                    names_v(old(self).names@),
                    eg,
                    self.names@.last().1.name@,
                ));
            }
            lemma_tinsert(old(self).items@, eg, Item { can_be_picked: true, can_be_crafted: true });
            lemma_tinsert(old(self).names@, eg, self.names@.last().1);
            lemma_tinsert(old(self).backpacks@, eg, InBackpack { owner: spawn_owner(r) });
            match r {
                SpawnRequest::Axe { owner, level } => {
                    lemma_tinsert(old(self).axes@, eg, Axe {  });
                    lemma_tinsert(old(self).tiers@, eg, self.tiers@.last().1);
                    lemma_vmap_tinsert(
                        old(self).tiers@,
                        |t: Tier| t@,
                        eg,
                        self.tiers@.last().1,
                    );
                },
                SpawnRequest::FirePit { .. } => {
                    lemma_tinsert(old(self).fire_pits@, eg, FirePit {  });
                },
            }
            // boundedness at the new allocation bound
            assert(tbounded(old(self).positions@, nn) && tbounded(old(self).renderables@, nn)
                && tbounded(old(self).players@, nn) && tbounded(old(self).names@, nn) && tbounded(
                old(self).items@,
                nn,
            ) && tbounded(old(self).flints@, nn) && tbounded(old(self).bushes@, nn) && tbounded(
                old(self).wooden_sticks@,
                nn,
            ) && tbounded(old(self).roses@, nn) && tbounded(old(self).axes@, nn) && tbounded(
                old(self).fire_pits@,
                nn,
            ) && tbounded(old(self).pickup_queue@, nn) && tbounded(old(self).craft_queue@, nn)
                && tbounded(old(self).backpacks@, nn) && tbounded(old(self).tiers@, nn)
                && tbounded(old(self).blockers@, nn));
            lemma_tinsert_bounded(
                old(self).items@,
                eg,
                Item { can_be_picked: true, can_be_crafted: true },
                nn,
            );
            lemma_tinsert_bounded(old(self).names@, eg, self.names@.last().1, nn);
            lemma_tinsert_bounded(old(self).backpacks@, eg, InBackpack { owner: spawn_owner(r) }, nn);
            match r {
                SpawnRequest::Axe { .. } => {
                    lemma_tinsert_bounded(old(self).axes@, eg, Axe {  }, nn);
                    lemma_tinsert_bounded(old(self).tiers@, eg, self.tiers@.last().1, nn);
                },
                SpawnRequest::FirePit { .. } => {
                    lemma_tinsert_bounded(old(self).fire_pits@, eg, FirePit {  }, nn);
                },
            }
            // the item-slot invariant: the new entity goes straight into a
            // backpack and nowhere onto the map
            lemma_bounded_fresh(old(self).positions@, old(self).next_id, eg);
            assert forall|x: Entity| #[trigger] thas(self.items@, x) implies (thas(
                self.positions@,
                x,
            ) != thas(self.backpacks@, x)) by {
                if x == eg {
                    assert(tlookup(self.backpacks@, eg) == Some(
                        InBackpack { owner: spawn_owner(r) },
                    ));
                    assert(!thas(self.positions@, eg));
                } else {
                    assert(tlookup(self.items@, x) == tlookup(old(self).items@, x));
                    assert(tlookup(self.backpacks@, x) == tlookup(old(self).backpacks@, x));
                    assert(thas(old(self).items@, x) ==> (thas(old(self).positions@, x) != thas(
                        old(self).backpacks@,
                        x,
                    )));
                }
            }
        }
    }

    /// The reconciliation point: apply all queued deletions, then create
    /// all queued entities, in the order the requests were made.
    pub fn maintain(&mut self)
        requires
            old(self).wf(),
            old(self).next_id + old(self).pending_spawns@.len() <= u64::MAX,
        ensures
            final(self).wf(),
            final(self).positions@ == tremove_all(
                old(self).positions@,
                old(self).pending_deletes@,
            ),
            final(self).renderables@ == tremove_all(
                old(self).renderables@,
                old(self).pending_deletes@,
            ),
            final(self).players@ == tremove_all(old(self).players@, old(self).pending_deletes@),
            final(self).flints@ == tremove_all(old(self).flints@, old(self).pending_deletes@),
            final(self).bushes@ == tremove_all(old(self).bushes@, old(self).pending_deletes@),
            final(self).wooden_sticks@ == tremove_all(
                old(self).wooden_sticks@,
                old(self).pending_deletes@,
            ),
            final(self).roses@ == tremove_all(old(self).roses@, old(self).pending_deletes@),
            final(self).pickup_queue@ == tremove_all(
                old(self).pickup_queue@,
                old(self).pending_deletes@,
            ),
            crafts_v(final(self).craft_queue@) == tremove_all(
                crafts_v(old(self).craft_queue@),
                old(self).pending_deletes@,
            ),
            final(self).blockers@ == tremove_all(old(self).blockers@, old(self).pending_deletes@),
            final(self).items@ == spawn_items_from(
                tremove_all(old(self).items@, old(self).pending_deletes@),
                old(self).pending_spawns@,
                old(self).next_id as int,
            ),
            names_v(final(self).names@) == spawn_names_from(
                tremove_all(names_v(old(self).names@), old(self).pending_deletes@),
                old(self).pending_spawns@,
                old(self).next_id as int,
            ),
            final(self).backpacks@ == spawn_backpacks_from(
                tremove_all(old(self).backpacks@, old(self).pending_deletes@),
                old(self).pending_spawns@,
                old(self).next_id as int,
            ),
            final(self).axes@ == spawn_axes_from(
                tremove_all(old(self).axes@, old(self).pending_deletes@),
                old(self).pending_spawns@,
                old(self).next_id as int,
            ),
            final(self).fire_pits@ == spawn_fire_pits_from(
                tremove_all(old(self).fire_pits@, old(self).pending_deletes@),
                old(self).pending_spawns@,
                old(self).next_id as int,
            ),
            tiers_v(final(self).tiers@) == spawn_tiers_from(
                tremove_all(tiers_v(old(self).tiers@), old(self).pending_deletes@),
                old(self).pending_spawns@,
                old(self).next_id as int,
            ),
            final(self).next_id == old(self).next_id + old(self).pending_spawns@.len(),
            final(self).pending_deletes@ == Seq::<Entity>::empty(),
            final(self).pending_spawns@ == Seq::<SpawnRequest>::empty(),
            final(self).map == old(self).map,
            final(self).log == old(self).log,
            final(self).ui == old(self).ui,
            final(self).player == old(self).player,
    {
        let ghost dels = old(self).pending_deletes@;
        let ghost spawns = old(self).pending_spawns@;
        proof {
            assert(dels.skip(0) =~= dels);
            assert(spawns.skip(0) =~= spawns);
        }
        let mut i: usize = 0;
        while i < self.pending_deletes.len()
            invariant
                self.wf(),
                0 <= i <= dels.len(),
                self.pending_deletes@ == dels,
                self.pending_spawns@ == spawns,
                self.next_id == old(self).next_id,
                self.map == old(self).map,
                self.log == old(self).log,
                self.ui == old(self).ui,
                self.player == old(self).player,
                tremove_all(self.positions@, dels.skip(i as int)) == tremove_all(
                    old(self).positions@,
                    dels,
                ),
                tremove_all(self.renderables@, dels.skip(i as int)) == tremove_all(
                    old(self).renderables@,
                    dels,
                ),
                tremove_all(self.players@, dels.skip(i as int)) == tremove_all(
                    old(self).players@,
                    dels,
                ),
                tremove_all(self.names@, dels.skip(i as int)) == tremove_all(
                    old(self).names@,
                    dels,
                ),
                tremove_all(self.items@, dels.skip(i as int)) == tremove_all(
                    old(self).items@,
                    dels,
                ),
                tremove_all(self.flints@, dels.skip(i as int)) == tremove_all(
                    old(self).flints@,
                    dels,
                ),
                tremove_all(self.bushes@, dels.skip(i as int)) == tremove_all(
                    old(self).bushes@,
                    dels,
                ),
                tremove_all(self.wooden_sticks@, dels.skip(i as int)) == tremove_all(
                    old(self).wooden_sticks@,
                    dels,
                ),
                tremove_all(self.roses@, dels.skip(i as int)) == tremove_all(
                    old(self).roses@,
                    dels,
                ),
                tremove_all(self.axes@, dels.skip(i as int)) == tremove_all(
                    old(self).axes@,
                    dels,
                ),
                tremove_all(self.fire_pits@, dels.skip(i as int)) == tremove_all(
                    old(self).fire_pits@,
                    dels,
                ),
                tremove_all(self.pickup_queue@, dels.skip(i as int)) == tremove_all(
                    old(self).pickup_queue@,
                    dels,
                ),
                tremove_all(self.craft_queue@, dels.skip(i as int)) == tremove_all(
                    old(self).craft_queue@,
                    dels,
                ),
                tremove_all(self.backpacks@, dels.skip(i as int)) == tremove_all(
                    old(self).backpacks@,
                    dels,
                ),
                tremove_all(self.tiers@, dels.skip(i as int)) == tremove_all(
                    old(self).tiers@,
                    dels,
                ),
                tremove_all(self.blockers@, dels.skip(i as int)) == tremove_all(
                    old(self).blockers@,
                    dels,
                ),
            decreases dels.len() - i,
        {
            let e = self.pending_deletes[i];
            let ghost pre = *self;
            self.destroy(e);
            proof {
                assert(dels.skip(i as int).drop_first() =~= dels.skip(i as int + 1));
                assert(dels.skip(i as int)[0] == dels[i as int]);
            }
            i = i + 1;
        }
        proof {
            assert(dels.skip(dels.len() as int) =~= Seq::<Entity>::empty());
        }
        self.pending_deletes.clear();

        let ghost afterdel = *self;
        let mut k: usize = 0;
        while k < self.pending_spawns.len()
            invariant
                self.wf(),
                0 <= k <= spawns.len(),
                self.pending_spawns@ == spawns,
                self.pending_deletes@ == Seq::<Entity>::empty(),
                self.next_id == afterdel.next_id + k,
                self.next_id + (spawns.len() - k) <= u64::MAX,
                afterdel.next_id == old(self).next_id,
                self.map == old(self).map,
                self.log == old(self).log,
                self.ui == old(self).ui,
                self.player == old(self).player,
                self.positions == afterdel.positions,
                self.renderables == afterdel.renderables,
                self.players == afterdel.players,
                self.flints == afterdel.flints,
                self.bushes == afterdel.bushes,
                self.wooden_sticks == afterdel.wooden_sticks,
                self.roses == afterdel.roses,
                self.pickup_queue == afterdel.pickup_queue,
                self.craft_queue == afterdel.craft_queue,
                self.blockers == afterdel.blockers,
                spawn_items_from(self.items@, spawns.skip(k as int), self.next_id as int)
                    == spawn_items_from(afterdel.items@, spawns, afterdel.next_id as int),
                spawn_names_from(names_v(self.names@), spawns.skip(k as int), self.next_id as int)
                    == spawn_names_from(names_v(afterdel.names@), spawns, afterdel.next_id as int),
                spawn_backpacks_from(self.backpacks@, spawns.skip(k as int), self.next_id as int)
                    == spawn_backpacks_from(afterdel.backpacks@, spawns, afterdel.next_id as int),
                spawn_axes_from(self.axes@, spawns.skip(k as int), self.next_id as int)
                    == spawn_axes_from(afterdel.axes@, spawns, afterdel.next_id as int),
                spawn_fire_pits_from(self.fire_pits@, spawns.skip(k as int), self.next_id as int)
                    == spawn_fire_pits_from(afterdel.fire_pits@, spawns, afterdel.next_id as int),
                spawn_tiers_from(tiers_v(self.tiers@), spawns.skip(k as int), self.next_id as int)
                    == spawn_tiers_from(tiers_v(afterdel.tiers@), spawns, afterdel.next_id as int),
            decreases spawns.len() - k,
        {
            let r = self.pending_spawns[k];
            proof {
                assert(spawns.skip(k as int)[0] == spawns[k as int]);
                assert(spawns.skip(k as int).drop_first() =~= spawns.skip(k as int + 1));
            }
            self.apply_spawn(r);
            k = k + 1;
        }
        proof {
            assert(spawns.skip(spawns.len() as int) =~= Seq::<SpawnRequest>::empty());
        }
        self.pending_spawns.clear();
        proof {
            lemma_vmap_tremove_all(old(self).names@, |na: Name| na.name@, dels);
            lemma_vmap_tremove_all(old(self).tiers@, |t: Tier| t@, dels);
            lemma_vmap_tremove_all(old(self).craft_queue@, |c: CraftQueue| c.item_name@, dels);
        }
    }
}

} // verus!

//! The state model of the coordination plane: an in-memory key-value
//! store offering exactly the capability the services need — strings,
//! ordered lists, insertion-ordered sets, atomic counters, and the typed
//! shard and system records.
//!
//! The view of a store is a map from keys to entry values; every
//! operation states its effect as an update of that map.

use vstd::prelude::*;
use vstd::string::*;

use crate::text::str_eq;
use crate::types::{Shard, ShardV, System, SystemV};

verus! {

/// One stored value.
#[derive(Debug)]
pub enum Entry {
    /// A plain text value (component values are stored as their JSON
    /// text).
    Text(String),
    /// An ordered list.
    List(Vec<String>),
    /// An insertion-ordered set: a list without duplicates.
    Uniq(Vec<String>),
    /// An integer counter.
    Num(i64),
    /// A shard record.
    ShardRec(Shard),
    /// A system record.
    SysRec(System),
}

/// Spec-level image of an [`Entry`].
pub ghost enum EntryV {
    Text(Seq<char>),
    List(Seq<Seq<char>>),
    Uniq(Seq<Seq<char>>),
    Num(int),
    ShardRec(ShardV),
    SysRec(SystemV),
}

impl View for Entry {
    type V = EntryV;

    open spec fn view(&self) -> EntryV {
        match self {
            Entry::Text(s) => EntryV::Text(s@),
            Entry::List(l) => EntryV::List(l.deep_view()),
            Entry::Uniq(l) => EntryV::Uniq(l.deep_view()),
            Entry::Num(n) => EntryV::Num(*n as int),
            Entry::ShardRec(s) => EntryV::ShardRec(s@),
            Entry::SysRec(s) => EntryV::SysRec(s@),
        }
    }
}

/// The text value at `k`, if `k` holds one.
pub open spec fn str_at(m: Map<Seq<char>, EntryV>, k: Seq<char>) -> Option<Seq<char>> {
    if m.contains_key(k) {
        match m[k] {
            EntryV::Text(s) => Some(s),
            _ => None,
        }
    } else {
        None
    }
}

/// The list at `k`; empty when `k` holds no list.
pub open spec fn list_at(m: Map<Seq<char>, EntryV>, k: Seq<char>) -> Seq<Seq<char>> {
    if m.contains_key(k) {
        match m[k] {
            EntryV::List(l) => l,
            _ => Seq::empty(),
        }
    } else {
        Seq::empty()
    }
}

/// The members of the set at `k`, in insertion order; empty when `k`
/// holds no set.
pub open spec fn uniq_at(m: Map<Seq<char>, EntryV>, k: Seq<char>) -> Seq<Seq<char>> {
    if m.contains_key(k) {
        match m[k] {
            EntryV::Uniq(l) => l,
            _ => Seq::empty(),
        }
    } else {
        Seq::empty()
    }
}

/// The counter at `k`; zero when `k` holds no counter.
pub open spec fn num_at(m: Map<Seq<char>, EntryV>, k: Seq<char>) -> int {
    if m.contains_key(k) {
        match m[k] {
            EntryV::Num(n) => n,
            _ => 0,
        }
    } else {
        0
    }
}

/// The shard record at `k`, if `k` holds one.
pub open spec fn shard_at(m: Map<Seq<char>, EntryV>, k: Seq<char>) -> Option<ShardV> {
    if m.contains_key(k) {
        match m[k] {
            EntryV::ShardRec(s) => Some(s),
            _ => None,
        }
    } else {
        None
    }
}

/// The system record at `k`, if `k` holds one.
pub open spec fn system_at(m: Map<Seq<char>, EntryV>, k: Seq<char>) -> Option<SystemV> {
    if m.contains_key(k) {
        match m[k] {
            EntryV::SysRec(s) => Some(s),
            _ => None,
        }
    } else {
        None
    }
}

/// `s` with every occurrence of `x` removed.
pub open spec fn spec_remove_all(s: Seq<Seq<char>>, x: Seq<char>) -> Seq<Seq<char>>
    decreases s.len(),
{
    if s.len() == 0 {
        Seq::empty()
    } else if s.last() == x {
        spec_remove_all(s.drop_last(), x)
    } else {
        spec_remove_all(s.drop_last(), x).push(s.last())
    }
}

/// The smallest index of `x` in `s`, or `s.len()` when `x` is absent.
pub open spec fn spec_index_of(s: Seq<Seq<char>>, x: Seq<char>) -> nat
    decreases s.len(),
{
    if s.len() == 0 {
        0
    } else if s[0] == x {
        0
    } else {
        1 + spec_index_of(s.drop_first(), x)
    }
}

pub proof fn lemma_index_of(s: Seq<Seq<char>>, x: Seq<char>)
    ensures
        spec_index_of(s, x) <= s.len(),
        forall|j: int| 0 <= j < spec_index_of(s, x) ==> s[j] != x,
        spec_index_of(s, x) < s.len() ==> s[spec_index_of(s, x) as int] == x,
    decreases s.len(),
{
    if s.len() == 0 {
    } else if s[0] == x {
    } else {
        lemma_index_of(s.drop_first(), x);
        assert forall|j: int| 0 <= j < spec_index_of(s, x) implies s[j] != x by {
            if j > 0 {
                assert(s.drop_first()[j - 1] != x);
            }
        }
    }
}

#[derive(Debug)]
struct Slot {
    key: String,
    val: Entry,
}

spec fn distinct_keys(s: Seq<Slot>) -> bool {
    forall|i: int, j: int| 0 <= i < j < s.len() ==> s[i].key@ != s[j].key@
}

spec fn to_map(s: Seq<Slot>) -> Map<Seq<char>, EntryV>
    decreases s.len(),
{
    if s.len() == 0 {
        Map::empty()
    } else {
        to_map(s.drop_last()).insert(s.last().key@, s.last().val@)
    }
}

proof fn lemma_to_map_domain(s: Seq<Slot>)
    ensures
        forall|k: Seq<char>|
            #[trigger] to_map(s).contains_key(k) <==> (exists|i: int|
                0 <= i < s.len() && s[i].key@ == k),
    decreases s.len(),
{
    if s.len() == 0 {
    } else {
        lemma_to_map_domain(s.drop_last());
        assert forall|k: Seq<char>| #[trigger] to_map(s).contains_key(k) implies (exists|i: int|
            0 <= i < s.len() && s[i].key@ == k) by {
            if k == s.last().key@ {
                assert(s[s.len() - 1].key@ == k);
            } else {
                assert(to_map(s.drop_last()).contains_key(k));
                let i = choose|i: int| 0 <= i < s.drop_last().len() && s.drop_last()[i].key@ == k;
                assert(s[i].key@ == k);
            }
        }
        assert forall|k: Seq<char>|
            (exists|i: int| 0 <= i < s.len() && s[i].key@ == k) implies #[trigger] to_map(
            s,
        ).contains_key(k) by {
            let i = choose|i: int| 0 <= i < s.len() && s[i].key@ == k;
            if i == s.len() - 1 {
            } else {
                assert(s.drop_last()[i].key@ == k);
                assert(to_map(s.drop_last()).contains_key(k));
            }
        }
    }
}

proof fn lemma_to_map_get(s: Seq<Slot>, i: int)
    requires
        distinct_keys(s),
        0 <= i < s.len(),
    ensures
        to_map(s).contains_key(s[i].key@),
        to_map(s)[s[i].key@] == s[i].val@,
    decreases s.len(),
{
    if i == s.len() - 1 {
    } else {
        assert(distinct_keys(s.drop_last()));
        assert(s.drop_last()[i] == s[i]);
        lemma_to_map_get(s.drop_last(), i);
        assert(s[i].key@ != s.last().key@);
    }
}

proof fn lemma_to_map_push(s: Seq<Slot>, slot: Slot)
    ensures
        to_map(s.push(slot)) == to_map(s).insert(slot.key@, slot.val@),
{
    assert(s.push(slot).drop_last() =~= s);
    assert(s.push(slot).last() == slot);
}

proof fn lemma_to_map_remove(s: Seq<Slot>, i: int)
    requires
        distinct_keys(s),
        0 <= i < s.len(),
    ensures
        to_map(s.remove(i)) =~= to_map(s).remove(s[i].key@),
    decreases s.len(),
{
    lemma_to_map_domain(s);
    lemma_to_map_domain(s.remove(i));
    if i == s.len() - 1 {
        assert(s.remove(i) =~= s.drop_last());
        assert(!to_map(s.drop_last()).contains_key(s[i].key@)) by {
            lemma_to_map_domain(s.drop_last());
            if to_map(s.drop_last()).contains_key(s[i].key@) {
                let j = choose|j: int|
                    0 <= j < s.drop_last().len() && s.drop_last()[j].key@ == s[i].key@;
                assert(s[j].key@ == s[i].key@);
            }
        }
        assert(to_map(s.drop_last()) =~= to_map(s.drop_last()).insert(
            s.last().key@,
            s.last().val@,
        ).remove(s[i].key@));
    } else {
        assert(distinct_keys(s.drop_last()));
        assert(s.remove(i).drop_last() =~= s.drop_last().remove(i));
        assert(s.remove(i).last() == s.last());
        lemma_to_map_remove(s.drop_last(), i);
        assert(s.drop_last()[i] == s[i]);
        assert(s[i].key@ != s.last().key@);
        assert(to_map(s.remove(i)) == to_map(s.drop_last().remove(i)).insert(
            s.last().key@,
            s.last().val@,
        ));
        assert(to_map(s.drop_last()).remove(s[i].key@).insert(s.last().key@, s.last().val@)
            =~= to_map(s.drop_last()).insert(s.last().key@, s.last().val@).remove(s[i].key@));
    }
}

/// The key-value store.
#[derive(Debug)]
pub struct Store {
    slots: Vec<Slot>,
}

impl View for Store {
    type V = Map<Seq<char>, EntryV>;

    closed spec fn view(&self) -> Map<Seq<char>, EntryV> {
        to_map(self.slots@)
    }
}

impl Store {
    /// The store's internal well-formedness; established by [`Store::new`]
    /// and preserved by every operation.
    pub closed spec fn wf(self) -> bool {
        distinct_keys(self.slots@)
    }

    /// An empty store.
    pub fn new() -> (r: Store)
        ensures
            r@ == Map::<Seq<char>, EntryV>::empty(),
            r.wf(),
    {
        Store { slots: Vec::new() }
    }

    fn find(&self, key: &str) -> (r: Option<usize>)
        ensures
            match r {
                Some(i) => i < self.slots@.len() && self.slots@[i as int].key@ == key@,
                None => forall|j: int| 0 <= j < self.slots@.len() ==> self.slots@[j].key@ != key@,
            },
    {
        let mut i: usize = 0;
        while i < self.slots.len()
            invariant
                i <= self.slots@.len(),
                forall|j: int| 0 <= j < i ==> self.slots@[j].key@ != key@,
            decreases self.slots@.len() - i,
        {
            if str_eq(self.slots[i].key.as_str(), key) {
                return Some(i);
            }
            i += 1;
        }
        None
    }

    /// Whether any entry is stored under `key`.
    pub fn kv_exists(&self, key: &str) -> (r: bool)
        ensures
            r == self@.contains_key(key@),
    {
        proof {
            lemma_to_map_domain(self.slots@);
        }
        match self.find(key) {
            Some(_) => true,
            None => false,
        }
    }

    /// The entry stored under `key`.
    pub fn get_entry(&self, key: &str) -> (r: Option<&Entry>)
        requires
            self.wf(),
        ensures
            match r {
                Some(e) => self@.contains_key(key@) && e@ == self@[key@],
                None => !self@.contains_key(key@),
            },
    {
        proof {
            lemma_to_map_domain(self.slots@);
        }
        match self.find(key) {
            Some(i) => {
                proof {
                    lemma_to_map_get(self.slots@, i as int);
                }
                Some(&self.slots[i].val)
            },
            None => None,
        }
    }

    /// Stores `val` under `key`, replacing any previous entry.
    pub fn set_entry(&mut self, key: &str, val: Entry)
        requires
            old(self).wf(),
        ensures
            final(self).wf(),
            final(self)@ == old(self)@.insert(key@, val@),
    {
        proof {
            lemma_to_map_domain(self.slots@);
        }
        let ghost pre = self.slots@;
        match self.find(key) {
            Some(i) => {
                proof {
                    lemma_to_map_remove(pre, i as int);
                }
                self.slots.remove(i);
                let ghost mid = self.slots@;
                proof {
                    assert(distinct_keys(mid)) by {
                        assert forall|a: int, b: int|
                            0 <= a < b < mid.len() implies mid[a].key@ != mid[b].key@ by {
                            if b < i {
                                assert(pre[a].key@ != pre[b].key@);
                            } else if a < i {
                                assert(pre[a].key@ != pre[b + 1].key@);
                            } else {
                                assert(pre[a + 1].key@ != pre[b + 1].key@);
                            }
                        }
                    }
                    assert(forall|j: int| 0 <= j < mid.len() ==> mid[j].key@ != key@) by {
                        assert forall|j: int| 0 <= j < mid.len() implies mid[j].key@ != key@ by {
                            if j < i {
                                assert(pre[j].key@ != pre[i as int].key@);
                            } else {
                                assert(pre[i as int].key@ != pre[j + 1].key@);
                            }
                        }
                    }
                }
                let ghost vv = val@;
                let owned = key.to_owned();
                self.slots.push(Slot { key: owned, val });
                proof {
                    lemma_to_map_push(mid, self.slots@.last());
                    assert(to_map(self.slots@) =~= to_map(pre).insert(key@, vv));
                }
            },
            None => {
                let owned = key.to_owned();
                self.slots.push(Slot { key: owned, val });
                proof {
                    lemma_to_map_push(pre, self.slots@.last());
                }
            },
        }
    }

    /// Removes the entry under `key`, if any.
    pub fn remove_entry(&mut self, key: &str)
        requires
            old(self).wf(),
        ensures
            final(self).wf(),
            final(self)@ == old(self)@.remove(key@),
    {
        proof {
            lemma_to_map_domain(self.slots@);
        }
        let ghost pre = self.slots@;
        match self.find(key) {
            Some(i) => {
                proof {
                    lemma_to_map_remove(pre, i as int);
                }
                self.slots.remove(i);
                proof {
                    assert(distinct_keys(self.slots@)) by {
                        assert forall|a: int, b: int|
                            0 <= a < b < self.slots@.len() implies self.slots@[a].key@
                            != self.slots@[b].key@ by {
                            if b < i {
                                assert(pre[a].key@ != pre[b].key@);
                            } else if a < i {
                                assert(pre[a].key@ != pre[b + 1].key@);
                            } else {
                                assert(pre[a + 1].key@ != pre[b + 1].key@);
                            }
                        }
                    }
                }
            },
            None => {
                proof {
                    assert(!to_map(pre).contains_key(key@));
                    assert(to_map(pre) =~= to_map(pre).remove(key@));
                }
            },
        }
    }
}

/// Pushes a copy of `item` onto `v`.
pub fn push_string(v: &mut Vec<String>, item: &str)
    ensures
        final(v).deep_view() == old(v).deep_view().push(item@),
        final(v)@.len() == old(v)@.len() + 1,
{
    let ghost pre_dv = v.deep_view();
    let ghost pre = v@;
    v.push(item.to_owned());
    proof {
        assert forall|t: int| 0 <= t < v@.len() implies v.deep_view()[t] == pre_dv.push(item@)[t] by {
            if t < pre.len() {
                assert(v@[t] == pre[t]);
            }
        }
        assert(v.deep_view() =~= pre_dv.push(item@));
    }
}

/// A copy of a vector of strings.
pub fn clone_strings(v: &Vec<String>) -> (r: Vec<String>)
    ensures
        r.deep_view() == v.deep_view(),
        r@.len() == v@.len(),
{
    let mut r: Vec<String> = Vec::new();
    let mut i: usize = 0;
    while i < v.len()
        invariant
            i <= v@.len(),
            r@.len() == i,
            r.deep_view() =~= v.deep_view().subrange(0, i as int),
        decreases v@.len() - i,
    {
        push_string(&mut r, v[i].as_str());
        assert(r.deep_view() =~= v.deep_view().subrange(0, i + 1 as int));
        i += 1;
    }
    proof {
        assert(v.deep_view().subrange(0, v@.len() as int) =~= v.deep_view());
    }
    r
}

/// Whether `x` occurs in `v`.
pub fn vec_contains_str(v: &Vec<String>, x: &str) -> (r: bool)
    ensures
        r == v.deep_view().contains(x@),
{
    let mut i: usize = 0;
    while i < v.len()
        invariant
            i <= v@.len(),
            forall|j: int| 0 <= j < i ==> v.deep_view()[j] != x@,
        decreases v@.len() - i,
    {
        if str_eq(v[i].as_str(), x) {
            assert(v.deep_view()[i as int] == x@);
            return true;
        }
        i += 1;
    }
    assert(!v.deep_view().contains(x@)) by {
        if v.deep_view().contains(x@) {
            let j = choose|j: int| 0 <= j < v.deep_view().len() && v.deep_view()[j] == x@;
        }
    }
    false
}

/// Every member of the set at `keys[j]` for all `j >= 1`.
pub open spec fn in_all_sets(
    m: Map<Seq<char>, EntryV>,
    keys: Seq<Seq<char>>,
    x: Seq<char>,
) -> bool {
    forall|j: int| 1 <= j < keys.len() ==> #[trigger] uniq_at(m, keys[j]).contains(x)
}

pub open spec fn spec_sel(s: Seq<Seq<char>>, m: Map<Seq<char>, EntryV>, keys: Seq<Seq<char>>) -> Seq<
    Seq<char>,
>
    decreases s.len(),
{
    if s.len() == 0 {
        Seq::empty()
    } else if in_all_sets(m, keys, s.last()) {
        spec_sel(s.drop_last(), m, keys).push(s.last())
    } else {
        spec_sel(s.drop_last(), m, keys)
    }
}

/// The members of the set at `keys[0]`, in order, that are members of the
/// set at every other key; empty when no key is given.
pub open spec fn spec_intersect(m: Map<Seq<char>, EntryV>, keys: Seq<Seq<char>>) -> Seq<
    Seq<char>,
> {
    if keys.len() == 0 {
        Seq::empty()
    } else {
        spec_sel(uniq_at(m, keys[0]), m, keys)
    }
}

impl Store {
    /// The text value stored under `key`, if any.
    pub fn kv_get_str(&self, key: &str) -> (r: Option<String>)
        requires
            self.wf(),
        ensures
            match r {
                Some(s) => str_at(self@, key@) == Some(s@),
                None => str_at(self@, key@) is None,
            },
    {
        match self.get_entry(key) {
            Some(e) => match e {
                Entry::Text(s) => Some(s.clone()),
                _ => None,
            },
            None => None,
        }
    }

    /// Stores a text value under `key`.
    pub fn kv_set_str(&mut self, key: &str, val: &str)
        requires
            old(self).wf(),
        ensures
            final(self).wf(),
            final(self)@ == old(self)@.insert(key@, EntryV::Text(val@)),
    {
        self.set_entry(key, Entry::Text(val.to_owned()));
    }

    /// Atomically adds `amount` to the counter at `key` (absent counts as
    /// zero) and returns the new value, or `None` when the sum would leave
    /// the counter's range, leaving the store unchanged.
    pub fn kv_atomic_add(&mut self, key: &str, amount: i64) -> (r: Option<i64>)
        requires
            old(self).wf(),
        ensures
            final(self).wf(),
            ({
                let base = num_at(old(self)@, key@);
                if i64::MIN <= base + amount <= i64::MAX {
                    r == Some((base + amount) as i64) && final(self)@ == old(self)@.insert(
                        key@,
                        EntryV::Num(base + amount),
                    )
                } else {
                    r is None && final(self)@ == old(self)@
                }
            }),
    {
        let base: i64 = match self.get_entry(key) {
            Some(e) => match e {
                Entry::Num(n) => *n,
                _ => 0,
            },
            None => 0,
        };
        if amount >= 0 {
            if base > i64::MAX - amount {
                return None;
            }
        } else {
            if base < i64::MIN - amount {
                return None;
            }
        }
        let v = base + amount;
        self.set_entry(key, Entry::Num(v));
        Some(v)
    }

    /// The counter at `key`; zero when `key` holds no counter.
    pub fn kv_get_num(&self, key: &str) -> (r: i64)
        requires
            self.wf(),
        ensures
            r as int == num_at(self@, key@),
    {
        match self.get_entry(key) {
            Some(e) => match e {
                Entry::Num(n) => *n,
                _ => 0,
            },
            None => 0,
        }
    }

    /// Appends `item` to the list at `key` (an absent or non-list entry
    /// counts as empty) and returns the new length.
    pub fn kv_list_add(&mut self, key: &str, item: &str) -> (r: usize)
        requires
            old(self).wf(),
        ensures
            final(self).wf(),
            final(self)@ == old(self)@.insert(
                key@,
                EntryV::List(list_at(old(self)@, key@).push(item@)),
            ),
            r as int == list_at(old(self)@, key@).len() + 1,
    {
        let mut l: Vec<String> = match self.get_entry(key) {
            Some(e) => match e {
                Entry::List(v) => clone_strings(v),
                _ => Vec::new(),
            },
            None => Vec::new(),
        };
        assert(l.deep_view() =~= list_at(self@, key@));
        push_string(&mut l, item);
        let n = l.len();
        self.set_entry(key, Entry::List(l));
        n
    }

    /// The whole list at `key`; empty when `key` holds no list.
    pub fn kv_list_all(&self, key: &str) -> (r: Vec<String>)
        requires
            self.wf(),
        ensures
            r.deep_view() == list_at(self@, key@),
    {
        match self.get_entry(key) {
            Some(e) => match e {
                Entry::List(v) => clone_strings(v),
                _ => Vec::new(),
            },
            None => Vec::new(),
        }
    }

    /// Removes every occurrence of `item` from the list at `key` and
    /// returns how many were removed.  A key holding no list is left
    /// unchanged.
    pub fn kv_list_del_item(&mut self, key: &str, item: &str) -> (r: usize)
        requires
            old(self).wf(),
        ensures
            final(self).wf(),
            ({
                let l = list_at(old(self)@, key@);
                if old(self)@.contains_key(key@) && old(self)@[key@] is List {
                    final(self)@ == old(self)@.insert(
                        key@,
                        EntryV::List(spec_remove_all(l, item@)),
                    ) && r as int == l.len() - spec_remove_all(l, item@).len()
                } else {
                    final(self)@ == old(self)@ && r == 0
                }
            }),
    {
        let kept: Option<Vec<String>> = match self.get_entry(key) {
            Some(e) => match e {
                Entry::List(v) => {
                    let mut kept: Vec<String> = Vec::new();
                    let mut i: usize = 0;
                    while i < v.len()
                        invariant
                            i <= v@.len(),
                            kept@.len() <= i,
                            kept.deep_view() =~= spec_remove_all(
                                v.deep_view().subrange(0, i as int),
                                item@,
                            ),
                        decreases v@.len() - i,
                    {
                        let ghost prefix = v.deep_view().subrange(0, i as int);
                        assert(v.deep_view().subrange(0, i + 1 as int).drop_last() =~= prefix);
                        assert(v.deep_view().subrange(0, i + 1 as int).last() == v.deep_view()[
                            i as int
                        ]);
                        if !str_eq(v[i].as_str(), item) {
                            push_string(&mut kept, v[i].as_str());
                        }
                        i += 1;
                    }
                    assert(v.deep_view().subrange(0, v@.len() as int) =~= v.deep_view());
                    Some(kept)
                },
                _ => None,
            },
            None => None,
        };
        match kept {
            Some(kept) => {
                proof {
                    lemma_remove_all_len(list_at(self@, key@), item@);
                }
                let removed = self.kv_list_all_len(key) - kept.len();
                self.set_entry(key, Entry::List(kept));
                removed
            },
            None => 0,
        }
    }

    /// The length of the list at `key`.
    fn kv_list_all_len(&self, key: &str) -> (r: usize)
        requires
            self.wf(),
        ensures
            r as int == list_at(self@, key@).len(),
    {
        match self.get_entry(key) {
            Some(e) => match e {
                Entry::List(v) => v.len(),
                _ => 0,
            },
            None => 0,
        }
    }

    /// The smallest index of `item` in the list at `key`, or the list's
    /// length when `item` is absent.
    pub fn kv_list_index_of(&self, key: &str, item: &str) -> (r: Option<usize>)
        requires
            self.wf(),
        ensures
            match r {
                Some(i) => i as nat == spec_index_of(list_at(self@, key@), item@) && (
                i as nat) < list_at(self@, key@).len(),
                None => spec_index_of(list_at(self@, key@), item@) == list_at(
                    self@,
                    key@,
                ).len(),
            },
    {
        proof {
            lemma_index_of(list_at(self@, key@), item@);
        }
        match self.get_entry(key) {
            Some(e) => match e {
                Entry::List(v) => {
                    let ghost l = list_at(self@, key@);
                    let mut i: usize = 0;
                    while i < v.len()
                        invariant
                            i <= v@.len(),
                            l == v.deep_view(),
                            l == list_at(self@, key@),
                            spec_index_of(l, item@) <= l.len(),
                            forall|j: int| 0 <= j < spec_index_of(l, item@) ==> l[j] != item@,
                            spec_index_of(l, item@) < l.len() ==> l[spec_index_of(
                                l,
                                item@,
                            ) as int] == item@,
                            forall|j: int| 0 <= j < i ==> l[j] != item@,
                        decreases v@.len() - i,
                    {
                        if str_eq(v[i].as_str(), item) {
                            proof {
                                let f = spec_index_of(l, item@);
                                assert(l[i as int] == item@);
                                if f < i {
                                    assert(l[f as int] != item@);
                                    assert(l[f as int] == item@);
                                } else if f > i {
                                    assert(l[i as int] != item@);
                                }
                                assert(f == i);
                                assert(l == list_at(self@, key@));
                            }
                            return Some(i);
                        }
                        i += 1;
                    }
                    proof {
                        let f = spec_index_of(l, item@);
                        if f < l.len() {
                            assert(l[f as int] != item@);
                        }
                    }
                    None
                },
                _ => None,
            },
            None => None,
        }
    }

    /// Adds `item` to the set at `key` (an absent or non-set entry counts
    /// as empty); returns 1 when the item was added, 0 when it was already
    /// a member (the store is then unchanged).
    pub fn kv_set_add(&mut self, key: &str, item: &str) -> (r: usize)
        requires
            old(self).wf(),
        ensures
            final(self).wf(),
            ({
                let l = uniq_at(old(self)@, key@);
                if l.contains(item@) {
                    r == 0 && final(self)@ == old(self)@
                } else {
                    r == 1 && final(self)@ == old(self)@.insert(
                        key@,
                        EntryV::Uniq(l.push(item@)),
                    )
                }
            }),
    {
        let extended: Option<Vec<String>> = match self.get_entry(key) {
            Some(e) => match e {
                Entry::Uniq(v) => {
                    if vec_contains_str(v, item) {
                        None
                    } else {
                        Some(clone_strings(v))
                    }
                },
                _ => Some(Vec::new()),
            },
            None => Some(Vec::new()),
        };
        match extended {
            Some(mut l) => {
                assert(l.deep_view() =~= uniq_at(old(self)@, key@));
                push_string(&mut l, item);
                self.set_entry(key, Entry::Uniq(l));
                1
            },
            None => 0,
        }
    }

    /// Removes `item` from the set at `key`; returns 1 when it was a
    /// member, 0 otherwise.  A key holding no set is left unchanged.
    pub fn kv_set_remove(&mut self, key: &str, item: &str) -> (r: usize)
        requires
            old(self).wf(),
        ensures
            final(self).wf(),
            ({
                let l = uniq_at(old(self)@, key@);
                if l.contains(item@) {
                    final(self)@ == old(self)@.insert(
                        key@,
                        EntryV::Uniq(spec_remove_all(l, item@)),
                    ) && r as int == l.len() - spec_remove_all(l, item@).len()
                } else {
                    final(self)@ == old(self)@ && r == 0
                }
            }),
    {
        let kept: Option<Vec<String>> = match self.get_entry(key) {
            Some(e) => match e {
                Entry::Uniq(v) => {
                    if vec_contains_str(v, item) {
                        let mut kept: Vec<String> = Vec::new();
                        let mut i: usize = 0;
                        while i < v.len()
                            invariant
                                i <= v@.len(),
                                kept@.len() <= i,
                                kept.deep_view() =~= spec_remove_all(
                                    v.deep_view().subrange(0, i as int),
                                    item@,
                                ),
                            decreases v@.len() - i,
                        {
                            let ghost prefix = v.deep_view().subrange(0, i as int);
                            assert(v.deep_view().subrange(0, i + 1 as int).drop_last()
                                =~= prefix);
                            assert(v.deep_view().subrange(0, i + 1 as int).last()
                                == v.deep_view()[i as int]);
                            if !str_eq(v[i].as_str(), item) {
                                push_string(&mut kept, v[i].as_str());
                            }
                            i += 1;
                        }
                        assert(v.deep_view().subrange(0, v@.len() as int) =~= v.deep_view());
                        Some(kept)
                    } else {
                        None
                    }
                },
                _ => None,
            },
            None => None,
        };
        match kept {
            Some(kept) => {
                proof {
                    lemma_remove_all_len(uniq_at(self@, key@), item@);
                }
                let removed = self.kv_set_members_len(key) - kept.len();
                self.set_entry(key, Entry::Uniq(kept));
                removed
            },
            None => 0,
        }
    }

    /// The number of members of the set at `key`.
    fn kv_set_members_len(&self, key: &str) -> (r: usize)
        requires
            self.wf(),
        ensures
            r as int == uniq_at(self@, key@).len(),
    {
        match self.get_entry(key) {
            Some(e) => match e {
                Entry::Uniq(v) => v.len(),
                _ => 0,
            },
            None => 0,
        }
    }

    /// The members of the set at `key`, in insertion order.
    pub fn kv_set_members(&self, key: &str) -> (r: Vec<String>)
        requires
            self.wf(),
        ensures
            r.deep_view() == uniq_at(self@, key@),
    {
        match self.get_entry(key) {
            Some(e) => match e {
                Entry::Uniq(v) => clone_strings(v),
                _ => Vec::new(),
            },
            None => Vec::new(),
        }
    }

    /// Whether `item` is a member of the set at `key`.
    pub fn kv_set_contains(&self, key: &str, item: &str) -> (r: bool)
        requires
            self.wf(),
        ensures
            r == uniq_at(self@, key@).contains(item@),
    {
        match self.get_entry(key) {
            Some(e) => match e {
                Entry::Uniq(v) => vec_contains_str(v, item),
                _ => false,
            },
            None => false,
        }
    }

    /// The members of the set at the first key that are members of the
    /// sets at all the other keys, in the first set's order; empty when no
    /// key is given.
    pub fn kv_set_intersect(&self, keys: &Vec<String>) -> (r: Vec<String>)
        requires
            self.wf(),
        ensures
            r.deep_view() == spec_intersect(self@, keys.deep_view()),
    {
        if keys.len() == 0 {
            let r: Vec<String> = Vec::new();
            return r;
        }
        let first = self.kv_set_members(keys[0].as_str());
        let ghost fs = first.deep_view();
        let mut out: Vec<String> = Vec::new();
        let mut i: usize = 0;
        while i < first.len()
            invariant
                self.wf(),
                i <= first@.len(),
                fs == first.deep_view(),
                keys@.len() >= 1,
                fs == uniq_at(self@, keys.deep_view()[0]),
                out.deep_view() =~= spec_sel(fs.subrange(0, i as int), self@, keys.deep_view()),
            decreases first@.len() - i,
        {
            let ghost prefix = fs.subrange(0, i as int);
            assert(fs.subrange(0, i + 1 as int).drop_last() =~= prefix);
            assert(fs.subrange(0, i + 1 as int).last() == fs[i as int]);
            let mut all = true;
            let mut j: usize = 1;
            loop
                invariant_except_break
                    self.wf(),
                    1 <= j <= keys@.len(),
                    i < first@.len(),
                    fs == first.deep_view(),
                    all,
                    forall|t: int|
                        1 <= t < j ==> #[trigger] uniq_at(self@, keys.deep_view()[t]).contains(
                            fs[i as int],
                        ),
                ensures
                    all == in_all_sets(self@, keys.deep_view(), fs[i as int]),
                decreases keys@.len() - j,
            {
                if j == keys.len() {
                    assert(in_all_sets(self@, keys.deep_view(), fs[i as int]));
                    break;
                }
                if !self.kv_set_contains(keys[j].as_str(), first[i].as_str()) {
                    all = false;
                    assert(!uniq_at(self@, keys.deep_view()[j as int]).contains(fs[i as int]));
                    assert(!in_all_sets(self@, keys.deep_view(), fs[i as int]));
                    break;
                }
                assert(uniq_at(self@, keys.deep_view()[j as int]).contains(fs[i as int]));
                j += 1;
            }
            if all {
                push_string(&mut out, first[i].as_str());
            }
            i += 1;
        }
        proof {
            assert(fs.subrange(0, first@.len() as int) =~= fs);
        }
        out
    }

    /// Stores a shard record under `key`.
    pub fn kv_set_shard(&mut self, key: &str, shard: Shard)
        requires
            old(self).wf(),
        ensures
            final(self).wf(),
            final(self)@ == old(self)@.insert(key@, EntryV::ShardRec(shard@)),
    {
        self.set_entry(key, Entry::ShardRec(shard));
    }

    /// The shard record stored under `key`, if any.
    pub fn kv_get_shard(&self, key: &str) -> (r: Option<Shard>)
        requires
            self.wf(),
        ensures
            match r {
                Some(s) => shard_at(self@, key@) == Some(s@),
                None => shard_at(self@, key@) is None,
            },
    {
        match self.get_entry(key) {
            Some(e) => match e {
                Entry::ShardRec(s) => Some(
                    Shard { name: s.name.clone(), capacity: s.capacity, current: s.current },
                ),
                _ => None,
            },
            None => None,
        }
    }

    /// Stores a system record under `key`.
    pub fn kv_set_system(&mut self, key: &str, system: System)
        requires
            old(self).wf(),
        ensures
            final(self).wf(),
            final(self)@ == old(self)@.insert(key@, EntryV::SysRec(system@)),
    {
        self.set_entry(key, Entry::SysRec(system));
    }

    /// The system record stored under `key`, if any.
    pub fn kv_get_system(&self, key: &str) -> (r: Option<System>)
        requires
            self.wf(),
        ensures
            match r {
                Some(s) => system_at(self@, key@) == Some(s@),
                None => system_at(self@, key@) is None,
            },
    {
        match self.get_entry(key) {
            Some(e) => match e {
                Entry::SysRec(s) => Some(
                    System {
                        name: s.name.clone(),
                        framerate: s.framerate,
                        components: clone_strings(&s.components),
                    },
                ),
                _ => None,
            },
            None => None,
        }
    }
}

/// An index whose earlier positions all differ from `x` and that holds `x`
/// is the first index of `x`.
pub proof fn lemma_index_of_unique(s: Seq<Seq<char>>, x: Seq<char>, i: int)
    requires
        0 <= i < s.len(),
        s[i] == x,
        forall|j: int| 0 <= j < i ==> s[j] != x,
    ensures
        spec_index_of(s, x) == i,
{
    lemma_index_of(s, x);
    let f = spec_index_of(s, x);
    if f < i {
        assert(s[f as int] != x);
    } else if f > i {
        assert(s[i] != x);
    }
}

/// The smallest index of `item` in the members of the set at `key`, or
/// `None` when it is absent.
pub fn vec_index_of(v: &Vec<String>, x: &str) -> (r: Option<usize>)
    ensures
        match r {
            Some(i) => i as nat == spec_index_of(v.deep_view(), x@) && (i as nat)
                < v.deep_view().len(),
            None => spec_index_of(v.deep_view(), x@) == v.deep_view().len(),
        },
{
    proof {
        lemma_index_of(v.deep_view(), x@);
    }
    let ghost l = v.deep_view();
    let mut i: usize = 0;
    while i < v.len()
        invariant
            i <= v@.len(),
            l == v.deep_view(),
            forall|j: int| 0 <= j < i ==> l[j] != x@,
        decreases v@.len() - i,
    {
        if str_eq(v[i].as_str(), x) {
            proof {
                lemma_index_of_unique(l, x@, i as int);
            }
            return Some(i);
        }
        i += 1;
    }
    proof {
        lemma_index_of(l, x@);
        let f = spec_index_of(l, x@);
        if f < l.len() {
            assert(l[f as int] != x@);
        }
    }
    None
}

/// Removing occurrences never lengthens a list.
pub proof fn lemma_remove_all_len(s: Seq<Seq<char>>, x: Seq<char>)
    ensures
        spec_remove_all(s, x).len() <= s.len(),
    decreases s.len(),
{
    if s.len() > 0 {
        lemma_remove_all_len(s.drop_last(), x);
    }
}

} // verus!

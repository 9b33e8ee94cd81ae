//! The partition ("table"): one mapping from item id to item record,
//! owned by the store and mutated only under its exclusive-access guard.

use vstd::prelude::*;

use crate::item::{render_item, Item};
use crate::rng::{draw_prepare_time, fresh_rng, PREPARE_TIME_MAX, PREPARE_TIME_MIN};

verus! {

/// An item that belongs to partition `tid`: stamped with it, and with a
/// preparation time from the drawing range.
pub open spec fn stamped(it: Item, tid: u32) -> bool {
    it.table_id == tid && PREPARE_TIME_MIN <= it.prepare_time < PREPARE_TIME_MAX
}

/// No two entries of the sequence share an item id.
pub open spec fn unique_ids(s: Seq<Item>) -> bool {
    forall|i: int, j: int| 0 <= i < j < s.len() ==> s[i].item_id != s[j].item_id
}

/// Some entry of the sequence carries the key `k`.
pub open spec fn has_key(s: Seq<Item>, k: u32) -> bool {
    exists|i: int| 0 <= i < s.len() && s[i].item_id == k
}

/// The mapping from item id to item that a sequence of entries represents.
pub open spec fn seq_key_map(s: Seq<Item>) -> Map<u32, Item>
    decreases s.len(),
{
    if s.len() == 0 {
        Map::empty()
    } else {
        seq_key_map(s.drop_last()).insert(s.last().item_id, s.last())
    }
}

/// The represented mapping has a key exactly when some entry carries it,
/// and its domain is finite.
pub proof fn lemma_seq_key_map_dom(s: Seq<Item>)
    ensures
        seq_key_map(s).dom().finite(),
        forall|k: u32| #[trigger] seq_key_map(s).contains_key(k) <==> has_key(s, k),
    decreases s.len(),
{
    if s.len() == 0 {
    } else {
        lemma_seq_key_map_dom(s.drop_last());
        assert forall|k: u32| #[trigger] seq_key_map(s).contains_key(k) implies has_key(s, k) by {
            if k == s.last().item_id {
                assert(s[s.len() - 1].item_id == k);
            } else {
                let i = choose|i: int|
                    0 <= i < s.drop_last().len() && s.drop_last()[i].item_id == k;
                assert(s[i].item_id == k);
            }
        }
        assert forall|k: u32| has_key(s, k) implies #[trigger] seq_key_map(s).contains_key(k) by {
            let i = choose|i: int| 0 <= i < s.len() && s[i].item_id == k;
            if i < s.len() - 1 {
                assert(s.drop_last()[i].item_id == k);
                assert(has_key(s.drop_last(), k));
            }
        }
    }
}

/// With unique ids, each entry is the value that the mapping gives its key.
pub proof fn lemma_seq_key_map_index(s: Seq<Item>)
    requires
        unique_ids(s),
    ensures
        forall|i: int|
            0 <= i < s.len() ==> seq_key_map(s).contains_key((#[trigger] s[i]).item_id)
                && seq_key_map(s)[s[i].item_id] == s[i],
    decreases s.len(),
{
    if s.len() == 0 {
    } else {
        lemma_seq_key_map_index(s.drop_last());
        assert forall|i: int|
            0 <= i < s.len() implies seq_key_map(s).contains_key((#[trigger] s[i]).item_id)
            && seq_key_map(s)[s[i].item_id] == s[i] by {
            if i < s.len() - 1 {
                assert(s.drop_last()[i] == s[i]);
                assert(s[i].item_id != s.last().item_id);
            }
        }
    }
}

/// With unique ids, the represented mapping has exactly one entry per item.
pub proof fn lemma_seq_key_map_len(s: Seq<Item>)
    requires
        unique_ids(s),
    ensures
        seq_key_map(s).len() == s.len(),
    decreases s.len(),
{
    if s.len() == 0 {
        assert(seq_key_map(s).dom() =~= Set::<u32>::empty());
    } else {
        lemma_seq_key_map_len(s.drop_last());
        lemma_seq_key_map_dom(s.drop_last());
        if has_key(s.drop_last(), s.last().item_id) {
            let i = choose|i: int|
                0 <= i < s.drop_last().len() && s.drop_last()[i].item_id == s.last().item_id;
            assert(s[i].item_id == s[s.len() - 1].item_id);
            assert(false);
        }
    }
}

/// Appending an entry with a fresh key inserts it into the mapping.
pub proof fn lemma_seq_key_map_push(s: Seq<Item>, it: Item)
    requires
        unique_ids(s),
        !has_key(s, it.item_id),
    ensures
        unique_ids(s.push(it)),
        seq_key_map(s.push(it)) == seq_key_map(s).insert(it.item_id, it),
{
    assert(s.push(it).drop_last() =~= s);
    assert forall|i: int, j: int|
        0 <= i < j < s.push(it).len() implies s.push(it)[i].item_id != s.push(it)[j].item_id by {
        if j < s.len() {
            assert(s[i].item_id != s[j].item_id);
        } else {
            assert(s[i].item_id == s.push(it)[i].item_id);
        }
    }
}

/// Removing the entry at `idx` removes its key from the mapping.
pub proof fn lemma_seq_key_map_remove(s: Seq<Item>, idx: int)
    requires
        unique_ids(s),
        0 <= idx < s.len(),
    ensures
        unique_ids(s.remove(idx)),
        !has_key(s.remove(idx), s[idx].item_id),
        seq_key_map(s.remove(idx)) == seq_key_map(s).remove(s[idx].item_id),
    decreases s.len(),
{
    let k = s[idx].item_id;
    let r = s.remove(idx);
    assert forall|i: int, j: int| 0 <= i < j < r.len() implies r[i].item_id != r[j].item_id by {
        let i0 = if i < idx { i } else { i + 1 };
        let j0 = if j < idx { j } else { j + 1 };
        assert(r[i] == s[i0] && r[j] == s[j0]);
    }
    if has_key(r, k) {
        let i = choose|i: int| 0 <= i < r.len() && r[i].item_id == k;
        let i0 = if i < idx { i } else { i + 1 };
        assert(s[i0].item_id == k && i0 != idx);
        assert(false);
    }
    lemma_seq_key_map_dom(s.drop_last());
    if idx == s.len() - 1 {
        assert(r =~= s.drop_last());
        assert(!seq_key_map(s.drop_last()).contains_key(k));
        assert(seq_key_map(r) =~= seq_key_map(s).remove(k));
    } else {
        let t = s.drop_last();
        assert(r.drop_last() =~= t.remove(idx));
        assert(r.last() == s.last());
        assert(t[idx] == s[idx]);
        lemma_seq_key_map_remove(t, idx);
        // seq_key_map(r) == seq_key_map(t).remove(k).insert(last.item_id, last)
        // goal:            (seq_key_map(t).insert(last.item_id, last)).remove(k)
        assert(k != s.last().item_id);
        assert(seq_key_map(r) =~= seq_key_map(s).remove(k));
    }
}

/// Adding an item and then removing the same id leaves the id absent.
///
/// The two premises are exactly what `Table::add_item` and
/// `Table::remove_item` ensure of the partition's mapping, so a
/// `check_item` on `t2` answers "absent" for `id`.
pub proof fn lemma_add_then_remove_absent(t0: Table, t1: Table, t2: Table, id: u32, it: Item)
    requires
        t1.items_map() == t0.items_map().insert(id, it),
        t2.items_map() == t1.items_map().remove(id),
    ensures
        !t2.items_map().contains_key(id),
{
}

/// The mapping after a batch of insertions, one per id, later wins.
pub open spec fn insert_all(m: Map<u32, Item>, ids: Seq<u32>, its: Seq<Item>) -> Map<u32, Item>
    recommends
        its.len() == ids.len(),
    decreases ids.len(),
{
    if ids.len() == 0 {
        m
    } else {
        insert_all(m, ids.drop_last(), its.drop_last()).insert(ids.last(), its.last())
    }
}

/// The mapping after a batch of removals.
pub open spec fn remove_all(m: Map<u32, Item>, ids: Seq<u32>) -> Map<u32, Item>
    decreases ids.len(),
{
    if ids.len() == 0 {
        m
    } else {
        remove_all(m, ids.drop_last()).remove(ids.last())
    }
}

/// Additions with distinct, fresh ids are all kept: however the guard
/// interleaves N `add_item` calls, each one is an insertion into the
/// mapping, so N calls with distinct ids not yet present grow the item
/// count by exactly N — no lost updates.
pub proof fn lemma_concurrent_adds_count(m: Map<u32, Item>, ids: Seq<u32>, its: Seq<Item>)
    requires
        m.dom().finite(),
        its.len() == ids.len(),
        forall|i: int, j: int| 0 <= i < j < ids.len() ==> ids[i] != ids[j],
        forall|i: int| 0 <= i < ids.len() ==> !m.contains_key(#[trigger] ids[i]),
    ensures
        insert_all(m, ids, its).dom().finite(),
        insert_all(m, ids, its).len() == m.len() + ids.len(),
    decreases ids.len(),
{
    if ids.len() > 0 {
        lemma_concurrent_adds_count(m, ids.drop_last(), its.drop_last());
        let prev = insert_all(m, ids.drop_last(), its.drop_last());
        lemma_insert_all_key_absent(m, ids.drop_last(), its.drop_last(), ids.last());
        assert(!prev.contains_key(ids.last()));
    }
}

/// A key neither in the base mapping nor among the inserted ids stays
/// absent after the batch.
proof fn lemma_insert_all_key_absent(m: Map<u32, Item>, ids: Seq<u32>, its: Seq<Item>, k: u32)
    requires
        !m.contains_key(k),
        forall|i: int| 0 <= i < ids.len() ==> ids[i] != k,
    ensures
        !insert_all(m, ids, its).contains_key(k),
    decreases ids.len(),
{
    if ids.len() > 0 {
        lemma_insert_all_key_absent(m, ids.drop_last(), its.drop_last(), k);
    }
}

/// A key in the base mapping and not among the removed ids survives the
/// batch.
proof fn lemma_remove_all_key_present(m: Map<u32, Item>, ids: Seq<u32>, k: u32)
    requires
        m.contains_key(k),
        forall|i: int| 0 <= i < ids.len() ==> ids[i] != k,
    ensures
        remove_all(m, ids).contains_key(k),
    decreases ids.len(),
{
    if ids.len() > 0 {
        lemma_remove_all_key_present(m, ids.drop_last(), k);
    }
}

/// Removals of distinct, present ids each take effect exactly once:
/// however the guard interleaves the `remove_item` calls, M calls with
/// distinct ids all present shrink the item count by exactly M, and a
/// removal of an id already gone changes nothing (`remove_item`'s own
/// contract) — no double-remove anomalies.
pub proof fn lemma_concurrent_removes_count(m: Map<u32, Item>, ids: Seq<u32>)
    requires
        m.dom().finite(),
        forall|i: int, j: int| 0 <= i < j < ids.len() ==> ids[i] != ids[j],
        forall|i: int| 0 <= i < ids.len() ==> m.contains_key(#[trigger] ids[i]),
    ensures
        remove_all(m, ids).dom().finite(),
        remove_all(m, ids).len() == m.len() - ids.len(),
    decreases ids.len(),
{
    if ids.len() > 0 {
        lemma_concurrent_removes_count(m, ids.drop_last());
        lemma_remove_all_key_present(m, ids.drop_last(), ids.last());
        assert(remove_all(m, ids.drop_last()).contains_key(ids.last()));
    }
}

/// The response text for a single-item query: the rendering of the item
/// when the partition holds the key, else the "not found" marker.
pub open spec fn print_item_spec(m: Map<u32, Item>, item_id: u32) -> Seq<char> {
    if m.contains_key(item_id) {
        render_item(m[item_id])
    } else {
        "{ msg: \"not found\"}"@
    }
}

/// The textual rendering of every entry, in sequence order:
/// `[item, item, ...]`.
pub open spec fn render_items(s: Seq<Item>) -> Seq<char> {
    if s.len() == 0 {
        "[]"@
    } else {
        "["@ + render_items_inner(s) + "]"@
    }
}

/// The entries' renderings joined by `", "`.
pub open spec fn render_items_inner(s: Seq<Item>) -> Seq<char>
    recommends
        s.len() > 0,
    decreases s.len(),
{
    if s.len() <= 1 {
        render_item(s[0])
    } else {
        render_items_inner(s.drop_last()) + ", "@ + render_item(s.last())
    }
}

/// One partition of the store: a stable identifier, the entries it owns,
/// and the generator that stamps new entries with a preparation time.
pub struct Table {
    table_id: u32,
    items: Vec<Item>,
    rng: rand::rngs::StdRng,
}

impl Table {
    /// The partition's stable identifier.
    pub closed spec fn id_spec(self) -> u32 {
        self.table_id
    }

    /// The entries, in insertion order.
    pub closed spec fn items_seq(self) -> Seq<Item> {
        self.items@
    }

    /// The mapping from item id to item that the partition represents.
    pub open spec fn items_map(self) -> Map<u32, Item> {
        seq_key_map(self.items_seq())
    }

    /// Internal consistency: entry keys are unique, and every entry is
    /// stamped with this partition's identifier and a preparation time
    /// from the drawing range.
    pub open spec fn wf(self) -> bool {
        &&& unique_ids(self.items_seq())
        &&& forall|i: int|
            0 <= i < self.items_seq().len() ==> stamped(
                #[trigger] self.items_seq()[i],
                self.id_spec(),
            )
    }

    /// Builds an empty partition with the given identifier.
    pub fn new(tid: u32) -> (t: Table)
        ensures
            t.wf(),
            t.id_spec() == tid,
            t.items_map() == Map::<u32, Item>::empty(),
            t.items_seq() == Seq::<Item>::empty(),
    {
        let t = Table { table_id: tid, items: Vec::new(), rng: fresh_rng() };
        proof {
            assert(t.items_seq() =~= Seq::<Item>::empty());
        }
        t
    }

    /// The partition's identifier.
    pub fn id(&self) -> (r: u32)
        ensures
            r == self.id_spec(),
    {
        self.table_id
    }

    /// How many items the partition currently holds.
    pub fn items_size(&self) -> (n: usize)
        requires
            self.wf(),
        ensures
            n == self.items_map().len(),
            n == self.items_seq().len(),
    {
        proof {
            lemma_seq_key_map_len(self.items_seq());
        }
        self.items.len()
    }

    /// The position of the entry carrying `item_id`, if any.
    fn find_index(&self, item_id: u32) -> (r: Option<usize>)
        ensures
            r matches Some(i) ==> i < self.items_seq().len()
                && self.items_seq()[i as int].item_id == item_id,
            r is None ==> !has_key(self.items_seq(), item_id),
    {
        let n = self.items.len();
        let mut i: usize = 0;
        while i < n
            invariant
                n == self.items_seq().len(),
                i <= n,
                forall|j: int| 0 <= j < i ==> self.items_seq()[j].item_id != item_id,
            decreases n - i,
        {
            if self.items[i].item_id == item_id {
                return Some(i);
            }
            i = i + 1;
        }
        None
    }

    /// Inserts a fresh record under `item_id`, stamped with this
    /// partition's identifier and a newly drawn preparation time. An
    /// existing record under the same id is replaced (last write wins),
    /// so the item count grows exactly when the id is new.
    pub fn add_item(&mut self, item_id: u32)
        requires
            old(self).wf(),
        ensures
            final(self).wf(),
            final(self).id_spec() == old(self).id_spec(),
            exists|it: Item|
                #[trigger] stamped(it, old(self).id_spec()) && it.item_id == item_id
                    && final(self).items_map() == old(self).items_map().insert(item_id, it),
            final(self).items_map().len() == old(self).items_map().len() + (
            if old(self).items_map().contains_key(item_id) {
                0int
            } else {
                1int
            }),
    {
        let ghost s0 = self.items@;
        proof {
            lemma_seq_key_map_dom(s0);
            lemma_seq_key_map_len(s0);
        }
        let t = draw_prepare_time(&mut self.rng);
        let item = Item::new(item_id, self.table_id, t);
        match self.find_index(item_id) {
            Some(i) => {
                let _ = self.items.remove(i);
                proof {
                    lemma_seq_key_map_remove(s0, i as int);
                    lemma_seq_key_map_dom(self.items@);
                    lemma_seq_key_map_len(self.items@);
                    lemma_seq_key_map_push(self.items@, item);
                }
                self.items.push(item);
                proof {
                    assert(seq_key_map(self.items@) =~= seq_key_map(s0).insert(item_id, item));
                    assert(stamped(item, old(self).id_spec()));
                    assert(seq_key_map(self.items@).dom() =~= seq_key_map(s0).dom());
                    lemma_seq_key_map_len(self.items@);
                }
            },
            None => {
                proof {
                    lemma_seq_key_map_push(self.items@, item);
                }
                self.items.push(item);
                proof {
                    assert(stamped(item, old(self).id_spec()));
                    lemma_seq_key_map_len(self.items@);
                }
            },
        }
    }

    /// Looks the record up without changing anything.
    pub fn check_item(&self, item_id: u32) -> (r: Option<&Item>)
        requires
            self.wf(),
        ensures
            r matches Some(it) ==> self.items_map().contains_key(item_id) && *it
                == self.items_map()[item_id] && stamped(*it, self.id_spec()),
            r is None ==> !self.items_map().contains_key(item_id),
    {
        proof {
            lemma_seq_key_map_dom(self.items_seq());
            lemma_seq_key_map_index(self.items_seq());
        }
        match self.find_index(item_id) {
            Some(i) => Some(&self.items[i]),
            None => None,
        }
    }

    /// Removes and returns the record under `item_id`; a miss is a
    /// negative result, never an error, and leaves the partition as it
    /// was.
    pub fn remove_item(&mut self, item_id: u32) -> (r: Option<Item>)
        requires
            old(self).wf(),
        ensures
            final(self).wf(),
            final(self).id_spec() == old(self).id_spec(),
            old(self).items_map().contains_key(item_id) ==> r
                == Some(old(self).items_map()[item_id])
                && final(self).items_map() == old(self).items_map().remove(item_id)
                && final(self).items_map().len() == old(self).items_map().len() - 1,
            !old(self).items_map().contains_key(item_id) ==> r is None
                && *final(self) == *old(self),
            r matches Some(it) ==> stamped(it, old(self).id_spec()),
    {
        proof {
            lemma_seq_key_map_dom(self.items_seq());
            lemma_seq_key_map_index(self.items_seq());
            lemma_seq_key_map_len(self.items_seq());
        }
        match self.find_index(item_id) {
            Some(i) => {
                let it = self.items.remove(i);
                proof {
                    lemma_seq_key_map_remove(old(self).items_seq(), i as int);
                    lemma_seq_key_map_len(self.items_seq());
                }
                Some(it)
            },
            None => None,
        }
    }

    /// Renders the record under `item_id`, or the "not found" marker.
    pub fn print_item(&self, item_id: u32) -> (r: String)
        requires
            self.wf(),
        ensures
            r@ == print_item_spec(self.items_map(), item_id),
    {
        let item = self.check_item(item_id);
        match item {
            Some(item) => item.print(),
            None => {
                let r = String::from_str("{ msg: \"not found\"}");
                r
            },
        }
    }

    /// Renders every current record as `[item, item, ...]`, in the
    /// partition's storage order.
    pub fn print_items(&self) -> (r: String)
        requires
            self.wf(),
        ensures
            r@ == render_items(self.items_seq()),
    {
        let n = self.items.len();
        if n == 0 {
            let r = String::from_str("[]");
            return r;
        }
        let mut output = String::from_str("[");
        let mut i: usize = 0;
        while i < n
            invariant
                self.wf(),
                n == self.items_seq().len(),
                0 < n,
                i <= n,
                i == 0 ==> output@ == "["@,
                i > 0 ==> output@ == "["@ + render_items_inner(self.items_seq().take(i as int)),
            decreases n - i,
        {
            if i > 0 {
                output.append(", ");
            }
            let txt = self.items[i].print();
            output.append(txt.as_str());
            proof {
                let s = self.items_seq();
                let t = s.take(i as int + 1);
                assert(t.drop_last() =~= s.take(i as int));
                assert(t.last() == s[i as int]);
                if i > 0 {
                    assert(output@ =~= "["@ + render_items_inner(t));
                } else {
                    assert(t =~= seq![s[0]]);
                    assert(output@ =~= "["@ + render_items_inner(t));
                }
            }
            i = i + 1;
        }
        output.append("]");
        proof {
            assert(self.items_seq().take(n as int) =~= self.items_seq());
            assert(output@ =~= render_items(self.items_seq()));
        }
        output
    }
}

} // verus!

//! The operations the router performs against the store: each one
//! resolves a partition, serializes on its guard, performs exactly one
//! table operation, and renders the outcome as a short textual marker.
//!
//! Which of two concurrently arriving operations wins is inherently
//! nondeterministic, so the contracts promise a response that is correct
//! for *some* table state satisfying the lock's invariant; the exact
//! per-state behaviour is the verified `Table` operation each body calls.

use vstd::prelude::*;

use crate::restaurant::Restaurant;
use crate::table::{print_item_spec, render_items, Table};
use crate::text::{parse_u32, parse_u32_spec, split_char, split_spec};

verus! {

/// The marker for a completed insertion or removal.
pub open spec fn success_marker() -> Seq<char> {
    "{ msg: \"success\"}"@
}

/// The marker for removing an id that is not present.
pub open spec fn cannot_remove_marker() -> Seq<char> {
    "{ msg: \"cannot remove, not exist\"}"@
}

/// The marker for a partition index outside the store.
pub open spec fn no_table_marker() -> Seq<char> {
    "{ msg: \"no such table\"}"@
}

/// The marker for an item payload whose leading field is not a number.
pub open spec fn cannot_add_marker() -> Seq<char> {
    "{ msg: \"cannot add\"}"@
}

/// The response a removal renders when it observes table state `t`.
pub open spec fn remove_response(t: Table, iid: u32) -> Seq<char> {
    if t.items_map().contains_key(iid) {
        success_marker()
    } else {
        cannot_remove_marker()
    }
}

/// What `add_item` answers: a marker for an unparsable payload or a
/// missing partition, else the success marker once the insertion is done.
pub open spec fn add_item_response(tid: u32, item_data: Seq<char>, store: Restaurant, resp: Seq<char>) -> bool {
    if parse_u32_spec(split_spec(item_data, ',')[0]) is None {
        resp == cannot_add_marker()
    } else if tid as int >= store.num_tables() {
        resp == no_table_marker()
    } else {
        resp == success_marker()
    }
}

/// What `remove_item` answers: a marker for a missing partition, else
/// the response rendered from the table state observed under the guard.
pub open spec fn remove_item_response(tid: u32, iid: u32, store: Restaurant, resp: Seq<char>) -> bool {
    if tid as int >= store.num_tables() {
        resp == no_table_marker()
    } else {
        exists|t: Table| #[trigger] t.wf() && t.id_spec() == tid && resp == remove_response(t, iid)
    }
}

/// What `query_all` answers: a marker for a missing partition, else the
/// rendering of the table state observed under the guard.
pub open spec fn query_all_response(tid: u32, store: Restaurant, resp: Seq<char>) -> bool {
    if tid as int >= store.num_tables() {
        resp == no_table_marker()
    } else {
        exists|t: Table| #[trigger] t.wf() && t.id_spec() == tid && resp == render_items(t.items_seq())
    }
}

/// What `query_one` answers: a marker for a missing partition, else the
/// rendering of the one item, or the "not found" marker, from the table
/// state observed under the guard.
pub open spec fn query_one_response(tid: u32, iid: u32, store: Restaurant, resp: Seq<char>) -> bool {
    if tid as int >= store.num_tables() {
        resp == no_table_marker()
    } else {
        exists|t: Table| #[trigger] t.wf() && t.id_spec() == tid && resp == print_item_spec(t.items_map(), iid)
    }
}

/// Inserts an item into partition `tid`. The item id is the leading
/// comma-separated field of `item_data`; trailing fields are ignored.
pub fn add_item(tid: u32, item_data: &str, restaurant: Restaurant) -> (r: String)
    requires
        restaurant.wf(),
    ensures
        add_item_response(tid, item_data@, restaurant, r@),
{
    proof {
        crate::text::lemma_split_spec_len(item_data@, ',');
    }
    let fields = split_char(item_data, ',');
    let parsed = parse_u32(fields[0].as_str());
    match parsed {
        None => String::from_str("{ msg: \"cannot add\"}"),
        Some(iid) => {
            match restaurant.get_table(tid) {
                None => String::from_str("{ msg: \"no such table\"}"),
                Some(t) => {
                    let (mut tbl, handle) = t.acquire_write();
                    tbl.add_item(iid);
                    handle.release_write(tbl);
                    String::from_str("{ msg: \"success\"}")
                },
            }
        },
    }
}

/// Removes item `iid` from partition `tid`; a missing item is a negative
/// result, never a fault.
pub fn remove_item(tid: u32, iid: u32, restaurant: Restaurant) -> (r: String)
    requires
        restaurant.wf(),
    ensures
        remove_item_response(tid, iid, restaurant, r@),
{
    match restaurant.get_table(tid) {
        None => String::from_str("{ msg: \"no such table\"}"),
        Some(t) => {
            let (mut tbl, handle) = t.acquire_write();
            let ghost observed = tbl;
            let removed = tbl.remove_item(iid);
            handle.release_write(tbl);
            match removed {
                Some(_) => {
                    let r = String::from_str("{ msg: \"success\"}");
                    proof {
                        assert(observed.wf() && observed.id_spec() == tid && r@
                            == remove_response(observed, iid));
                    }
                    r
                },
                None => {
                    let r = String::from_str("{ msg: \"cannot remove, not exist\"}");
                    proof {
                        assert(observed.wf() && observed.id_spec() == tid && r@
                            == remove_response(observed, iid));
                    }
                    r
                },
            }
        },
    }
}

/// Renders every item of partition `tid`.
pub fn query_all(tid: u32, restaurant: Restaurant) -> (r: String)
    requires
        restaurant.wf(),
    ensures
        query_all_response(tid, restaurant, r@),
{
    match restaurant.get_table(tid) {
        None => String::from_str("{ msg: \"no such table\"}"),
        Some(t) => {
            let (tbl, handle) = t.acquire_write();
            let output = tbl.print_items();
            handle.release_write(tbl);
            output
        },
    }
}

/// Renders item `iid` of partition `tid`, or the "not found" marker.
pub fn query_one(tid: u32, iid: u32, restaurant: Restaurant) -> (r: String)
    requires
        restaurant.wf(),
    ensures
        query_one_response(tid, iid, restaurant, r@),
{
    match restaurant.get_table(tid) {
        None => String::from_str("{ msg: \"no such table\"}"),
        Some(t) => {
            let (tbl, handle) = t.acquire_write();
            let s = tbl.print_item(iid);
            handle.release_write(tbl);
            s
        },
    }
}

} // verus!

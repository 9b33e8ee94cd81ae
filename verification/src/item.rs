//! The item record: one order line, immutable once created.

use vstd::prelude::*;

use crate::text::{dec_str, u32_to_string};

verus! {

/// One stored record: an order line, keyed by `item_id` within its
/// partition, stamped with the owning partition's `table_id` and a
/// simulated preparation time.
#[derive(Debug, PartialEq, Eq, Structural, Clone, Copy)]
pub struct Item {
    pub item_id: u32,
    pub table_id: u32,
    pub prepare_time: u32,
}

/// The textual rendering of one item record.
pub open spec fn render_item(it: Item) -> Seq<char> {
    "{item_id: "@ + dec_str(it.item_id as nat) + ", table_id: "@ + dec_str(it.table_id as nat)
        + ", prepare_time: "@ + dec_str(it.prepare_time as nat) + "}"@
}

impl Item {
    /// Builds the record from its three attributes.
    pub fn new(p_item_id: u32, p_table_id: u32, p_time: u32) -> (it: Item)
        ensures
            it == (Item { item_id: p_item_id, table_id: p_table_id, prepare_time: p_time }),
    {
        Item { item_id: p_item_id, table_id: p_table_id, prepare_time: p_time }
    }

    /// The record's key within its partition.
    pub fn id(&self) -> (r: u32)
        ensures
            r == self.item_id,
    {
        self.item_id
    }

    /// Renders the record as `{item_id: N, table_id: N, prepare_time: N}`.
    pub fn print(&self) -> (s: String)
        ensures
            s@ == render_item(*self),
    {
        let mut s = String::from_str("{item_id: ");
        let id_txt = u32_to_string(self.item_id);
        s.append(id_txt.as_str());
        s.append(", table_id: ");
        let table_txt = u32_to_string(self.table_id);
        s.append(table_txt.as_str());
        s.append(", prepare_time: ");
        let time_txt = u32_to_string(self.prepare_time);
        s.append(time_txt.as_str());
        s.append("}");
        proof {
            assert(s@ =~= render_item(*self));
        }
        s
    }
}

} // verus!

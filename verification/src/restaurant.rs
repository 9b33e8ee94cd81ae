//! The store ("restaurant"): a fixed collection of partitions, created
//! once, each guarded by its own lock, shared by every concurrent caller
//! through reference-counted handles.

use vstd::prelude::*;
use vstd::rwlock::{RwLock, RwLockPredicate};

use std::sync::Arc;

use crate::table::Table;

verus! {

/// What every value stored in a partition's lock satisfies: the table is
/// internally consistent and carries the fixed identifier the lock was
/// created with. Holding the lock is the only way to reach the table, so
/// this is an invariant of the whole store.
pub struct TableInv {
    pub tid: u32,
}

impl RwLockPredicate<Table> for TableInv {
    open spec fn inv(self, t: Table) -> bool {
        t.wf() && t.id_spec() == self.tid
    }
}

/// A shared, independently lockable handle to one partition.
pub type TablePtr = Arc<RwLock<Table, TableInv>>;

/// Relies on std's `Arc::clone`: a new handle to the same allocation,
/// hence to the same value.
#[verifier::external_body]
fn arc_clone(p: &TablePtr) -> (r: TablePtr)
    ensures
        r == *p,
{
    Arc::clone(p)
}

/// The store: an ordered, fixed-length sequence of partitions. Cloning a
/// `Restaurant` clones only the handles, never the partitions.
pub struct Restaurant {
    tables: Vec<TablePtr>,
}

impl View for Restaurant {
    type V = Seq<TablePtr>;

    closed spec fn view(&self) -> Seq<TablePtr> {
        self.tables@
    }
}

impl Restaurant {
    /// How many partitions the store was created with.
    pub open spec fn num_tables(self) -> int {
        self@.len() as int
    }

    /// Partition `i` is guarded by a lock whose invariant stamps it with
    /// identifier `i`, and every index fits in the identifier type.
    pub open spec fn wf(self) -> bool {
        &&& self@.len() <= u32::MAX
        &&& forall|i: int|
            0 <= i < self@.len() ==> (#[trigger] self@[i]).pred() == (TableInv { tid: i as u32 })
    }

    /// Allocates `table_size` partitions eagerly, stamping partition `i`
    /// with identifier `i`.
    pub fn new(table_size: usize) -> (r: Restaurant)
        requires
            table_size <= u32::MAX,
        ensures
            r.wf(),
            r.num_tables() == table_size,
    {
        let mut tables: Vec<TablePtr> = Vec::new();
        let mut i: usize = 0;
        while i < table_size
            invariant
                table_size <= u32::MAX,
                i <= table_size,
                tables@.len() == i,
                forall|j: int|
                    0 <= j < tables@.len() ==> (#[trigger] tables@[j]).pred() == (TableInv {
                        tid: j as u32,
                    }),
            decreases table_size - i,
        {
            let tid = i as u32;
            let t = Table::new(tid);
            let lock = RwLock::<Table, TableInv>::new(t, Ghost(TableInv { tid }));
            tables.push(Arc::new(lock));
            i = i + 1;
        }
        Restaurant { tables }
    }

    /// Hands out a shared handle to the partition at `table_id`; an
    /// out-of-range index is a negative result, not a fault.
    pub fn get_table(self, table_id: u32) -> (r: Option<TablePtr>)
        requires
            self.wf(),
        ensures
            r is Some <==> (table_id as int) < self.num_tables(),
            r matches Some(p) ==> p == self@[table_id as int] && p.pred() == (TableInv {
                tid: table_id,
            }),
    {
        if (table_id as usize) < self.tables.len() {
            Some(arc_clone(&self.tables[table_id as usize]))
        } else {
            None
        }
    }
}

impl Clone for Restaurant {
    /// A new handle to the same partitions: shares state, duplicates
    /// nothing.
    fn clone(&self) -> (r: Self)
        ensures
            r@ == self@,
    {
        let n = self.tables.len();
        let mut tables: Vec<TablePtr> = Vec::new();
        let mut i: usize = 0;
        while i < n
            invariant
                n == self.tables@.len(),
                i <= n,
                tables@ =~= self.tables@.take(i as int),
            decreases n - i,
        {
            tables.push(arc_clone(&self.tables[i]));
            proof {
                assert(tables@ =~= self.tables@.take(i as int + 1));
            }
            i = i + 1;
        }
        proof {
            assert(tables@ =~= self.tables@);
        }
        Restaurant { tables }
    }
}

} // verus!

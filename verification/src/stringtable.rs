//! String tables and their snapshots.
//!
//! A table is a name plus an ordered collection of items, each with an
//! optional byte string and an optional user-data payload. In the parser
//! the user-data slot is shared storage that the writer may touch again;
//! a snapshot therefore takes a frozen, independent copy of every payload,
//! never an alias of live storage.

use vstd::prelude::*;

verus! {

/// One item of a string table.
pub struct StringTableItem {
    pub string: Option<Vec<u8>>,
    pub user_data: Option<Vec<u8>>,
}

/// A named, ordered collection of items.
pub struct StringTable {
    pub name: String,
    pub items: Vec<StringTableItem>,
}

/// Every string table of a session, in registration order.
pub struct StringTables {
    pub tables: Vec<StringTable>,
}

/// A table's entry in a table listing.
#[derive(Debug, PartialEq, Eq)]
pub struct StringTableLi {
    pub name: String,
}

/// One item record of a table snapshot: independent copies of the item's
/// payloads as they were at snapshot time.
#[derive(Debug, PartialEq, Eq)]
pub struct StringTableItemLi {
    pub string: Option<Vec<u8>>,
    pub user_data: Option<Vec<u8>>,
}

/// The mathematical content of one snapshot record.
pub struct ItemRecordView {
    pub string: Option<Seq<u8>>,
    pub user_data: Option<Seq<u8>>,
}

pub open spec fn opt_bytes_view(o: Option<Vec<u8>>) -> Option<Seq<u8>> {
    match o {
        Option::None => Option::None,
        Option::Some(v) => Option::Some(v@),
    }
}

pub open spec fn spec_item_record(it: StringTableItem) -> ItemRecordView {
    ItemRecordView { string: opt_bytes_view(it.string), user_data: opt_bytes_view(it.user_data) }
}

pub open spec fn item_li_view(r: StringTableItemLi) -> ItemRecordView {
    ItemRecordView { string: opt_bytes_view(r.string), user_data: opt_bytes_view(r.user_data) }
}

/// What a snapshot of `items` holds: one record per item, in table-index
/// order, each a copy of the item's payloads.
pub open spec fn spec_table_snapshot(items: Seq<StringTableItem>) -> Seq<ItemRecordView> {
    items.map_values(|it: StringTableItem| spec_item_record(it))
}

/// The mathematical content of a whole record list.
pub open spec fn item_li_views(rs: Seq<StringTableItemLi>) -> Seq<ItemRecordView> {
    rs.map_values(|li: StringTableItemLi| item_li_view(li))
}

/// An independent, byte-for-byte copy.
pub(crate) fn copy_bytes(src: &Vec<u8>) -> (r: Vec<u8>)
    ensures
        r@ == src@,
{
    let mut r: Vec<u8> = Vec::new();
    let mut i: usize = 0;
    while i < src.len()
        invariant
            0 <= i <= src@.len(),
            r@ == src@.take(i as int),
        decreases src@.len() - i,
    {
        r.push(src[i]);
        i = i + 1;
        proof {
            assert(r@ =~= src@.take(i as int));
        }
    }
    proof {
        assert(src@.take(src@.len() as int) =~= src@);
    }
    r
}

/// An independent copy of an optional payload.
fn copy_opt_bytes(src: &Option<Vec<u8>>) -> (r: Option<Vec<u8>>)
    ensures
        opt_bytes_view(r) == opt_bytes_view(*src),
{
    match src {
        Option::None => Option::None,
        Option::Some(v) => Option::Some(copy_bytes(v)),
    }
}

impl StringTable {
    /// Captures every item of the table, in table-index order, copying
    /// both payloads so the records share no storage with the table.
    pub fn snapshot_items(&self) -> (r: Vec<StringTableItemLi>)
        ensures
            item_li_views(r@) == spec_table_snapshot(self.items@),
    {
        let mut r: Vec<StringTableItemLi> = Vec::new();
        let mut i: usize = 0;
        while i < self.items.len()
            invariant
                0 <= i <= self.items@.len(),
                item_li_views(r@) == spec_table_snapshot(self.items@.take(i as int)),
            decreases self.items@.len() - i,
        {
            let item = &self.items[i];
            let li = StringTableItemLi {
                string: copy_opt_bytes(&item.string),
                user_data: copy_opt_bytes(&item.user_data),
            };
            proof {
                assert(item_li_view(li) == spec_item_record(self.items@[i as int]));
            }
            let ghost prev = r@;
            let ghost gli = li;
            r.push(li);
            i = i + 1;
            proof {
                assert(r@ == prev.push(gli));
                assert(item_li_views(prev) == spec_table_snapshot(self.items@.take(i as int - 1)));
                assert(item_li_views(prev).len() == prev.len());
                assert(self.items@.take(i as int - 1).len() == i - 1);
                assert(spec_table_snapshot(self.items@.take(i as int - 1)).len() == i - 1);
                assert(prev.len() == i - 1);
                assert forall|k: int|
                    0 <= k < i implies item_li_views(r@)[k] == spec_table_snapshot(
                    self.items@.take(i as int),
                )[k] by {
                    assert(self.items@.take(i as int)[k] == self.items@[k]);
                    if k < i - 1 {
                        assert(r@[k] == prev[k]);
                        assert(item_li_views(prev)[k] == spec_item_record(
                            self.items@.take(i as int - 1)[k],
                        ));
                        assert(self.items@.take(i as int - 1)[k] == self.items@[k]);
                    } else {
                        assert(r@[k] == gli);
                    }
                }
                assert(item_li_views(r@).len() == i);
                assert(spec_table_snapshot(self.items@.take(i as int)).len() == i);
                assert(item_li_views(r@) =~= spec_table_snapshot(self.items@.take(i as int)));
            }
        }
        proof {
            assert(self.items@.take(self.items@.len() as int) =~= self.items@);
        }
        r
    }
}

impl StringTables {
    /// Looks a table up by exact name match; returns the first table with
    /// that name, or nothing when no table carries it.
    pub fn find_table(&self, name: &String) -> (r: Option<&StringTable>)
        ensures
            match r {
                Option::None => forall|i: int|
                    0 <= i < self.tables@.len() ==> (#[trigger] self.tables@[i]).name@ != name@,
                Option::Some(t) => exists|i: int|
                    {
                        &&& 0 <= i < self.tables@.len()
                        &&& *t == self.tables@[i]
                        &&& (#[trigger] self.tables@[i]).name@ == name@
                        &&& forall|j: int| 0 <= j < i ==> (#[trigger] self.tables@[j]).name@ != name@
                    },
            },
    {
        let mut i: usize = 0;
        while i < self.tables.len()
            invariant
                0 <= i <= self.tables@.len(),
                forall|j: int| 0 <= j < i ==> (#[trigger] self.tables@[j]).name@ != name@,
            decreases self.tables@.len() - i,
        {
            if self.tables[i].name.eq(name) {
                return Option::Some(&self.tables[i]);
            }
            i = i + 1;
        }
        Option::None
    }
}

/// Isolation of snapshots: a snapshot is fixed by the items the table held
/// at the moment it was taken. Whatever the table holds later
/// (`items_after`), every record still shows the payloads from snapshot
/// time.
pub proof fn lemma_table_snapshot_isolated(
    items_at_snapshot: Seq<StringTableItem>,
    items_after: Seq<StringTableItem>,
    snap: Seq<ItemRecordView>,
)
    requires
        snap == spec_table_snapshot(items_at_snapshot),
    ensures
        snap.len() == items_at_snapshot.len(),
        forall|i: int|
            0 <= i < snap.len() ==> snap[i] == spec_item_record(items_at_snapshot[i]),
{
}

} // verus!

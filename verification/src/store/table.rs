//! A table of records held in memory that answers requests as the store's
//! contract says: one record per composite key, writes that replace,
//! conditional updates that are applied or rejected as a whole, and scans
//! that hand out the records page by page.

use crate::store::association::{lemma_append, lemma_lookup, lemma_replace, lookup_map};
use crate::store::attribute::{same_value, Item, ItemView};
use crate::store::request::{
    item_key, key_item, lemma_key_item, Key, KeyView, StoreError, UpdateRequest,
};
use vstd::prelude::*;

verus! {

/// The mathematical value of a table: the record under each key.
pub type TableView = Map<KeyView, ItemView>;

/// Whether an update may touch the record: the condition of `UpdateRequest`
/// beyond the record's existence.
pub open spec fn condition_holds(
    record: ItemView,
    assignments: ItemView,
    unchanged: Option<Seq<char>>,
) -> bool {
    match unchanged {
        None => true,
        Some(name) => assignments.contains_key(name) && record.contains_key(name) && record[name]
            == assignments[name] && !(record[name] is Other),
    }
}

/// Whether an update assigns to a key attribute, which no update may.
pub open spec fn touches_key(assignments: ItemView) -> bool {
    assignments.contains_key("pk"@) || assignments.contains_key("sk"@)
}

/// The answer to an update: rejected as invalid when it assigns to a key
/// attribute, applied when the record exists and the condition holds,
/// a failed condition check otherwise.
pub open spec fn update_verdict(
    table: TableView,
    key: KeyView,
    assignments: ItemView,
    unchanged: Option<Seq<char>>,
) -> Result<(), StoreError> {
    if touches_key(assignments) {
        Err(StoreError::InvalidKey)
    } else if table.contains_key(key) && condition_holds(table[key], assignments, unchanged) {
        Ok(())
    } else {
        Err(StoreError::ConditionalCheckFailed)
    }
}

/// The table after an update: the record with the assignments laid over it
/// when the update is applied, the same table when it is rejected.
pub open spec fn after_update(
    table: TableView,
    key: KeyView,
    assignments: ItemView,
    unchanged: Option<Seq<char>>,
) -> TableView {
    if update_verdict(table, key, assignments, unchanged) is Ok {
        table.insert(key, table[key].union_prefer_right(assignments))
    } else {
        table
    }
}

/// The key a cursor names: none for a scan from the start, an error for a
/// cursor that holds no key.
pub open spec fn cursor_key(start: Option<ItemView>) -> Result<Option<KeyView>, StoreError> {
    match start {
        None => Ok(None),
        Some(cursor) => match item_key(cursor) {
            Some(key) => Ok(Some(key)),
            None => Err(StoreError::InvalidKey),
        },
    }
}

/// The position a scan starts at: the first record, or the record after the
/// one the cursor names, or the end when the table has no such record.
pub open spec fn scan_start(order: Seq<KeyView>, from: Option<KeyView>) -> int {
    match from {
        None => 0,
        Some(key) => if order.contains(key) {
            order.index_of(key) + 1
        } else {
            order.len() as int
        },
    }
}

/// The number of records a page holds: all that remain, up to the limit.
pub open spec fn scan_count(order: Seq<KeyView>, from: Option<KeyView>, limit: nat) -> int {
    let rest = order.len() - scan_start(order, from);
    if rest < limit {
        rest
    } else {
        limit as int
    }
}

/// The key the cursor of a page names: the key of the page's last record
/// when records remain after the page, none when the page ends the table.
pub open spec fn next_cursor(order: Seq<KeyView>, from: Option<KeyView>, limit: nat) -> Option<
    KeyView,
> {
    let begin = scan_start(order, from);
    let count = scan_count(order, from, limit);
    if count > 0 && begin + count < order.len() {
        Some(order[begin + count - 1])
    } else {
        None
    }
}

/// The records of the page a scan returns for a cursor, in scan order.
pub open spec fn page_items(
    table: TableView,
    order: Seq<KeyView>,
    from: Option<KeyView>,
    limit: nat,
) -> Seq<ItemView> {
    Seq::new(
        scan_count(order, from, limit) as nat,
        |j: int| table[order[scan_start(order, from) + j]],
    )
}

/// Every record of a table, in scan order.
pub open spec fn rows_in_order(table: TableView, order: Seq<KeyView>) -> Seq<ItemView> {
    Seq::new(order.len(), |i: int| table[order[i]])
}

/// The records met by scanning page after page, each scan continued from
/// the cursor of the page before, until a page comes without cursor.
pub open spec fn all_pages(
    table: TableView,
    order: Seq<KeyView>,
    from: Option<KeyView>,
    limit: nat,
) -> Seq<ItemView>
    decreases order.len() - scan_start(order, from),
{
    let page = page_items(table, order, from, limit);
    let next = next_cursor(order, from, limit);
    if next is Some && scan_start(order, from) < scan_start(order, next) <= order.len() {
        page + all_pages(table, order, next, limit)
    } else {
        page
    }
}

/// The cursor a page carries for a key: the record of the key alone.
pub open spec fn cursor_item(cursor: Option<KeyView>) -> Option<ItemView> {
    match cursor {
        Some(key) => Some(key_item(key)),
        None => None,
    }
}

/// The values of a sequence of records.
pub open spec fn item_views(items: Seq<Item>) -> Seq<ItemView> {
    Seq::new(items.len(), |i: int| items[i]@)
}

/// The value of an optional record.
pub open spec fn option_item_view(item: Option<Item>) -> Option<ItemView> {
    match item {
        Some(i) => Some(i@),
        None => None,
    }
}

/// A scan never starts past the end of the table.
pub proof fn lemma_scan_start_in_range(order: Seq<KeyView>, from: Option<KeyView>)
    ensures
        0 <= scan_start(order, from) <= order.len(),
{
    if let Some(key) = from {
        if order.contains(key) {
            let i = order.index_of(key);
            assert(0 <= i < order.len());
        }
    }
}

/// A scan continued from the cursor of a page starts right after that
/// page: the cursor is read back as the key of the page's last record, and
/// the next page begins with the record that follows it.
pub proof fn lemma_scan_resumes_after_page(order: Seq<KeyView>, from: Option<KeyView>, limit: nat)
    requires
        order.no_duplicates(),
        next_cursor(order, from, limit) is Some,
    ensures
        cursor_key(cursor_item(next_cursor(order, from, limit))) == Ok::<
            Option<KeyView>,
            StoreError,
        >(next_cursor(order, from, limit)),
        scan_start(order, next_cursor(order, from, limit)) == scan_start(order, from) + scan_count(
            order,
            from,
            limit,
        ),
{
    lemma_scan_start_in_range(order, from);
    let last = scan_start(order, from) + scan_count(order, from, limit) - 1;
    let key = order[last];
    lemma_key_item(key);
    assert(order.contains(key));
    let i = order.index_of(key);
    assert(order[i] == key);
}

/// Scanning page after page from a cursor meets every record after the
/// cursor's place exactly once, in scan order, whatever the page limit.
pub proof fn lemma_pages_cover_the_rest(
    table: TableView,
    order: Seq<KeyView>,
    from: Option<KeyView>,
    limit: nat,
)
    requires
        order.no_duplicates(),
        limit >= 1,
    ensures
        all_pages(table, order, from, limit) == rows_in_order(table, order).subrange(
            scan_start(order, from),
            order.len() as int,
        ),
    decreases order.len() - scan_start(order, from),
{
    lemma_scan_start_in_range(order, from);
    let begin = scan_start(order, from);
    let count = scan_count(order, from, limit);
    let rows = rows_in_order(table, order);
    let page = page_items(table, order, from, limit);
    let next = next_cursor(order, from, limit);
    assert(page =~= rows.subrange(begin, begin + count));
    if next is Some {
        lemma_scan_resumes_after_page(order, from, limit);
        lemma_pages_cover_the_rest(table, order, next, limit);
        assert(page + rows.subrange(begin + count, order.len() as int) =~= rows.subrange(
            begin,
            order.len() as int,
        ));
    } else {
        assert(begin + count == order.len());
    }
}

/// Scanning page after page from the start meets every record of the
/// table exactly once, in scan order, whatever the page limit: no record
/// comes twice and none is left out.
pub proof fn lemma_pages_cover_the_table(table: TableView, order: Seq<KeyView>, limit: nat)
    requires
        order.no_duplicates(),
        limit >= 1,
    ensures
        all_pages(table, order, None, limit) == rows_in_order(table, order),
{
    lemma_pages_cover_the_rest(table, order, None, limit);
    let rows = rows_in_order(table, order);
    assert(rows.subrange(0, order.len() as int) =~= rows);
}

/// One page of a scan.
#[derive(Debug)]
pub struct Page {
    /// The records of the page, in scan order.
    pub items: Vec<Item>,
    /// The key of the last record of the page when more records follow.
    pub last_key: Option<Item>,
}

spec fn row_keys(rows: Seq<Item>) -> Seq<KeyView> {
    Seq::new(rows.len(), |i: int| item_key(rows[i]@).unwrap())
}

spec fn row_views(rows: Seq<Item>) -> Seq<ItemView> {
    Seq::new(rows.len(), |i: int| rows[i]@)
}

spec fn rows_keyed(rows: Seq<Item>) -> bool {
    forall|i: int| 0 <= i < rows.len() ==> item_key((#[trigger] rows[i])@) is Some
}

spec fn rows_map(rows: Seq<Item>) -> TableView {
    lookup_map(row_keys(rows), row_views(rows))
}

proof fn lemma_row(rows: Seq<Item>, i: int)
    requires
        row_keys(rows).no_duplicates(),
        0 <= i < rows.len(),
    ensures
        rows_map(rows).contains_key(row_keys(rows)[i]),
        rows_map(rows)[row_keys(rows)[i]] == rows[i]@,
        row_keys(rows).contains(row_keys(rows)[i]),
        row_keys(rows).index_of(row_keys(rows)[i]) == i,
{
    lemma_lookup(row_keys(rows), row_views(rows), i);
    let keys = row_keys(rows);
    assert(keys.contains(keys[i]));
    let j = keys.index_of(keys[i]);
    assert(keys[j] == keys[i]);
}

proof fn lemma_replace_row(rows: Seq<Item>, i: int, row: Item)
    requires
        rows_keyed(rows),
        row_keys(rows).no_duplicates(),
        0 <= i < rows.len(),
        item_key(row@) == Some(row_keys(rows)[i]),
    ensures
        rows_keyed(rows.update(i, row)),
        row_keys(rows.update(i, row)) == row_keys(rows),
        rows_map(rows.update(i, row)) == rows_map(rows).insert(row_keys(rows)[i], row@),
{
    let after = rows.update(i, row);
    assert forall|j: int| 0 <= j < after.len() implies item_key((#[trigger] after[j])@) is Some by {
        if j != i {
            assert(after[j] == rows[j]);
        }
    }
    assert(row_keys(after) =~= row_keys(rows));
    assert(row_views(after) =~= row_views(rows).update(i, row@));
    lemma_replace(row_keys(rows), row_views(rows), i, row@);
}

proof fn lemma_append_row(rows: Seq<Item>, row: Item)
    requires
        rows_keyed(rows),
        row_keys(rows).no_duplicates(),
        item_key(row@) is Some,
        !row_keys(rows).contains(item_key(row@).unwrap()),
    ensures
        rows_keyed(rows.push(row)),
        row_keys(rows.push(row)) == row_keys(rows).push(item_key(row@).unwrap()),
        row_keys(rows.push(row)).no_duplicates(),
        rows_map(rows.push(row)) == rows_map(rows).insert(item_key(row@).unwrap(), row@),
{
    let after = rows.push(row);
    let key = item_key(row@).unwrap();
    assert forall|j: int| 0 <= j < after.len() implies item_key((#[trigger] after[j])@) is Some by {
        if j < rows.len() {
            assert(after[j] == rows[j]);
        }
    }
    assert(row_keys(after) =~= row_keys(rows).push(key));
    assert(row_views(after) =~= row_views(rows).push(row@));
    lemma_append(row_keys(rows), row_views(rows), key, row@);
}

/// A table of records, one per key, with a limit on the records a scan
/// returns at once.
#[derive(Debug)]
pub struct Table {
    rows: Vec<Item>,
    page_size: usize,
}

impl View for Table {
    type V = TableView;

    closed spec fn view(&self) -> TableView {
        rows_map(self.rows@)
    }
}

impl Table {
    #[verifier::type_invariant]
    spec fn well_formed(self) -> bool {
        &&& rows_keyed(self.rows@)
        &&& row_keys(self.rows@).no_duplicates()
        &&& self.page_size >= 1
    }

    /// The keys of the records in the order in which a scan meets them:
    /// the order in which the keys were first written.
    pub closed spec fn scan_order(&self) -> Seq<KeyView> {
        row_keys(self.rows@)
    }

    /// The largest number of records a scan returns at once.
    pub closed spec fn page_limit(&self) -> nat {
        self.page_size as nat
    }

    /// An empty table whose scans are not cut into pages.
    pub fn new() -> (table: Table)
        ensures
            table@ == Map::<KeyView, ItemView>::empty(),
            table.scan_order() == Seq::<KeyView>::empty(),
            table.page_limit() == usize::MAX,
    {
        let table = Table { rows: Vec::new(), page_size: usize::MAX };
        assert(table@ =~= Map::<KeyView, ItemView>::empty());
        assert(table.scan_order() =~= Seq::<KeyView>::empty());
        table
    }

    /// An empty table whose scans return at most `page_size` records at
    /// once; a size of zero counts as one.
    pub fn with_page_size(page_size: usize) -> (table: Table)
        ensures
            table@ == Map::<KeyView, ItemView>::empty(),
            table.scan_order() == Seq::<KeyView>::empty(),
            table.page_limit() == if page_size == 0 {
                1
            } else {
                page_size as nat
            },
    {
        let table = Table {
            rows: Vec::new(),
            page_size: if page_size == 0 {
                1
            } else {
                page_size
            },
        };
        assert(table@ =~= Map::<KeyView, ItemView>::empty());
        assert(table.scan_order() =~= Seq::<KeyView>::empty());
        table
    }

    /// The number of records. The scan order lists every key of the table
    /// once.
    pub fn len(&self) -> (count: usize)
        ensures
            count == self.scan_order().len(),
            self.scan_order().no_duplicates(),
            forall|key: KeyView| self@.contains_key(key) <==> self.scan_order().contains(key),
    {
        proof {
            use_type_invariant(self);
        }
        self.rows.len()
    }

    /// The largest number of records a scan returns at once; at least one.
    pub fn page_size(&self) -> (size: usize)
        ensures
            size == self.page_limit(),
            size >= 1,
    {
        proof {
            use_type_invariant(self);
        }
        self.page_size
    }

    fn find(&self, key: &Key) -> (found: Option<usize>)
        ensures
            match found {
                Some(i) => i < self.rows.len() && row_keys(self.rows@)[i as int] == key@,
                None => !row_keys(self.rows@).contains(key@),
            },
    {
        proof {
            use_type_invariant(self);
        }
        let mut i: usize = 0;
        while i < self.rows.len()
            invariant
                i <= self.rows.len(),
                rows_keyed(self.rows@),
                forall|j: int| 0 <= j < i ==> row_keys(self.rows@)[j] != key@,
            decreases self.rows.len() - i,
        {
            if key.is_key_of(&self.rows[i]) {
                return Some(i);
            }
            assert(item_key(self.rows@[i as int]@) is Some);
            i += 1;
        }
        None
    }

    /// Stores a record under its key, replacing the record already there.
    /// A record without a key is rejected.
    pub fn put(&mut self, item: Item) -> (result: Result<(), StoreError>)
        ensures
            match item_key(item@) {
                Some(key) => result is Ok && final(self)@ == old(self)@.insert(key, item@)
                    && final(self).scan_order() == if old(self)@.contains_key(key) {
                    old(self).scan_order()
                } else {
                    old(self).scan_order().push(key)
                },
                None => result == Err::<(), StoreError>(StoreError::InvalidKey) && final(self)@
                    == old(self)@ && final(self).scan_order() == old(self).scan_order(),
            },
            final(self).page_limit() == old(self).page_limit(),
    {
        proof {
            use_type_invariant(&*self);
        }
        match Key::of_item(&item) {
            None => Err(StoreError::InvalidKey),
            Some(key) => {
                let found = self.find(&key);
                let mut rows: Vec<Item> = Vec::new();
                std::mem::swap(&mut self.rows, &mut rows);
                match found {
                    Some(i) => {
                        proof {
                            lemma_row(rows@, i as int);
                            lemma_replace_row(rows@, i as int, item);
                        }
                        rows[i] = item;
                    },
                    None => {
                        proof {
                            lemma_append_row(rows@, item);
                        }
                        rows.push(item);
                    },
                }
                std::mem::swap(&mut self.rows, &mut rows);
                Ok(())
            },
        }
    }

    /// The record under a key, if the table has one.
    pub fn get(&self, key: &Key) -> (found: Option<&Item>)
        ensures
            match found {
                Some(item) => self@.contains_key(key@) && self@[key@] == item@,
                None => !self@.contains_key(key@),
            },
    {
        proof {
            use_type_invariant(self);
        }
        match self.find(key) {
            Some(i) => {
                proof {
                    lemma_row(self.rows@, i as int);
                }
                Some(&self.rows[i])
            },
            None => None,
        }
    }

    /// Applies a conditional update, or rejects it and leaves the table as
    /// it was.
    pub fn update(&mut self, request: &UpdateRequest) -> (result: Result<(), StoreError>)
        ensures
            result == update_verdict(
                old(self)@,
                request.key@,
                request.assignments@,
                option_name(request.unchanged),
            ),
            final(self)@ == after_update(
                old(self)@,
                request.key@,
                request.assignments@,
                option_name(request.unchanged),
            ),
            final(self).scan_order() == old(self).scan_order(),
            final(self).page_limit() == old(self).page_limit(),
    {
        proof {
            use_type_invariant(&*self);
        }
        if request.assignments.get("pk").is_some() || request.assignments.get("sk").is_some() {
            return Err(StoreError::InvalidKey);
        }
        match self.find(&request.key) {
            None => Err(StoreError::ConditionalCheckFailed),
            Some(i) => {
                proof {
                    lemma_row(self.rows@, i as int);
                }
                let holds = match &request.unchanged {
                    None => true,
                    Some(name) => match request.assignments.get(name.as_str()) {
                        Some(expected) => match self.rows[i].get(name.as_str()) {
                            Some(actual) => same_value(actual, expected),
                            None => false,
                        },
                        None => false,
                    },
                };
                if !holds {
                    return Err(StoreError::ConditionalCheckFailed);
                }
                let mut row = self.rows[i].clone();
                row.merge(&request.assignments);
                let mut rows: Vec<Item> = Vec::new();
                std::mem::swap(&mut self.rows, &mut rows);
                proof {
                    lemma_replace_row(rows@, i as int, row);
                }
                rows[i] = row;
                std::mem::swap(&mut self.rows, &mut rows);
                Ok(())
            },
        }
    }

    /// One page of the table: the records after the cursor, up to the page
    /// limit, and a cursor when records remain after the page.
    pub fn scan(&self, start: Option<&Item>) -> (result: Result<Page, StoreError>)
        ensures
            match cursor_key(option_item(start)) {
                Err(error) => result matches Err(e) && e == error,
                Ok(from) => result matches Ok(page) && item_views(page.items@) == page_items(
                    self@,
                    self.scan_order(),
                    from,
                    self.page_limit(),
                ) && option_item_view(page.last_key) == cursor_item(
                    next_cursor(self.scan_order(), from, self.page_limit()),
                ),
            },
    {
        proof {
            use_type_invariant(self);
        }
        let begin: usize = match start {
            None => 0,
            Some(cursor) => match Key::of_item(cursor) {
                None => {
                    return Err(StoreError::InvalidKey);
                },
                Some(key) => match self.find(&key) {
                    Some(i) => {
                        proof {
                            lemma_row(self.rows@, i as int);
                        }
                        i + 1
                    },
                    None => self.rows.len(),
                },
            },
        };
        let mut items: Vec<Item> = Vec::new();
        let mut i: usize = begin;
        while i < self.rows.len() && items.len() < self.page_size
            invariant
                begin <= i <= self.rows.len(),
                items@.len() == i - begin,
                items@.len() <= self.page_size,
                forall|j: int|
                    0 <= j < items@.len() ==> (#[trigger] items@[j])@ == self.rows@[begin + j]@,
            decreases self.rows.len() - i,
        {
            items.push(self.rows[i].clone());
            i += 1;
        }
        proof {
            let from = cursor_key(option_item(start)).unwrap();
            lemma_scan_start_in_range(self.scan_order(), from);
            let expected = page_items(self@, self.scan_order(), from, self.page_limit());
            assert(items@.len() == expected.len());
            assert forall|j: int| 0 <= j < items@.len() implies item_views(items@)[j]
                == expected[j] by {
                lemma_row(self.rows@, begin + j);
            }
            assert(item_views(items@) =~= expected);
        }
        let last_key = if i < self.rows.len() {
            match Key::of_item(&self.rows[i - 1]) {
                Some(key) => Some(key.to_item()),
                None => None,
            }
        } else {
            None
        };
        Ok(Page { items, last_key })
    }
}

/// The characters of an optional attribute name.
pub open spec fn option_name(name: Option<String>) -> Option<Seq<char>> {
    match name {
        Some(n) => Some(n@),
        None => None,
    }
}

/// The value of an optional record.
pub open spec fn option_item(item: Option<&Item>) -> Option<ItemView> {
    match item {
        Some(i) => Some(i@),
        None => None,
    }
}

} // verus!

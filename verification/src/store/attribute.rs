//! Attribute values and records (items): a record maps attribute names to
//! values, each name at most once.

use crate::store::association::{lemma_append, lemma_lookup, lemma_replace, lookup_map};
use vstd::prelude::*;
use vstd::string::*;

verus! {

/// A value the store keeps under an attribute name. The repository reads
/// strings, numbers (kept as decimal text) and booleans; every other kind of
/// stored value is `Other`.
#[derive(Debug, PartialEq, Eq)]
pub enum AttributeValue {
    S(String),
    N(String),
    Bool(bool),
    Other,
}

/// The mathematical value of an `AttributeValue`.
pub enum AttributeView {
    S(Seq<char>),
    N(Seq<char>),
    Bool(bool),
    Other,
}

impl View for AttributeValue {
    type V = AttributeView;

    open spec fn view(&self) -> AttributeView {
        match self {
            AttributeValue::S(text) => AttributeView::S(text@),
            AttributeValue::N(text) => AttributeView::N(text@),
            AttributeValue::Bool(flag) => AttributeView::Bool(*flag),
            AttributeValue::Other => AttributeView::Other,
        }
    }
}

impl Clone for AttributeValue {
    fn clone(&self) -> (copy: Self)
        ensures
            copy@ == self@,
    {
        match self {
            AttributeValue::S(text) => AttributeValue::S(text.clone()),
            AttributeValue::N(text) => AttributeValue::N(text.clone()),
            AttributeValue::Bool(flag) => AttributeValue::Bool(*flag),
            AttributeValue::Other => AttributeValue::Other,
        }
    }
}

/// Compares two attribute values as the store compares them in a
/// condition: by kind and content.
pub fn same_value(left: &AttributeValue, right: &AttributeValue) -> (same: bool)
    ensures
        same == (left@ == right@ && !(left@ is Other)),
{
    match left {
        AttributeValue::S(a) => match right {
            AttributeValue::S(b) => *a == *b,
            _ => false,
        },
        AttributeValue::N(a) => match right {
            AttributeValue::N(b) => *a == *b,
            _ => false,
        },
        AttributeValue::Bool(a) => match right {
            AttributeValue::Bool(b) => *a == *b,
            _ => false,
        },
        AttributeValue::Other => false,
    }
}

/// One named value of a record.
#[derive(Debug)]
pub struct Attribute {
    pub name: String,
    pub value: AttributeValue,
}

impl Clone for Attribute {
    fn clone(&self) -> (copy: Self)
        ensures
            copy.name@ == self.name@,
            copy.value@ == self.value@,
    {
        Attribute { name: self.name.clone(), value: self.value.clone() }
    }
}

/// The mathematical value of a record: a finite map from names to values.
pub type ItemView = Map<Seq<char>, AttributeView>;

spec fn entry_names(entries: Seq<Attribute>) -> Seq<Seq<char>> {
    Seq::new(entries.len(), |i: int| entries[i].name@)
}

spec fn entry_values(entries: Seq<Attribute>) -> Seq<AttributeView> {
    Seq::new(entries.len(), |i: int| entries[i].value@)
}

spec fn entries_map(entries: Seq<Attribute>) -> ItemView {
    lookup_map(entry_names(entries), entry_values(entries))
}

proof fn lemma_entry(entries: Seq<Attribute>, i: int)
    requires
        entry_names(entries).no_duplicates(),
        0 <= i < entries.len(),
    ensures
        entries_map(entries).contains_key(entries[i].name@),
        entries_map(entries)[entries[i].name@] == entries[i].value@,
{
    lemma_lookup(entry_names(entries), entry_values(entries), i);
}

proof fn lemma_replace_entry(entries: Seq<Attribute>, i: int, entry: Attribute)
    requires
        entry_names(entries).no_duplicates(),
        0 <= i < entries.len(),
        entries[i].name@ == entry.name@,
    ensures
        entry_names(entries.update(i, entry)) == entry_names(entries),
        entries_map(entries.update(i, entry)) == entries_map(entries).insert(
            entry.name@,
            entry.value@,
        ),
{
    let after = entries.update(i, entry);
    assert(entry_names(after) =~= entry_names(entries));
    assert(entry_values(after) =~= entry_values(entries).update(i, entry.value@));
    lemma_replace(entry_names(entries), entry_values(entries), i, entry.value@);
}

proof fn lemma_append_entry(entries: Seq<Attribute>, entry: Attribute)
    requires
        entry_names(entries).no_duplicates(),
        !entry_names(entries).contains(entry.name@),
    ensures
        entry_names(entries.push(entry)) == entry_names(entries).push(entry.name@),
        entry_names(entries.push(entry)).no_duplicates(),
        entries_map(entries.push(entry)) == entries_map(entries).insert(entry.name@, entry.value@),
{
    let after = entries.push(entry);
    assert(entry_names(after) =~= entry_names(entries).push(entry.name@));
    assert(entry_values(after) =~= entry_values(entries).push(entry.value@));
    lemma_append(entry_names(entries), entry_values(entries), entry.name@, entry.value@);
}

proof fn lemma_prefix_entry(entries: Seq<Attribute>, i: int)
    requires
        entry_names(entries).no_duplicates(),
        0 <= i < entries.len(),
    ensures
        entries_map(entries.subrange(0, i + 1)) == entries_map(entries.subrange(0, i)).insert(
            entries[i].name@,
            entries[i].value@,
        ),
{
    let shorter = entries.subrange(0, i);
    assert(entries.subrange(0, i + 1) =~= shorter.push(entries[i]));
    assert forall|a: int, b: int|
        0 <= a < shorter.len() && 0 <= b < shorter.len() && a != b implies entry_names(shorter)[a]
        != entry_names(shorter)[b] by {
        assert(entry_names(shorter)[a] == entry_names(entries)[a]);
        assert(entry_names(shorter)[b] == entry_names(entries)[b]);
    }
    assert forall|a: int| 0 <= a < shorter.len() implies entry_names(shorter)[a]
        != entries[i].name@ by {
        assert(entry_names(shorter)[a] == entry_names(entries)[a]);
        assert(entry_names(entries)[i] == entries[i].name@);
    }
    lemma_append_entry(shorter, entries[i]);
}

/// A record: attribute values under distinct names.
#[derive(Debug)]
pub struct Item {
    entries: Vec<Attribute>,
}

impl View for Item {
    type V = ItemView;

    closed spec fn view(&self) -> ItemView {
        entries_map(self.entries@)
    }
}

impl Item {
    #[verifier::type_invariant]
    spec fn names_are_distinct(self) -> bool {
        entry_names(self.entries@).no_duplicates()
    }

    /// The attribute names in the order in which they were first inserted.
    pub closed spec fn names(&self) -> Seq<Seq<char>> {
        entry_names(self.entries@)
    }

    /// A record without attributes.
    pub fn new() -> (item: Item)
        ensures
            item@ == Map::<Seq<char>, AttributeView>::empty(),
            item.names() == Seq::<Seq<char>>::empty(),
    {
        let item = Item { entries: Vec::new() };
        assert(item@ =~= Map::<Seq<char>, AttributeView>::empty());
        assert(item.names() =~= Seq::<Seq<char>>::empty());
        item
    }

    fn find(&self, name: &String) -> (found: Option<usize>)
        ensures
            match found {
                Some(i) => i < self.entries.len() && self.entries[i as int].name@ == name@,
                None => !entry_names(self.entries@).contains(name@),
            },
    {
        let mut i: usize = 0;
        while i < self.entries.len()
            invariant
                i <= self.entries.len(),
                forall|j: int| 0 <= j < i ==> (#[trigger] self.entries[j]).name@ != name@,
            decreases self.entries.len() - i,
        {
            if self.entries[i].name == *name {
                return Some(i);
            }
            i += 1;
        }
        assert forall|j: int| 0 <= j < entry_names(self.entries@).len() implies entry_names(
            self.entries@,
        )[j] != name@ by {
            assert(self.entries[j].name@ != name@);
        }
        None
    }

    /// Sets the value under `name`, replacing the value already there.
    pub fn insert(&mut self, name: String, value: AttributeValue)
        ensures
            final(self)@ == old(self)@.insert(name@, value@),
            final(self).names() == if old(self)@.contains_key(name@) {
                old(self).names()
            } else {
                old(self).names().push(name@)
            },
    {
        proof {
            use_type_invariant(&*self);
        }
        let found = self.find(&name);
        let entry = Attribute { name, value };
        match found {
            Some(i) => {
                proof {
                    lemma_replace_entry(self.entries@, i as int, entry);
                    lemma_entry(self.entries@, i as int);
                }
                let mut entries: Vec<Attribute> = Vec::new();
                std::mem::swap(&mut self.entries, &mut entries);
                entries[i] = entry;
                std::mem::swap(&mut self.entries, &mut entries);
            },
            None => {
                proof {
                    lemma_append_entry(self.entries@, entry);
                }
                let mut entries: Vec<Attribute> = Vec::new();
                std::mem::swap(&mut self.entries, &mut entries);
                entries.push(entry);
                std::mem::swap(&mut self.entries, &mut entries);
            },
        }
    }

    /// The value under `name`, if the record has one.
    pub fn get(&self, name: &str) -> (value: Option<&AttributeValue>)
        ensures
            match value {
                Some(v) => self@.contains_key(name@) && self@[name@] == v@,
                None => !self@.contains_key(name@),
            },
    {
        proof {
            use_type_invariant(self);
        }
        let owned = name.to_owned();
        match self.find(&owned) {
            Some(i) => {
                proof {
                    lemma_entry(self.entries@, i as int);
                }
                Some(&self.entries[i].value)
            },
            None => None,
        }
    }

    /// Sets every attribute of `other` in this record; attributes that
    /// `other` lacks keep their value.
    pub fn merge(&mut self, other: &Item)
        ensures
            final(self)@ == old(self)@.union_prefer_right(other@),
    {
        proof {
            use_type_invariant(other);
        }
        let ghost before = self@;
        let mut i: usize = 0;
        assert(self@ =~= before.union_prefer_right(entries_map(other.entries@.subrange(0, 0))));
        while i < other.entries.len()
            invariant
                i <= other.entries.len(),
                entry_names(other.entries@).no_duplicates(),
                self@ == before.union_prefer_right(
                    entries_map(other.entries@.subrange(0, i as int)),
                ),
            decreases other.entries.len() - i,
        {
            let entry = other.entries[i].clone();
            proof {
                lemma_prefix_entry(other.entries@, i as int);
            }
            self.insert(entry.name, entry.value);
            assert(self@ =~= before.union_prefer_right(
                entries_map(other.entries@.subrange(0, i + 1)),
            ));
            i += 1;
        }
        assert(other.entries@.subrange(0, other.entries.len() as int) =~= other.entries@);
    }

    /// The record restricted to one attribute: that attribute alone if the
    /// record has it, nothing otherwise.
    pub fn project(&self, name: &str) -> (projected: Item)
        ensures
            projected@ == self@.restrict(set![name@]),
    {
        let mut projected = Item::new();
        match self.get(name) {
            Some(value) => {
                projected.insert(name.to_owned(), value.clone());
            },
            None => {},
        }
        assert(projected@ =~= self@.restrict(set![name@]));
        projected
    }

    /// The attributes, each name once, in the order of `names`.
    pub fn attributes(&self) -> (list: &Vec<Attribute>)
        ensures
            list@.len() == self.names().len(),
            self.names().no_duplicates(),
            forall|name: Seq<char>| self@.contains_key(name) <==> self.names().contains(name),
            forall|i: int|
                0 <= i < list@.len() ==> (#[trigger] list@[i]).name@ == self.names()[i]
                    && self@.contains_key(self.names()[i]) && self@[self.names()[i]]
                    == list@[i].value@,
    {
        proof {
            use_type_invariant(self);
            assert forall|i: int| 0 <= i < self.entries@.len() implies (
            #[trigger] self.entries@[i]).name@ == self.names()[i] && self@.contains_key(
                self.names()[i],
            ) && self@[self.names()[i]] == self.entries@[i].value@ by {
                lemma_entry(self.entries@, i);
            }
        }
        &self.entries
    }
}

impl Clone for Item {
    fn clone(&self) -> (copy: Self)
        ensures
            copy@ == self@,
            copy.names() == self.names(),
    {
        proof {
            use_type_invariant(self);
        }
        let mut entries: Vec<Attribute> = Vec::new();
        let mut i: usize = 0;
        while i < self.entries.len()
            invariant
                i <= self.entries.len(),
                entries.len() == i,
                forall|j: int|
                    0 <= j < i ==> (#[trigger] entries[j]).name@ == self.entries[j].name@
                        && entries[j].value@ == self.entries[j].value@,
            decreases self.entries.len() - i,
        {
            entries.push(self.entries[i].clone());
            i += 1;
        }
        proof {
            lemma_same_entries(self.entries@, entries@);
        }
        Item { entries }
    }
}

proof fn lemma_same_entries(left: Seq<Attribute>, right: Seq<Attribute>)
    requires
        left.len() == right.len(),
        forall|j: int|
            0 <= j < left.len() ==> (#[trigger] right[j]).name@ == left[j].name@ && right[j].value@
                == left[j].value@,
    ensures
        entry_names(right) == entry_names(left),
        entries_map(right) == entries_map(left),
{
    assert forall|j: int| 0 <= j < left.len() implies entry_names(right)[j] == entry_names(left)[j]
        && entry_values(right)[j] == entry_values(left)[j] by {
        assert(right[j].name@ == left[j].name@);
    }
    assert(entry_names(right) =~= entry_names(left));
    assert(entry_values(right) =~= entry_values(left));
}

} // verus!

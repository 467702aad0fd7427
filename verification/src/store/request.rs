//! What the repository asks of the store: composite keys, the four kinds of
//! request, and the wire text of a conditional update.

use crate::store::attribute::{Attribute, AttributeValue, AttributeView, Item, ItemView};
use vstd::prelude::*;
use vstd::string::*;

verus! {

/// The two tables the repository works on.
#[derive(Clone, Copy, Debug, PartialEq, Eq, Structural)]
pub enum TableName {
    /// The table of customer records.
    Customer,
    /// The shared table that holds the email lookup records.
    Common,
}

/// Why the store turned a request down.
#[derive(Clone, Copy, Debug, PartialEq, Eq, Structural)]
pub enum StoreError {
    /// The condition of a conditional write did not hold of the record.
    ConditionalCheckFailed,
    /// A record or cursor lacks a string-valued `pk` or `sk`, or an update
    /// assigns to one of them.
    InvalidKey,
}

/// The composite key of a record: partition key and sort key.
#[derive(Debug, PartialEq, Eq)]
pub struct Key {
    pub pk: String,
    pub sk: String,
}

/// The mathematical value of a `Key`.
pub struct KeyView {
    pub pk: Seq<char>,
    pub sk: Seq<char>,
}

impl View for Key {
    type V = KeyView;

    open spec fn view(&self) -> KeyView {
        KeyView { pk: self.pk@, sk: self.sk@ }
    }
}

impl Clone for Key {
    fn clone(&self) -> (copy: Self)
        ensures
            copy@ == self@,
    {
        Key { pk: self.pk.clone(), sk: self.sk.clone() }
    }
}

/// The key a record is stored under: its `pk` and `sk` attributes, when both
/// are strings.
pub open spec fn item_key(item: ItemView) -> Option<KeyView> {
    if item.contains_key("pk"@) && item.contains_key("sk"@) {
        match (item["pk"@], item["sk"@]) {
            (AttributeView::S(pk), AttributeView::S(sk)) => Some(KeyView { pk, sk }),
            _ => None,
        }
    } else {
        None
    }
}

/// The record that holds a key and nothing else, as requests and cursors
/// carry it.
pub open spec fn key_item(key: KeyView) -> ItemView {
    Map::<Seq<char>, AttributeView>::empty().insert("pk"@, AttributeView::S(key.pk)).insert(
        "sk"@,
        AttributeView::S(key.sk),
    )
}

/// The key is read back from the record that holds it.
pub proof fn lemma_key_item(key: KeyView)
    ensures
        item_key(key_item(key)) == Some(key),
{
    reveal_strlit("pk");
    reveal_strlit("sk");
    assert("pk"@ != "sk"@) by {
        assert("pk"@[0] != "sk"@[0]);
    }
}

impl Key {
    /// The key of a record, if it has one.
    pub fn of_item(item: &Item) -> (key: Option<Key>)
        ensures
            match key {
                Some(k) => item_key(item@) == Some(k@),
                None => item_key(item@) is None,
            },
    {
        match item.get("pk") {
            Some(AttributeValue::S(pk)) => match item.get("sk") {
                Some(AttributeValue::S(sk)) => Some(Key { pk: pk.clone(), sk: sk.clone() }),
                _ => None,
            },
            _ => None,
        }
    }

    /// Whether a record is stored under this key.
    pub fn is_key_of(&self, item: &Item) -> (same: bool)
        ensures
            same == (item_key(item@) == Some(self@)),
    {
        match item.get("pk") {
            Some(AttributeValue::S(pk)) => match item.get("sk") {
                Some(AttributeValue::S(sk)) => *pk == self.pk && *sk == self.sk,
                _ => false,
            },
            _ => false,
        }
    }

    /// The key as a record of its two attributes.
    pub fn to_item(&self) -> (item: Item)
        ensures
            item@ == key_item(self@),
    {
        let mut item = Item::new();
        item.insert("pk".to_owned(), AttributeValue::S(self.pk.clone()));
        item.insert("sk".to_owned(), AttributeValue::S(self.sk.clone()));
        item
    }
}

/// Store a record, replacing whatever its key held.
#[derive(Debug)]
pub struct PutRequest {
    pub table: TableName,
    pub item: Item,
}

/// Read the record under a key, or one attribute of it.
#[derive(Debug)]
pub struct GetRequest {
    pub table: TableName,
    pub key: Key,
    /// The one attribute to return, or `None` for the whole record.
    pub projection: Option<String>,
}

/// Read one page of a table.
#[derive(Debug)]
pub struct ScanRequest {
    pub table: TableName,
    /// The cursor a previous page ended with, or `None` to start over.
    pub exclusive_start_key: Option<Item>,
}

/// Set attributes of an existing record.
///
/// The write is applied only to a record that exists. If `unchanged` names
/// an attribute, the record must in addition already hold, under that name,
/// the value that `assignments` gives it; when `assignments` gives it none,
/// the condition holds of no record.
#[derive(Debug)]
pub struct UpdateRequest {
    pub table: TableName,
    pub key: Key,
    pub assignments: Item,
    pub unchanged: Option<String>,
}

/// The placeholder that stands for an attribute name in an expression.
pub open spec fn name_placeholder(name: Seq<char>) -> Seq<char> {
    "#"@ + name
}

/// The placeholder that stands for the value assigned to an attribute.
pub open spec fn value_placeholder(name: Seq<char>) -> Seq<char> {
    ":"@ + name
}

/// The text that relates an attribute to its assigned value: `#a = :a`.
pub open spec fn assignment_text(name: Seq<char>) -> Seq<char> {
    name_placeholder(name) + " = "@ + value_placeholder(name)
}

/// The assignments of the named attributes, separated by commas.
pub open spec fn assignment_list(names: Seq<Seq<char>>) -> Seq<char>
    decreases names.len(),
{
    if names.len() == 0 {
        Seq::<char>::empty()
    } else if names.len() == 1 {
        assignment_text(names[0])
    } else {
        assignment_list(names.drop_last()) + ", "@ + assignment_text(names.last())
    }
}

/// The update expression that sets the named attributes.
pub open spec fn update_expression_text(names: Seq<Seq<char>>) -> Seq<char> {
    "SET "@ + assignment_list(names)
}

/// The condition expression: the record exists and, if an attribute is
/// named, holds the assigned value under it.
pub open spec fn condition_expression_text(unchanged: Option<Seq<char>>) -> Seq<char> {
    match unchanged {
        None => "attribute_exists(pk) AND attribute_exists(sk)"@,
        Some(name) => "attribute_exists(pk) AND attribute_exists(sk) AND "@ + assignment_text(name),
    }
}

fn name_placeholder_of(name: &String) -> (text: String)
    ensures
        text@ == name_placeholder(name@),
{
    "#".to_owned().concat(name.as_str())
}

fn value_placeholder_of(name: &String) -> (text: String)
    ensures
        text@ == value_placeholder(name@),
{
    ":".to_owned().concat(name.as_str())
}

fn assignment_of(name: &String) -> (text: String)
    ensures
        text@ == assignment_text(name@),
{
    let value = value_placeholder_of(name);
    name_placeholder_of(name).concat(" = ").concat(value.as_str())
}

impl UpdateRequest {
    /// The update expression for the wire: `SET` and one assignment per
    /// attribute, in the order of `assignments`.
    pub fn update_expression(&self) -> (text: String)
        ensures
            text@ == update_expression_text(self.assignments.names()),
    {
        let entries = self.assignments.attributes();
        let count = entries.len();
        let ghost names = self.assignments.names();
        let mut text = "SET ".to_owned();
        let mut i: usize = 0;
        assert(text@ =~= "SET "@ + assignment_list(names.subrange(0, 0)));
        while i < count
            invariant
                i <= count,
                count == names.len(),
                count == entries@.len(),
                forall|j: int| 0 <= j < count ==> (#[trigger] entries@[j]).name@ == names[j],
                text@ == "SET "@ + assignment_list(names.subrange(0, i as int)),
            decreases count - i,
        {
            let entry = &entries[i];
            let assignment = assignment_of(&entry.name);
            let ghost shorter = names.subrange(0, i as int);
            let ghost longer = names.subrange(0, i + 1);
            assert(longer.drop_last() =~= shorter);
            assert(longer.last() == entry.name@);
            if i > 0 {
                text.append(", ");
                text.append(assignment.as_str());
                assert(text@ =~= "SET "@ + assignment_list(longer));
            } else {
                text.append(assignment.as_str());
                assert(assignment_list(shorter) =~= Seq::<char>::empty());
                assert(text@ =~= "SET "@ + assignment_list(longer));
            }
            i += 1;
        }
        assert(names.subrange(0, count as int) =~= names);
        text
    }

    /// The condition expression for the wire.
    pub fn condition_expression(&self) -> (text: String)
        ensures
            text@ == condition_expression_text(
                match self.unchanged {
                    Some(name) => Some(name@),
                    None => None,
                },
            ),
    {
        match &self.unchanged {
            None => "attribute_exists(pk) AND attribute_exists(sk)".to_owned(),
            Some(name) => {
                let assignment = assignment_of(name);
                "attribute_exists(pk) AND attribute_exists(sk) AND ".to_owned().concat(
                    assignment.as_str(),
                )
            },
        }
    }

    /// The name placeholders the expressions use, each with the attribute
    /// name it stands for, in the order of `assignments`.
    pub fn expression_attribute_names(&self) -> (pairs: Vec<(String, String)>)
        ensures
            pairs@.len() == self.assignments.names().len(),
            forall|i: int|
                0 <= i < pairs@.len() ==> (#[trigger] pairs@[i]).0@ == name_placeholder(
                    self.assignments.names()[i],
                ) && pairs@[i].1@ == self.assignments.names()[i],
    {
        let entries = self.assignments.attributes();
        let count = entries.len();
        let mut pairs: Vec<(String, String)> = Vec::new();
        let mut i: usize = 0;
        while i < count
            invariant
                i <= count,
                count == self.assignments.names().len(),
                count == entries@.len(),
                forall|j: int|
                    0 <= j < count ==> (#[trigger] entries@[j]).name@
                        == self.assignments.names()[j],
                pairs@.len() == i,
                forall|j: int|
                    0 <= j < i ==> (#[trigger] pairs@[j]).0@ == name_placeholder(
                        self.assignments.names()[j],
                    ) && pairs@[j].1@ == self.assignments.names()[j],
            decreases count - i,
        {
            let entry = &entries[i];
            pairs.push((name_placeholder_of(&entry.name), entry.name.clone()));
            i += 1;
        }
        pairs
    }

    /// The value placeholders the expressions use, each with the value it
    /// stands for, in the order of `assignments`.
    pub fn expression_attribute_values(&self) -> (pairs: Vec<Attribute>)
        ensures
            pairs@.len() == self.assignments.names().len(),
            forall|i: int|
                0 <= i < pairs@.len() ==> (#[trigger] pairs@[i]).name@ == value_placeholder(
                    self.assignments.names()[i],
                ) && pairs@[i].value@ == self.assignments@[self.assignments.names()[i]],
    {
        let entries = self.assignments.attributes();
        let count = entries.len();
        let mut pairs: Vec<Attribute> = Vec::new();
        let mut i: usize = 0;
        while i < count
            invariant
                i <= count,
                count == self.assignments.names().len(),
                count == entries@.len(),
                forall|j: int|
                    0 <= j < count ==> (#[trigger] entries@[j]).name@
                        == self.assignments.names()[j] && self.assignments@[self.assignments.names()[j]]
                        == entries@[j].value@,
                pairs@.len() == i,
                forall|j: int|
                    0 <= j < i ==> (#[trigger] pairs@[j]).name@ == value_placeholder(
                        self.assignments.names()[j],
                    ) && pairs@[j].value@ == self.assignments@[self.assignments.names()[j]],
            decreases count - i,
        {
            let entry = &entries[i];
            pairs.push(
                Attribute { name: value_placeholder_of(&entry.name), value: entry.value.clone() },
            );
            i += 1;
        }
        pairs
    }
}

} // verus!

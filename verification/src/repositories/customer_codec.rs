//! How customers are written as records and read back: the attribute layout
//! of the customer and lookup tables, strict decoding, and the proof that
//! decoding undoes encoding.

use crate::common::decimal::{
    decimal_digits, format_u64, lemma_parse_format, parse_decimal, parse_u64,
};
use crate::common::text::{char_to_string, first_char};
use crate::models::customer_model::{
    convert_to_role, extract_role, role_code, role_of_code, Customer, CustomerListItem,
    CustomerListItemView, CustomerView,
};
use crate::store::attribute::{AttributeValue, AttributeView, Item, ItemView};
use crate::store::request::{item_key, KeyView};
use vstd::prelude::*;
use vstd::string::*;

verus! {

/// An attribute that decoding requires.
#[derive(Clone, Copy, Debug, PartialEq, Eq, Structural)]
pub enum AttributeName {
    /// `pk`: the customer identifier.
    Pk,
    /// `sk`: the record kind.
    Sk,
    /// `n`: the name.
    N,
    /// `e`: the email address.
    E,
    /// `r`: the role code.
    R,
    /// `dis`: the disabled flag.
    Dis,
    /// `ua`: the time of the last change.
    Ua,
    /// `id`: the customer identifier of a lookup record.
    Id,
}

/// Why a record could not be decoded. Decoding stops at the first fault.
#[derive(Clone, Copy, Debug, PartialEq, Eq, Structural)]
pub enum DecodeError {
    /// The record has no such attribute.
    Missing(AttributeName),
    /// The attribute is of another kind than the layout says.
    Mistyped(AttributeName),
    /// The attribute is of the right kind but holds no usable content: a
    /// character code without characters, or a number that is no unsigned
    /// 64-bit decimal.
    Malformed(AttributeName),
}

/// The string under a name.
pub open spec fn text_attribute(item: ItemView, name: Seq<char>, which: AttributeName) -> Result<
    Seq<char>,
    DecodeError,
> {
    if !item.contains_key(name) {
        Err(DecodeError::Missing(which))
    } else {
        match item[name] {
            AttributeView::S(text) => Ok(text),
            _ => Err(DecodeError::Mistyped(which)),
        }
    }
}

/// The first character of the string under a name.
pub open spec fn code_attribute(item: ItemView, name: Seq<char>, which: AttributeName) -> Result<
    char,
    DecodeError,
> {
    match text_attribute(item, name, which) {
        Err(error) => Err(error),
        Ok(text) => if text.len() > 0 {
            Ok(text[0])
        } else {
            Err(DecodeError::Malformed(which))
        },
    }
}

/// The boolean under a name.
pub open spec fn flag_attribute(item: ItemView, name: Seq<char>, which: AttributeName) -> Result<
    bool,
    DecodeError,
> {
    if !item.contains_key(name) {
        Err(DecodeError::Missing(which))
    } else {
        match item[name] {
            AttributeView::Bool(flag) => Ok(flag),
            _ => Err(DecodeError::Mistyped(which)),
        }
    }
}

/// The unsigned 64-bit number under a name.
pub open spec fn number_attribute(item: ItemView, name: Seq<char>, which: AttributeName) -> Result<
    u64,
    DecodeError,
> {
    if !item.contains_key(name) {
        Err(DecodeError::Missing(which))
    } else {
        match item[name] {
            AttributeView::N(text) => match parse_decimal(text) {
                Some(number) => Ok(number),
                None => Err(DecodeError::Malformed(which)),
            },
            _ => Err(DecodeError::Mistyped(which)),
        }
    }
}

/// The string under a name, or nothing when the name is absent or holds a
/// value of another kind.
pub open spec fn optional_text(item: ItemView, name: Seq<char>) -> Option<Seq<char>> {
    if item.contains_key(name) {
        match item[name] {
            AttributeView::S(text) => Some(text),
            _ => None,
        }
    } else {
        None
    }
}

/// The record a customer is stored as. An absent avatar URL has no
/// attribute at all.
pub open spec fn customer_item(customer: CustomerView) -> ItemView {
    let required = Map::<Seq<char>, AttributeView>::empty().insert(
        "pk"@,
        AttributeView::S(customer.pk),
    ).insert("sk"@, AttributeView::S(seq![customer.sk])).insert(
        "n"@,
        AttributeView::S(customer.n),
    ).insert("e"@, AttributeView::S(customer.e)).insert(
        "r"@,
        AttributeView::S(seq![role_code(customer.r)]),
    );
    let described = match customer.img {
        Some(url) => required.insert("img"@, AttributeView::S(url)),
        None => required,
    };
    described.insert("dis"@, AttributeView::Bool(customer.dis)).insert(
        "ua"@,
        AttributeView::N(decimal_digits(customer.ua as nat)),
    )
}

/// The key a customer is stored under: its identifier and its kind.
pub open spec fn customer_record_key(customer: CustomerView) -> KeyView {
    KeyView { pk: customer.pk, sk: seq![customer.sk] }
}

/// The customer a record holds, or the first fault met when the attributes
/// are read in the order `pk`, `sk`, `n`, `e`, `r`, `dis`, `ua`.
pub open spec fn customer_from_item(item: ItemView) -> Result<CustomerView, DecodeError> {
    match text_attribute(item, "pk"@, AttributeName::Pk) {
        Err(error) => Err(error),
        Ok(pk) => match code_attribute(item, "sk"@, AttributeName::Sk) {
            Err(error) => Err(error),
            Ok(sk) => match text_attribute(item, "n"@, AttributeName::N) {
                Err(error) => Err(error),
                Ok(n) => match text_attribute(item, "e"@, AttributeName::E) {
                    Err(error) => Err(error),
                    Ok(e) => match code_attribute(item, "r"@, AttributeName::R) {
                        Err(error) => Err(error),
                        Ok(code) => match flag_attribute(item, "dis"@, AttributeName::Dis) {
                            Err(error) => Err(error),
                            Ok(dis) => match number_attribute(item, "ua"@, AttributeName::Ua) {
                                Err(error) => Err(error),
                                Ok(ua) => Ok(
                                    CustomerView {
                                        pk,
                                        sk,
                                        n,
                                        e,
                                        r: role_of_code(code),
                                        img: optional_text(item, "img"@),
                                        dis,
                                        ua,
                                    },
                                ),
                            },
                        },
                    },
                },
            },
        },
    }
}

/// The list projection a record holds, or the first fault met when the
/// attributes are read in the order `pk`, `sk`, `n`, `dis`, `ua`.
pub open spec fn list_item_from_item(item: ItemView) -> Result<CustomerListItemView, DecodeError> {
    match text_attribute(item, "pk"@, AttributeName::Pk) {
        Err(error) => Err(error),
        Ok(pk) => match code_attribute(item, "sk"@, AttributeName::Sk) {
            Err(error) => Err(error),
            Ok(sk) => match text_attribute(item, "n"@, AttributeName::N) {
                Err(error) => Err(error),
                Ok(n) => match flag_attribute(item, "dis"@, AttributeName::Dis) {
                    Err(error) => Err(error),
                    Ok(dis) => match number_attribute(item, "ua"@, AttributeName::Ua) {
                        Err(error) => Err(error),
                        Ok(ua) => Ok(CustomerListItemView { pk, sk, n, dis, ua }),
                    },
                },
            },
        },
    }
}

/// The customer identifier a lookup record holds.
pub open spec fn customer_id_from_item(item: ItemView) -> Result<Seq<char>, DecodeError> {
    text_attribute(item, "id"@, AttributeName::Id)
}

/// The attribute names of the layout are pairwise different.
pub proof fn lemma_names_differ()
    ensures
        "pk"@ != "sk"@,
        "pk"@ != "n"@,
        "pk"@ != "e"@,
        "pk"@ != "r"@,
        "pk"@ != "img"@,
        "pk"@ != "dis"@,
        "pk"@ != "ua"@,
        "sk"@ != "n"@,
        "sk"@ != "e"@,
        "sk"@ != "r"@,
        "sk"@ != "img"@,
        "sk"@ != "dis"@,
        "sk"@ != "ua"@,
        "n"@ != "e"@,
        "n"@ != "r"@,
        "n"@ != "img"@,
        "n"@ != "dis"@,
        "n"@ != "ua"@,
        "e"@ != "r"@,
        "e"@ != "img"@,
        "e"@ != "dis"@,
        "e"@ != "ua"@,
        "r"@ != "img"@,
        "r"@ != "dis"@,
        "r"@ != "ua"@,
        "img"@ != "dis"@,
        "img"@ != "ua"@,
        "dis"@ != "ua"@,
{
    reveal_strlit("pk");
    reveal_strlit("sk");
    reveal_strlit("n");
    reveal_strlit("e");
    reveal_strlit("r");
    reveal_strlit("img");
    reveal_strlit("dis");
    reveal_strlit("ua");
    assert("pk"@[0] == 'p' && "sk"@[0] == 's' && "n"@[0] == 'n' && "e"@[0] == 'e' && "r"@[0] == 'r'
        && "img"@[0] == 'i' && "dis"@[0] == 'd' && "ua"@[0] == 'u');
}

/// Decoding undoes encoding: the record a customer is stored as decodes to
/// that customer, field by field. An absent avatar URL is stored as no
/// attribute and read back as absent.
pub proof fn lemma_customer_round_trip(customer: CustomerView)
    ensures
        customer_from_item(customer_item(customer)) == Ok::<CustomerView, DecodeError>(customer),
        item_key(customer_item(customer)) == Some(customer_record_key(customer)),
        customer.img is None ==> !customer_item(customer).contains_key("img"@),
{
    lemma_names_differ();
    lemma_parse_format(customer.ua);
    let item = customer_item(customer);
    assert(seq![customer.sk][0] == customer.sk);
    assert(seq![role_code(customer.r)][0] == role_code(customer.r));
    assert(text_attribute(item, "pk"@, AttributeName::Pk) == Ok::<Seq<char>, DecodeError>(
        customer.pk,
    ));
    assert(code_attribute(item, "sk"@, AttributeName::Sk) == Ok::<char, DecodeError>(customer.sk));
    assert(text_attribute(item, "n"@, AttributeName::N) == Ok::<Seq<char>, DecodeError>(customer.n));
    assert(text_attribute(item, "e"@, AttributeName::E) == Ok::<Seq<char>, DecodeError>(customer.e));
    assert(code_attribute(item, "r"@, AttributeName::R) == Ok::<char, DecodeError>(
        role_code(customer.r),
    ));
    assert(flag_attribute(item, "dis"@, AttributeName::Dis) == Ok::<bool, DecodeError>(
        customer.dis,
    ));
    assert(number_attribute(item, "ua"@, AttributeName::Ua) == Ok::<u64, DecodeError>(customer.ua));
    assert(optional_text(item, "img"@) == customer.img);
}

fn text_of<'a>(item: &'a Item, name: &str, which: AttributeName) -> (result: Result<
    &'a String,
    DecodeError,
>)
    ensures
        match result {
            Ok(text) => text_attribute(item@, name@, which) == Ok::<Seq<char>, DecodeError>(text@),
            Err(error) => text_attribute(item@, name@, which) == Err::<Seq<char>, DecodeError>(
                error,
            ),
        },
{
    match item.get(name) {
        None => Err(DecodeError::Missing(which)),
        Some(AttributeValue::S(text)) => Ok(text),
        Some(_) => Err(DecodeError::Mistyped(which)),
    }
}

fn code_of(item: &Item, name: &str, which: AttributeName) -> (result: Result<char, DecodeError>)
    ensures
        result == code_attribute(item@, name@, which),
{
    match text_of(item, name, which) {
        Err(error) => Err(error),
        Ok(text) => match first_char(text.as_str()) {
            Some(code) => Ok(code),
            None => Err(DecodeError::Malformed(which)),
        },
    }
}

fn flag_of(item: &Item, name: &str, which: AttributeName) -> (result: Result<bool, DecodeError>)
    ensures
        result == flag_attribute(item@, name@, which),
{
    match item.get(name) {
        None => Err(DecodeError::Missing(which)),
        Some(AttributeValue::Bool(flag)) => Ok(*flag),
        Some(_) => Err(DecodeError::Mistyped(which)),
    }
}

fn number_of(item: &Item, name: &str, which: AttributeName) -> (result: Result<u64, DecodeError>)
    ensures
        result == number_attribute(item@, name@, which),
{
    match item.get(name) {
        None => Err(DecodeError::Missing(which)),
        Some(AttributeValue::N(text)) => match parse_u64(text.as_str()) {
            Some(number) => Ok(number),
            None => Err(DecodeError::Malformed(which)),
        },
        Some(_) => Err(DecodeError::Mistyped(which)),
    }
}

fn optional_text_of(item: &Item, name: &str) -> (result: Option<String>)
    ensures
        match result {
            Some(text) => optional_text(item@, name@) == Some(text@),
            None => optional_text(item@, name@) is None,
        },
{
    match item.get(name) {
        Some(AttributeValue::S(text)) => Some(text.clone()),
        _ => None,
    }
}

/// Writes a customer as the record it is stored as.
pub fn encode_customer(customer: Customer) -> (item: Item)
    ensures
        item@ == customer_item(customer@),
{
    let mut item = Item::new();
    item.insert("pk".to_owned(), AttributeValue::S(customer.pk));
    item.insert("sk".to_owned(), AttributeValue::S(char_to_string(customer.sk)));
    item.insert("n".to_owned(), AttributeValue::S(customer.n));
    item.insert("e".to_owned(), AttributeValue::S(customer.e));
    item.insert("r".to_owned(), AttributeValue::S(char_to_string(extract_role(customer.r))));
    match customer.img {
        Some(url) => {
            item.insert("img".to_owned(), AttributeValue::S(url));
        },
        None => {},
    }
    item.insert("dis".to_owned(), AttributeValue::Bool(customer.dis));
    item.insert("ua".to_owned(), AttributeValue::N(format_u64(customer.ua)));
    item
}

/// Reads a customer from a record. Every attribute but `img` is required
/// and must be of its kind.
pub fn decode_customer(item: &Item) -> (result: Result<Customer, DecodeError>)
    ensures
        match result {
            Ok(customer) => customer_from_item(item@) == Ok::<CustomerView, DecodeError>(
                customer@,
            ),
            Err(error) => customer_from_item(item@) == Err::<CustomerView, DecodeError>(error),
        },
{
    let pk = text_of(item, "pk", AttributeName::Pk)?.clone();
    let sk = code_of(item, "sk", AttributeName::Sk)?;
    let n = text_of(item, "n", AttributeName::N)?.clone();
    let e = text_of(item, "e", AttributeName::E)?.clone();
    let r = convert_to_role(code_of(item, "r", AttributeName::R)?);
    let dis = flag_of(item, "dis", AttributeName::Dis)?;
    let ua = number_of(item, "ua", AttributeName::Ua)?;
    let img = optional_text_of(item, "img");
    Ok(Customer { pk, sk, n, e, r, img, dis, ua })
}

/// Reads the list projection of a customer from a record.
pub fn decode_list_item(item: &Item) -> (result: Result<CustomerListItem, DecodeError>)
    ensures
        match result {
            Ok(listed) => list_item_from_item(item@) == Ok::<CustomerListItemView, DecodeError>(
                listed@,
            ),
            Err(error) => list_item_from_item(item@) == Err::<CustomerListItemView, DecodeError>(
                error,
            ),
        },
{
    let pk = text_of(item, "pk", AttributeName::Pk)?.clone();
    let sk = code_of(item, "sk", AttributeName::Sk)?;
    let n = text_of(item, "n", AttributeName::N)?.clone();
    let dis = flag_of(item, "dis", AttributeName::Dis)?;
    let ua = number_of(item, "ua", AttributeName::Ua)?;
    Ok(CustomerListItem { pk, sk, n, dis, ua })
}

/// Reads the customer identifier from a lookup record.
pub fn decode_customer_id(item: &Item) -> (result: Result<String, DecodeError>)
    ensures
        match result {
            Ok(id) => customer_id_from_item(item@) == Ok::<Seq<char>, DecodeError>(id@),
            Err(error) => customer_id_from_item(item@) == Err::<Seq<char>, DecodeError>(error),
        },
{
    Ok(text_of(item, "id", AttributeName::Id)?.clone())
}

} // verus!

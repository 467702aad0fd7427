//! The customer, its role, and the projection used for bulk listing.

use crate::common::helpers::{elapsed_between, now, since};
use crate::models::validation::{
    clone_text, invalid_fields, option_text, validate_fields, InvalidField,
};
use crate::store::attribute::Item;
use vstd::prelude::*;

verus! {

/// The sort key every customer record is stored under.
pub const CUSTOMER_KIND: char = 'C';

/// The attributes of a stored customer that its list projection is read
/// from.
pub const PROJECTION_FIELDS_FOR_CUSTOMER: [&'static str; 5] = ["pk", "sk", "n", "dis", "ua"];

/// What a customer may do.
#[derive(Clone, Copy, Debug, PartialEq, Eq, Structural)]
pub enum CustomerRole {
    ADMIN,
    CUSTOMER,
}

/// The character a role is stored as.
pub open spec fn role_code(role: CustomerRole) -> char {
    match role {
        CustomerRole::ADMIN => 'A',
        CustomerRole::CUSTOMER => 'C',
    }
}

/// The role a stored character stands for: `'A'` is the administrator,
/// every other character the plain customer.
pub open spec fn role_of_code(code: char) -> CustomerRole {
    if code == 'A' {
        CustomerRole::ADMIN
    } else {
        CustomerRole::CUSTOMER
    }
}

/// Encodes a role as its stored character.
pub fn extract_role(role: CustomerRole) -> (code: char)
    ensures
        code == role_code(role),
{
    match role {
        CustomerRole::ADMIN => 'A',
        CustomerRole::CUSTOMER => 'C',
    }
}

/// Decodes a stored character into a role. Unrecognised characters decode
/// to `CUSTOMER`.
pub fn convert_to_role(role: char) -> (decoded: CustomerRole)
    ensures
        decoded == role_of_code(role),
        role != 'A' ==> decoded == CustomerRole::CUSTOMER,
{
    match role {
        'A' => CustomerRole::ADMIN,
        _ => CustomerRole::CUSTOMER,
    }
}

/// Whether the role is the administrator.
pub fn is_admin(role: CustomerRole) -> (admin: bool)
    ensures
        admin == (role == CustomerRole::ADMIN),
{
    match role {
        CustomerRole::ADMIN => true,
        _ => false,
    }
}

/// Decoding undoes encoding for both roles.
pub proof fn lemma_role_round_trip(role: CustomerRole)
    ensures
        role_of_code(role_code(role)) == role,
{
}

/// A customer as the application holds it.
#[derive(Debug, PartialEq, Eq)]
pub struct Customer {
    /// Customer identifier, 1 to 40 characters; the partition key.
    pub pk: String,
    /// Record kind; the sort key, `'C'` for customers.
    pub sk: char,
    /// Name, 1 to 80 characters.
    pub n: String,
    /// Email address.
    pub e: String,
    /// Role.
    pub r: CustomerRole,
    /// Avatar URL, if any.
    pub img: Option<String>,
    /// Whether the account is disabled.
    pub dis: bool,
    /// Time of the last change, in milliseconds since the epoch.
    pub ua: u64,
}

/// The mathematical value of a `Customer`.
pub struct CustomerView {
    pub pk: Seq<char>,
    pub sk: char,
    pub n: Seq<char>,
    pub e: Seq<char>,
    pub r: CustomerRole,
    pub img: Option<Seq<char>>,
    pub dis: bool,
    pub ua: u64,
}

impl CustomerView {
    /// The fields that break their rules, in the order identifier, name,
    /// email, avatar URL.
    pub open spec fn invalid_fields(self) -> Seq<InvalidField> {
        invalid_fields(self.pk, self.n, self.e, self.img)
    }

    /// Every field keeps its rule.
    pub open spec fn valid(self) -> bool {
        self.invalid_fields().len() == 0
    }
}

impl View for Customer {
    type V = CustomerView;

    open spec fn view(&self) -> CustomerView {
        CustomerView {
            pk: self.pk@,
            sk: self.sk,
            n: self.n@,
            e: self.e@,
            r: self.r,
            img: option_text(self.img),
            dis: self.dis,
            ua: self.ua,
        }
    }
}

impl Clone for Customer {
    fn clone(&self) -> (copy: Self)
        ensures
            copy@ == self@,
    {
        Customer {
            pk: self.pk.clone(),
            sk: self.sk,
            n: self.n.clone(),
            e: self.e.clone(),
            r: self.r,
            img: clone_text(&self.img),
            dis: self.dis,
            ua: self.ua,
        }
    }
}

/// The customer a constructor makes from its arguments and a time stamp:
/// of the customer kind, with the plain role, enabled.
pub open spec fn new_customer(
    id: Seq<char>,
    name: Seq<char>,
    email: Seq<char>,
    image: Option<Seq<char>>,
    stamp: u64,
) -> CustomerView {
    CustomerView {
        pk: id,
        sk: CUSTOMER_KIND,
        n: name,
        e: email,
        r: CustomerRole::CUSTOMER,
        img: image,
        dis: false,
        ua: stamp,
    }
}

impl Customer {
    /// A new, enabled customer with the plain role, stamped with the given
    /// time.
    pub fn new_at(id: String, name: String, email: String, image: Option<String>, now: u64) -> (customer:
        Self)
        ensures
            customer@ == new_customer(id@, name@, email@, option_text(image), now),
    {
        Self {
            pk: id,
            sk: CUSTOMER_KIND,
            n: name,
            e: email,
            r: CustomerRole::CUSTOMER,
            img: image,
            dis: false,
            ua: now,
        }
    }

    /// A new, enabled customer with the plain role, stamped with the current
    /// time. The time stamp is whatever the clock reads; every other field
    /// is determined by the arguments.
    pub fn new(id: String, name: String, email: String, image: Option<String>) -> (customer: Self)
        ensures
            exists|stamp: u64|
                customer@ == #[trigger] new_customer(
                    id@,
                    name@,
                    email@,
                    option_text(image),
                    stamp,
                ),
    {
        let stamp = now();
        Self::new_at(id, name, email, image, stamp)
    }

    /// Whether the customer is an administrator.
    pub fn is_admin(&self) -> (admin: bool)
        ensures
            admin == (self.r == CustomerRole::ADMIN),
    {
        is_admin(self.r)
    }

    /// Milliseconds since the last change, zero if that lies in the future.
    pub fn since(&self) -> (millis: u64)
        ensures
            exists|reading: u64| millis == #[trigger] elapsed_between(reading, self.ua),
    {
        since(self.ua)
    }

    /// Checks every field against its rule and reports the ones that fail.
    pub fn validate(&self) -> (result: Result<(), Vec<InvalidField>>)
        ensures
            result is Ok <==> self@.valid(),
            result matches Err(fields) ==> fields@ == self@.invalid_fields(),
    {
        validate_fields(&self.pk, &self.n, &self.e, &self.img)
    }
}

/// The part of a customer a bulk listing returns.
#[derive(Debug, PartialEq, Eq)]
pub struct CustomerListItem {
    /// Customer identifier.
    pub pk: String,
    /// Record kind.
    pub sk: char,
    /// Name.
    pub n: String,
    /// Whether the account is disabled.
    pub dis: bool,
    /// Time of the last change, in milliseconds since the epoch.
    pub ua: u64,
}

/// The mathematical value of a `CustomerListItem`.
pub struct CustomerListItemView {
    pub pk: Seq<char>,
    pub sk: char,
    pub n: Seq<char>,
    pub dis: bool,
    pub ua: u64,
}

impl View for CustomerListItem {
    type V = CustomerListItemView;

    open spec fn view(&self) -> CustomerListItemView {
        CustomerListItemView { pk: self.pk@, sk: self.sk, n: self.n@, dis: self.dis, ua: self.ua }
    }
}

impl Clone for CustomerListItem {
    fn clone(&self) -> (copy: Self)
        ensures
            copy@ == self@,
    {
        CustomerListItem {
            pk: self.pk.clone(),
            sk: self.sk,
            n: self.n.clone(),
            dis: self.dis,
            ua: self.ua,
        }
    }
}

impl CustomerListItem {
    /// Milliseconds since the last change, zero if that lies in the future.
    pub fn since(&self) -> (millis: u64)
        ensures
            exists|reading: u64| millis == #[trigger] elapsed_between(reading, self.ua),
    {
        since(self.ua)
    }
}

/// One page of a listing: the customers found and, when more remain, the
/// cursor to continue from.
#[derive(Debug)]
pub struct CustomerListResult {
    pub customers: Vec<CustomerListItem>,
    pub last_key: Option<Item>,
}

impl CustomerListResult {
    /// A page with the given customers and cursor.
    pub fn new(customers: Vec<CustomerListItem>, last_key: Option<Item>) -> (page: Self)
        ensures
            page.customers == customers,
            page.last_key == last_key,
    {
        Self { customers, last_key }
    }
}

} // verus!

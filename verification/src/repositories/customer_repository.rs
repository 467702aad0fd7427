//! The customer repository: create, update, enable and disable, point
//! reads, the lookup by email, and the paginated listing.
//!
//! Each operation is a request to the store and, for reads, the decoding of
//! the answer. The request builders and the decoders are public so that a
//! caller who talks to a remote store can send the same requests; the
//! operations themselves run against a `Table`.

use crate::common::decimal::{decimal_digits, format_u64};
use crate::common::helpers::now;
use crate::models::customer_model::{
    Customer, CustomerListItem, CustomerListItemView, CustomerListResult, CustomerView,
};
use crate::models::github_model::{GithubProfile, GithubProfileView};
use crate::repositories::customer_codec::{
    customer_from_item, customer_id_from_item, customer_item, customer_record_key,
    decode_customer, decode_customer_id, decode_list_item, encode_customer, flag_attribute,
    lemma_customer_round_trip, lemma_names_differ, list_item_from_item, AttributeName,
    DecodeError,
};
use crate::store::attribute::{AttributeValue, AttributeView, Item, ItemView};
use crate::store::request::{
    GetRequest, Key, KeyView, PutRequest, ScanRequest, StoreError, TableName, UpdateRequest,
};
use crate::store::table::{
    after_update, cursor_item, cursor_key, item_views, next_cursor, option_item_view, page_items,
    update_verdict, Table, TableView,
};
use vstd::prelude::*;
use vstd::string::*;

verus! {

/// Why a repository operation failed.
#[derive(Clone, Copy, Debug, PartialEq, Eq, Structural)]
pub enum RepositoryError {
    /// The store turned the request down.
    Store(StoreError),
    /// The store answered with a record that is no customer.
    Decode(DecodeError),
}

/// The key of the customer with an identifier.
pub open spec fn customer_key_view(id: Seq<char>) -> KeyView {
    KeyView { pk: id, sk: "C"@ }
}

/// The key of the lookup record of an email address.
pub open spec fn lookup_key_view(email: Seq<char>) -> KeyView {
    KeyView { pk: "L#"@ + email, sk: "E"@ }
}

/// What a profile refresh assigns: the name, the avatar URL if the profile
/// has one, the time of the refresh, and the cleared disabled flag.
pub open spec fn profile_assignments(profile: GithubProfileView, now: u64) -> ItemView {
    let named = Map::<Seq<char>, AttributeView>::empty().insert(
        "n"@,
        AttributeView::S(profile.name),
    );
    let pictured = match profile.avatar_url {
        Some(url) => named.insert("img"@, AttributeView::S(url)),
        None => named,
    };
    pictured.insert("ua"@, AttributeView::N(decimal_digits(now as nat))).insert(
        "dis"@,
        AttributeView::Bool(false),
    )
}

/// The attributes a profile refresh assigns, in the order of its update
/// expression.
pub open spec fn profile_assignment_names(profile: GithubProfileView) -> Seq<Seq<char>> {
    match profile.avatar_url {
        Some(_) => seq!["n"@, "img"@, "ua"@, "dis"@],
        None => seq!["n"@, "ua"@, "dis"@],
    }
}

/// What enabling or disabling assigns: the flag and the time of the change.
pub open spec fn toggle_assignments(disabled: bool, now: u64) -> ItemView {
    Map::<Seq<char>, AttributeView>::empty().insert("dis"@, AttributeView::Bool(disabled)).insert(
        "ua"@,
        AttributeView::N(decimal_digits(now as nat)),
    )
}

/// The outcome of a write for the caller.
pub open spec fn write_outcome(verdict: Result<(), StoreError>) -> Result<(), RepositoryError> {
    match verdict {
        Ok(_) => Ok(()),
        Err(error) => Err(RepositoryError::Store(error)),
    }
}

/// The customer a point read finds: none when the store has no record, the
/// decoded record otherwise.
pub open spec fn found_customer(found: Option<ItemView>) -> Result<
    Option<CustomerView>,
    DecodeError,
> {
    match found {
        None => Ok(None),
        Some(item) => match customer_from_item(item) {
            Ok(customer) => Ok(Some(customer)),
            Err(error) => Err(error),
        },
    }
}

/// The customer identifier a lookup finds: none when the store has no
/// lookup record, the identifier in the record otherwise.
pub open spec fn found_customer_id(found: Option<ItemView>) -> Result<
    Option<Seq<char>>,
    DecodeError,
> {
    match found {
        None => Ok(None),
        Some(item) => match customer_id_from_item(item) {
            Ok(id) => Ok(Some(id)),
            Err(error) => Err(error),
        },
    }
}

/// The list projections of a sequence of records, or the first fault met.
pub open spec fn listed_customers(items: Seq<ItemView>) -> Result<
    Seq<CustomerListItemView>,
    DecodeError,
>
    decreases items.len(),
{
    if items.len() == 0 {
        Ok(Seq::empty())
    } else {
        match listed_customers(items.drop_last()) {
            Err(error) => Err(error),
            Ok(listed) => match list_item_from_item(items.last()) {
                Err(error) => Err(error),
                Ok(last) => Ok(listed.push(last)),
            },
        }
    }
}

/// The record under a key, if the table has one.
pub open spec fn record_at(table: TableView, key: KeyView) -> Option<ItemView> {
    if table.contains_key(key) {
        Some(table[key])
    } else {
        None
    }
}

/// What `get_customer` answers on a table.
pub open spec fn get_outcome(table: TableView, id: Seq<char>) -> Result<
    Option<CustomerView>,
    RepositoryError,
> {
    match found_customer(record_at(table, customer_key_view(id))) {
        Ok(found) => Ok(found),
        Err(error) => Err(RepositoryError::Decode(error)),
    }
}

/// What `lookup_customer_id` answers on a table.
pub open spec fn lookup_outcome(table: TableView, email: Seq<char>) -> Result<
    Option<Seq<char>>,
    RepositoryError,
> {
    match found_customer_id(record_at(table, lookup_key_view(email))) {
        Ok(found) => Ok(found),
        Err(error) => Err(RepositoryError::Decode(error)),
    }
}

/// The values of a sequence of list projections.
pub open spec fn list_views(customers: Seq<CustomerListItem>) -> Seq<CustomerListItemView> {
    Seq::new(customers.len(), |i: int| customers[i]@)
}

/// The key of the customer with an identifier.
pub fn customer_key(customer_id: String) -> (key: Key)
    ensures
        key@ == customer_key_view(customer_id@),
{
    Key { pk: customer_id, sk: "C".to_owned() }
}

/// The key of the lookup record of an email address.
pub fn lookup_key(email: &String) -> (key: Key)
    ensures
        key@ == lookup_key_view(email@),
{
    Key { pk: "L#".to_owned().concat(email.as_str()), sk: "E".to_owned() }
}

/// The request that stores a customer: an unconditional put of its record
/// into the customer table.
pub fn create_request(customer: Customer) -> (request: PutRequest)
    ensures
        request.table == TableName::Customer,
        request.item@ == customer_item(customer@),
{
    PutRequest { table: TableName::Customer, item: encode_customer(customer) }
}

/// The request that refreshes a customer from a profile at a given time.
/// It applies only to a record that exists and is not disabled.
pub fn profile_update(profile: GithubProfile, now: u64) -> (request: UpdateRequest)
    ensures
        request.table == TableName::Customer,
        request.key@ == customer_key_view(profile.id@),
        request.assignments@ == profile_assignments(profile@, now),
        request.assignments.names() == profile_assignment_names(profile@),
        request.unchanged matches Some(name) && name@ == "dis"@,
{
    proof {
        lemma_names_differ();
    }
    let mut assignments = Item::new();
    assignments.insert("n".to_owned(), AttributeValue::S(profile.name));
    match profile.avatar_url {
        Some(url) => {
            assignments.insert("img".to_owned(), AttributeValue::S(url));
        },
        None => {},
    }
    assignments.insert("ua".to_owned(), AttributeValue::N(format_u64(now)));
    assignments.insert("dis".to_owned(), AttributeValue::Bool(false));
    assert(assignments.names() =~= profile_assignment_names(profile@));
    UpdateRequest {
        table: TableName::Customer,
        key: customer_key(profile.id),
        assignments,
        unchanged: Some("dis".to_owned()),
    }
}

/// The request that enables or disables a customer at a given time. It
/// applies to any record that exists.
pub fn toggle_update(customer_id: String, disabled: bool, now: u64) -> (request: UpdateRequest)
    ensures
        request.table == TableName::Customer,
        request.key@ == customer_key_view(customer_id@),
        request.assignments@ == toggle_assignments(disabled, now),
        request.assignments.names() == seq!["dis"@, "ua"@],
        request.unchanged is None,
{
    proof {
        lemma_names_differ();
    }
    let mut assignments = Item::new();
    assignments.insert("dis".to_owned(), AttributeValue::Bool(disabled));
    assignments.insert("ua".to_owned(), AttributeValue::N(format_u64(now)));
    assert(assignments.names() =~= seq!["dis"@, "ua"@]);
    UpdateRequest {
        table: TableName::Customer,
        key: customer_key(customer_id),
        assignments,
        unchanged: None,
    }
}

/// The request that reads a customer: the whole record under its key.
pub fn get_request(customer_id: String) -> (request: GetRequest)
    ensures
        request.table == TableName::Customer,
        request.key@ == customer_key_view(customer_id@),
        request.projection is None,
{
    GetRequest { table: TableName::Customer, key: customer_key(customer_id), projection: None }
}

/// The request that looks a customer up by email: the `id` attribute of the
/// lookup record in the shared table.
pub fn lookup_request(email: String) -> (request: GetRequest)
    ensures
        request.table == TableName::Common,
        request.key@ == lookup_key_view(email@),
        request.projection matches Some(name) && name@ == "id"@,
{
    GetRequest {
        table: TableName::Common,
        key: lookup_key(&email),
        projection: Some("id".to_owned()),
    }
}

/// The request that reads one page of customers, from the start or from
/// the cursor of the page before.
pub fn list_request(start_from: Option<Item>) -> (request: ScanRequest)
    ensures
        request.table == TableName::Customer,
        request.exclusive_start_key == start_from,
{
    ScanRequest { table: TableName::Customer, exclusive_start_key: start_from }
}

/// Decodes the answer to a point read of a customer. No record is no
/// customer, not an error.
pub fn customer_from_response(found: Option<&Item>) -> (result: Result<Option<Customer>, DecodeError>)
    ensures
        match result {
            Ok(Some(customer)) => found_customer(option_ref_view(found)) == Ok::<
                Option<CustomerView>,
                DecodeError,
            >(Some(customer@)),
            Ok(None) => found_customer(option_ref_view(found)) == Ok::<
                Option<CustomerView>,
                DecodeError,
            >(None),
            Err(error) => found_customer(option_ref_view(found)) == Err::<
                Option<CustomerView>,
                DecodeError,
            >(error),
        },
{
    match found {
        None => Ok(None),
        Some(item) => match decode_customer(item) {
            Ok(customer) => Ok(Some(customer)),
            Err(error) => Err(error),
        },
    }
}

/// Decodes the answer to a lookup by email. No lookup record is no
/// customer identifier, not an error.
pub fn customer_id_from_response(found: Option<&Item>) -> (result: Result<
    Option<String>,
    DecodeError,
>)
    ensures
        match result {
            Ok(Some(id)) => found_customer_id(option_ref_view(found)) == Ok::<
                Option<Seq<char>>,
                DecodeError,
            >(Some(id@)),
            Ok(None) => found_customer_id(option_ref_view(found)) == Ok::<
                Option<Seq<char>>,
                DecodeError,
            >(None),
            Err(error) => found_customer_id(option_ref_view(found)) == Err::<
                Option<Seq<char>>,
                DecodeError,
            >(error),
        },
{
    match found {
        None => Ok(None),
        Some(item) => match decode_customer_id(item) {
            Ok(id) => Ok(Some(id)),
            Err(error) => Err(error),
        },
    }
}

/// The value of an optional borrowed record.
pub open spec fn option_ref_view(item: Option<&Item>) -> Option<ItemView> {
    match item {
        Some(i) => Some(i@),
        None => None,
    }
}

proof fn lemma_listed_prefix_fault(items: Seq<ItemView>, k: int)
    requires
        0 <= k <= items.len(),
        listed_customers(items.subrange(0, k)) is Err,
    ensures
        listed_customers(items) == listed_customers(items.subrange(0, k)),
    decreases items.len(),
{
    if k == items.len() {
        assert(items.subrange(0, k) =~= items);
    } else {
        assert(items.drop_last().subrange(0, k) =~= items.subrange(0, k));
        lemma_listed_prefix_fault(items.drop_last(), k);
    }
}

/// Decodes the answer to a scan into a page of the listing: the list
/// projection of every record, in order, and the cursor as it came.
pub fn list_from_response(items: &Vec<Item>, last_key: Option<Item>) -> (result: Result<
    CustomerListResult,
    DecodeError,
>)
    ensures
        match listed_customers(item_views(items@)) {
            Ok(listed) => result matches Ok(page) && list_views(page.customers@) == listed
                && page.last_key == last_key,
            Err(error) => result matches Err(e) && e == error,
        },
{
    let ghost views = item_views(items@);
    let mut results = CustomerListResult::new(Vec::new(), last_key);
    let mut i: usize = 0;
    assert(views.subrange(0, 0) =~= Seq::<ItemView>::empty());
    assert(list_views(results.customers@) =~= Seq::<CustomerListItemView>::empty());
    while i < items.len()
        invariant
            i <= items.len(),
            views == item_views(items@),
            results.last_key == last_key,
            listed_customers(views.subrange(0, i as int)) == Ok::<
                Seq<CustomerListItemView>,
                DecodeError,
            >(list_views(results.customers@)),
        decreases items.len() - i,
    {
        let ghost shorter = views.subrange(0, i as int);
        let ghost longer = views.subrange(0, i + 1);
        assert(longer.drop_last() =~= shorter);
        assert(longer.last() == items@[i as int]@);
        match decode_list_item(&items[i]) {
            Err(error) => {
                proof {
                    lemma_listed_prefix_fault(views, i + 1);
                }
                return Err(error);
            },
            Ok(listed) => {
                let ghost before = list_views(results.customers@);
                results.customers.push(listed);
                assert(list_views(results.customers@) =~= before.push(listed@));
            },
        }
        i += 1;
    }
    assert(views.subrange(0, items.len() as int) =~= views);
    Ok(results)
}

/// Stores a customer. The record replaces whatever its key held; the write
/// has no condition and always succeeds.
pub fn create_customer(table: &mut Table, customer: Customer) -> (result: Result<
    (),
    RepositoryError,
>)
    ensures
        result is Ok,
        final(table)@ == old(table)@.insert(
            customer_record_key(customer@),
            customer_item(customer@),
        ),
        final(table).scan_order() == if old(table)@.contains_key(customer_record_key(customer@)) {
            old(table).scan_order()
        } else {
            old(table).scan_order().push(customer_record_key(customer@))
        },
        final(table).page_limit() == old(table).page_limit(),
{
    proof {
        lemma_customer_round_trip(customer@);
    }
    let request = create_request(customer);
    match table.put(request.item) {
        Ok(_) => Ok(()),
        Err(error) => Err(RepositoryError::Store(error)),
    }
}

/// Refreshes a customer from a profile at a given time: sets the name, the
/// avatar URL if the profile has one, the time, and clears the disabled
/// flag. The write is applied only if the record exists and is not
/// disabled; otherwise it fails the condition check and changes nothing.
pub fn update_customer_at(table: &mut Table, profile: GithubProfile, now: u64) -> (result: Result<
    (),
    RepositoryError,
>)
    ensures
        result == write_outcome(
            update_verdict(
                old(table)@,
                customer_key_view(profile.id@),
                profile_assignments(profile@, now),
                Some("dis"@),
            ),
        ),
        final(table)@ == after_update(
            old(table)@,
            customer_key_view(profile.id@),
            profile_assignments(profile@, now),
            Some("dis"@),
        ),
        result is Ok <==> old(table)@.contains_key(customer_key_view(profile.id@))
            && flag_attribute(
            old(table)@[customer_key_view(profile.id@)],
            "dis"@,
            AttributeName::Dis,
        ) == Ok::<bool, DecodeError>(false),
        result is Err ==> result == Err::<(), RepositoryError>(
            RepositoryError::Store(StoreError::ConditionalCheckFailed),
        ) && final(table)@ == old(table)@,
        final(table).scan_order() == old(table).scan_order(),
        final(table).page_limit() == old(table).page_limit(),
{
    proof {
        lemma_names_differ();
    }
    let request = profile_update(profile, now);
    match table.update(&request) {
        Ok(_) => Ok(()),
        Err(error) => Err(RepositoryError::Store(error)),
    }
}

/// Refreshes a customer from a profile, stamped with the current time.
///
/// The time is whatever the clock reads; the contract holds for some
/// reading. Whether the write is applied does not depend on the reading:
/// it is applied exactly when the record exists and is not disabled.
pub fn update_customer(table: &mut Table, profile: GithubProfile) -> (result: Result<
    (),
    RepositoryError,
>)
    ensures
        exists|now: u64|
            result == write_outcome(
                update_verdict(
                    old(table)@,
                    customer_key_view(profile.id@),
                    #[trigger] profile_assignments(profile@, now),
                    Some("dis"@),
                ),
            ) && final(table)@ == after_update(
                old(table)@,
                customer_key_view(profile.id@),
                profile_assignments(profile@, now),
                Some("dis"@),
            ),
        result is Ok <==> old(table)@.contains_key(customer_key_view(profile.id@))
            && flag_attribute(
            old(table)@[customer_key_view(profile.id@)],
            "dis"@,
            AttributeName::Dis,
        ) == Ok::<bool, DecodeError>(false),
        result is Err ==> result == Err::<(), RepositoryError>(
            RepositoryError::Store(StoreError::ConditionalCheckFailed),
        ) && final(table)@ == old(table)@,
        final(table).scan_order() == old(table).scan_order(),
        final(table).page_limit() == old(table).page_limit(),
{
    let stamp = now();
    update_customer_at(table, profile, stamp)
}

/// Sets the disabled flag of a customer at a given time. The write is
/// applied if the record exists, whatever its flag; otherwise it fails the
/// condition check and changes nothing.
pub fn toggle_customer(table: &mut Table, customer_id: String, disabled: bool, now: u64) -> (result:
    Result<(), RepositoryError>)
    ensures
        result == write_outcome(
            update_verdict(
                old(table)@,
                customer_key_view(customer_id@),
                toggle_assignments(disabled, now),
                None,
            ),
        ),
        final(table)@ == after_update(
            old(table)@,
            customer_key_view(customer_id@),
            toggle_assignments(disabled, now),
            None,
        ),
        result is Ok <==> old(table)@.contains_key(customer_key_view(customer_id@)),
        result is Err ==> result == Err::<(), RepositoryError>(
            RepositoryError::Store(StoreError::ConditionalCheckFailed),
        ) && final(table)@ == old(table)@,
        final(table).scan_order() == old(table).scan_order(),
        final(table).page_limit() == old(table).page_limit(),
{
    proof {
        lemma_names_differ();
    }
    let request = toggle_update(customer_id, disabled, now);
    match table.update(&request) {
        Ok(_) => Ok(()),
        Err(error) => Err(RepositoryError::Store(error)),
    }
}

/// Disables a customer, stamped with the current time. The contract holds
/// for some reading of the clock.
pub fn disable_customer(table: &mut Table, customer_id: String) -> (result: Result<
    (),
    RepositoryError,
>)
    ensures
        exists|now: u64|
            result == write_outcome(
                update_verdict(
                    old(table)@,
                    customer_key_view(customer_id@),
                    #[trigger] toggle_assignments(true, now),
                    None,
                ),
            ) && final(table)@ == after_update(
                old(table)@,
                customer_key_view(customer_id@),
                toggle_assignments(true, now),
                None,
            ),
        result is Ok <==> old(table)@.contains_key(customer_key_view(customer_id@)),
        result is Err ==> result == Err::<(), RepositoryError>(
            RepositoryError::Store(StoreError::ConditionalCheckFailed),
        ) && final(table)@ == old(table)@,
        final(table).scan_order() == old(table).scan_order(),
        final(table).page_limit() == old(table).page_limit(),
{
    let stamp = now();
    toggle_customer(table, customer_id, true, stamp)
}

/// Enables a customer, stamped with the current time. The contract holds
/// for some reading of the clock.
pub fn enable_customer(table: &mut Table, customer_id: String) -> (result: Result<
    (),
    RepositoryError,
>)
    ensures
        exists|now: u64|
            result == write_outcome(
                update_verdict(
                    old(table)@,
                    customer_key_view(customer_id@),
                    #[trigger] toggle_assignments(false, now),
                    None,
                ),
            ) && final(table)@ == after_update(
                old(table)@,
                customer_key_view(customer_id@),
                toggle_assignments(false, now),
                None,
            ),
        result is Ok <==> old(table)@.contains_key(customer_key_view(customer_id@)),
        result is Err ==> result == Err::<(), RepositoryError>(
            RepositoryError::Store(StoreError::ConditionalCheckFailed),
        ) && final(table)@ == old(table)@,
        final(table).scan_order() == old(table).scan_order(),
        final(table).page_limit() == old(table).page_limit(),
{
    let stamp = now();
    toggle_customer(table, customer_id, false, stamp)
}

/// Finds the identifier of the customer with an email address in the
/// shared table. No lookup record is no identifier, not an error.
pub fn lookup_customer_id(table: &Table, email: String) -> (result: Result<
    Option<String>,
    RepositoryError,
>)
    ensures
        match result {
            Ok(Some(id)) => lookup_outcome(table@, email@) == Ok::<
                Option<Seq<char>>,
                RepositoryError,
            >(Some(id@)),
            Ok(None) => lookup_outcome(table@, email@) == Ok::<Option<Seq<char>>, RepositoryError>(
                None,
            ),
            Err(error) => lookup_outcome(table@, email@) == Err::<
                Option<Seq<char>>,
                RepositoryError,
            >(error),
        },
{
    let request = lookup_request(email);
    let answer = match table.get(&request.key) {
        Some(item) => {
            let projected = item.project("id");
            assert(customer_id_from_item(projected@) == customer_id_from_item(item@));
            Some(projected)
        },
        None => None,
    };
    let found = match &answer {
        Some(item) => Some(item),
        None => None,
    };
    match customer_id_from_response(found) {
        Ok(id) => Ok(id),
        Err(error) => Err(RepositoryError::Decode(error)),
    }
}

/// Reads the customer with an identifier. No record is no customer, not an
/// error; a record that is no customer is a decode error.
pub fn get_customer(table: &Table, customer_id: String) -> (result: Result<
    Option<Customer>,
    RepositoryError,
>)
    ensures
        match result {
            Ok(Some(customer)) => get_outcome(table@, customer_id@) == Ok::<
                Option<CustomerView>,
                RepositoryError,
            >(Some(customer@)),
            Ok(None) => get_outcome(table@, customer_id@) == Ok::<
                Option<CustomerView>,
                RepositoryError,
            >(None),
            Err(error) => get_outcome(table@, customer_id@) == Err::<
                Option<CustomerView>,
                RepositoryError,
            >(error),
        },
{
    let request = get_request(customer_id);
    match customer_from_response(table.get(&request.key)) {
        Ok(customer) => Ok(customer),
        Err(error) => Err(RepositoryError::Decode(error)),
    }
}

/// Reads one page of the listing: the records after the cursor, up to the
/// table's page limit, as list projections, and the cursor to continue
/// from when records remain.
pub fn list_customers(table: &Table, start_from: Option<Item>) -> (result: Result<
    CustomerListResult,
    RepositoryError,
>)
    ensures
        match cursor_key(option_item_view(start_from)) {
            Err(error) => result matches Err(e) && e == RepositoryError::Store(error),
            Ok(from) => match listed_customers(
                page_items(table@, table.scan_order(), from, table.page_limit()),
            ) {
                Err(error) => result matches Err(e) && e == RepositoryError::Decode(error),
                Ok(listed) => result matches Ok(page) && list_views(page.customers@) == listed
                    && option_item_view(page.last_key) == cursor_item(
                    next_cursor(table.scan_order(), from, table.page_limit()),
                ),
            },
        },
{
    let request = list_request(start_from);
    let start = match &request.exclusive_start_key {
        Some(cursor) => Some(cursor),
        None => None,
    };
    match table.scan(start) {
        Err(error) => Err(RepositoryError::Store(error)),
        Ok(page) => {
            match list_from_response(&page.items, page.last_key) {
                Ok(listing) => Ok(listing),
                Err(error) => Err(RepositoryError::Decode(error)),
            }
        },
    }
}

} // verus!

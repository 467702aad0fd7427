//! What holds of the repository operations taken together, proved over the
//! views of the table and of the models.

use crate::common::decimal::lemma_parse_format;
use crate::models::customer_model::{CustomerView, CUSTOMER_KIND};
use crate::models::github_model::GithubProfileView;
use crate::repositories::customer_codec::{
    code_attribute, customer_from_item, customer_item, customer_record_key, flag_attribute,
    lemma_customer_round_trip, lemma_names_differ, number_attribute, optional_text,
    text_attribute, AttributeName, DecodeError,
};
use crate::repositories::customer_repository::{
    customer_key_view, get_outcome, lookup_key_view, lookup_outcome, profile_assignments,
    toggle_assignments, RepositoryError,
};
use crate::store::attribute::ItemView;
use crate::store::request::StoreError;
use crate::store::table::{after_update, update_verdict, TableView};
use vstd::prelude::*;

verus! {

/// The customer as a profile refresh at a given time leaves it: name and
/// time replaced, the avatar URL replaced if the profile has one, enabled.
pub open spec fn refreshed(
    customer: CustomerView,
    profile: GithubProfileView,
    now: u64,
) -> CustomerView {
    CustomerView {
        n: profile.name,
        img: match profile.avatar_url {
            Some(url) => Some(url),
            None => customer.img,
        },
        dis: false,
        ua: now,
        ..customer
    }
}

/// The customer as enabling or disabling at a given time leaves it.
pub open spec fn toggled(customer: CustomerView, disabled: bool, now: u64) -> CustomerView {
    CustomerView { dis: disabled, ua: now, ..customer }
}

proof fn lemma_toggled_record(item: ItemView, customer: CustomerView, disabled: bool, now: u64)
    requires
        customer_from_item(item) == Ok::<CustomerView, DecodeError>(customer),
    ensures
        customer_from_item(item.union_prefer_right(toggle_assignments(disabled, now))) == Ok::<
            CustomerView,
            DecodeError,
        >(toggled(customer, disabled, now)),
{
    lemma_names_differ();
    lemma_parse_format(now);
    let after = item.union_prefer_right(toggle_assignments(disabled, now));
    assert(text_attribute(after, "pk"@, AttributeName::Pk) == text_attribute(
        item,
        "pk"@,
        AttributeName::Pk,
    ));
    assert(code_attribute(after, "sk"@, AttributeName::Sk) == code_attribute(
        item,
        "sk"@,
        AttributeName::Sk,
    ));
    assert(text_attribute(after, "n"@, AttributeName::N) == text_attribute(
        item,
        "n"@,
        AttributeName::N,
    ));
    assert(text_attribute(after, "e"@, AttributeName::E) == text_attribute(
        item,
        "e"@,
        AttributeName::E,
    ));
    assert(code_attribute(after, "r"@, AttributeName::R) == code_attribute(
        item,
        "r"@,
        AttributeName::R,
    ));
    assert(flag_attribute(after, "dis"@, AttributeName::Dis) == Ok::<bool, DecodeError>(disabled));
    assert(number_attribute(after, "ua"@, AttributeName::Ua) == Ok::<u64, DecodeError>(now));
    assert(optional_text(after, "img"@) == optional_text(item, "img"@));
}

proof fn lemma_refreshed_record(
    item: ItemView,
    customer: CustomerView,
    profile: GithubProfileView,
    now: u64,
)
    requires
        customer_from_item(item) == Ok::<CustomerView, DecodeError>(customer),
    ensures
        customer_from_item(item.union_prefer_right(profile_assignments(profile, now))) == Ok::<
            CustomerView,
            DecodeError,
        >(refreshed(customer, profile, now)),
{
    lemma_names_differ();
    lemma_parse_format(now);
    let after = item.union_prefer_right(profile_assignments(profile, now));
    assert(text_attribute(after, "pk"@, AttributeName::Pk) == text_attribute(
        item,
        "pk"@,
        AttributeName::Pk,
    ));
    assert(code_attribute(after, "sk"@, AttributeName::Sk) == code_attribute(
        item,
        "sk"@,
        AttributeName::Sk,
    ));
    assert(text_attribute(after, "n"@, AttributeName::N) == Ok::<Seq<char>, DecodeError>(
        profile.name,
    ));
    assert(text_attribute(after, "e"@, AttributeName::E) == text_attribute(
        item,
        "e"@,
        AttributeName::E,
    ));
    assert(code_attribute(after, "r"@, AttributeName::R) == code_attribute(
        item,
        "r"@,
        AttributeName::R,
    ));
    assert(flag_attribute(after, "dis"@, AttributeName::Dis) == Ok::<bool, DecodeError>(false));
    assert(number_attribute(after, "ua"@, AttributeName::Ua) == Ok::<u64, DecodeError>(now));
    assert(optional_text(after, "img"@) == refreshed(customer, profile, now).img);
}

/// Creating a customer and then reading it by its identifier returns the
/// customer as it was given, equal in every field; an absent avatar URL
/// comes back absent. This holds on every table, whatever the key held
/// before.
pub proof fn lemma_create_then_get(table: TableView, customer: CustomerView)
    requires
        customer.sk == CUSTOMER_KIND,
    ensures
        get_outcome(
            table.insert(customer_record_key(customer), customer_item(customer)),
            customer.pk,
        ) == Ok::<Option<CustomerView>, RepositoryError>(Some(customer)),
{
    reveal_strlit("C");
    lemma_customer_round_trip(customer);
    assert(customer_record_key(customer).sk =~= "C"@);
    assert(customer_record_key(customer) == customer_key_view(customer.pk));
}

/// A profile refresh of a record whose disabled flag is set fails the
/// condition check and leaves the table unchanged, whatever the profile
/// and the time.
pub proof fn lemma_update_of_disabled_fails(table: TableView, profile: GithubProfileView, now: u64)
    requires
        table.contains_key(customer_key_view(profile.id)),
        flag_attribute(table[customer_key_view(profile.id)], "dis"@, AttributeName::Dis) == Ok::<
            bool,
            DecodeError,
        >(true),
    ensures
        update_verdict(
            table,
            customer_key_view(profile.id),
            profile_assignments(profile, now),
            Some("dis"@),
        ) == Err::<(), StoreError>(StoreError::ConditionalCheckFailed),
        after_update(
            table,
            customer_key_view(profile.id),
            profile_assignments(profile, now),
            Some("dis"@),
        ) == table,
{
    lemma_names_differ();
}

/// A profile refresh is applied exactly when the record exists and its
/// disabled flag is the boolean false; a record that is missing fails the
/// condition check like a disabled one.
pub proof fn lemma_update_applies_to_enabled(
    table: TableView,
    profile: GithubProfileView,
    now: u64,
)
    ensures
        update_verdict(
            table,
            customer_key_view(profile.id),
            profile_assignments(profile, now),
            Some("dis"@),
        ) == if table.contains_key(customer_key_view(profile.id)) && flag_attribute(
            table[customer_key_view(profile.id)],
            "dis"@,
            AttributeName::Dis,
        ) == Ok::<bool, DecodeError>(false) {
            Ok::<(), StoreError>(())
        } else {
            Err::<(), StoreError>(StoreError::ConditionalCheckFailed)
        },
{
    lemma_names_differ();
}

/// A profile refresh of an enabled customer succeeds and leaves the
/// customer with the profile's name, the profile's avatar URL if it has
/// one and the stored one otherwise, the time of the refresh, and enabled;
/// identifier, kind, email and role stay.
pub proof fn lemma_update_refreshes(
    table: TableView,
    profile: GithubProfileView,
    customer: CustomerView,
    now: u64,
)
    requires
        get_outcome(table, profile.id) == Ok::<Option<CustomerView>, RepositoryError>(
            Some(customer),
        ),
        !customer.dis,
    ensures
        update_verdict(
            table,
            customer_key_view(profile.id),
            profile_assignments(profile, now),
            Some("dis"@),
        ) is Ok,
        get_outcome(
            after_update(
                table,
                customer_key_view(profile.id),
                profile_assignments(profile, now),
                Some("dis"@),
            ),
            profile.id,
        ) == Ok::<Option<CustomerView>, RepositoryError>(Some(refreshed(customer, profile, now))),
{
    lemma_names_differ();
    let key = customer_key_view(profile.id);
    lemma_refreshed_record(table[key], customer, profile, now);
}

/// Enabling or disabling a customer that exists succeeds, whatever its
/// flag was, and leaves the customer with the new flag and the time of the
/// change; every other field stays.
pub proof fn lemma_toggle_sets_flag(
    table: TableView,
    id: Seq<char>,
    customer: CustomerView,
    disabled: bool,
    now: u64,
)
    requires
        get_outcome(table, id) == Ok::<Option<CustomerView>, RepositoryError>(Some(customer)),
    ensures
        update_verdict(table, customer_key_view(id), toggle_assignments(disabled, now), None) is Ok,
        get_outcome(
            after_update(table, customer_key_view(id), toggle_assignments(disabled, now), None),
            id,
        ) == Ok::<Option<CustomerView>, RepositoryError>(Some(toggled(customer, disabled, now))),
{
    lemma_names_differ();
    let key = customer_key_view(id);
    lemma_toggled_record(table[key], customer, disabled, now);
}

/// Disabling a customer and then enabling it leaves it enabled and stamped
/// with the time of the enabling; when that time lies after the stamp the
/// customer had, the stamp has strictly increased. Every other field is
/// as before.
pub proof fn lemma_disable_then_enable(
    table: TableView,
    id: Seq<char>,
    customer: CustomerView,
    disabled_at: u64,
    enabled_at: u64,
)
    requires
        get_outcome(table, id) == Ok::<Option<CustomerView>, RepositoryError>(Some(customer)),
        customer.ua < enabled_at,
    ensures
        ({
            let key = customer_key_view(id);
            let disabled = after_update(table, key, toggle_assignments(true, disabled_at), None);
            let enabled = after_update(disabled, key, toggle_assignments(false, enabled_at), None);
            &&& update_verdict(table, key, toggle_assignments(true, disabled_at), None) is Ok
            &&& update_verdict(disabled, key, toggle_assignments(false, enabled_at), None) is Ok
            &&& get_outcome(enabled, id) matches Ok(Some(after))
            &&& after == toggled(customer, false, enabled_at)
            &&& !after.dis
            &&& after.ua > customer.ua
        }),
{
    let key = customer_key_view(id);
    lemma_toggle_sets_flag(table, id, customer, true, disabled_at);
    let disabled = after_update(table, key, toggle_assignments(true, disabled_at), None);
    lemma_toggle_sets_flag(disabled, id, toggled(customer, true, disabled_at), false, enabled_at);
}

/// Looking up an email address that has no lookup record finds nothing and
/// is no error.
pub proof fn lemma_lookup_of_unknown_email(table: TableView, email: Seq<char>)
    requires
        !table.contains_key(lookup_key_view(email)),
    ensures
        lookup_outcome(table, email) == Ok::<Option<Seq<char>>, RepositoryError>(None),
{
}

} // verus!

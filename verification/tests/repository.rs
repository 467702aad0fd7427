use data::models::customer_model::{
    Customer, CustomerListItem, CustomerRole, PROJECTION_FIELDS_FOR_CUSTOMER,
};
use data::models::github_model::GithubProfile;
use data::repositories::customer_codec::{
    decode_customer, decode_customer_id, decode_list_item, encode_customer, AttributeName,
    DecodeError,
};
use data::repositories::customer_repository::{
    create_customer, create_request, customer_from_response, customer_id_from_response,
    customer_key, disable_customer, enable_customer, get_customer, get_request,
    list_customers, list_from_response, list_request, lookup_customer_id, lookup_key,
    lookup_request, profile_update, toggle_customer, toggle_update, update_customer,
    update_customer_at, RepositoryError,
};
use data::store::attribute::{AttributeValue, Item};
use data::store::request::{Key, StoreError, TableName};
use data::store::table::Table;

const CHECK_FAILED: RepositoryError = RepositoryError::Store(StoreError::ConditionalCheckFailed);

fn text(value: &str) -> AttributeValue {
    AttributeValue::S(value.to_string())
}

fn number(value: &str) -> AttributeValue {
    AttributeValue::N(value.to_string())
}

fn ada() -> Customer {
    Customer {
        pk: "u1".to_string(),
        sk: 'C',
        n: "Ada".to_string(),
        e: "ada@x.com".to_string(),
        r: CustomerRole::CUSTOMER,
        img: None,
        dis: false,
        ua: 1_700_000_000_000,
    }
}

fn customer(id: &str, stamp: u64) -> Customer {
    Customer { pk: id.to_string(), n: format!("name of {}", id), ua: stamp, ..ada() }
}

fn profile(id: &str, name: &str, avatar: Option<&str>) -> GithubProfile {
    GithubProfile::new(
        id.to_string(),
        "ada@x.com".to_string(),
        name.to_string(),
        avatar.map(|url| url.to_string()),
    )
}

fn stored(table: &Table, id: &str) -> Customer {
    get_customer(table, id.to_string()).expect("readable").expect("present")
}

fn without(item: &Item, name: &str) -> Item {
    let mut copy = Item::new();
    for attribute in item.attributes() {
        if attribute.name != name {
            copy.insert(attribute.name.clone(), attribute.value.clone());
        }
    }
    copy
}

fn with(item: &Item, name: &str, value: AttributeValue) -> Item {
    let mut copy = item.clone();
    copy.insert(name.to_string(), value);
    copy
}

#[test]
fn customer_is_encoded_attribute_by_attribute() {
    let mut admin = ada();
    admin.r = CustomerRole::ADMIN;
    admin.img = Some("https://x.com/ada.png".to_string());
    admin.dis = true;
    let item = encode_customer(admin);
    assert_eq!(item.attributes().len(), 8);
    assert_eq!(item.get("pk"), Some(&text("u1")));
    assert_eq!(item.get("sk"), Some(&text("C")));
    assert_eq!(item.get("n"), Some(&text("Ada")));
    assert_eq!(item.get("e"), Some(&text("ada@x.com")));
    assert_eq!(item.get("r"), Some(&text("A")));
    assert_eq!(item.get("img"), Some(&text("https://x.com/ada.png")));
    assert_eq!(item.get("dis"), Some(&AttributeValue::Bool(true)));
    assert_eq!(item.get("ua"), Some(&number("1700000000000")));
}

#[test]
fn absent_avatar_is_encoded_as_no_attribute() {
    let item = encode_customer(ada());
    assert_eq!(item.attributes().len(), 7);
    assert_eq!(item.get("img"), None);
    assert_eq!(item.get("r"), Some(&text("C")));
    assert_eq!(item.get("dis"), Some(&AttributeValue::Bool(false)));
}

#[test]
fn decoding_undoes_encoding() {
    let mut pictured = ada();
    pictured.img = Some("https://x.com/ada.png".to_string());
    let mut admin = ada();
    admin.r = CustomerRole::ADMIN;
    admin.dis = true;
    admin.ua = u64::MAX;
    let mut odd = ada();
    odd.sk = 'Ω';
    odd.pk = String::new();
    odd.ua = 0;
    odd.img = Some(String::new());
    for customer in [ada(), pictured, admin, odd] {
        let item = encode_customer(customer.clone());
        assert_eq!(decode_customer(&item), Ok(customer));
    }
}

#[test]
fn decoding_requires_every_attribute_but_the_avatar() {
    let item = encode_customer(ada());
    let cases = [
        ("pk", AttributeName::Pk),
        ("sk", AttributeName::Sk),
        ("n", AttributeName::N),
        ("e", AttributeName::E),
        ("r", AttributeName::R),
        ("dis", AttributeName::Dis),
        ("ua", AttributeName::Ua),
    ];
    for (name, which) in cases {
        assert_eq!(decode_customer(&without(&item, name)), Err(DecodeError::Missing(which)));
    }
    assert_eq!(decode_customer(&Item::new()), Err(DecodeError::Missing(AttributeName::Pk)));
}

#[test]
fn decoding_requires_every_attribute_to_be_of_its_kind() {
    let item = encode_customer(ada());
    let cases = [
        ("pk", AttributeValue::Bool(true), AttributeName::Pk),
        ("sk", number("1"), AttributeName::Sk),
        ("n", AttributeValue::Other, AttributeName::N),
        ("e", number("5"), AttributeName::E),
        ("r", AttributeValue::Bool(false), AttributeName::R),
        ("dis", text("false"), AttributeName::Dis),
        ("ua", text("1700000000000"), AttributeName::Ua),
    ];
    for (name, value, which) in cases {
        assert_eq!(decode_customer(&with(&item, name, value)), Err(DecodeError::Mistyped(which)));
    }
}

#[test]
fn decoding_rejects_empty_codes_and_bad_numbers() {
    let item = encode_customer(ada());
    assert_eq!(
        decode_customer(&with(&item, "sk", text(""))),
        Err(DecodeError::Malformed(AttributeName::Sk))
    );
    assert_eq!(
        decode_customer(&with(&item, "r", text(""))),
        Err(DecodeError::Malformed(AttributeName::R))
    );
    for bad in ["", "abc", "-1", "1.5", "18446744073709551616"] {
        assert_eq!(
            decode_customer(&with(&item, "ua", number(bad))),
            Err(DecodeError::Malformed(AttributeName::Ua))
        );
    }
}

#[test]
fn decoding_reports_the_first_fault() {
    let item = encode_customer(ada());
    let broken = with(&without(&item, "n"), "ua", number("x"));
    assert_eq!(decode_customer(&broken), Err(DecodeError::Missing(AttributeName::N)));
    let broken = with(&with(&item, "dis", text("no")), "sk", text(""));
    assert_eq!(decode_customer(&broken), Err(DecodeError::Malformed(AttributeName::Sk)));
}

#[test]
fn decoding_reads_the_first_character_of_codes() {
    let item = encode_customer(ada());
    let decoded = decode_customer(&with(&item, "r", text("Admin"))).unwrap();
    assert_eq!(decoded.r, CustomerRole::ADMIN);
    let decoded = decode_customer(&with(&item, "r", text("X"))).unwrap();
    assert_eq!(decoded.r, CustomerRole::CUSTOMER);
    let decoded = decode_customer(&with(&item, "sk", text("Customer"))).unwrap();
    assert_eq!(decoded.sk, 'C');
}

#[test]
fn decoding_takes_an_avatar_of_another_kind_as_absent() {
    let item = encode_customer(ada());
    let decoded = decode_customer(&with(&item, "img", AttributeValue::Bool(true))).unwrap();
    assert_eq!(decoded.img, None);
    let decoded = decode_customer(&with(&item, "img", text(""))).unwrap();
    assert_eq!(decoded.img, Some(String::new()));
}

#[test]
fn list_item_is_decoded_from_its_five_attributes() {
    let mut disabled = ada();
    disabled.dis = true;
    let item = encode_customer(disabled);
    let expected = CustomerListItem {
        pk: "u1".to_string(),
        sk: 'C',
        n: "Ada".to_string(),
        dis: true,
        ua: 1_700_000_000_000,
    };
    assert_eq!(decode_list_item(&item), Ok(expected.clone()));
    let projected = without(&without(&without(&item, "e"), "r"), "img");
    assert_eq!(decode_list_item(&projected), Ok(expected));
    assert_eq!(
        decode_list_item(&without(&item, "dis")),
        Err(DecodeError::Missing(AttributeName::Dis))
    );
    assert_eq!(
        decode_list_item(&with(&item, "n", number("1"))),
        Err(DecodeError::Mistyped(AttributeName::N))
    );
    assert_eq!(
        decode_list_item(&with(&item, "ua", number("+"))),
        Err(DecodeError::Malformed(AttributeName::Ua))
    );
}

#[test]
fn list_item_needs_the_projection_fields_only() {
    assert_eq!(PROJECTION_FIELDS_FOR_CUSTOMER, ["pk", "sk", "n", "dis", "ua"]);
    let item = encode_customer(customer("u7", 77));
    let mut projected = Item::new();
    for name in PROJECTION_FIELDS_FOR_CUSTOMER {
        let value = item.get(name).expect("a stored attribute");
        projected.insert(name.to_string(), value.clone());
    }
    let listed = decode_list_item(&projected).unwrap();
    assert_eq!(listed.pk, "u7");
    assert_eq!(listed.ua, 77);
    for name in PROJECTION_FIELDS_FOR_CUSTOMER {
        assert!(decode_list_item(&without(&projected, name)).is_err());
    }
}

#[test]
fn customer_id_is_decoded_from_the_id_attribute() {
    let mut item = Item::new();
    assert_eq!(decode_customer_id(&item), Err(DecodeError::Missing(AttributeName::Id)));
    item.insert("id".to_string(), number("1"));
    assert_eq!(decode_customer_id(&item), Err(DecodeError::Mistyped(AttributeName::Id)));
    item.insert("id".to_string(), text("u1"));
    assert_eq!(decode_customer_id(&item), Ok("u1".to_string()));
}

#[test]
fn keys_follow_the_table_layout() {
    assert_eq!(
        customer_key("u1".to_string()),
        Key { pk: "u1".to_string(), sk: "C".to_string() }
    );
    assert_eq!(
        lookup_key(&"ada@x.com".to_string()),
        Key { pk: "L#ada@x.com".to_string(), sk: "E".to_string() }
    );
    assert_eq!(lookup_key(&String::new()), Key { pk: "L#".to_string(), sk: "E".to_string() });
}

#[test]
fn create_request_puts_the_record_into_the_customer_table() {
    let request = create_request(ada());
    assert_eq!(request.table, TableName::Customer);
    assert_eq!(decode_customer(&request.item), Ok(ada()));
    assert_eq!(Key::of_item(&request.item), Some(customer_key("u1".to_string())));
}

#[test]
fn profile_update_with_avatar_sets_four_attributes() {
    let request = profile_update(profile("u1", "Ada L.", Some("https://x.com/a.png")), 42);
    assert_eq!(request.table, TableName::Customer);
    assert_eq!(request.key, customer_key("u1".to_string()));
    assert_eq!(request.unchanged, Some("dis".to_string()));
    assert_eq!(request.update_expression(), "SET #n = :n, #img = :img, #ua = :ua, #dis = :dis");
    assert_eq!(
        request.condition_expression(),
        "attribute_exists(pk) AND attribute_exists(sk) AND #dis = :dis"
    );
    assert_eq!(
        request.expression_attribute_names(),
        vec![
            ("#n".to_string(), "n".to_string()),
            ("#img".to_string(), "img".to_string()),
            ("#ua".to_string(), "ua".to_string()),
            ("#dis".to_string(), "dis".to_string()),
        ]
    );
    let values = request.expression_attribute_values();
    let pairs: Vec<(String, AttributeValue)> =
        values.iter().map(|pair| (pair.name.clone(), pair.value.clone())).collect();
    assert_eq!(
        pairs,
        vec![
            (":n".to_string(), text("Ada L.")),
            (":img".to_string(), text("https://x.com/a.png")),
            (":ua".to_string(), number("42")),
            (":dis".to_string(), AttributeValue::Bool(false)),
        ]
    );
}

#[test]
fn profile_update_without_avatar_leaves_the_avatar_out() {
    let request = profile_update(profile("u1", "Ada L.", None), 42);
    assert_eq!(request.update_expression(), "SET #n = :n, #ua = :ua, #dis = :dis");
    assert_eq!(request.assignments.get("img"), None);
    assert_eq!(request.assignments.attributes().len(), 3);
    assert_eq!(request.expression_attribute_values().len(), 3);
}

#[test]
fn toggle_update_sets_the_flag_and_the_time() {
    let request = toggle_update("u1".to_string(), true, 7);
    assert_eq!(request.table, TableName::Customer);
    assert_eq!(request.key, customer_key("u1".to_string()));
    assert_eq!(request.unchanged, None);
    assert_eq!(request.update_expression(), "SET #dis = :dis, #ua = :ua");
    assert_eq!(request.condition_expression(), "attribute_exists(pk) AND attribute_exists(sk)");
    assert_eq!(request.assignments.get("dis"), Some(&AttributeValue::Bool(true)));
    assert_eq!(request.assignments.get("ua"), Some(&number("7")));
    let request = toggle_update("u1".to_string(), false, u64::MAX);
    assert_eq!(request.assignments.get("dis"), Some(&AttributeValue::Bool(false)));
    assert_eq!(request.assignments.get("ua"), Some(&number("18446744073709551615")));
}

#[test]
fn read_requests_name_table_key_and_projection() {
    let request = get_request("u1".to_string());
    assert_eq!(request.table, TableName::Customer);
    assert_eq!(request.key, customer_key("u1".to_string()));
    assert_eq!(request.projection, None);
    let request = lookup_request("ada@x.com".to_string());
    assert_eq!(request.table, TableName::Common);
    assert_eq!(request.key, lookup_key(&"ada@x.com".to_string()));
    assert_eq!(request.projection, Some("id".to_string()));
    let request = list_request(None);
    assert_eq!(request.table, TableName::Customer);
    assert!(request.exclusive_start_key.is_none());
    let cursor = customer_key("u1".to_string()).to_item();
    let request = list_request(Some(cursor));
    let carried = request.exclusive_start_key.expect("the cursor");
    assert_eq!(Key::of_item(&carried), Some(customer_key("u1".to_string())));
}

#[test]
fn responses_without_record_are_not_found() {
    assert_eq!(customer_from_response(None), Ok(None));
    assert_eq!(customer_id_from_response(None), Ok(None));
}

#[test]
fn responses_with_a_record_are_decoded() {
    let item = encode_customer(ada());
    assert_eq!(customer_from_response(Some(&item)), Ok(Some(ada())));
    assert_eq!(
        customer_from_response(Some(&without(&item, "e"))),
        Err(DecodeError::Missing(AttributeName::E))
    );
    let mut lookup = Item::new();
    lookup.insert("id".to_string(), text("u1"));
    assert_eq!(customer_id_from_response(Some(&lookup)), Ok(Some("u1".to_string())));
    assert_eq!(
        customer_id_from_response(Some(&Item::new())),
        Err(DecodeError::Missing(AttributeName::Id))
    );
}

#[test]
fn scan_response_is_decoded_in_order() {
    let items = vec![encode_customer(customer("u1", 1)), encode_customer(customer("u2", 2))];
    let cursor = customer_key("u2".to_string()).to_item();
    let page = list_from_response(&items, Some(cursor)).unwrap();
    assert_eq!(page.customers.len(), 2);
    assert_eq!(page.customers[0].pk, "u1");
    assert_eq!(page.customers[0].ua, 1);
    assert_eq!(page.customers[1].pk, "u2");
    assert_eq!(page.customers[1].n, "name of u2");
    assert_eq!(
        Key::of_item(&page.last_key.expect("the cursor")),
        Some(customer_key("u2".to_string()))
    );
    let page = list_from_response(&Vec::new(), None).unwrap();
    assert!(page.customers.is_empty());
    assert!(page.last_key.is_none());
}

#[test]
fn scan_response_fails_at_the_first_bad_record() {
    let good = encode_customer(customer("u1", 1));
    let items = vec![good.clone(), without(&good, "n"), without(&good, "pk")];
    let result = list_from_response(&items, None);
    assert_eq!(result.err(), Some(DecodeError::Missing(AttributeName::N)));
}

#[test]
fn create_then_get_returns_the_customer() {
    let mut table = Table::new();
    let mut pictured = customer("u2", 5);
    pictured.img = Some("https://x.com/u2.png".to_string());
    pictured.r = CustomerRole::ADMIN;
    pictured.dis = true;
    assert_eq!(create_customer(&mut table, ada()), Ok(()));
    assert_eq!(create_customer(&mut table, pictured.clone()), Ok(()));
    assert_eq!(get_customer(&table, "u1".to_string()), Ok(Some(ada())));
    assert_eq!(get_customer(&table, "u2".to_string()), Ok(Some(pictured)));
    assert_eq!(stored(&table, "u1").img, None);
}

#[test]
fn get_of_an_unknown_id_is_not_found() {
    let mut table = Table::new();
    assert_eq!(get_customer(&table, "u1".to_string()), Ok(None));
    create_customer(&mut table, ada()).unwrap();
    assert_eq!(get_customer(&table, "u2".to_string()), Ok(None));
    assert_eq!(get_customer(&table, String::new()), Ok(None));
}

#[test]
fn get_of_a_record_that_is_no_customer_is_a_decode_error() {
    let mut table = Table::new();
    table.put(customer_key("u1".to_string()).to_item()).unwrap();
    assert_eq!(
        get_customer(&table, "u1".to_string()),
        Err(RepositoryError::Decode(DecodeError::Missing(AttributeName::N)))
    );
}

#[test]
fn create_overwrites_the_record_under_the_key() {
    let mut table = Table::new();
    let mut first = ada();
    first.img = Some("https://x.com/ada.png".to_string());
    first.dis = true;
    create_customer(&mut table, first).unwrap();
    create_customer(&mut table, ada()).unwrap();
    assert_eq!(table.len(), 1);
    assert_eq!(stored(&table, "u1"), ada());
}

#[test]
fn update_refreshes_an_enabled_customer() {
    let mut table = Table::new();
    let mut before = ada();
    before.img = Some("https://x.com/old.png".to_string());
    before.r = CustomerRole::ADMIN;
    create_customer(&mut table, before.clone()).unwrap();
    let refresh = profile("u1", "Ada L.", Some("https://x.com/new.png"));
    assert_eq!(update_customer_at(&mut table, refresh, 1_800_000_000_000), Ok(()));
    let expected = Customer {
        n: "Ada L.".to_string(),
        img: Some("https://x.com/new.png".to_string()),
        ua: 1_800_000_000_000,
        ..before
    };
    assert_eq!(stored(&table, "u1"), expected);
}

#[test]
fn update_without_avatar_keeps_the_stored_avatar() {
    let mut table = Table::new();
    let mut before = ada();
    before.img = Some("https://x.com/old.png".to_string());
    create_customer(&mut table, before).unwrap();
    assert_eq!(update_customer_at(&mut table, profile("u1", "Ada L.", None), 9), Ok(()));
    let after = stored(&table, "u1");
    assert_eq!(after.img, Some("https://x.com/old.png".to_string()));
    assert_eq!(after.n, "Ada L.");
    assert_eq!(after.e, "ada@x.com");
    assert_eq!(after.ua, 9);
    assert!(!after.dis);
}

#[test]
fn update_of_a_disabled_customer_fails_the_check() {
    let mut table = Table::new();
    let mut disabled = ada();
    disabled.dis = true;
    create_customer(&mut table, disabled.clone()).unwrap();
    let refresh = profile("u1", "Ada L.", Some("https://x.com/new.png"));
    assert_eq!(update_customer_at(&mut table, refresh.clone(), 9), Err(CHECK_FAILED));
    assert_eq!(stored(&table, "u1"), disabled);
    assert_eq!(update_customer(&mut table, refresh), Err(CHECK_FAILED));
    assert_eq!(stored(&table, "u1"), disabled);
}

#[test]
fn update_of_a_missing_customer_fails_the_check() {
    let mut table = Table::new();
    create_customer(&mut table, ada()).unwrap();
    assert_eq!(update_customer_at(&mut table, profile("u2", "Bob", None), 9), Err(CHECK_FAILED));
    assert_eq!(update_customer(&mut table, profile("u2", "Bob", None)), Err(CHECK_FAILED));
    assert_eq!(table.len(), 1);
    assert_eq!(get_customer(&table, "u2".to_string()), Ok(None));
    assert_eq!(stored(&table, "u1"), ada());
}

#[test]
fn update_stamps_the_current_time() {
    let mut table = Table::new();
    let mut old = ada();
    old.ua = 0;
    create_customer(&mut table, old).unwrap();
    assert_eq!(update_customer(&mut table, profile("u1", "Ada L.", None)), Ok(()));
    let after = stored(&table, "u1");
    assert_eq!(after.n, "Ada L.");
    assert!(after.ua > 0);
}

#[test]
fn toggle_sets_the_flag_whatever_it_was() {
    let mut table = Table::new();
    create_customer(&mut table, ada()).unwrap();
    assert_eq!(toggle_customer(&mut table, "u1".to_string(), true, 10), Ok(()));
    assert_eq!(stored(&table, "u1"), Customer { dis: true, ua: 10, ..ada() });
    assert_eq!(toggle_customer(&mut table, "u1".to_string(), true, 11), Ok(()));
    assert_eq!(stored(&table, "u1"), Customer { dis: true, ua: 11, ..ada() });
    assert_eq!(toggle_customer(&mut table, "u1".to_string(), false, 12), Ok(()));
    assert_eq!(stored(&table, "u1"), Customer { dis: false, ua: 12, ..ada() });
    assert_eq!(toggle_customer(&mut table, "u1".to_string(), false, 13), Ok(()));
    assert_eq!(stored(&table, "u1"), Customer { dis: false, ua: 13, ..ada() });
}

#[test]
fn toggle_of_a_missing_customer_fails_the_check() {
    let mut table = Table::new();
    assert_eq!(toggle_customer(&mut table, "u1".to_string(), true, 10), Err(CHECK_FAILED));
    assert_eq!(disable_customer(&mut table, "u1".to_string()), Err(CHECK_FAILED));
    assert_eq!(enable_customer(&mut table, "u1".to_string()), Err(CHECK_FAILED));
    assert_eq!(table.len(), 0);
}

#[test]
fn disable_then_enable_restores_the_flag_and_advances_the_stamp() {
    let mut table = Table::new();
    let mut old = ada();
    old.ua = 1_000;
    create_customer(&mut table, old.clone()).unwrap();
    assert_eq!(toggle_customer(&mut table, "u1".to_string(), true, 2_000), Ok(()));
    assert!(stored(&table, "u1").dis);
    assert_eq!(toggle_customer(&mut table, "u1".to_string(), false, 3_000), Ok(()));
    let after = stored(&table, "u1");
    assert!(!after.dis);
    assert!(after.ua > old.ua);
    assert_eq!(after, Customer { ua: 3_000, ..old });
}

#[test]
fn disable_and_enable_stamp_the_current_time() {
    let mut table = Table::new();
    let mut old = ada();
    old.ua = 0;
    create_customer(&mut table, old).unwrap();
    assert_eq!(disable_customer(&mut table, "u1".to_string()), Ok(()));
    let disabled = stored(&table, "u1");
    assert!(disabled.dis);
    assert!(disabled.ua > 0);
    assert_eq!(enable_customer(&mut table, "u1".to_string()), Ok(()));
    let enabled = stored(&table, "u1");
    assert!(!enabled.dis);
    assert!(enabled.ua > 0);
    assert_eq!(enabled.n, "Ada");
}

#[test]
fn lookup_of_an_unknown_email_is_not_found() {
    let mut common = Table::new();
    assert_eq!(lookup_customer_id(&common, "ada@x.com".to_string()), Ok(None));
    let mut other = lookup_key(&"bob@x.com".to_string()).to_item();
    other.insert("id".to_string(), text("u2"));
    common.put(other).unwrap();
    assert_eq!(lookup_customer_id(&common, "ada@x.com".to_string()), Ok(None));
}

#[test]
fn lookup_finds_the_id_in_the_lookup_record() {
    let mut common = Table::new();
    let mut lookup = lookup_key(&"ada@x.com".to_string()).to_item();
    lookup.insert("id".to_string(), text("u1"));
    lookup.insert("extra".to_string(), AttributeValue::Other);
    common.put(lookup).unwrap();
    assert_eq!(
        lookup_customer_id(&common, "ada@x.com".to_string()),
        Ok(Some("u1".to_string()))
    );
}

#[test]
fn lookup_of_a_record_without_id_is_a_decode_error() {
    let mut common = Table::new();
    common.put(lookup_key(&"ada@x.com".to_string()).to_item()).unwrap();
    assert_eq!(
        lookup_customer_id(&common, "ada@x.com".to_string()),
        Err(RepositoryError::Decode(DecodeError::Missing(AttributeName::Id)))
    );
    let mut numeric = lookup_key(&"bob@x.com".to_string()).to_item();
    numeric.insert("id".to_string(), number("7"));
    common.put(numeric).unwrap();
    assert_eq!(
        lookup_customer_id(&common, "bob@x.com".to_string()),
        Err(RepositoryError::Decode(DecodeError::Mistyped(AttributeName::Id)))
    );
}

#[test]
fn scenario_create_disable_update() {
    let mut table = Table::new();
    let customer =
        Customer::new("u1".to_string(), "Ada".to_string(), "ada@x.com".to_string(), None);
    assert_eq!(create_customer(&mut table, customer.clone()), Ok(()));
    let found = stored(&table, "u1");
    assert!(!found.dis);
    assert_eq!(found.r, CustomerRole::CUSTOMER);
    assert_eq!(found, customer);

    assert_eq!(disable_customer(&mut table, "u1".to_string()), Ok(()));
    assert!(stored(&table, "u1").dis);

    let refresh = GithubProfile::new(
        "u1".to_string(),
        "ada@x.com".to_string(),
        "Ada L.".to_string(),
        None,
    );
    assert_eq!(update_customer(&mut table, refresh), Err(CHECK_FAILED));
    let kept = stored(&table, "u1");
    assert_eq!(kept.n, "Ada");
    assert!(kept.dis);
}

#[test]
fn scenario_list_of_an_empty_table() {
    for page_size in [0usize, 1, 2, 3, 10] {
        let table = Table::with_page_size(page_size);
        let page = list_customers(&table, None).unwrap();
        assert!(page.customers.is_empty());
        assert!(page.last_key.is_none());
    }
    let page = list_customers(&Table::new(), None).unwrap();
    assert!(page.customers.is_empty());
    assert!(page.last_key.is_none());
}

#[test]
fn scenario_list_enumerates_three_records_whatever_the_page_size() {
    for page_size in [1usize, 2, 3, 4, usize::MAX] {
        let mut table = Table::with_page_size(page_size);
        for (id, stamp) in [("u1", 1), ("u2", 2), ("u3", 3)] {
            create_customer(&mut table, customer(id, stamp)).unwrap();
        }
        let mut seen: Vec<CustomerListItem> = Vec::new();
        let mut cursor: Option<Item> = None;
        let mut pages = 0;
        loop {
            let page = list_customers(&table, cursor).unwrap();
            assert!(page.customers.len() <= page_size);
            pages += 1;
            assert!(pages <= 3);
            seen.extend(page.customers);
            cursor = page.last_key;
            if cursor.is_none() {
                break;
            }
        }
        let expected_pages = if page_size >= 3 { 1 } else if page_size == 2 { 2 } else { 3 };
        assert_eq!(pages, expected_pages);
        let mut ids: Vec<String> = seen.iter().map(|item| item.pk.clone()).collect();
        ids.sort();
        assert_eq!(ids, vec!["u1".to_string(), "u2".to_string(), "u3".to_string()]);
        for item in &seen {
            assert_eq!(item.sk, 'C');
            assert_eq!(item.n, format!("name of {}", item.pk));
            assert!(!item.dis);
        }
    }
}

#[test]
fn list_rejects_a_cursor_without_key() {
    let mut table = Table::new();
    create_customer(&mut table, ada()).unwrap();
    let result = list_customers(&table, Some(Item::new()));
    assert_eq!(result.err(), Some(RepositoryError::Store(StoreError::InvalidKey)));
}

#[test]
fn list_fails_on_a_record_that_is_no_customer() {
    let mut table = Table::new();
    create_customer(&mut table, ada()).unwrap();
    table.put(customer_key("u2".to_string()).to_item()).unwrap();
    let result = list_customers(&table, None);
    assert_eq!(
        result.err(),
        Some(RepositoryError::Decode(DecodeError::Missing(AttributeName::N)))
    );
}

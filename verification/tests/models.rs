use data::common::helpers::now;
use data::models::customer_model::{
    convert_to_role, extract_role, is_admin, Customer, CustomerListItem, CustomerListResult,
    CustomerRole, CUSTOMER_KIND,
};
use data::models::github_model::GithubProfile;
use data::models::validation::{collect_failures, validate_fields, InvalidField};
use data::store::attribute::{AttributeValue, Item};

fn ada() -> Customer {
    Customer::new("u1".to_string(), "Ada".to_string(), "ada@x.com".to_string(), None)
}

#[test]
fn roles_are_stored_as_one_character() {
    assert_eq!(extract_role(CustomerRole::ADMIN), 'A');
    assert_eq!(extract_role(CustomerRole::CUSTOMER), 'C');
}

#[test]
fn role_codes_decode_to_their_role() {
    assert_eq!(convert_to_role('A'), CustomerRole::ADMIN);
    assert_eq!(convert_to_role('C'), CustomerRole::CUSTOMER);
}

#[test]
fn role_round_trip_holds_for_both_roles() {
    for role in [CustomerRole::ADMIN, CustomerRole::CUSTOMER] {
        assert_eq!(convert_to_role(extract_role(role)), role);
    }
}

#[test]
fn unrecognised_role_codes_decode_to_customer() {
    for code in ['X', 'a', 'c', ' ', '\0', 'Ä', '1'] {
        assert_eq!(convert_to_role(code), CustomerRole::CUSTOMER);
    }
}

#[test]
fn only_the_admin_role_is_admin() {
    assert!(is_admin(CustomerRole::ADMIN));
    assert!(!is_admin(CustomerRole::CUSTOMER));
}

#[test]
fn new_customer_has_the_defaults() {
    let before = now();
    let customer = Customer::new(
        "u1".to_string(),
        "Ada".to_string(),
        "ada@x.com".to_string(),
        Some("https://x.com/ada.png".to_string()),
    );
    let after = now();
    assert_eq!(customer.pk, "u1");
    assert_eq!(customer.sk, 'C');
    assert_eq!(customer.sk, CUSTOMER_KIND);
    assert_eq!(customer.n, "Ada");
    assert_eq!(customer.e, "ada@x.com");
    assert_eq!(customer.r, CustomerRole::CUSTOMER);
    assert_eq!(customer.img, Some("https://x.com/ada.png".to_string()));
    assert!(!customer.dis);
    if before <= after {
        assert!(before <= customer.ua && customer.ua <= after);
    }
}

#[test]
fn new_customer_at_a_given_time_is_fully_determined() {
    let customer = Customer::new_at(
        "u1".to_string(),
        "Ada".to_string(),
        "ada@x.com".to_string(),
        Some("https://x.com/ada.png".to_string()),
        1_700_000_000_000,
    );
    let expected = Customer {
        pk: "u1".to_string(),
        sk: 'C',
        n: "Ada".to_string(),
        e: "ada@x.com".to_string(),
        r: CustomerRole::CUSTOMER,
        img: Some("https://x.com/ada.png".to_string()),
        dis: false,
        ua: 1_700_000_000_000,
    };
    assert_eq!(customer, expected);
    let plain = Customer::new_at(String::new(), String::new(), String::new(), None, 0);
    assert_eq!(plain.img, None);
    assert_eq!(plain.ua, 0);
    assert_eq!(plain.sk, 'C');
}

#[test]
fn new_customer_without_an_image_has_none() {
    assert_eq!(ada().img, None);
}

#[test]
fn customer_is_admin_follows_the_role() {
    let mut customer = ada();
    assert!(!customer.is_admin());
    customer.r = CustomerRole::ADMIN;
    assert!(customer.is_admin());
}

#[test]
fn customer_since_is_clamped_for_a_future_stamp() {
    let mut customer = ada();
    customer.ua = u64::MAX;
    assert_eq!(customer.since(), 0);
    customer.ua = 0;
    assert!(customer.since() > 0);
}

#[test]
fn list_item_since_is_clamped_for_a_future_stamp() {
    let mut item = CustomerListItem {
        pk: "u1".to_string(),
        sk: 'C',
        n: "Ada".to_string(),
        dis: false,
        ua: u64::MAX,
    };
    assert_eq!(item.since(), 0);
    item.ua = 0;
    assert!(item.since() > 0);
}

#[test]
fn customer_clone_equals_the_customer() {
    let mut customer = ada();
    customer.img = Some("https://x.com/a.png".to_string());
    assert_eq!(customer.clone(), customer);
}

#[test]
fn list_result_holds_what_it_was_given() {
    let item = CustomerListItem {
        pk: "u1".to_string(),
        sk: 'C',
        n: "Ada".to_string(),
        dis: true,
        ua: 5,
    };
    let mut cursor = Item::new();
    cursor.insert("pk".to_string(), AttributeValue::S("u1".to_string()));
    let page = CustomerListResult::new(vec![item.clone()], Some(cursor));
    assert_eq!(page.customers, vec![item]);
    let last_key = page.last_key.expect("a cursor");
    assert_eq!(last_key.get("pk"), Some(&AttributeValue::S("u1".to_string())));
    let empty = CustomerListResult::new(Vec::new(), None);
    assert!(empty.customers.is_empty());
    assert!(empty.last_key.is_none());
}

#[test]
fn github_profile_holds_what_it_was_given() {
    let profile = GithubProfile::new(
        "123".to_string(),
        "ada@x.com".to_string(),
        "Ada".to_string(),
        Some("https://avatars.githubusercontent.com/u/123?v=4".to_string()),
    );
    assert_eq!(profile.id, "123");
    assert_eq!(profile.email, "ada@x.com");
    assert_eq!(profile.name, "Ada");
    assert_eq!(
        profile.avatar_url,
        Some("https://avatars.githubusercontent.com/u/123?v=4".to_string())
    );
    assert_eq!(profile.clone(), profile);
}

#[test]
fn valid_customer_passes_validation() {
    assert_eq!(ada().validate(), Ok(()));
    let mut pictured = ada();
    pictured.img = Some("https://x.com/ada.png".to_string());
    assert_eq!(pictured.validate(), Ok(()));
}

#[test]
fn customer_id_must_have_one_to_forty_characters() {
    let mut customer = ada();
    customer.pk = String::new();
    assert_eq!(customer.validate(), Err(vec![InvalidField::Id]));
    customer.pk = "x".to_string();
    assert_eq!(customer.validate(), Ok(()));
    customer.pk = "x".repeat(40);
    assert_eq!(customer.validate(), Ok(()));
    customer.pk = "x".repeat(41);
    assert_eq!(customer.validate(), Err(vec![InvalidField::Id]));
}

#[test]
fn customer_name_must_have_one_to_eighty_characters() {
    let mut customer = ada();
    customer.n = String::new();
    assert_eq!(customer.validate(), Err(vec![InvalidField::Name]));
    customer.n = "n".repeat(80);
    assert_eq!(customer.validate(), Ok(()));
    customer.n = "n".repeat(81);
    assert_eq!(customer.validate(), Err(vec![InvalidField::Name]));
}

#[test]
fn lengths_are_counted_in_characters() {
    let mut customer = ada();
    customer.pk = "ä".repeat(40);
    customer.n = "名".repeat(80);
    assert_eq!(customer.validate(), Ok(()));
    customer.pk = "ä".repeat(41);
    assert_eq!(customer.validate(), Err(vec![InvalidField::Id]));
}

#[test]
fn customer_email_must_be_an_email_address() {
    let mut customer = ada();
    for email in ["", "ada", "ada@", "@x.com", "ada x@x.com", "ada@x..com"] {
        customer.e = email.to_string();
        assert_eq!(customer.validate(), Err(vec![InvalidField::Email]));
    }
    for email in ["ada@x.com", "ada.lovelace+tag@example.co.uk", "email@[127.0.0.1]"] {
        customer.e = email.to_string();
        assert_eq!(customer.validate(), Ok(()));
    }
}

#[test]
fn customer_image_must_be_a_url_when_present() {
    let mut customer = ada();
    for url in ["", "not a url", "x.com/ada.png", "//x.com"] {
        customer.img = Some(url.to_string());
        assert_eq!(customer.validate(), Err(vec![InvalidField::AvatarUrl]));
    }
    for url in ["https://x.com/ada.png", "http://localhost:80", "ftp://x.com"] {
        customer.img = Some(url.to_string());
        assert_eq!(customer.validate(), Ok(()));
    }
    customer.img = None;
    assert_eq!(customer.validate(), Ok(()));
}

#[test]
fn every_failed_field_is_reported_in_order() {
    let customer = Customer {
        pk: String::new(),
        sk: 'C',
        n: "n".repeat(81),
        e: "nobody".to_string(),
        r: CustomerRole::CUSTOMER,
        img: Some("nowhere".to_string()),
        dis: false,
        ua: 0,
    };
    assert_eq!(
        customer.validate(),
        Err(vec![
            InvalidField::Id,
            InvalidField::Name,
            InvalidField::Email,
            InvalidField::AvatarUrl
        ])
    );
}

#[test]
fn github_profile_is_validated_like_a_customer() {
    let good = GithubProfile::new(
        "123".to_string(),
        "ada@x.com".to_string(),
        "Ada".to_string(),
        None,
    );
    assert_eq!(good.validate(), Ok(()));
    let bad = GithubProfile::new(
        "i".repeat(41),
        "name".to_string(),
        String::new(),
        Some("avatar".to_string()),
    );
    assert_eq!(
        bad.validate(),
        Err(vec![
            InvalidField::Id,
            InvalidField::Name,
            InvalidField::Email,
            InvalidField::AvatarUrl
        ])
    );
    let half = GithubProfile::new(
        "123".to_string(),
        "name".to_string(),
        "name".to_string(),
        None,
    );
    assert_eq!(half.validate(), Err(vec![InvalidField::Email]));
}

#[test]
fn collect_failures_lists_exactly_the_failed_rules() {
    assert_eq!(collect_failures(true, true, true, true), Ok(()));
    assert_eq!(collect_failures(false, true, true, true), Err(vec![InvalidField::Id]));
    assert_eq!(collect_failures(true, false, true, true), Err(vec![InvalidField::Name]));
    assert_eq!(collect_failures(true, true, false, true), Err(vec![InvalidField::Email]));
    assert_eq!(collect_failures(true, true, true, false), Err(vec![InvalidField::AvatarUrl]));
    assert_eq!(
        collect_failures(true, false, true, false),
        Err(vec![InvalidField::Name, InvalidField::AvatarUrl])
    );
}

#[test]
fn validate_fields_checks_each_field() {
    let id = "u1".to_string();
    let name = "Ada".to_string();
    let email = "ada@x.com".to_string();
    assert_eq!(validate_fields(&id, &name, &email, &None), Ok(()));
    assert_eq!(
        validate_fields(&id, &name, &name, &Some(email.clone())),
        Err(vec![InvalidField::Email, InvalidField::AvatarUrl])
    );
}

use policy_hub::couchbase::{
    latest_query, names_query, policies_query, policy_doc_id, rule_template_doc_id,
    supersede_query, version_query, versions_query,
};
use policy_hub::ident::{to_hyphenated, to_simple};
use policy_hub::CouchbaseConfig;

#[test]
fn identifiers_print_as_hexadecimal_digits() {
    let id = 0xa1a2a3a4b1b2c1c2d1d2d3d4d5d6d7d8u128;
    assert_eq!(to_simple(id), "a1a2a3a4b1b2c1c2d1d2d3d4d5d6d7d8");
    assert_eq!(to_hyphenated(id), "a1a2a3a4-b1b2-c1c2-d1d2-d3d4d5d6d7d8");
    assert_eq!(to_simple(0), "00000000000000000000000000000000");
    assert_eq!(to_hyphenated(0), "00000000-0000-0000-0000-000000000000");
    assert_eq!(to_simple(0x1f), "0000000000000000000000000000001f");
    assert_eq!(to_hyphenated(u128::MAX), "ffffffff-ffff-ffff-ffff-ffffffffffff");
    assert_eq!(to_simple(0x0123456789abcdef0000000000000000), "0123456789abcdef0000000000000000");
}

#[test]
fn the_forms_agree_with_the_uuid_crate() {
    for id in [1u128, 0xdeadbeef, 1 << 64, (1 << 127) + 12345, 0x0123456789abcdef0123456789abcdef] {
        let uuid = uuid::Uuid::from_u128(id);
        assert_eq!(to_simple(id), uuid.simple().to_string());
        assert_eq!(to_hyphenated(id), uuid.to_string());
        assert_eq!(uuid.as_u128(), id);
    }
}

#[test]
fn default_configuration() {
    let config = CouchbaseConfig::default();
    assert_eq!(config.connection_string, "couchbase://localhost");
    assert_eq!(config.username, "admin");
    assert_eq!(config.password, "password123");
    assert_eq!(config.bucket_name, "policy-hub");
}

#[test]
fn document_keys() {
    assert_eq!(rule_template_doc_id(1), "rule_template::00000000-0000-0000-0000-000000000001");
    assert_eq!(policy_doc_id(0xab), "policy::00000000-0000-0000-0000-0000000000ab");
}

#[test]
fn statements() {
    assert_eq!(
        versions_query("hub", "pricing"),
        "SELECT META().id, t.* FROM `hub` t WHERE t.type = 'rule_template' \
         AND t.name = 'pricing' ORDER BY t.version ASC"
    );
    assert_eq!(
        latest_query("hub", "pricing"),
        "SELECT t.* FROM `hub` t WHERE t.type = 'rule_template' AND t.name = 'pricing' \
         AND t.is_latest = true LIMIT 1"
    );
    assert_eq!(
        version_query("hub", "pricing", 12),
        "SELECT t.* FROM `hub` t WHERE t.type = 'rule_template' AND t.name = 'pricing' \
         AND t.version = 12 LIMIT 1"
    );
    assert_eq!(
        supersede_query("hub", "pricing"),
        "UPDATE `hub` SET is_latest = false WHERE type = 'rule_template' AND name = 'pricing' \
         AND is_latest = true"
    );
    assert_eq!(
        names_query("hub"),
        "SELECT DISTINCT t.name FROM `hub` t WHERE t.type = 'rule_template' \
         AND t.is_latest = true ORDER BY t.name ASC"
    );
    assert_eq!(
        policies_query("hub"),
        "SELECT p.* FROM `hub` p WHERE p.type = 'policy' ORDER BY p.created_at DESC"
    );
}

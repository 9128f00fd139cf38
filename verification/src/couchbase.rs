//! What a Couchbase backend is configured with, and the keys and
//! statements by which it finds its documents.

use vstd::prelude::*;
use vstd::string::*;
use crate::ident::{hyphenated_text, to_hyphenated};
use crate::text::{decimal, decimal_string};

verus! {

/// The value of the `type` member of a stored rule template.
pub const DOC_TYPE_RULE_TEMPLATE: &'static str = "rule_template";

/// The value of the `type` member of a stored policy.
pub const DOC_TYPE_POLICY: &'static str = "policy";

/// Where a Couchbase cluster is and how to sign in.
#[derive(Debug, Clone)]
pub struct CouchbaseConfig {
    pub connection_string: String,
    pub username: String,
    pub password: String,
    pub bucket_name: String,
}

impl Default for CouchbaseConfig {
    /// A cluster on this machine, with the credentials of a development
    /// installation.
    fn default() -> (config: Self)
        ensures
            config.connection_string@ == "couchbase://localhost"@,
            config.username@ == "admin"@,
            config.password@ == "password123"@,
            config.bucket_name@ == "policy-hub"@,
    {
        CouchbaseConfig {
            connection_string: String::from_str("couchbase://localhost"),
            username: String::from_str("admin"),
            password: String::from_str("password123"),
            bucket_name: String::from_str("policy-hub"),
        }
    }
}

/// The key of the document of a rule template.
pub open spec fn template_key(id: u128) -> Seq<char> {
    "rule_template::"@ + hyphenated_text(id)
}

/// The key of the document of a policy.
pub open spec fn policy_key(id: u128) -> Seq<char> {
    "policy::"@ + hyphenated_text(id)
}

/// Builds the key of the document of a rule template.
pub fn rule_template_doc_id(id: u128) -> (key: String)
    ensures
        key@ == template_key(id),
{
    String::from_str("rule_template::").concat(to_hyphenated(id).as_str())
}

/// Builds the key of the document of a policy.
pub fn policy_doc_id(id: u128) -> (key: String)
    ensures
        key@ == policy_key(id),
{
    String::from_str("policy::").concat(to_hyphenated(id).as_str())
}

/// The statement that lists the versions of a name, lowest first.
pub open spec fn versions_statement(bucket: Seq<char>, name: Seq<char>) -> Seq<char> {
    "SELECT META().id, t.* FROM `"@ + bucket + "` t WHERE t.type = '"@ + DOC_TYPE_RULE_TEMPLATE@
        + "' AND t.name = '"@ + name + "' ORDER BY t.version ASC"@
}

/// The statement that finds the latest version of a name.
pub open spec fn latest_statement(bucket: Seq<char>, name: Seq<char>) -> Seq<char> {
    "SELECT t.* FROM `"@ + bucket + "` t WHERE t.type = '"@ + DOC_TYPE_RULE_TEMPLATE@
        + "' AND t.name = '"@ + name + "' AND t.is_latest = true LIMIT 1"@
}

/// The statement that finds one version of a name.
pub open spec fn version_statement(bucket: Seq<char>, name: Seq<char>, version: u32) -> Seq<char> {
    "SELECT t.* FROM `"@ + bucket + "` t WHERE t.type = '"@ + DOC_TYPE_RULE_TEMPLATE@
        + "' AND t.name = '"@ + name + "' AND t.version = "@ + decimal(version as nat) + " LIMIT 1"@
}

/// The statement that takes the latest mark from the versions of a name.
pub open spec fn supersede_statement(bucket: Seq<char>, name: Seq<char>) -> Seq<char> {
    "UPDATE `"@ + bucket + "` SET is_latest = false WHERE type = '"@ + DOC_TYPE_RULE_TEMPLATE@
        + "' AND name = '"@ + name + "' AND is_latest = true"@
}

/// The statement that lists the names that have a latest version.
pub open spec fn names_statement(bucket: Seq<char>) -> Seq<char> {
    "SELECT DISTINCT t.name FROM `"@ + bucket + "` t WHERE t.type = '"@ + DOC_TYPE_RULE_TEMPLATE@
        + "' AND t.is_latest = true ORDER BY t.name ASC"@
}

/// The statement that lists the policies, the newest first.
pub open spec fn policies_statement(bucket: Seq<char>) -> Seq<char> {
    "SELECT p.* FROM `"@ + bucket + "` p WHERE p.type = '"@ + DOC_TYPE_POLICY@
        + "' ORDER BY p.created_at DESC"@
}

/// Builds the statement that lists the versions of a name.
pub fn versions_query(bucket: &str, name: &str) -> (q: String)
    ensures
        q@ == versions_statement(bucket@, name@),
{
    let mut q = String::from_str("SELECT META().id, t.* FROM `");
    q.append(bucket);
    q.append("` t WHERE t.type = '");
    q.append(DOC_TYPE_RULE_TEMPLATE);
    q.append("' AND t.name = '");
    q.append(name);
    q.append("' ORDER BY t.version ASC");
    assert(q@ =~= versions_statement(bucket@, name@));
    q
}

/// Builds the statement that finds the latest version of a name.
pub fn latest_query(bucket: &str, name: &str) -> (q: String)
    ensures
        q@ == latest_statement(bucket@, name@),
{
    let mut q = String::from_str("SELECT t.* FROM `");
    q.append(bucket);
    q.append("` t WHERE t.type = '");
    q.append(DOC_TYPE_RULE_TEMPLATE);
    q.append("' AND t.name = '");
    q.append(name);
    q.append("' AND t.is_latest = true LIMIT 1");
    assert(q@ =~= latest_statement(bucket@, name@));
    q
}

/// Builds the statement that finds one version of a name.
pub fn version_query(bucket: &str, name: &str, version: u32) -> (q: String)
    ensures
        q@ == version_statement(bucket@, name@, version),
{
    let mut q = String::from_str("SELECT t.* FROM `");
    q.append(bucket);
    q.append("` t WHERE t.type = '");
    q.append(DOC_TYPE_RULE_TEMPLATE);
    q.append("' AND t.name = '");
    q.append(name);
    q.append("' AND t.version = ");
    q.append(decimal_string(version as usize).as_str());
    q.append(" LIMIT 1");
    assert(q@ =~= version_statement(bucket@, name@, version));
    q
}

/// Builds the statement that takes the latest mark from the versions of a
/// name.
pub fn supersede_query(bucket: &str, name: &str) -> (q: String)
    ensures
        q@ == supersede_statement(bucket@, name@),
{
    let mut q = String::from_str("UPDATE `");
    q.append(bucket);
    q.append("` SET is_latest = false WHERE type = '");
    q.append(DOC_TYPE_RULE_TEMPLATE);
    q.append("' AND name = '");
    q.append(name);
    q.append("' AND is_latest = true");
    assert(q@ =~= supersede_statement(bucket@, name@));
    q
}

/// Builds the statement that lists the names that have a latest version.
pub fn names_query(bucket: &str) -> (q: String)
    ensures
        q@ == names_statement(bucket@),
{
    let mut q = String::from_str("SELECT DISTINCT t.name FROM `");
    q.append(bucket);
    q.append("` t WHERE t.type = '");
    q.append(DOC_TYPE_RULE_TEMPLATE);
    q.append("' AND t.is_latest = true ORDER BY t.name ASC");
    assert(q@ =~= names_statement(bucket@));
    q
}

/// Builds the statement that lists the policies.
pub fn policies_query(bucket: &str) -> (q: String)
    ensures
        q@ == policies_statement(bucket@),
{
    let mut q = String::from_str("SELECT p.* FROM `");
    q.append(bucket);
    q.append("` p WHERE p.type = '");
    q.append(DOC_TYPE_POLICY);
    q.append("' ORDER BY p.created_at DESC");
    assert(q@ =~= policies_statement(bucket@));
    q
}

} // verus!

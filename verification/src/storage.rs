//! Storage of rule templates and policies: what a backend holds, the
//! operations that it offers, and what they do to what is held.

use vstd::prelude::*;
use vstd::string::*;
use crate::ident::hyphenated_text;
use crate::text::lex_less;
use crate::models::{
    policy_views, template_list_views, text_views, Policy, PolicyView, RuleTemplate,
    TemplateView,
};

verus! {

/// Why a storage operation failed.
#[derive(Debug)]
pub enum StorageError {
    NotFound(String),
    AlreadyExists(String),
    Serialization(String),
    Connection(String),
    Internal(String),
}

impl StorageError {
    /// The error as one line of text.
    pub open spec fn text(self) -> Seq<char> {
        match self {
            StorageError::NotFound(m) => "Not found: "@ + m@,
            StorageError::AlreadyExists(m) => "Already exists: "@ + m@,
            StorageError::Serialization(m) => "Serialization error: "@ + m@,
            StorageError::Connection(m) => "Connection error: "@ + m@,
            StorageError::Internal(m) => "Internal error: "@ + m@,
        }
    }

    /// The error as one line of text: its kind, then its detail.
    pub fn to_string(&self) -> (s: String)
        ensures
            s@ == self.text(),
    {
        match self {
            StorageError::NotFound(m) => String::from_str("Not found: ").concat(m.as_str()),
            StorageError::AlreadyExists(m) => String::from_str("Already exists: ").concat(
                m.as_str(),
            ),
            StorageError::Serialization(m) => String::from_str("Serialization error: ").concat(
                m.as_str(),
            ),
            StorageError::Connection(m) => String::from_str("Connection error: ").concat(
                m.as_str(),
            ),
            StorageError::Internal(m) => String::from_str("Internal error: ").concat(m.as_str()),
        }
    }
}

/// What a backend holds, and whether it keeps its word. A backend that
/// says nothing of itself promises nothing.
pub trait StorageModel {
    /// The templates held, in the order in which their identifiers came.
    open spec fn templates(&self) -> Seq<TemplateView> {
        Seq::empty()
    }

    /// The policies held, in the order in which their identifiers came.
    open spec fn policies(&self) -> Seq<PolicyView> {
        Seq::empty()
    }

    /// Whether the backend is consistent: every operation does at once
    /// what its contract says of what is held. A backend that may lag
    /// behind its own writes, or fail, is not, and promises nothing.
    open spec fn consistent() -> bool {
        false
    }
}

/// Storage of rule templates. Each contract binds consistent backends.
pub trait RuleTemplateStorage: StorageModel {
    /// Saves a template as the latest of its name: every template of the
    /// name loses its latest mark, then the template takes the place of
    /// the one with its identifier, or the end of the list.
    fn save(&mut self, template: RuleTemplate) -> (r: Result<RuleTemplate, StorageError>)
        ensures
            Self::consistent() ==> (r matches Ok(saved) && saved@ == template@)
                && final(self).templates() == after_save(old(self).templates(), template@)
                && final(self).policies() == old(self).policies(),
    ;

    /// The template with the given identifier.
    fn get_by_id(&self, id: u128) -> (r: Result<Option<RuleTemplate>, StorageError>)
        ensures
            Self::consistent() ==> (r matches Ok(found) && match first_index(
                template_ids(self.templates()),
                id,
            ) {
                Some(i) => found matches Some(t) && t@ == self.templates()[i],
                None => found is None,
            }),
    ;

    /// All versions of the templates with a name, lowest version first.
    fn get_versions_by_name(&self, name: &str) -> (r: Result<Vec<RuleTemplate>, StorageError>)
        ensures
            Self::consistent() ==> (r matches Ok(versions) && template_list_views(versions@)
                == versions_of(self.templates(), name@)),
    ;

    /// The latest version of the templates with a name: the first template
    /// of the name that is marked latest.
    fn get_latest_by_name(&self, name: &str) -> (r: Result<Option<RuleTemplate>, StorageError>)
        ensures
            Self::consistent() ==> (r matches Ok(found) && match first_match(
                self.templates(),
                is_latest_of(name@),
            ) {
                Some(i) => found matches Some(t) && t@ == self.templates()[i],
                None => found is None,
            }),
    ;

    /// One version of the templates with a name: the first template of the
    /// name with the version.
    fn get_by_name_and_version(&self, name: &str, version: u32) -> (r: Result<
        Option<RuleTemplate>,
        StorageError,
    >)
        ensures
            Self::consistent() ==> (r matches Ok(found) && match first_match(
                self.templates(),
                is_version_of(name@, version),
            ) {
                Some(i) => found matches Some(t) && t@ == self.templates()[i],
                None => found is None,
            }),
    ;

    /// Replaces the stored template with the identifier of `template`,
    /// touching no other; fails and changes nothing where there is none.
    fn update(&mut self, template: RuleTemplate) -> (r: Result<RuleTemplate, StorageError>)
        ensures
            Self::consistent() ==> final(self).policies() == old(self).policies() && match first_index(
                template_ids(old(self).templates()),
                template.id,
            ) {
                Some(i) => r matches Ok(saved) && saved@ == template@ && final(self).templates()
                    == old(self).templates().update(i, template@),
                None => r matches Err(StorageError::NotFound(m)) && m@ == template_missing(
                    template.id,
                ) && final(self).templates() == old(self).templates(),
            },
    ;

    /// The names of the templates marked latest, each once, in ascending
    /// order.
    fn list_names(&self) -> (r: Result<Vec<String>, StorageError>)
        ensures
            Self::consistent() ==> (r matches Ok(names) && text_views(names@) == latest_names(
                self.templates(),
            )),
    ;
}

/// Storage of policies. Each contract binds consistent backends. One type
/// may store templates and policies alike; the operations on policies
/// that would share a name with one on templates carry the policy in
/// theirs, so that a call on such a type names one method.
pub trait PolicyStorage: StorageModel {
    /// Saves a policy: it takes the place of the stored policy with its
    /// identifier, or the end of the list.
    fn save_policy(&mut self, policy: Policy) -> (r: Result<Policy, StorageError>)
        ensures
            Self::consistent() ==> (r matches Ok(saved) && saved@ == policy@)
                && final(self).policies() == after_save_policy(old(self).policies(), policy@)
                && final(self).templates() == old(self).templates(),
    ;

    /// The policy with the given identifier.
    fn get_policy_by_id(&self, id: u128) -> (r: Result<Option<Policy>, StorageError>)
        ensures
            Self::consistent() ==> (r matches Ok(found) && match first_index(
                policy_ids(self.policies()),
                id,
            ) {
                Some(i) => found matches Some(p) && p@ == self.policies()[i],
                None => found is None,
            }),
    ;

    /// All policies, in the order in which their identifiers came.
    fn list(&self) -> (r: Result<Vec<Policy>, StorageError>)
        ensures
            Self::consistent() ==> (r matches Ok(all) && policy_views(all@) == self.policies()),
    ;

    /// Replaces the stored policy with the identifier of `policy`; fails
    /// and changes nothing where there is none.
    fn update_policy(&mut self, policy: Policy) -> (r: Result<Policy, StorageError>)
        ensures
            Self::consistent() ==> final(self).templates() == old(self).templates() && match first_index(
                policy_ids(old(self).policies()),
                policy.id,
            ) {
                Some(i) => r matches Ok(saved) && saved@ == policy@ && final(self).policies()
                    == old(self).policies().update(i, policy@),
                None => r matches Err(StorageError::NotFound(m)) && m@ == policy_missing(
                    policy.id,
                ) && final(self).policies() == old(self).policies(),
            },
    ;

    /// Removes the stored policy with the identifier; fails and changes
    /// nothing where there is none.
    fn delete(&mut self, id: u128) -> (r: Result<(), StorageError>)
        ensures
            Self::consistent() ==> final(self).templates() == old(self).templates() && match first_index(
                policy_ids(old(self).policies()),
                id,
            ) {
                Some(i) => r is Ok && final(self).policies() == old(self).policies().remove(i),
                None => r matches Err(StorageError::NotFound(m)) && m@ == policy_missing(id)
                    && final(self).policies() == old(self).policies(),
            },
    ;
}

/// Storage of both templates and policies.
pub trait Storage: RuleTemplateStorage + PolicyStorage {

}

impl<T: RuleTemplateStorage + PolicyStorage> Storage for T {

}

/// The place of the first entry with `id` among `ids`.
pub open spec fn first_index(ids: Seq<u128>, id: u128) -> Option<int>
    decreases ids.len(),
{
    if ids.len() == 0 {
        None
    } else {
        match first_index(ids.drop_last(), id) {
            Some(i) => Some(i),
            None => if ids.last() == id {
                Some(ids.len() - 1)
            } else {
                None
            },
        }
    }
}

/// The identifiers of a list of templates.
pub open spec fn template_ids(templates: Seq<TemplateView>) -> Seq<u128> {
    Seq::new(templates.len(), |i: int| templates[i].id)
}

/// The identifiers of a list of policies.
pub open spec fn policy_ids(policies: Seq<PolicyView>) -> Seq<u128> {
    Seq::new(policies.len(), |i: int| policies[i].id)
}

/// The templates after every one named `name` has lost its latest mark.
pub open spec fn supersede(templates: Seq<TemplateView>, name: Seq<char>) -> Seq<TemplateView> {
    Seq::new(
        templates.len(),
        |i: int|
            if templates[i].name == name {
                TemplateView { is_latest: false, ..templates[i] }
            } else {
                templates[i]
            },
    )
}

/// The templates after `t` was saved: the others of its name are no longer
/// latest; `t` takes the place of the template with its identifier, or the
/// end of the list.
pub open spec fn after_save(templates: Seq<TemplateView>, t: TemplateView) -> Seq<TemplateView> {
    let marked = supersede(templates, t.name);
    match first_index(template_ids(templates), t.id) {
        Some(i) => marked.update(i, t),
        None => marked.push(t),
    }
}

/// The policies after `p` was saved: `p` takes the place of the policy
/// with its identifier, or the end of the list.
pub open spec fn after_save_policy(policies: Seq<PolicyView>, p: PolicyView) -> Seq<PolicyView> {
    match first_index(policy_ids(policies), p.id) {
        Some(i) => policies.update(i, p),
        None => policies.push(p),
    }
}

/// The first index is that of an entry with the identifier, with none
/// before it; there is none exactly when the identifier does not occur.
pub proof fn lemma_first_index(ids: Seq<u128>, id: u128)
    ensures
        match first_index(ids, id) {
            Some(i) => 0 <= i < ids.len() && ids[i] == id && forall|j: int|
                0 <= j < i ==> ids[j] != id,
            None => forall|j: int| 0 <= j < ids.len() ==> ids[j] != id,
        },
    decreases ids.len(),
{
    if ids.len() > 0 {
        lemma_first_index(ids.drop_last(), id);
        match first_index(ids.drop_last(), id) {
            Some(i) => {
                assert(ids[i] == ids.drop_last()[i]);
                assert forall|j: int| 0 <= j < i implies ids[j] != id by {
                    assert(ids.drop_last()[j] != id);
                }
            },
            None => {
                assert forall|j: int| 0 <= j < ids.len() - 1 implies ids[j] != id by {
                    assert(ids.drop_last()[j] != id);
                }
            },
        }
    }
}

/// An identifier is found among those stored exactly when it occurs.
pub proof fn lemma_found_when_stored(ids: Seq<u128>, id: u128)
    ensures
        first_index(ids, id) is Some <==> exists|k: int| 0 <= k < ids.len() && ids[k] == id,
{
    lemma_first_index(ids, id);
    if first_index(ids, id) is Some {
        assert(ids[first_index(ids, id)->0] == id);
    }
}

/// A template saved with the latest mark is stored, and is the only one
/// of its name that is marked latest, whatever was stored before.
pub proof fn lemma_saved_is_the_latest(templates: Seq<TemplateView>, t: TemplateView)
    requires
        t.is_latest,
    ensures
        exists|i: int|
            0 <= i < after_save(templates, t).len() && #[trigger] after_save(templates, t)[i]
                == t,
        forall|i: int|
            0 <= i < after_save(templates, t).len() && (#[trigger] after_save(
                templates,
                t,
            )[i]).name == t.name && after_save(templates, t)[i].is_latest ==> after_save(
                templates,
                t,
            )[i] == t,
        after_save(templates, t).len() >= templates.len(),
{
    let after = after_save(templates, t);
    lemma_first_index(template_ids(templates), t.id);
    match first_index(template_ids(templates), t.id) {
        Some(i) => {
            assert(after[i] == t);
        },
        None => {
            assert(after[templates.len() as int] == t);
        },
    }
}

/// Whether no identifier occurs twice: the list is a map by identifier.
pub open spec fn distinct(ids: Seq<u128>) -> bool {
    forall|i: int, j: int| 0 <= i < j < ids.len() ==> ids[i] != ids[j]
}

/// Saving a template leaves no identifier twice: the template takes the
/// place of the one with its identifier, or comes with a new one.
pub proof fn lemma_save_keeps_distinct(templates: Seq<TemplateView>, t: TemplateView)
    requires
        distinct(template_ids(templates)),
    ensures
        distinct(template_ids(after_save(templates, t))),
        first_index(template_ids(templates), t.id) is Some ==> template_ids(
            after_save(templates, t),
        ) == template_ids(templates),
        first_index(template_ids(templates), t.id) is None ==> template_ids(
            after_save(templates, t),
        ) == template_ids(templates).push(t.id),
{
    let ids = template_ids(templates);
    let after = template_ids(after_save(templates, t));
    lemma_first_index(ids, t.id);
    match first_index(ids, t.id) {
        Some(i) => {
            assert(after =~= ids);
        },
        None => {
            assert(after =~= ids.push(t.id));
        },
    }
}

/// Saving a policy leaves no identifier twice.
pub proof fn lemma_save_policy_keeps_distinct(policies: Seq<PolicyView>, p: PolicyView)
    requires
        distinct(policy_ids(policies)),
    ensures
        distinct(policy_ids(after_save_policy(policies, p))),
{
    let ids = policy_ids(policies);
    let after = policy_ids(after_save_policy(policies, p));
    lemma_first_index(ids, p.id);
    match first_index(ids, p.id) {
        Some(i) => {
            assert(after =~= ids);
        },
        None => {
            assert(after =~= ids.push(p.id));
        },
    }
}

/// Putting an identifier where it stands, or taking one out, leaves no
/// identifier twice.
pub proof fn lemma_update_keeps_distinct(ids: Seq<u128>, id: u128)
    requires
        distinct(ids),
    ensures
        first_index(ids, id) matches Some(i) ==> ids.update(i, id) == ids && distinct(
            ids.remove(i),
        ),
{
    lemma_first_index(ids, id);
    match first_index(ids, id) {
        Some(i) => {
            assert(ids.update(i, id) =~= ids);
            let rest = ids.remove(i);
            assert forall|a: int, b: int| 0 <= a < b < rest.len() implies rest[a] != rest[b] by {
                let x = if a < i { a } else { a + 1 };
                let y = if b < i { b } else { b + 1 };
                assert(rest[a] == ids[x] && rest[b] == ids[y]);
            }
        },
        None => {},
    }
}

/// Replacing the policy with an identifier leaves no identifier twice.
pub proof fn lemma_replace_policy_keeps_distinct(policies: Seq<PolicyView>, p: PolicyView)
    requires
        distinct(policy_ids(policies)),
    ensures
        first_index(policy_ids(policies), p.id) matches Some(i) ==> distinct(
            policy_ids(policies.update(i, p)),
        ),
{
    let ids = policy_ids(policies);
    lemma_first_index(ids, p.id);
    lemma_update_keeps_distinct(ids, p.id);
    match first_index(ids, p.id) {
        Some(i) => {
            assert(policy_ids(policies.update(i, p)) =~= ids.update(i, p.id));
        },
        None => {},
    }
}

/// Removing the policy with an identifier leaves no identifier twice.
pub proof fn lemma_remove_policy_keeps_distinct(policies: Seq<PolicyView>, id: u128)
    requires
        distinct(policy_ids(policies)),
    ensures
        first_index(policy_ids(policies), id) matches Some(i) ==> distinct(
            policy_ids(policies.remove(i)),
        ),
{
    let ids = policy_ids(policies);
    lemma_first_index(ids, id);
    lemma_update_keeps_distinct(ids, id);
    match first_index(ids, id) {
        Some(i) => {
            assert(policy_ids(policies.remove(i)) =~= ids.remove(i));
        },
        None => {},
    }
}

/// Replacing the template with an identifier leaves no identifier twice.
pub proof fn lemma_replace_template_keeps_distinct(templates: Seq<TemplateView>, t: TemplateView)
    requires
        distinct(template_ids(templates)),
    ensures
        first_index(template_ids(templates), t.id) matches Some(i) ==> distinct(
            template_ids(templates.update(i, t)),
        ),
{
    let ids = template_ids(templates);
    lemma_first_index(ids, t.id);
    lemma_update_keeps_distinct(ids, t.id);
    match first_index(ids, t.id) {
        Some(i) => {
            assert(template_ids(templates.update(i, t)) =~= ids.update(i, t.id));
        },
        None => {},
    }
}

/// The place of the first template that `pred` holds of.
pub open spec fn first_match(templates: Seq<TemplateView>, pred: spec_fn(TemplateView) -> bool)
    -> Option<int>
    decreases templates.len(),
{
    if templates.len() == 0 {
        None
    } else {
        match first_match(templates.drop_last(), pred) {
            Some(i) => Some(i),
            None => if pred(templates.last()) {
                Some(templates.len() - 1)
            } else {
                None
            },
        }
    }
}

/// The first match is a template that the predicate holds of, with none
/// before it; there is none exactly when it holds of no template.
pub proof fn lemma_first_match(templates: Seq<TemplateView>, pred: spec_fn(TemplateView) -> bool)
    ensures
        match first_match(templates, pred) {
            Some(i) => 0 <= i < templates.len() && pred(templates[i]) && forall|j: int|
                0 <= j < i ==> !pred(#[trigger] templates[j]),
            None => forall|j: int| 0 <= j < templates.len() ==> !pred(#[trigger] templates[j]),
        },
    decreases templates.len(),
{
    if templates.len() > 0 {
        lemma_first_match(templates.drop_last(), pred);
        match first_match(templates.drop_last(), pred) {
            Some(i) => {
                assert(templates[i] == templates.drop_last()[i]);
                assert forall|j: int| 0 <= j < i implies !pred(#[trigger] templates[j]) by {
                    assert(templates.drop_last()[j] == templates[j]);
                }
            },
            None => {
                assert forall|j: int| 0 <= j < templates.len() - 1 implies !pred(
                    #[trigger] templates[j],
                ) by {
                    assert(templates.drop_last()[j] == templates[j]);
                }
            },
        }
    }
}

/// Whether a template is the latest of the name.
pub open spec fn is_latest_of(name: Seq<char>) -> spec_fn(TemplateView) -> bool {
    |t: TemplateView| t.name == name && t.is_latest
}

/// Whether a template is the given version of the name.
pub open spec fn is_version_of(name: Seq<char>, version: u32) -> spec_fn(TemplateView) -> bool {
    |t: TemplateView| t.name == name && t.version == version
}

/// The detail of the error for a template that is not stored.
pub open spec fn template_missing(id: u128) -> Seq<char> {
    "RuleTemplate"@ + " with id "@ + hyphenated_text(id) + " not found"@
}

/// The detail of the error for a policy that is not stored.
pub open spec fn policy_missing(id: u128) -> Seq<char> {
    "Policy"@ + " with id "@ + hyphenated_text(id) + " not found"@
}

/// A list of versions with `t` put behind the last one whose version is
/// not greater.
pub open spec fn insert_by_version(sorted: Seq<TemplateView>, t: TemplateView) -> Seq<
    TemplateView,
>
    decreases sorted.len(),
{
    if sorted.len() == 0 || sorted.last().version <= t.version {
        sorted.push(t)
    } else {
        insert_by_version(sorted.drop_last(), t).push(sorted.last())
    }
}

/// The templates named `name`, lowest version first; templates of one
/// version stay in the order in which they are stored.
pub open spec fn versions_of(templates: Seq<TemplateView>, name: Seq<char>) -> Seq<TemplateView>
    decreases templates.len(),
{
    if templates.len() == 0 {
        Seq::empty()
    } else {
        let rest = versions_of(templates.drop_last(), name);
        if templates.last().name == name {
            insert_by_version(rest, templates.last())
        } else {
            rest
        }
    }
}

/// A list of names in ascending order with `name` put in its place, unless
/// it is there already.
pub open spec fn insert_name(names: Seq<Seq<char>>, name: Seq<char>) -> Seq<Seq<char>>
    decreases names.len(),
{
    if names.len() == 0 {
        seq![name]
    } else if names.last() == name {
        names
    } else if lex_less(names.last(), name) {
        names.push(name)
    } else {
        insert_name(names.drop_last(), name).push(names.last())
    }
}

/// The names of the templates marked latest, each once, in ascending order.
pub open spec fn latest_names(templates: Seq<TemplateView>) -> Seq<Seq<char>>
    decreases templates.len(),
{
    if templates.len() == 0 {
        Seq::empty()
    } else {
        let rest = latest_names(templates.drop_last());
        if templates.last().is_latest {
            insert_name(rest, templates.last().name)
        } else {
            rest
        }
    }
}

/// Whether versions never fall along the list.
pub open spec fn ascending_versions(list: Seq<TemplateView>) -> bool {
    forall|i: int, j: int| 0 <= i <= j < list.len() ==> list[i].version <= list[j].version
}

/// Inserting by version keeps versions ascending.
pub proof fn lemma_insert_keeps_ascending(sorted: Seq<TemplateView>, t: TemplateView)
    requires
        ascending_versions(sorted),
    ensures
        ascending_versions(insert_by_version(sorted, t)),
        insert_by_version(sorted, t).len() == sorted.len() + 1,
    decreases sorted.len(),
{
    if sorted.len() == 0 || sorted.last().version <= t.version {
        let out = sorted.push(t);
        assert forall|i: int, j: int| 0 <= i <= j < out.len() implies out[i].version
            <= out[j].version by {
            if j == sorted.len() && i < sorted.len() {
                assert(sorted[i].version <= sorted[sorted.len() - 1].version);
            }
        }
    } else {
        let front = sorted.drop_last();
        assert(ascending_versions(front)) by {
            assert forall|i: int, j: int| 0 <= i <= j < front.len() implies front[i].version
                <= front[j].version by {
                assert(sorted[i].version <= sorted[j].version);
            }
        }
        lemma_insert_keeps_ascending(front, t);
        lemma_insert_members(front, t);
        let mid = insert_by_version(front, t);
        let out = mid.push(sorted.last());
        assert forall|i: int, j: int| 0 <= i <= j < out.len() implies out[i].version
            <= out[j].version by {
            if j == mid.len() && i < mid.len() {
                if mid[i] != t {
                    let k = choose|k: int| 0 <= k < front.len() && front[k] == mid[i];
                    assert(sorted[k].version <= sorted[sorted.len() - 1].version);
                }
            }
        }
    }
}

/// What a list holds after an insertion by version: the new template and
/// what it held before.
pub proof fn lemma_insert_members(sorted: Seq<TemplateView>, t: TemplateView)
    ensures
        forall|i: int|
            0 <= i < insert_by_version(sorted, t).len() ==> #[trigger] insert_by_version(
                sorted,
                t,
            )[i] == t || exists|k: int|
                0 <= k < sorted.len() && sorted[k] == insert_by_version(sorted, t)[i],
    decreases sorted.len(),
{
    let out = insert_by_version(sorted, t);
    if sorted.len() == 0 || sorted.last().version <= t.version {
        assert forall|i: int| 0 <= i < out.len() implies #[trigger] out[i] == t || exists|k: int|
            0 <= k < sorted.len() && sorted[k] == out[i] by {
            if i < sorted.len() {
                assert(sorted[i] == out[i]);
            }
        }
    } else {
        let front = sorted.drop_last();
        lemma_insert_members(front, t);
        let mid = insert_by_version(front, t);
        assert forall|i: int| 0 <= i < out.len() implies #[trigger] out[i] == t || exists|k: int|
            0 <= k < sorted.len() && sorted[k] == out[i] by {
            if i < mid.len() {
                assert(out[i] == mid[i]);
                if mid[i] != t {
                    let k = choose|k: int| 0 <= k < front.len() && front[k] == mid[i];
                    assert(sorted[k] == out[i]);
                }
            } else {
                assert(sorted[sorted.len() - 1] == out[i]);
            }
        }
    }
}

/// The versions listed for a name ascend.
pub proof fn lemma_versions_ascend(templates: Seq<TemplateView>, name: Seq<char>)
    ensures
        ascending_versions(versions_of(templates, name)),
    decreases templates.len(),
{
    if templates.len() > 0 {
        lemma_versions_ascend(templates.drop_last(), name);
        if templates.last().name == name {
            lemma_insert_keeps_ascending(
                versions_of(templates.drop_last(), name),
                templates.last(),
            );
        }
    }
}


} // verus!

//! A store that keeps templates and policies in memory.

use vstd::prelude::*;
use vstd::string::*;
use crate::ident::{hyphenated_text, to_hyphenated};
use crate::models::{
    policy_views, template_list_views, text_views, Policy, PolicyView, RuleTemplate,
    TemplateView,
};
use crate::storage::{
    after_save, after_save_policy, distinct, first_index, lemma_save_keeps_distinct,
    lemma_remove_policy_keeps_distinct, lemma_replace_policy_keeps_distinct,
    lemma_replace_template_keeps_distinct,
    lemma_save_policy_keeps_distinct, first_match, insert_by_version, insert_name,
    is_latest_of, is_version_of, latest_names, policy_ids, policy_missing, supersede,
    template_ids, template_missing, versions_of, PolicyStorage, RuleTemplateStorage,
    StorageError, StorageModel,
};
use crate::text::{lex_less, same_text, text_less};

verus! {

/// Builds the detail of the error for something that is not stored.
fn missing_message(kind: &str, id: u128) -> (m: String)
    ensures
        m@ == kind@ + " with id "@ + hyphenated_text(id) + " not found"@,
{
    let mut m = String::from_str(kind);
    m.append(" with id ");
    m.append(to_hyphenated(id).as_str());
    m.append(" not found");
    m
}

/// Keeps templates and policies in memory, each as a list in the order in
/// which its identifier first came. The order fixes what a listing and a
/// search return, which the order in which a hash map is walked would
/// leave open. A store that is well formed holds no identifier twice, so
/// each list is a map by identifier.
pub struct InMemoryStorage {
    rule_templates: Vec<RuleTemplate>,
    policies: Vec<Policy>,
}

impl StorageModel for InMemoryStorage {
    closed spec fn templates(&self) -> Seq<TemplateView> {
        Seq::new(self.rule_templates@.len(), |i: int| self.rule_templates@[i]@)
    }

    closed spec fn policies(&self) -> Seq<PolicyView> {
        Seq::new(self.policies@.len(), |i: int| self.policies@[i]@)
    }

    /// What is kept in memory shows every write at once.
    open spec fn consistent() -> bool {
        true
    }
}

impl InMemoryStorage {
    /// No identifier occurs twice among the templates, nor among the
    /// policies. An empty store is well formed and every operation keeps
    /// a store so.
    pub open spec fn wf(&self) -> bool {
        distinct(template_ids(self.templates())) && distinct(policy_ids(self.policies()))
    }

    /// An empty store.
    pub fn new() -> (store: Self)
        ensures
            store.wf(),
            store.templates() == Seq::<TemplateView>::empty(),
            store.policies() == Seq::<PolicyView>::empty(),
    {
        InMemoryStorage { rule_templates: Vec::new(), policies: Vec::new() }
    }

    /// Finds the place of the template with `id`.
    fn find_template(&self, id: u128) -> (r: Option<usize>)
        ensures
            match r {
                Some(i) => first_index(template_ids(self.templates()), id) == Some(i as int) && i
                    < self.rule_templates.len(),
                None => first_index(template_ids(self.templates()), id) is None,
            },
    {
        let ghost ids = template_ids(self.templates());
        let mut i: usize = 0;
        while i < self.rule_templates.len()
            invariant
                ids == template_ids(self.templates()),
                i <= self.rule_templates.len(),
                first_index(ids.take(i as int), id) is None,
            decreases self.rule_templates.len() - i,
        {
            proof {
                assert(ids.take(i + 1).drop_last() == ids.take(i as int));
                assert(ids.take(i + 1).last() == self.rule_templates@[i as int].id);
            }
            if self.rule_templates[i].id == id {
                proof {
                    lemma_first_index_stays(ids, id, i + 1);
                }
                return Some(i);
            }
            i = i + 1;
        }
        proof {
            assert(ids.take(ids.len() as int) == ids);
        }
        None
    }

    /// Finds the place of the policy with `id`.
    fn find_policy(&self, id: u128) -> (r: Option<usize>)
        ensures
            match r {
                Some(i) => first_index(policy_ids(self.policies()), id) == Some(i as int) && i
                    < self.policies.len(),
                None => first_index(policy_ids(self.policies()), id) is None,
            },
    {
        let ghost ids = policy_ids(self.policies());
        let mut i: usize = 0;
        while i < self.policies.len()
            invariant
                ids == policy_ids(self.policies()),
                i <= self.policies.len(),
                first_index(ids.take(i as int), id) is None,
            decreases self.policies.len() - i,
        {
            proof {
                assert(ids.take(i + 1).drop_last() == ids.take(i as int));
                assert(ids.take(i + 1).last() == self.policies@[i as int].id);
            }
            if self.policies[i].id == id {
                proof {
                    lemma_first_index_stays(ids, id, i + 1);
                }
                return Some(i);
            }
            i = i + 1;
        }
        proof {
            assert(ids.take(ids.len() as int) == ids);
        }
        None
    }
}

/// Once an identifier has been found, a longer list has the same first
/// index for it.
proof fn lemma_first_index_stays(ids: Seq<u128>, id: u128, n: int)
    requires
        0 <= n <= ids.len(),
        first_index(ids.take(n), id) is Some,
    ensures
        first_index(ids, id) == first_index(ids.take(n), id),
    decreases ids.len() - n,
{
    if n < ids.len() {
        assert(ids.take(n + 1).drop_last() == ids.take(n));
        lemma_first_index_stays(ids, id, n + 1);
    } else {
        assert(ids.take(n) == ids);
    }
}

/// Once a match has been found, a longer list has the same first match.
proof fn lemma_first_match_stays(
    templates: Seq<TemplateView>,
    pred: spec_fn(TemplateView) -> bool,
    n: int,
)
    requires
        0 <= n <= templates.len(),
        first_match(templates.take(n), pred) is Some,
    ensures
        first_match(templates, pred) == first_match(templates.take(n), pred),
    decreases templates.len() - n,
{
    if n < templates.len() {
        assert(templates.take(n + 1).drop_last() == templates.take(n));
        lemma_first_match_stays(templates, pred, n + 1);
    } else {
        assert(templates.take(n) == templates);
    }
}

impl Default for InMemoryStorage {
    fn default() -> (store: Self)
        ensures
            store.wf(),
            store.templates() == Seq::<TemplateView>::empty(),
            store.policies() == Seq::<PolicyView>::empty(),
    {
        InMemoryStorage::new()
    }
}

impl PolicyStorage for InMemoryStorage {
    /// Saves a policy: it takes the place of the stored policy with its
    /// identifier, or the end of the list.
    fn save_policy(&mut self, policy: Policy) -> (r: Result<Policy, StorageError>)
        ensures
            r matches Ok(saved) && saved@ == policy@,
            final(self).policies() == after_save_policy(old(self).policies(), policy@),
            final(self).templates() == old(self).templates(),
            old(self).wf() ==> final(self).wf(),
    {
        proof {
            if self.wf() {
                lemma_save_policy_keeps_distinct(self.policies(), policy@);
            }
        }
        let saved = policy.clone();
        match self.find_policy(policy.id) {
            Some(i) => {
                self.policies.set(i, policy);
            },
            None => {
                self.policies.push(policy);
            },
        }
        proof {
            assert(final(self).policies() =~= after_save_policy(old(self).policies(), policy@));
            assert(final(self).templates() =~= old(self).templates());
        }
        Ok(saved)
    }

    /// The stored policy with the identifier, if any.
    fn get_policy_by_id(&self, id: u128) -> (r: Result<Option<Policy>, StorageError>)
        ensures
            r matches Ok(found) && match first_index(policy_ids(self.policies()), id) {
                Some(i) => found matches Some(p) && p@ == self.policies()[i],
                None => found is None,
            },
    {
        match self.find_policy(id) {
            Some(i) => Ok(Some(self.policies[i].clone())),
            None => Ok(None),
        }
    }

    /// All stored policies, in the order in which their identifiers came.
    fn list(&self) -> (r: Result<Vec<Policy>, StorageError>)
        ensures
            r matches Ok(all) && policy_views(all@) == self.policies(),
    {
        let mut all: Vec<Policy> = Vec::new();
        let mut i: usize = 0;
        while i < self.policies.len()
            invariant
                i <= self.policies.len(),
                all.len() == i,
                forall|j: int| 0 <= j < i ==> (#[trigger] all@[j])@ == self.policies@[j]@,
            decreases self.policies.len() - i,
        {
            all.push(self.policies[i].clone());
            i = i + 1;
        }
        proof {
            assert(policy_views(all@) =~= self.policies());
        }
        Ok(all)
    }

    /// Replaces the stored policy with the identifier of `policy`; fails
    /// and changes nothing where there is none.
    fn update_policy(&mut self, policy: Policy) -> (r: Result<Policy, StorageError>)
        ensures
            old(self).wf() ==> final(self).wf(),
            final(self).templates() == old(self).templates(),
            match first_index(policy_ids(old(self).policies()), policy.id) {
                Some(i) => r matches Ok(saved) && saved@ == policy@ && final(self).policies()
                    == old(self).policies().update(i, policy@),
                None => r matches Err(StorageError::NotFound(m)) && m@ == policy_missing(
                    policy.id,
                ) && final(self).policies() == old(self).policies(),
            },
    {
        proof {
            if self.wf() {
                lemma_replace_policy_keeps_distinct(self.policies(), policy@);
            }
        }
        match self.find_policy(policy.id) {
            Some(i) => {
                let saved = policy.clone();
                self.policies.set(i, policy);
                proof {
                    assert(final(self).policies() =~= old(self).policies().update(
                        i as int,
                        policy@,
                    ));
                    assert(final(self).templates() =~= old(self).templates());
                }
                Ok(saved)
            },
            None => {
                Err(StorageError::NotFound(missing_message("Policy", policy.id)))
            },
        }
    }

    /// Removes the stored policy with the identifier; fails and changes
    /// nothing where there is none.
    fn delete(&mut self, id: u128) -> (r: Result<(), StorageError>)
        ensures
            old(self).wf() ==> final(self).wf(),
            final(self).templates() == old(self).templates(),
            match first_index(policy_ids(old(self).policies()), id) {
                Some(i) => r is Ok && final(self).policies() == old(self).policies().remove(i),
                None => r matches Err(StorageError::NotFound(m)) && m@ == policy_missing(id)
                    && final(self).policies() == old(self).policies(),
            },
    {
        proof {
            if self.wf() {
                lemma_remove_policy_keeps_distinct(self.policies(), id);
            }
        }
        match self.find_policy(id) {
            Some(i) => {
                self.policies.remove(i);
                proof {
                    assert(final(self).policies() =~= old(self).policies().remove(i as int));
                    assert(final(self).templates() =~= old(self).templates());
                }
                Ok(())
            },
            None => {
                Err(StorageError::NotFound(missing_message("Policy", id)))
            },
        }
    }
}

/// Inserting by version is inserting at the place behind which every
/// version is greater and before which the last is not.
proof fn lemma_insert_by_version_at(sorted: Seq<TemplateView>, t: TemplateView, p: int)
    requires
        0 <= p <= sorted.len(),
        p > 0 ==> sorted[p - 1].version <= t.version,
        forall|q: int| p <= q < sorted.len() ==> sorted[q].version > t.version,
    ensures
        insert_by_version(sorted, t) == sorted.insert(p, t),
    decreases sorted.len(),
{
    if sorted.len() == 0 || sorted.last().version <= t.version {
        if p < sorted.len() {
            assert(sorted[sorted.len() - 1].version > t.version);
        }
        assert(sorted.insert(p, t) =~= sorted.push(t));
    } else {
        lemma_insert_by_version_at(sorted.drop_last(), t, p);
        assert(sorted.drop_last().insert(p, t).push(sorted.last()) =~= sorted.insert(p, t));
    }
}

/// Inserting a name is putting it at the place before which the last name
/// stands before it and from which on it stands before every name.
proof fn lemma_insert_name_at(names: Seq<Seq<char>>, name: Seq<char>, p: int)
    requires
        0 <= p <= names.len(),
        p > 0 ==> names[p - 1] != name && lex_less(names[p - 1], name),
        forall|q: int| p <= q < names.len() ==> names[q] != name && !lex_less(names[q], name),
    ensures
        insert_name(names, name) == names.insert(p, name),
    decreases names.len(),
{
    if names.len() == 0 {
        assert(names.insert(p, name) =~= seq![name]);
    } else if p == names.len() {
        assert(names.insert(p, name) =~= names.push(name));
    } else {
        assert(names[names.len() - 1] != name);
        lemma_insert_name_at(names.drop_last(), name, p);
        assert(names.drop_last().insert(p, name).push(names.last()) =~= names.insert(p, name));
    }
}

/// Inserting a name that is there changes nothing.
proof fn lemma_insert_name_present(names: Seq<Seq<char>>, name: Seq<char>, p: int)
    requires
        0 <= p < names.len(),
        names[p] == name,
        forall|q: int| p < q < names.len() ==> names[q] != name && !lex_less(names[q], name),
    ensures
        insert_name(names, name) == names,
    decreases names.len(),
{
    if p < names.len() - 1 {
        assert(names[names.len() - 1] != name);
        lemma_insert_name_present(names.drop_last(), name, p);
        assert(names.drop_last().push(names.last()) =~= names);
    }
}

impl RuleTemplateStorage for InMemoryStorage {
    /// Saves a template: every stored template of its name loses its latest
    /// mark, then the template takes the place of the stored template with
    /// its identifier, or the end of the list.
    fn save(&mut self, template: RuleTemplate) -> (r: Result<RuleTemplate, StorageError>)
        ensures
            r matches Ok(saved) && saved@ == template@,
            final(self).templates() == after_save(old(self).templates(), template@),
            final(self).policies() == old(self).policies(),
            old(self).wf() ==> final(self).wf(),
    {
        proof {
            if self.wf() {
                lemma_save_keeps_distinct(self.templates(), template@);
            }
        }
        let saved = template.clone();
        let place = self.find_template(template.id);
        let mut i: usize = 0;
        while i < self.rule_templates.len()
            invariant
                i <= self.rule_templates.len(),
                self.rule_templates.len() == old(self).rule_templates.len(),
                self.policies == old(self).policies,
                forall|j: int|
                    0 <= j < i ==> (#[trigger] self.rule_templates@[j])@ == supersede(
                        old(self).templates(),
                        template.name@,
                    )[j],
                forall|j: int|
                    i <= j < self.rule_templates.len() ==> (#[trigger] self.rule_templates@[j])@
                        == old(self).templates()[j],
            decreases self.rule_templates.len() - i,
        {
            if same_text(self.rule_templates[i].name.as_str(), template.name.as_str()) {
                let mut marked = self.rule_templates[i].clone();
                marked.is_latest = false;
                self.rule_templates.set(i, marked);
            }
            i = i + 1;
        }
        match place {
            Some(at) => {
                self.rule_templates.set(at, template);
            },
            None => {
                self.rule_templates.push(template);
            },
        }
        proof {
            assert(final(self).templates() =~= after_save(old(self).templates(), template@));
            assert(final(self).policies() =~= old(self).policies());
        }
        Ok(saved)
    }

    /// The stored template with the identifier, if any.
    fn get_by_id(&self, id: u128) -> (r: Result<Option<RuleTemplate>, StorageError>)
        ensures
            r matches Ok(found) && match first_index(template_ids(self.templates()), id) {
                Some(i) => found matches Some(t) && t@ == self.templates()[i],
                None => found is None,
            },
    {
        match self.find_template(id) {
            Some(i) => Ok(Some(self.rule_templates[i].clone())),
            None => Ok(None),
        }
    }

    /// The stored templates with the name, lowest version first.
    fn get_versions_by_name(&self, name: &str) -> (r: Result<Vec<RuleTemplate>, StorageError>)
        ensures
            r matches Ok(versions) && template_list_views(versions@) == versions_of(
                self.templates(),
                name@,
            ),
    {
        let ghost all = self.templates();
        let mut versions: Vec<RuleTemplate> = Vec::new();
        let mut i: usize = 0;
        while i < self.rule_templates.len()
            invariant
                all == self.templates(),
                i <= self.rule_templates.len(),
                template_list_views(versions@) == versions_of(
                    all.take(i as int),
                    name@,
                ),
            decreases self.rule_templates.len() - i,
        {
            proof {
                assert(all.take(i + 1).drop_last() == all.take(i as int));
                assert(all.take(i + 1).last() == self.rule_templates@[i as int]@);
            }
            if same_text(self.rule_templates[i].name.as_str(), name) {
                let t = self.rule_templates[i].clone();
                let ghost before = template_list_views(versions@);
                let mut p: usize = versions.len();
                while p > 0 && versions[p - 1].version > t.version
                    invariant
                        p <= versions.len(),
                        forall|q: int|
                            p <= q < versions.len() ==> (#[trigger] versions@[q]).version
                                > t.version,
                    decreases p,
                {
                    p = p - 1;
                }
                versions.insert(p, t);
                proof {
                    lemma_insert_by_version_at(before, t@, p as int);
                    assert(template_list_views(versions@) =~= before.insert(
                        p as int,
                        t@,
                    ));
                }
            }
            i = i + 1;
        }
        proof {
            assert(all.take(all.len() as int) == all);
        }
        Ok(versions)
    }

    /// The first stored template with the name that is marked latest.
    fn get_latest_by_name(&self, name: &str) -> (r: Result<Option<RuleTemplate>, StorageError>)
        ensures
            r matches Ok(found) && match first_match(self.templates(), is_latest_of(name@)) {
                Some(i) => found matches Some(t) && t@ == self.templates()[i],
                None => found is None,
            },
    {
        let ghost all = self.templates();
        let ghost pred = is_latest_of(name@);
        let mut i: usize = 0;
        while i < self.rule_templates.len()
            invariant
                all == self.templates(),
                pred == is_latest_of(name@),
                i <= self.rule_templates.len(),
                first_match(all.take(i as int), pred) is None,
            decreases self.rule_templates.len() - i,
        {
            proof {
                assert(all.take(i + 1).drop_last() == all.take(i as int));
                assert(all.take(i + 1).last() == self.rule_templates@[i as int]@);
            }
            if self.rule_templates[i].is_latest && same_text(
                self.rule_templates[i].name.as_str(),
                name,
            ) {
                proof {
                    lemma_first_match_stays(all, pred, i + 1);
                }
                return Ok(Some(self.rule_templates[i].clone()));
            }
            i = i + 1;
        }
        proof {
            assert(all.take(all.len() as int) == all);
        }
        Ok(None)
    }

    /// The first stored template with the name and the version.
    fn get_by_name_and_version(&self, name: &str, version: u32) -> (r: Result<
        Option<RuleTemplate>,
        StorageError,
    >)
        ensures
            r matches Ok(found) && match first_match(
                self.templates(),
                is_version_of(name@, version),
            ) {
                Some(i) => found matches Some(t) && t@ == self.templates()[i],
                None => found is None,
            },
    {
        let ghost all = self.templates();
        let ghost pred = is_version_of(name@, version);
        let mut i: usize = 0;
        while i < self.rule_templates.len()
            invariant
                all == self.templates(),
                pred == is_version_of(name@, version),
                i <= self.rule_templates.len(),
                first_match(all.take(i as int), pred) is None,
            decreases self.rule_templates.len() - i,
        {
            proof {
                assert(all.take(i + 1).drop_last() == all.take(i as int));
                assert(all.take(i + 1).last() == self.rule_templates@[i as int]@);
            }
            if self.rule_templates[i].version == version && same_text(
                self.rule_templates[i].name.as_str(),
                name,
            ) {
                proof {
                    lemma_first_match_stays(all, pred, i + 1);
                }
                return Ok(Some(self.rule_templates[i].clone()));
            }
            i = i + 1;
        }
        proof {
            assert(all.take(all.len() as int) == all);
        }
        Ok(None)
    }

    /// Replaces the stored template with the identifier of `template`,
    /// touching no other; fails and changes nothing where there is none.
    fn update(&mut self, template: RuleTemplate) -> (r: Result<RuleTemplate, StorageError>)
        ensures
            old(self).wf() ==> final(self).wf(),
            final(self).policies() == old(self).policies(),
            match first_index(template_ids(old(self).templates()), template.id) {
                Some(i) => r matches Ok(saved) && saved@ == template@ && final(self).templates()
                    == old(self).templates().update(i, template@),
                None => r matches Err(StorageError::NotFound(m)) && m@ == template_missing(
                    template.id,
                ) && final(self).templates() == old(self).templates(),
            },
    {
        proof {
            if self.wf() {
                lemma_replace_template_keeps_distinct(self.templates(), template@);
            }
        }
        match self.find_template(template.id) {
            Some(i) => {
                let saved = template.clone();
                self.rule_templates.set(i, template);
                proof {
                    assert(final(self).templates() =~= old(self).templates().update(
                        i as int,
                        template@,
                    ));
                    assert(final(self).policies() =~= old(self).policies());
                }
                Ok(saved)
            },
            None => Err(StorageError::NotFound(missing_message("RuleTemplate", template.id))),
        }
    }

    /// The names of the templates marked latest, each once, in ascending
    /// order.
    fn list_names(&self) -> (r: Result<Vec<String>, StorageError>)
        ensures
            r matches Ok(names) && text_views(names@) == latest_names(
                self.templates(),
            ),
    {
        let ghost all = self.templates();
        let mut names: Vec<String> = Vec::new();
        let mut i: usize = 0;
        while i < self.rule_templates.len()
            invariant
                all == self.templates(),
                i <= self.rule_templates.len(),
                text_views(names@) == latest_names(all.take(i as int)),
            decreases self.rule_templates.len() - i,
        {
            proof {
                assert(all.take(i + 1).drop_last() == all.take(i as int));
                assert(all.take(i + 1).last() == self.rule_templates@[i as int]@);
            }
            if self.rule_templates[i].is_latest {
                let name = self.rule_templates[i].name.clone();
                let ghost before = text_views(names@);
                let mut p: usize = names.len();
                let mut present = false;
                let mut placed = false;
                while p > 0 && !present && !placed
                    invariant
                        before == text_views(names@),
                        p <= names.len(),
                        !(present && placed),
                        present ==> p < names.len() && before[p as int] == name@,
                        placed ==> p > 0 && before[p - 1] != name@ && lex_less(
                            before[p - 1],
                            name@,
                        ),
                        forall|q: int|
                            (if present {
                                p + 1
                            } else {
                                p as int
                            }) <= q < names.len() ==> (#[trigger] before[q]) != name@ && !lex_less(
                                before[q],
                                name@,
                            ),
                    decreases p + if present || placed { 0int } else { 1 },
                {
                    assert(before[p - 1] == names@[p - 1]@);
                    if same_text(names[p - 1].as_str(), name.as_str()) {
                        present = true;
                        p = p - 1;
                    } else if text_less(names[p - 1].as_str(), name.as_str()) {
                        placed = true;
                    } else {
                        p = p - 1;
                    }
                }
                if !present {
                    names.insert(p, name);
                    proof {
                        lemma_insert_name_at(before, name@, p as int);
                        assert(text_views(names@) =~= before.insert(
                            p as int,
                            name@,
                        ));
                    }
                } else {
                    proof {
                        lemma_insert_name_present(before, name@, p as int);
                    }
                }
            }
            i = i + 1;
        }
        proof {
            assert(all.take(all.len() as int) == all);
        }
        Ok(names)
    }
}

} // verus!

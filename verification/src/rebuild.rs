//! The rebuild of the artifact: which policies to bundle, which templates
//! to fetch and compile for them, and what assembling them comes to.

use std::collections::HashMap;
use vstd::prelude::*;
use vstd::string::*;
use crate::bundler::{
    bundle_text, first_unresolved, lemma_wrappers_cover_references, referenced_templates,
    template_views, Bundler, LinkError,
};
use crate::compiler::{
    has_rule_keyword, reports, unit_text, CompilerError, RuleCompiler, StructuralFault,
};
use crate::error::ApiError;
use crate::models::{opt_policy, policy_views, Policy, PolicyView, RuleTemplate, TemplateView};
use crate::storage::{
    after_save, after_save_policy, first_index, lemma_first_index, lemma_found_when_stored,
    policy_ids, template_ids,
};

verus! {

/// The policies to bundle: those listed, and behind them the policy just
/// written where the listing does not show it yet.
pub open spec fn spliced(listed: Seq<PolicyView>, written: Option<PolicyView>) -> Seq<PolicyView> {
    match written {
        Some(p) => if first_index(policy_ids(listed), p.id) is None {
            listed.push(p)
        } else {
            listed
        },
        None => listed,
    }
}

/// Adds the policy just written to those listed, unless it is among them.
pub fn splice_policy(listed: Vec<Policy>, written: Option<Policy>) -> (all: Vec<Policy>)
    ensures
        policy_views(all@) == spliced(policy_views(listed@), opt_policy(written)),
{
    let mut all = listed;
    match written {
        Some(p) => {
            let ghost ids = policy_ids(policy_views(all@));
            let mut i: usize = 0;
            let mut found = false;
            while i < all.len() && !found
                invariant
                    all == listed,
                    ids == policy_ids(policy_views(all@)),
                    i <= all.len(),
                    !found ==> first_index(ids.take(i as int), p.id) is None,
                    found ==> first_index(ids, p.id) is Some,
                decreases all.len() - i + if found { 0int } else { 1 },
            {
                proof {
                    assert(ids.take(i + 1).drop_last() == ids.take(i as int));
                    assert(ids.take(i + 1).last() == all@[i as int].id);
                }
                if all[i].id == p.id {
                    found = true;
                    proof {
                        lemma_first_index(ids, p.id);
                        if first_index(ids, p.id) is None {
                            assert(ids[i as int] == p.id);
                        }
                    }
                } else {
                    i = i + 1;
                }
            }
            if !found {
                proof {
                    assert(ids.take(all.len() as int) == ids);
                }
                all.push(p);
                proof {
                    assert(policy_views(all@) =~= policy_views(listed@).push(p@));
                }
            }
            all
        },
        None => all,
    }
}

/// A template with its source compiled into it.
pub open spec fn compiled(t: TemplateView) -> TemplateView {
    TemplateView { compiled_js: Some(unit_text(t.source)), ..t }
}

/// Compiles a template's source into it. Fails exactly where the source
/// names neither a rule declaration nor a condition.
pub fn compile_template(compiler: &RuleCompiler, template: RuleTemplate) -> (r: Result<
    RuleTemplate,
    CompilerError,
>)
    ensures
        has_rule_keyword(template.source@) ==> (r matches Ok(t) && t@ == compiled(template@)),
        !has_rule_keyword(template.source@) ==> (r matches Err(e) && reports(
            e,
            StructuralFault::MissingKeyword,
        )),
{
    match compiler.compile(template.source.as_str()) {
        Ok(unit) => {
            let mut t = template;
            t.compiled_js = Some(unit);
            Ok(t)
        },
        Err(e) => Err(e),
    }
}

/// What was found for a template: its identifier, and the template as
/// stored, if any.
pub type Fetched = (u128, Option<RuleTemplate>);

/// The views of what was found for a list of templates.
pub open spec fn fetched_views(fetched: Seq<Fetched>) -> Seq<(u128, Option<TemplateView>)> {
    Seq::new(
        fetched.len(),
        |i: int|
            (
                fetched[i].0,
                match fetched[i].1 {
                    Some(t) => Some(t@),
                    None => None,
                },
            ),
    )
}

/// Whether some template found has source that does not compile.
pub open spec fn any_uncompilable(fetched: Seq<(u128, Option<TemplateView>)>) -> bool {
    exists|k: int|
        0 <= k < fetched.len() && (#[trigger] fetched[k]).1 is Some && !has_rule_keyword(
            fetched[k].1->0.source,
        )
}

/// The compiled templates by identifier: each template found, compiled,
/// under the identifier it was asked for by; a later find supersedes an
/// earlier one for the same identifier.
pub open spec fn gathered(fetched: Seq<(u128, Option<TemplateView>)>) -> Map<u128, TemplateView>
    decreases fetched.len(),
{
    if fetched.len() == 0 {
        Map::empty()
    } else {
        let rest = gathered(fetched.drop_last());
        match fetched.last().1 {
            Some(t) => rest.insert(fetched.last().0, compiled(t)),
            None => rest,
        }
    }
}

/// Compiles the templates found and gathers them by identifier. Fails
/// exactly where one of them does not compile.
pub fn gather_templates(compiler: &RuleCompiler, fetched: &Vec<Fetched>) -> (r: Result<
    HashMap<u128, RuleTemplate>,
    CompilerError,
>)
    ensures
        match r {
            Ok(templates) => !any_uncompilable(fetched_views(fetched@)) && template_views(
                templates@,
            ) == gathered(fetched_views(fetched@)),
            Err(_) => any_uncompilable(fetched_views(fetched@)),
        },
{
    let ghost views = fetched_views(fetched@);
    let mut templates: HashMap<u128, RuleTemplate> = HashMap::new();
    let mut i: usize = 0;
    while i < fetched.len()
        invariant
            views == fetched_views(fetched@),
            i <= fetched.len(),
            template_views(templates@) == gathered(views.take(i as int)),
            forall|k: int|
                0 <= k < i ==> !((#[trigger] views[k]).1 is Some && !has_rule_keyword(
                    views[k].1->0.source,
                )),
        decreases fetched.len() - i,
    {
        proof {
            assert(views.take(i + 1).drop_last() == views.take(i as int));
            assert(views.take(i + 1).last() == views[i as int]);
        }
        match &fetched[i].1 {
            Some(t) => {
                match compile_template(compiler, t.clone()) {
                    Ok(unit) => {
                        let ghost before = templates@;
                        templates.insert(fetched[i].0, unit);
                        proof {
                            assert(template_views(templates@) =~= template_views(before).insert(
                                fetched@[i as int].0,
                                unit@,
                            ));
                        }
                    },
                    Err(e) => {
                        proof {
                            assert(views[i as int].1 is Some);
                        }
                        return Err(e);
                    },
                }
            },
            None => {},
        }
        i = i + 1;
    }
    proof {
        assert(views.take(fetched.len() as int) == views);
    }
    Ok(templates)
}

/// The detail of the error for a bundle that could not be linked.
pub open spec fn bundling_failed(e: LinkError) -> Seq<char> {
    "Bundling failed: "@ + e.text()
}

/// Whether `r` is what assembling the policies from the templates found
/// comes to: a compilation error where a template found does not compile;
/// else an internal error that names the first policy whose template was
/// not found; else the artifact that links every policy with the compiled
/// form of its template.
pub open spec fn is_assembled(
    r: Result<Vec<u8>, ApiError>,
    policies: Seq<PolicyView>,
    fetched: Seq<(u128, Option<TemplateView>)>,
) -> bool {
    if any_uncompilable(fetched) {
        r matches Err(ApiError::Compilation(_))
    } else {
        match first_unresolved(policies, gathered(fetched).dom()) {
            None => r matches Ok(bytes) && bytes@ == vstd::utf8::encode_utf8(
                bundle_text(policies, gathered(fetched)),
            ),
            Some(i) => 0 <= i < policies.len() && (r matches Err(ApiError::Internal(m)) && m@
                == bundling_failed(
                LinkError { policy_id: policies[i].id, template_id: policies[i].rule_template_id },
            )),
        }
    }
}

/// What a consistent backend finds for the identifiers asked for, one by
/// one.
pub open spec fn found_for(templates: Seq<TemplateView>, ids: Seq<u128>) -> Seq<
    (u128, Option<TemplateView>),
> {
    Seq::new(
        ids.len(),
        |k: int|
            (
                ids[k],
                match first_index(template_ids(templates), ids[k]) {
                    Some(i) => Some(templates[i]),
                    None => None,
                },
            ),
    )
}

/// Whether `r` is what a rebuild over what is stored comes to: the
/// policies stored, with the policy just written behind them unless it is
/// among them, assembled from the templates stored under the identifiers
/// that they refer to.
pub open spec fn is_rebuilt(
    r: Result<Vec<u8>, ApiError>,
    templates: Seq<TemplateView>,
    policies: Seq<PolicyView>,
    written: Option<PolicyView>,
) -> bool {
    let all = spliced(policies, written);
    is_assembled(r, all, found_for(templates, referenced_templates(all)))
}

/// What is stored is well linked: every template compiles, and every
/// policy refers to a template that is stored.
pub open spec fn well_linked(templates: Seq<TemplateView>, policies: Seq<PolicyView>) -> bool {
    &&& forall|i: int|
        0 <= i < templates.len() ==> has_rule_keyword((#[trigger] templates[i]).source)
    &&& forall|j: int|
        0 <= j < policies.len() ==> first_index(
            template_ids(templates),
            (#[trigger] policies[j]).rule_template_id,
        ) is Some
}

/// The templates gathered are those that were found.
pub proof fn lemma_gathered_are_found(fetched: Seq<(u128, Option<TemplateView>)>, id: u128)
    ensures
        gathered(fetched).dom().contains(id) <==> exists|k: int|
            0 <= k < fetched.len() && (#[trigger] fetched[k]).0 == id && fetched[k].1 is Some,
    decreases fetched.len(),
{
    if fetched.len() > 0 {
        let front = fetched.drop_last();
        lemma_gathered_are_found(front, id);
        if gathered(front).dom().contains(id) {
            let k = choose|k: int|
                0 <= k < front.len() && (#[trigger] front[k]).0 == id && front[k].1 is Some;
            assert(fetched[k].0 == id && fetched[k].1 is Some);
        }
        if exists|k: int|
            0 <= k < fetched.len() && (#[trigger] fetched[k]).0 == id && fetched[k].1 is Some {
            let k = choose|k: int|
                0 <= k < fetched.len() && (#[trigger] fetched[k]).0 == id && fetched[k].1 is Some;
            if k < front.len() {
                assert(front[k].0 == id && front[k].1 is Some);
            }
        }
    }
}

/// Every policy resolves exactly when the template of each is known.
pub proof fn lemma_resolved_when_known(policies: Seq<PolicyView>, known: Set<u128>)
    ensures
        first_unresolved(policies, known) is None <==> forall|j: int|
            0 <= j < policies.len() ==> known.contains((#[trigger] policies[j]).rule_template_id),
    decreases policies.len(),
{
    if policies.len() > 0 {
        let front = policies.drop_last();
        lemma_resolved_when_known(front, known);
        if first_unresolved(policies, known) is None {
            assert forall|j: int| 0 <= j < policies.len() implies known.contains(
                (#[trigger] policies[j]).rule_template_id,
            ) by {
                if j < front.len() {
                    assert(known.contains(front[j].rule_template_id));
                }
            }
        } else if first_unresolved(front, known) is None {
            assert(!known.contains(policies[policies.len() - 1].rule_template_id));
        } else {
            let j = choose|j: int|
                0 <= j < front.len() && !known.contains((#[trigger] front[j]).rule_template_id);
            assert(!known.contains(policies[j].rule_template_id));
        }
    }
}

/// Saving a template that compiles keeps what is stored well linked.
pub proof fn lemma_save_keeps_links(
    templates: Seq<TemplateView>,
    policies: Seq<PolicyView>,
    t: TemplateView,
)
    requires
        well_linked(templates, policies),
        has_rule_keyword(t.source),
    ensures
        well_linked(after_save(templates, t), policies),
{
    let after = after_save(templates, t);
    let ids = template_ids(templates);
    lemma_first_index(ids, t.id);
    assert forall|i: int| 0 <= i < after.len() implies has_rule_keyword(
        (#[trigger] after[i]).source,
    ) by {
        if i < templates.len() {
            assert(has_rule_keyword(templates[i].source));
        }
    }
    assert forall|j: int| 0 <= j < policies.len() implies first_index(
        template_ids(after),
        (#[trigger] policies[j]).rule_template_id,
    ) is Some by {
        let id = policies[j].rule_template_id;
        lemma_found_when_stored(ids, id);
        let k = choose|k: int| 0 <= k < ids.len() && ids[k] == id;
        assert(template_ids(after)[k] == id);
        lemma_found_when_stored(template_ids(after), id);
    }
}

/// Saving a policy that refers to a stored template keeps what is stored
/// well linked.
pub proof fn lemma_save_policy_keeps_links(
    templates: Seq<TemplateView>,
    policies: Seq<PolicyView>,
    p: PolicyView,
)
    requires
        well_linked(templates, policies),
        first_index(template_ids(templates), p.rule_template_id) is Some,
    ensures
        well_linked(templates, after_save_policy(policies, p)),
{
    let after = after_save_policy(policies, p);
    lemma_first_index(policy_ids(policies), p.id);
    assert forall|j: int| 0 <= j < after.len() implies first_index(
        template_ids(templates),
        (#[trigger] after[j]).rule_template_id,
    ) is Some by {
        if j < policies.len() && after[j] != p {
            assert(after[j] == policies[j]);
        }
    }
}

/// A rebuild over what is well linked succeeds: no template fails to
/// compile and no policy fails to link.
pub proof fn lemma_well_linked_rebuilds(
    r: Result<Vec<u8>, ApiError>,
    templates: Seq<TemplateView>,
    policies: Seq<PolicyView>,
    written: Option<PolicyView>,
)
    requires
        well_linked(templates, spliced(policies, written)),
        is_rebuilt(r, templates, policies, written),
    ensures
        r is Ok,
{
    let all = spliced(policies, written);
    let ids = referenced_templates(all);
    let found = found_for(templates, ids);
    let stored = template_ids(templates);
    assert forall|k: int| 0 <= k < found.len() implies !((#[trigger] found[k]).1 is Some
        && !has_rule_keyword(found[k].1->0.source)) by {
        lemma_first_index(stored, ids[k]);
    }
    assert forall|j: int| 0 <= j < all.len() implies gathered(found).dom().contains(
        (#[trigger] all[j]).rule_template_id,
    ) by {
        let id = all[j].rule_template_id;
        lemma_wrappers_cover_references(all, id);
        let k = choose|k: int| 0 <= k < ids.len() && ids[k] == id;
        assert(found[k].0 == id && found[k].1 is Some);
        lemma_gathered_are_found(found, id);
    }
    lemma_resolved_when_known(all, gathered(found).dom());
}

/// Builds the artifact for the policies from the templates found.
pub fn assemble_bundle(compiler: &RuleCompiler, policies: &[Policy], fetched: &Vec<Fetched>) -> (r:
    Result<Vec<u8>, ApiError>)
    ensures
        r matches Ok(bytes) ==> vstd::utf8::valid_utf8(bytes@),
        is_assembled(r, policy_views(policies@), fetched_views(fetched@)),
{
    let templates = match gather_templates(compiler, fetched) {
        Ok(templates) => templates,
        Err(e) => {
            return Err(ApiError::from(e));
        },
    };
    proof {
        assert(template_views(templates@).dom() =~= templates@.dom());
    }
    match Bundler::bundle_all(policies, &templates) {
        Ok(bytes) => Ok(bytes),
        Err(e) => Err(
            ApiError::Internal(String::from_str("Bundling failed: ").concat(e.to_string().as_str())),
        ),
    }
}

} // verus!

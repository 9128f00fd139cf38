//! The bundler: links policies and compiled templates into one artifact
//! with a dispatch table keyed by policy.

use std::collections::HashMap;
use vstd::prelude::*;
use vstd::string::*;
use vstd::utf8::{decode_utf8, encode_utf8, valid_utf8};
use crate::ident::{hyphenated_text, simple_text, to_hyphenated, to_simple};
use crate::json::{printed_json, Json};
use crate::models::{policy_views, Policy, PolicyView, RuleTemplate, TemplateView};

verus! {

/// Opens every artifact: the dispatch table, the function that fills it,
/// and the dispatch entry point, which answers an unknown policy with an
/// error object.
pub const BUNDLE_RUNTIME: &'static str = "\n            // Global Runtime Map\n            var __POLICY_MAP = {};\n            \n            // Helper to register policies\n            function __register_policy(id, ruleFn, metadata) {\n                __POLICY_MAP[id] = {\n                    rule: ruleFn,\n                    metadata: metadata\n                };\n            }\n\n            // Global Execute Function (Entry Point)\n            function __execute_bundle(policyId, factsJson) {\n                var policy = __POLICY_MAP[policyId];\n                if (!policy) {\n                     return JSON.stringify({ error: \"Policy not found in bundle: \" + policyId });\n                }\n                \n                var facts = JSON.parse(factsJson);\n                var metadata = policy.metadata;\n                \n                // Execute rule (assuming ruleFn follows the { condition, action } pattern or simpler)\n                // Our compiled templates usually return a rule object or builder.\n                // We need to adapt based on how `compiled_js` looks.\n                \n                // Let's assume the compiled_js defines a `rule` variable or similar.\n                // To isolate them, we wrap each in a closure.\n                \n                try {\n                    var result = policy.rule(facts, metadata);\n                    return JSON.stringify(result);\n                } catch (e) {\n                    return JSON.stringify({ error: e.toString() });\n                }\n            }\n        ";

/// The prefix of the name of a template's wrapper function.
pub const WRAPPER_PREFIX: &'static str = "__template_";

/// Stands before the name of a wrapper function.
pub const WRAPPER_OPEN: &'static str = "\n                function ";

/// Stands between the name of a wrapper function and the unit it wraps.
pub const WRAPPER_BODY: &'static str = "(facts, metadata) {\n                    // Define __execute within this scope\n                    ";

/// Closes a wrapper function: the call of the unit's own entry point.
pub const WRAPPER_CLOSE: &'static str = "\n                    \n                    // Call the internal __execute function with JSON strings\n                    return __execute(JSON.stringify(facts), JSON.stringify(metadata));\n                }\n                ";

/// Stands before the policy identifier of a registration.
pub const REGISTER_OPEN: &'static str = "\n                    __register_policy(\"";

/// Stands between the policy identifier and the wrapper's name.
pub const REGISTER_NAME: &'static str = "\", ";

/// Stands between the wrapper's name and the metadata.
pub const REGISTER_METADATA: &'static str = ", ";

/// Closes a registration.
pub const REGISTER_CLOSE: &'static str = ");\n                    ";


/// A policy could not be linked: its template is not among those supplied.
#[derive(Debug, Clone, Copy, PartialEq, Eq)]
pub struct LinkError {
    pub policy_id: u128,
    pub template_id: u128,
}

impl LinkError {
    /// The error as one line of text.
    pub open spec fn text(self) -> Seq<char> {
        "policy "@ + hyphenated_text(self.policy_id) + " refers to template "@ + hyphenated_text(
            self.template_id,
        ) + ", which was not supplied"@
    }

    /// The error as one line of text, naming the policy and the template.
    pub fn to_string(&self) -> (s: String)
        ensures
            s@ == self.text(),
    {
        let mut s = String::from_str("policy ");
        s.append(to_hyphenated(self.policy_id).as_str());
        s.append(" refers to template ");
        s.append(to_hyphenated(self.template_id).as_str());
        s.append(", which was not supplied");
        s
    }
}

/// One entry of an artifact's dispatch table: the policy it is keyed by,
/// the template whose wrapper it is bound to, and the metadata snapshot.
pub struct DispatchEntry {
    pub policy_id: u128,
    pub template_id: u128,
    pub metadata: Json,
}

/// What an artifact is made of: one wrapper per template, in the order
/// given, and the dispatch table.
pub struct LinkPlan {
    pub wrappers: Seq<u128>,
    pub table: Seq<DispatchEntry>,
}

/// The views of a map of templates.
pub open spec fn template_views(templates: Map<u128, RuleTemplate>) -> Map<u128, TemplateView> {
    templates.map_values(|t: RuleTemplate| t@)
}

/// The distinct templates that the policies refer to, each at the place of
/// its first reference.
pub open spec fn referenced_templates(policies: Seq<PolicyView>) -> Seq<u128>
    decreases policies.len(),
{
    if policies.len() == 0 {
        Seq::empty()
    } else {
        let rest = referenced_templates(policies.drop_last());
        let id = policies.last().rule_template_id;
        if rest.contains(id) {
            rest
        } else {
            rest.push(id)
        }
    }
}

/// The dispatch table for a list of policies: one entry per policy, in the
/// order of the list.
pub open spec fn dispatch_table(policies: Seq<PolicyView>) -> Seq<DispatchEntry> {
    Seq::new(
        policies.len(),
        |i: int|
            DispatchEntry {
                policy_id: policies[i].id,
                template_id: policies[i].rule_template_id,
                metadata: policies[i].metadata,
            },
    )
}

/// The plan by which a list of policies is linked.
pub open spec fn link(policies: Seq<PolicyView>) -> LinkPlan {
    LinkPlan { wrappers: referenced_templates(policies), table: dispatch_table(policies) }
}

/// The first policy whose template is not among the known ones, by its
/// place in the list.
pub open spec fn first_unresolved(policies: Seq<PolicyView>, known: Set<u128>) -> Option<int>
    decreases policies.len(),
{
    if policies.len() == 0 {
        None
    } else {
        match first_unresolved(policies.drop_last(), known) {
            Some(i) => Some(i),
            None => if known.contains(policies.last().rule_template_id) {
                None
            } else {
                Some(policies.len() - 1)
            },
        }
    }
}

/// The executable unit that a template contributes; empty where it was
/// never compiled.
pub open spec fn unit_of(t: TemplateView) -> Seq<char> {
    match t.compiled_js {
        Some(unit) => unit,
        None => Seq::empty(),
    }
}

/// The name of the wrapper function of a template.
pub open spec fn wrapper_name(template_id: u128) -> Seq<char> {
    WRAPPER_PREFIX@ + simple_text(template_id)
}

/// The wrapper function that gives a unit a scope of its own.
pub open spec fn wrapper_text(template_id: u128, unit: Seq<char>) -> Seq<char> {
    WRAPPER_OPEN@ + wrapper_name(template_id) + WRAPPER_BODY@ + unit + WRAPPER_CLOSE@
}

/// The wrapper functions for a list of templates, in order.
pub open spec fn wrappers_text(ids: Seq<u128>, templates: Map<u128, TemplateView>) -> Seq<char>
    decreases ids.len(),
{
    if ids.len() == 0 {
        Seq::empty()
    } else {
        wrappers_text(ids.drop_last(), templates) + wrapper_text(
            ids.last(),
            unit_of(templates[ids.last()]),
        )
    }
}

/// The statement that enters one policy into the dispatch table.
pub open spec fn registration_text(entry: DispatchEntry) -> Seq<char> {
    REGISTER_OPEN@ + hyphenated_text(entry.policy_id) + REGISTER_NAME@ + wrapper_name(
        entry.template_id,
    ) + REGISTER_METADATA@ + printed_json(entry.metadata) + REGISTER_CLOSE@
}

/// The registrations for a dispatch table, in order.
pub open spec fn registrations_text(table: Seq<DispatchEntry>) -> Seq<char>
    decreases table.len(),
{
    if table.len() == 0 {
        Seq::empty()
    } else {
        registrations_text(table.drop_last()) + registration_text(table.last())
    }
}

/// The text of the artifact for a plan: runtime, wrappers, registrations.
pub open spec fn render(plan: LinkPlan, templates: Map<u128, TemplateView>) -> Seq<char> {
    BUNDLE_RUNTIME@ + wrappers_text(plan.wrappers, templates) + registrations_text(plan.table)
}

/// The text of the artifact for a list of policies and their templates.
pub open spec fn bundle_text(policies: Seq<PolicyView>, templates: Map<u128, TemplateView>) -> Seq<
    char,
> {
    render(link(policies), templates)
}

/// The wrappers of a plan are exactly the templates referred to.
pub proof fn lemma_wrappers_cover_references(policies: Seq<PolicyView>, id: u128)
    ensures
        referenced_templates(policies).contains(id) <==> exists|i: int|
            0 <= i < policies.len() && (#[trigger] policies[i]).rule_template_id == id,
    decreases policies.len(),
{
    if policies.len() > 0 {
        let front = policies.drop_last();
        let rest = referenced_templates(front);
        let last_id = policies.last().rule_template_id;
        lemma_wrappers_cover_references(front, id);
        let all = referenced_templates(policies);
        if rest.contains(id) {
            let k = choose|k: int| 0 <= k < rest.len() && rest[k] == id;
            assert(all[k] == id);
            let i = choose|i: int| 0 <= i < front.len() && (#[trigger] front[i]).rule_template_id == id;
            assert(policies[i].rule_template_id == id);
        } else if last_id == id {
            assert(all.last() == id);
            assert(policies[policies.len() - 1].rule_template_id == id);
        } else {
            if all.contains(id) {
                let k = choose|k: int| 0 <= k < all.len() && all[k] == id;
                if k < rest.len() {
                    assert(rest[k] == id);
                }
            }
            if exists|i: int| 0 <= i < policies.len() && (#[trigger] policies[i]).rule_template_id == id {
                let i = choose|i: int| 0 <= i < policies.len() && (#[trigger] policies[i]).rule_template_id == id;
                assert(front[i].rule_template_id == id);
            }
        }
    }
}

/// No template gets two wrappers.
pub proof fn lemma_wrappers_distinct(policies: Seq<PolicyView>)
    ensures
        referenced_templates(policies).no_duplicates(),
    decreases policies.len(),
{
    if policies.len() > 0 {
        lemma_wrappers_distinct(policies.drop_last());
    }
}

/// Different templates get wrapper functions of different names.
pub proof fn lemma_wrapper_names_differ(a: u128, b: u128)
    requires
        a != b,
    ensures
        wrapper_name(a) != wrapper_name(b),
{
    crate::ident::lemma_identifier_text_injective(a, b);
    let p = WRAPPER_PREFIX@;
    if wrapper_name(a) == wrapper_name(b) {
        assert((p + simple_text(a)).subrange(p.len() as int, (p + simple_text(a)).len() as int)
            =~= simple_text(a));
        assert((p + simple_text(b)).subrange(p.len() as int, (p + simple_text(b)).len() as int)
            =~= simple_text(b));
    }
}

/// Policies that share one template are linked with exactly one wrapper,
/// that of the shared template, and with one dispatch entry each, every
/// entry keeping its own policy's identifier and metadata.
pub proof fn lemma_shared_template_linked_once(policies: Seq<PolicyView>, template_id: u128)
    requires
        policies.len() >= 1,
        forall|i: int| 0 <= i < policies.len() ==> (#[trigger] policies[i]).rule_template_id == template_id,
    ensures
        link(policies).wrappers == seq![template_id],
        link(policies).table.len() == policies.len(),
        forall|i: int|
            0 <= i < policies.len() ==> {
                let entry = #[trigger] link(policies).table[i];
                &&& entry.policy_id == policies[i].id
                &&& entry.template_id == template_id
                &&& entry.metadata == policies[i].metadata
            },
    decreases policies.len(),
{
    let front = policies.drop_last();
    if front.len() == 0 {
        assert(referenced_templates(front) =~= Seq::empty());
        assert(referenced_templates(policies) =~= seq![template_id]);
    } else {
        assert forall|i: int| 0 <= i < front.len() implies (#[trigger] front[i]).rule_template_id == template_id by {
            assert(policies[i].rule_template_id == template_id);
        }
        lemma_shared_template_linked_once(front, template_id);
        assert(referenced_templates(front)[0] == template_id);
    }
}

/// Linking reads nothing from a policy but its identifier, its template
/// reference and its metadata: lists that agree on those link alike.
pub proof fn lemma_link_reads_bindings_only(a: Seq<PolicyView>, b: Seq<PolicyView>)
    requires
        a.len() == b.len(),
        forall|i: int|
            0 <= i < a.len() ==> (#[trigger] a[i]).id == b[i].id && a[i].rule_template_id
                == b[i].rule_template_id && a[i].metadata == b[i].metadata,
    ensures
        link(a) == link(b),
    decreases a.len(),
{
    if a.len() > 0 {
        assert forall|i: int| 0 <= i < a.drop_last().len() implies (#[trigger] a.drop_last()[i]).id
            == b.drop_last()[i].id && a.drop_last()[i].rule_template_id
            == b.drop_last()[i].rule_template_id && a.drop_last()[i].metadata
            == b.drop_last()[i].metadata by {
            assert(a[i].id == b[i].id);
        }
        lemma_link_reads_bindings_only(a.drop_last(), b.drop_last());
        assert(a[a.len() - 1].id == b[a.len() - 1].id);
    }
    assert(dispatch_table(a) =~= dispatch_table(b));
}

/// Tells whether `id` is among `ids`.
fn has_id(ids: &Vec<u128>, id: u128) -> (b: bool)
    ensures
        b == ids@.contains(id),
{
    let mut i: usize = 0;
    while i < ids.len()
        invariant
            i <= ids.len(),
            forall|j: int| 0 <= j < i ==> ids@[j] != id,
        decreases ids.len() - i,
    {
        if ids[i] == id {
            return true;
        }
        i = i + 1;
    }
    false
}

/// Finds the first policy whose template is not supplied.
fn find_unresolved(policies: &[Policy], templates: &HashMap<u128, RuleTemplate>) -> (r: Option<
    usize,
>)
    ensures
        match r {
            Some(i) => first_unresolved(policy_views(policies@), templates@.dom()) == Some(
                i as int,
            ) && i < policies@.len(),
            None => first_unresolved(policy_views(policies@), templates@.dom()) is None,
        },
{
    let ghost views = policy_views(policies@);
    let mut i: usize = 0;
    while i < policies.len()
        invariant
            views == policy_views(policies@),
            i <= policies.len(),
            first_unresolved(views.take(i as int), templates@.dom()) is None,
        decreases policies.len() - i,
    {
        proof {
            assert(views.take(i + 1).drop_last() == views.take(i as int));
            assert(views.take(i + 1).last() == policies@[i as int]@);
        }
        if !templates.contains_key(&policies[i].rule_template_id) {
            proof {
                lemma_first_unresolved_stays(views, templates@.dom(), i + 1);
            }
            return Some(i);
        }
        i = i + 1;
    }
    proof {
        assert(views.take(policies.len() as int) == views);
    }
    None
}

/// Once a policy has been found unresolved, a longer list has the same
/// first unresolved policy.
proof fn lemma_first_unresolved_stays(policies: Seq<PolicyView>, known: Set<u128>, n: int)
    requires
        0 <= n <= policies.len(),
        first_unresolved(policies.take(n), known) is Some,
    ensures
        first_unresolved(policies, known) == first_unresolved(policies.take(n), known),
    decreases policies.len() - n,
{
    if n < policies.len() {
        assert(policies.take(n + 1).drop_last() == policies.take(n));
        lemma_first_unresolved_stays(policies, known, n + 1);
    } else {
        assert(policies.take(n) == policies);
    }
}

/// Where every policy resolves, every template of the plan is supplied.
proof fn lemma_resolved_wrappers_known(policies: Seq<PolicyView>, known: Set<u128>)
    requires
        first_unresolved(policies, known) is None,
    ensures
        forall|k: int|
            0 <= k < referenced_templates(policies).len() ==> known.contains(
                #[trigger] referenced_templates(policies)[k],
            ),
    decreases policies.len(),
{
    if policies.len() > 0 {
        let rest = referenced_templates(policies.drop_last());
        let all = referenced_templates(policies);
        lemma_resolved_wrappers_known(policies.drop_last(), known);
        assert forall|k: int| 0 <= k < all.len() implies known.contains(#[trigger] all[k]) by {
            if k < rest.len() {
                assert(all[k] == rest[k]);
            }
        }
    }
}

/// Collects the distinct templates referred to, in the order of their
/// first reference.
pub fn collect_templates(policies: &[Policy]) -> (ids: Vec<u128>)
    ensures
        ids@ == referenced_templates(policy_views(policies@)),
{
    let ghost views = policy_views(policies@);
    let mut ids: Vec<u128> = Vec::new();
    let mut i: usize = 0;
    while i < policies.len()
        invariant
            views == policy_views(policies@),
            i <= policies.len(),
            ids@ == referenced_templates(views.take(i as int)),
        decreases policies.len() - i,
    {
        proof {
            assert(views.take(i + 1).drop_last() == views.take(i as int));
            assert(views.take(i + 1).last() == policies@[i as int]@);
        }
        let id = policies[i].rule_template_id;
        if !has_id(&ids, id) {
            ids.push(id);
        }
        i = i + 1;
    }
    proof {
        assert(views.take(policies.len() as int) == views);
    }
    ids
}

/// Appends the wrapper function of one template.
fn append_wrapper(out: &mut String, template: &RuleTemplate, template_id: u128)
    ensures
        final(out)@ == old(out)@ + wrapper_text(template_id, unit_of(template@)),
{
    let name = to_simple(template_id);
    out.append(WRAPPER_OPEN);
    out.append(WRAPPER_PREFIX);
    out.append(name.as_str());
    out.append(WRAPPER_BODY);
    match &template.compiled_js {
        Some(unit) => {
            out.append(unit.as_str());
        },
        None => {},
    }
    out.append(WRAPPER_CLOSE);
    proof {
        assert(final(out)@ =~= old(out)@ + wrapper_text(template_id, unit_of(template@)));
    }
}

/// Appends the registration of one policy.
fn append_registration(out: &mut String, policy: &Policy)
    ensures
        final(out)@ == old(out)@ + registration_text(
            DispatchEntry {
                policy_id: policy.id,
                template_id: policy.rule_template_id,
                metadata: policy.metadata@,
            },
        ),
{
    let key = to_hyphenated(policy.id);
    let name = to_simple(policy.rule_template_id);
    let metadata = policy.metadata.to_text();
    out.append(REGISTER_OPEN);
    out.append(key.as_str());
    out.append(REGISTER_NAME);
    out.append(WRAPPER_PREFIX);
    out.append(name.as_str());
    out.append(REGISTER_METADATA);
    out.append(metadata.as_str());
    out.append(REGISTER_CLOSE);
    proof {
        assert(final(out)@ =~= old(out)@ + registration_text(
            DispatchEntry {
                policy_id: policy.id,
                template_id: policy.rule_template_id,
                metadata: policy.metadata@,
            },
        ));
    }
}

/// Links policies and templates into artifacts.
pub struct Bundler;

impl Bundler {
    /// Links all policies with their templates into one artifact.
    ///
    /// Where every policy's template is supplied, the artifact is the UTF-8
    /// form of the runtime, one wrapper per distinct template in the order
    /// of first reference, and one registration per policy in the order of
    /// the list; read back as UTF-8 it is that text again. Otherwise the
    /// first policy that cannot be resolved is reported and nothing is
    /// built.
    pub fn bundle_all(policies: &[Policy], templates: &HashMap<u128, RuleTemplate>) -> (r: Result<
        Vec<u8>,
        LinkError,
    >)
        ensures
            match first_unresolved(policy_views(policies@), templates@.dom()) {
                None => r matches Ok(bytes) && bytes@ == encode_utf8(
                    bundle_text(policy_views(policies@), template_views(templates@)),
                ) && valid_utf8(bytes@) && decode_utf8(bytes@) == bundle_text(
                    policy_views(policies@),
                    template_views(templates@),
                ),
                Some(i) => 0 <= i < policies@.len() && r == Err::<Vec<u8>, LinkError>(
                    LinkError {
                        policy_id: policies@[i].id,
                        template_id: policies@[i].rule_template_id,
                    },
                ),
            },
    {
        let ghost views = policy_views(policies@);
        let ghost known = template_views(templates@);
        match find_unresolved(policies, templates) {
            Some(i) => {
                return Err(
                    LinkError {
                        policy_id: policies[i].id,
                        template_id: policies[i].rule_template_id,
                    },
                );
            },
            None => {},
        }
        let ids = collect_templates(policies);
        proof {
            lemma_resolved_wrappers_known(views, templates@.dom());
        }
        let mut out = String::from_str(BUNDLE_RUNTIME);
        let mut k: usize = 0;
        while k < ids.len()
            invariant
                known == template_views(templates@),
                k <= ids.len(),
                forall|j: int| 0 <= j < ids.len() ==> templates@.dom().contains(#[trigger] ids@[j]),
                out@ == BUNDLE_RUNTIME@ + wrappers_text(ids@.take(k as int), known),
            decreases ids.len() - k,
        {
            proof {
                assert(ids@.take(k + 1).drop_last() == ids@.take(k as int));
                assert(ids@.take(k + 1).last() == ids@[k as int]);
                assert(templates@.dom().contains(ids@[k as int]));
            }
            let id = ids[k];
            match templates.get(&id) {
                Some(template) => {
                    append_wrapper(&mut out, template, id);
                    proof {
                        assert(known[id] == template@);
                        assert(out@ =~= BUNDLE_RUNTIME@ + wrappers_text(ids@.take(k + 1), known));
                    }
                },
                None => {
                    assert(false);
                },
            }
            k = k + 1;
        }
        proof {
            assert(ids@.take(ids.len() as int) == ids@);
        }
        let ghost table = dispatch_table(views);
        let ghost head = out@;
        let mut i: usize = 0;
        while i < policies.len()
            invariant
                views == policy_views(policies@),
                table == dispatch_table(views),
                i <= policies.len(),
                out@ == head + registrations_text(table.take(i as int)),
            decreases policies.len() - i,
        {
            proof {
                assert(table.take(i + 1).drop_last() == table.take(i as int));
                assert(table.take(i + 1).last() == table[i as int]);
                assert(views[i as int] == policies@[i as int]@);
            }
            append_registration(&mut out, &policies[i]);
            proof {
                assert(out@ =~= head + registrations_text(table.take(i + 1)));
            }
            i = i + 1;
        }
        proof {
            assert(table.take(policies.len() as int) == table);
        }
        proof {
            vstd::utf8::encode_utf8_valid_utf8(out@);
            vstd::utf8::encode_utf8_decode_utf8(out@);
        }
        Ok(out.as_str().as_bytes_vec())
    }
}

} // verus!

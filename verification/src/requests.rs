//! The decisions behind the requests: which template a request creates
//! or binds, and how what was found is answered.

use vstd::prelude::*;
use vstd::string::*;
use crate::error::ApiError;
use crate::ident::{hyphenated_text, to_hyphenated};
use crate::models::{
    clone_opt_text, opt_text, template_list_views, CreatePolicyRequest,
    CreateRuleTemplateRequest, Policy, PolicyView, RuleTemplate, RuleTemplateVersionInfo,
    RuleTemplateVersionsResponse, TemplateView,
};
use crate::storage::{first_match, is_latest_of};
use crate::text::{decimal, decimal_string};

verus! {

/// The detail of the error for a template that does not exist.
pub open spec fn no_template(id: u128) -> Seq<char> {
    "Rule template "@ + hyphenated_text(id) + " not found"@
}

/// The detail of the error for a template that is not the version asked.
pub open spec fn no_template_version(id: u128, version: u32) -> Seq<char> {
    "Rule template "@ + hyphenated_text(id) + " version "@ + decimal(version as nat)
        + " not found"@
}

/// The detail of the error for a policy that does not exist.
pub open spec fn no_policy(id: u128) -> Seq<char> {
    "Policy "@ + hyphenated_text(id) + " not found"@
}

/// The detail of the error for a name without templates.
pub open spec fn no_template_named(name: Seq<char>) -> Seq<char> {
    "Rule template '"@ + name + "' not found"@
}

/// The template that a new policy is bound to: the one found under the
/// identifier, which must be the version asked for, if one was asked for.
pub fn resolve_template(found: Option<RuleTemplate>, id: u128, version: Option<u32>) -> (r: Result<
    RuleTemplate,
    ApiError,
>)
    ensures
        match found {
            None => r matches Err(ApiError::NotFound(m)) && m@ == no_template(id),
            Some(t) => match version {
                Some(v) => if t.version == v {
                    r == Ok::<RuleTemplate, ApiError>(t)
                } else {
                    r matches Err(ApiError::NotFound(m)) && m@ == no_template_version(id, v)
                },
                None => r == Ok::<RuleTemplate, ApiError>(t),
            },
        },
{
    match found {
        None => {
            let mut m = String::from_str("Rule template ");
            m.append(to_hyphenated(id).as_str());
            m.append(" not found");
            Err(ApiError::NotFound(m))
        },
        Some(t) => match version {
            Some(v) => {
                if t.version != v {
                    let mut m = String::from_str("Rule template ");
                    m.append(to_hyphenated(id).as_str());
                    m.append(" version ");
                    m.append(decimal_string(v as usize).as_str());
                    m.append(" not found");
                    Err(ApiError::NotFound(m))
                } else {
                    Ok(t)
                }
            },
            None => Ok(t),
        },
    }
}

/// The template found, or the error that none exists under the identifier.
pub fn require_template(found: Option<RuleTemplate>, id: u128) -> (r: Result<
    RuleTemplate,
    ApiError,
>)
    ensures
        match found {
            Some(t) => r == Ok::<RuleTemplate, ApiError>(t),
            None => r matches Err(ApiError::NotFound(m)) && m@ == no_template(id),
        },
{
    resolve_template(found, id, None)
}

/// The policy found, or the error that none exists under the identifier.
pub fn require_policy(found: Option<Policy>, id: u128) -> (r: Result<Policy, ApiError>)
    ensures
        match found {
            Some(p) => r == Ok::<Policy, ApiError>(p),
            None => r matches Err(ApiError::NotFound(m)) && m@ == no_policy(id),
        },
{
    match found {
        Some(p) => Ok(p),
        None => {
            let mut m = String::from_str("Policy ");
            m.append(to_hyphenated(id).as_str());
            m.append(" not found");
            Err(ApiError::NotFound(m))
        },
    }
}

/// The detail of the error for an identifier that a stored template has.
pub open spec fn template_taken(id: u128) -> Seq<char> {
    "Rule template "@ + hyphenated_text(id) + " already exists"@
}

/// Lets a new template have an identifier only where no template was found
/// under it: a template that is stored is not written over.
pub fn claim_identifier(found: Option<RuleTemplate>, id: u128) -> (r: Result<(), ApiError>)
    ensures
        match found {
            None => r is Ok,
            Some(_) => r matches Err(ApiError::BadRequest(m)) && m@ == template_taken(id),
        },
{
    match found {
        None => Ok(()),
        Some(_) => {
            let mut m = String::from_str("Rule template ");
            m.append(to_hyphenated(id).as_str());
            m.append(" already exists");
            Err(ApiError::BadRequest(m))
        },
    }
}

/// The detail of the error for a name whose version numbers are used up.
pub open spec fn versions_used_up() -> Seq<char> {
    "version numbers are used up"@
}

/// Drafts the template that a request creates under a given identifier and
/// time: version 1 of a name without a latest version, else the version
/// after the latest found. Fails only where no version number is left.
pub fn draft_template(
    latest: Option<RuleTemplate>,
    req: &CreateRuleTemplateRequest,
    id: u128,
    created_at: i64,
) -> (r: Result<RuleTemplate, ApiError>)
    ensures
        match latest {
            None => r matches Ok(t) && t@ == TemplateView::first(
                id,
                created_at,
                req.name@,
                req.source@,
            ),
            Some(found) => if found.version < u32::MAX {
                r matches Ok(t) && t@ == found@.successor(id, created_at, req.source@)
            } else {
                r matches Err(ApiError::Internal(m)) && m@ == versions_used_up()
            },
        },
{
    match latest {
        None => Ok(RuleTemplate::first(id, created_at, req.name.clone(), req.source.clone())),
        Some(found) => {
            if found.version == u32::MAX {
                Err(ApiError::Internal(String::from_str("version numbers are used up")))
            } else {
                Ok(found.successor(id, created_at, req.source.clone()))
            }
        },
    }
}

/// The policy that a request creates under a given identifier and time:
/// bound to the template as found, with the request's name, metadata and
/// description.
pub open spec fn drafted_policy(
    req: CreatePolicyRequest,
    template: TemplateView,
    id: u128,
    created_at: i64,
) -> PolicyView {
    PolicyView {
        description: opt_text(req.description),
        ..PolicyView::fresh(
            id,
            created_at,
            req.name@,
            template.id,
            template.version,
            req.metadata@,
        )
    }
}

/// Whether a version number is left for the name: the latest of the name,
/// if there is one, is not at the last number.
pub open spec fn versions_left(templates: Seq<TemplateView>, name: Seq<char>) -> bool {
    match first_match(templates, is_latest_of(name)) {
        Some(i) => templates[i].version < u32::MAX,
        None => true,
    }
}

/// Whether the template found is the one that the request asks for: any
/// version where none is asked for, else the version asked for.
pub open spec fn is_version_asked(template: TemplateView, version: Option<u32>) -> bool {
    match version {
        Some(v) => template.version == v,
        None => true,
    }
}

/// Drafts the policy that a request creates under a given identifier and
/// time.
pub fn draft_policy(req: &CreatePolicyRequest, template: &RuleTemplate, id: u128, created_at: i64)
    -> (p: Policy)
    ensures
        p@ == drafted_policy(*req, template@, id, created_at),
{
    let mut policy = Policy::bind(
        id,
        created_at,
        req.name.clone(),
        template.id,
        template.version,
        req.metadata.clone(),
    );
    policy.description = clone_opt_text(&req.description);
    policy
}

/// The version history of a name, as it is answered.
pub open spec fn version_infos(versions: Seq<TemplateView>) -> Seq<RuleTemplateVersionInfo> {
    Seq::new(
        versions.len(),
        |i: int|
            RuleTemplateVersionInfo {
                id: versions[i].id,
                version: versions[i].version,
                created_at: versions[i].created_at,
                is_latest: versions[i].is_latest,
            },
    )
}

/// Answers the version history of a name from the versions found; a name
/// without versions is not found.
pub fn versions_response(name: &str, versions: &Vec<RuleTemplate>) -> (r: Result<
    RuleTemplateVersionsResponse,
    ApiError,
>)
    ensures
        versions@.len() == 0 ==> (r matches Err(ApiError::NotFound(m)) && m@ == no_template_named(
            name@,
        )),
        versions@.len() > 0 ==> (r matches Ok(response) && response.name@ == name@
            && response.versions@ == version_infos(template_list_views(versions@))),
{
    if versions.len() == 0 {
        let mut m = String::from_str("Rule template '");
        m.append(name);
        m.append("' not found");
        return Err(ApiError::NotFound(m));
    }
    let mut infos: Vec<RuleTemplateVersionInfo> = Vec::new();
    let mut i: usize = 0;
    while i < versions.len()
        invariant
            i <= versions.len(),
            infos@ == version_infos(template_list_views(versions@)).take(i as int),
        decreases versions.len() - i,
    {
        infos.push(
            RuleTemplateVersionInfo {
                id: versions[i].id,
                version: versions[i].version,
                created_at: versions[i].created_at,
                is_latest: versions[i].is_latest,
            },
        );
        proof {
            assert(infos@ =~= version_infos(template_list_views(versions@)).take(i + 1));
        }
        i = i + 1;
    }
    proof {
        let all = version_infos(template_list_views(versions@));
        assert(all.take(versions.len() as int) == all);
    }
    Ok(RuleTemplateVersionsResponse { name: String::from_str(name), versions: infos })
}

} // verus!

//! Numbered histories: the versions of each name count up from 1 in the
//! order of creation, and the last of each name is its latest.

use vstd::prelude::*;
use crate::models::TemplateView;
use crate::storage::{
    after_save, first_index, first_match, is_latest_of, lemma_first_index, lemma_first_match,
    supersede, template_ids,
};

verus! {

/// How many of the templates are named `name`.
pub open spec fn count_named(templates: Seq<TemplateView>, name: Seq<char>) -> nat
    decreases templates.len(),
{
    if templates.len() == 0 {
        0
    } else {
        count_named(templates.drop_last(), name) + if templates.last().name == name {
            1nat
        } else {
            0nat
        }
    }
}

/// The history of every name is numbered: no identifier occurs twice, each
/// template's version is its rank among the templates of its name in the
/// order of creation, and a template is marked latest exactly when none of
/// its name comes after it.
pub open spec fn numbered_history(templates: Seq<TemplateView>) -> bool {
    &&& forall|i: int, j: int|
        0 <= i < j < templates.len() ==> (#[trigger] templates[i]).id != (#[trigger] templates[j]).id
    &&& forall|i: int|
        0 <= i < templates.len() ==> (#[trigger] templates[i]).version == count_named(
            templates.take(i),
            templates[i].name,
        ) + 1
    &&& forall|i: int|
        0 <= i < templates.len() ==> ((#[trigger] templates[i]).is_latest <==> forall|j: int|
            i < j < templates.len() ==> (#[trigger] templates[j]).name != templates[i].name)
}

/// Counting up to one more template adds one exactly for a template of
/// the name.
pub proof fn lemma_count_step(templates: Seq<TemplateView>, i: int, name: Seq<char>)
    requires
        0 <= i < templates.len(),
    ensures
        count_named(templates.take(i + 1), name) == count_named(templates.take(i), name)
            + if templates[i].name == name {
            1nat
        } else {
            0nat
        },
{
    assert(templates.take(i + 1).drop_last() == templates.take(i));
    assert(templates.take(i + 1).last() == templates[i]);
}

/// A longer prefix never counts fewer.
pub proof fn lemma_count_grows(templates: Seq<TemplateView>, i: int, j: int, name: Seq<char>)
    requires
        0 <= i <= j <= templates.len(),
    ensures
        count_named(templates.take(i), name) <= count_named(templates.take(j), name),
    decreases j - i,
{
    if i < j {
        lemma_count_step(templates, j - 1, name);
        lemma_count_grows(templates, i, j - 1, name);
    }
}

/// What comes after the last template of a name adds nothing to its count.
pub proof fn lemma_count_after_last(templates: Seq<TemplateView>, i: int, name: Seq<char>)
    requires
        0 <= i <= templates.len(),
        forall|j: int| i <= j < templates.len() ==> (#[trigger] templates[j]).name != name,
    ensures
        count_named(templates.take(i), name) == count_named(templates, name),
    decreases templates.len() - i,
{
    if i < templates.len() {
        lemma_count_step(templates, i, name);
        lemma_count_after_last(templates, i + 1, name);
    } else {
        assert(templates.take(i) == templates);
    }
}

/// Taking the latest mark from a name changes no count.
pub proof fn lemma_count_ignores_marks(
    templates: Seq<TemplateView>,
    marked: Seq<char>,
    n: int,
    name: Seq<char>,
)
    requires
        0 <= n <= templates.len(),
    ensures
        count_named(supersede(templates, marked).take(n), name) == count_named(
            templates.take(n),
            name,
        ),
    decreases n,
{
    if n > 0 {
        lemma_count_ignores_marks(templates, marked, n - 1, name);
        lemma_count_step(templates, n - 1, name);
        lemma_count_step(supersede(templates, marked), n - 1, name);
    }
}

/// In a numbered history the versions of a name are 1 to k in the order of
/// creation, k being the number of its templates: every version lies in
/// that range and a later template has a greater one. If the name has a
/// template at all, exactly one is marked latest, and it has version k.
pub proof fn lemma_versions_are_numbered(templates: Seq<TemplateView>, name: Seq<char>)
    requires
        numbered_history(templates),
    ensures
        forall|i: int|
            0 <= i < templates.len() && (#[trigger] templates[i]).name == name ==> 1
                <= templates[i].version <= count_named(templates, name),
        forall|i: int, j: int|
            0 <= i < j < templates.len() && (#[trigger] templates[i]).name == name && (
            #[trigger] templates[j]).name == name ==> templates[i].version < templates[j].version,
        count_named(templates, name) > 0 ==> exists|i: int|
            0 <= i < templates.len() && (#[trigger] templates[i]).name == name
                && templates[i].is_latest && templates[i].version == count_named(templates, name),
        forall|i: int, j: int|
            0 <= i < templates.len() && 0 <= j < templates.len() && (#[trigger] templates[i]).name
                == name && (#[trigger] templates[j]).name == name && templates[i].is_latest
                && templates[j].is_latest ==> i == j,
{
    assert forall|i: int|
        0 <= i < templates.len() && (#[trigger] templates[i]).name == name implies 1
        <= templates[i].version <= count_named(templates, name) by {
        lemma_count_step(templates, i, name);
        lemma_count_grows(templates, i + 1, templates.len() as int, name);
        assert(templates.take(templates.len() as int) == templates);
    }
    assert forall|i: int, j: int|
        0 <= i < j < templates.len() && (#[trigger] templates[i]).name == name && (
        #[trigger] templates[j]).name == name implies templates[i].version
        < templates[j].version by {
        lemma_count_step(templates, i, name);
        lemma_count_grows(templates, i + 1, j, name);
    }
    if count_named(templates, name) > 0 {
        let last = last_named(templates, name);
        lemma_last_named(templates, name);
        lemma_count_step(templates, last, name);
        lemma_count_after_last(templates, last + 1, name);
    }
}

/// The place of the last template named `name`, or -1.
pub open spec fn last_named(templates: Seq<TemplateView>, name: Seq<char>) -> int
    decreases templates.len(),
{
    if templates.len() == 0 {
        -1
    } else if templates.last().name == name {
        templates.len() - 1
    } else {
        last_named(templates.drop_last(), name)
    }
}

/// A name that is counted has a last template, and none of the name comes
/// after it; a name that is not counted has no template.
pub proof fn lemma_last_named(templates: Seq<TemplateView>, name: Seq<char>)
    ensures
        count_named(templates, name) > 0 ==> 0 <= last_named(templates, name) < templates.len()
            && templates[last_named(templates, name)].name == name,
        count_named(templates, name) == 0 ==> last_named(templates, name) == -1,
        forall|j: int|
            last_named(templates, name) < j < templates.len() ==> (#[trigger] templates[j]).name
                != name,
    decreases templates.len(),
{
    if templates.len() > 0 && templates.last().name != name {
        lemma_last_named(templates.drop_last(), name);
        assert forall|j: int| last_named(templates, name) < j < templates.len() implies (
        #[trigger] templates[j]).name != name by {
            if j < templates.len() - 1 {
                assert(templates.drop_last()[j].name != name);
            }
        }
    }
}

/// Putting the next version of a name behind a numbered history, the
/// others of the name unmarked, gives a numbered history again.
pub proof fn lemma_next_version_keeps_history(templates: Seq<TemplateView>, t: TemplateView)
    requires
        numbered_history(templates),
        first_index(template_ids(templates), t.id) is None,
        t.version == count_named(templates, t.name) + 1,
        t.is_latest,
    ensures
        numbered_history(supersede(templates, t.name).push(t)),
{
    let marked = supersede(templates, t.name);
    let after = marked.push(t);
    let n = templates.len() as int;
    lemma_first_index(template_ids(templates), t.id);
    assert forall|i: int, j: int| 0 <= i < j < after.len() implies (#[trigger] after[i]).id != (
    #[trigger] after[j]).id by {
        if j < n {
            assert(templates[i].id != templates[j].id);
        } else {
            assert(template_ids(templates)[i] != t.id);
        }
    }
    assert forall|i: int| 0 <= i < after.len() implies (#[trigger] after[i]).version
        == count_named(after.take(i), after[i].name) + 1 by {
        assert(after.take(i) =~= marked.take(i));
        lemma_count_ignores_marks(templates, t.name, i, after[i].name);
        if i < n {
            assert(templates[i].version == count_named(templates.take(i), templates[i].name) + 1);
        } else {
            assert(templates.take(n) == templates);
        }
    }
    assert forall|i: int| 0 <= i < after.len() implies ((#[trigger] after[i]).is_latest
        <==> forall|j: int| i < j < after.len() ==> (#[trigger] after[j]).name
        != after[i].name) by {
        if i < n {
            if templates[i].name == t.name {
                assert(after[n].name == after[i].name);
            } else {
                assert(templates[i].is_latest <==> forall|j: int|
                    i < j < templates.len() ==> (#[trigger] templates[j]).name
                        != templates[i].name);
                if templates[i].is_latest {
                    assert forall|j: int| i < j < after.len() implies (#[trigger] after[j]).name
                        != after[i].name by {
                        if j < n {
                            assert(templates[j].name != templates[i].name);
                        }
                    }
                } else {
                    let j = choose|j: int|
                        i < j < templates.len() && (#[trigger] templates[j]).name
                            == templates[i].name;
                    assert(after[j].name == after[i].name);
                }
            }
        }
    }
}

/// In a numbered history the template found as the latest of a name is
/// its last, with the number of the name's templates as its version; none
/// is found exactly when the name has no template.
pub proof fn lemma_latest_is_last(templates: Seq<TemplateView>, name: Seq<char>)
    requires
        numbered_history(templates),
    ensures
        match first_match(templates, is_latest_of(name)) {
            Some(i) => 0 <= i < templates.len() && templates[i].name == name
                && templates[i].version == count_named(templates, name),
            None => count_named(templates, name) == 0,
        },
{
    lemma_first_match(templates, is_latest_of(name));
    match first_match(templates, is_latest_of(name)) {
        Some(i) => {
            assert(templates[i].is_latest);
            lemma_count_step(templates, i, name);
            lemma_count_after_last(templates, i + 1, name);
        },
        None => {
            if count_named(templates, name) > 0 {
                lemma_last_named(templates, name);
                let last = last_named(templates, name);
                assert(templates[last].is_latest);
                assert(is_latest_of(name)(templates[last]));
            }
        },
    }
}

/// The template that creation drafts for a name: version 1 where no
/// template is found as the latest of the name, else the successor of the
/// one found.
pub open spec fn drafted(
    templates: Seq<TemplateView>,
    id: u128,
    created_at: i64,
    name: Seq<char>,
    source: Seq<char>,
) -> TemplateView {
    match first_match(templates, is_latest_of(name)) {
        Some(i) => templates[i].successor(id, created_at, source),
        None => TemplateView::first(id, created_at, name, source),
    }
}

/// Creating a template keeps every history numbered: where the latest of
/// the name is looked up, its successor drafted (or version 1 for a new
/// name) under an identifier that is not taken, and the draft saved, the
/// new template has the next number of its name and is the only one of
/// the name marked latest.
pub proof fn lemma_creation_keeps_history(
    templates: Seq<TemplateView>,
    id: u128,
    created_at: i64,
    name: Seq<char>,
    source: Seq<char>,
)
    requires
        numbered_history(templates),
        first_index(template_ids(templates), id) is None,
        count_named(templates, name) < u32::MAX,
    ensures
        drafted(templates, id, created_at, name, source).name == name,
        drafted(templates, id, created_at, name, source).version == count_named(templates, name)
            + 1,
        after_save(templates, drafted(templates, id, created_at, name, source)) == supersede(
            templates,
            name,
        ).push(drafted(templates, id, created_at, name, source)),
        numbered_history(
            after_save(templates, drafted(templates, id, created_at, name, source)),
        ),
{
    lemma_latest_is_last(templates, name);
    lemma_next_version_keeps_history(
        templates,
        drafted(templates, id, created_at, name, source),
    );
}


} // verus!

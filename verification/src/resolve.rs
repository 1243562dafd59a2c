//! Finding a project from a user-supplied selector: a full id, a name, or a
//! unique id prefix.
use vstd::prelude::*;

use crate::error::{AppError, ErrorView};
use crate::ids::{id_text, law_id_text_parses_back, lemma_id_text_chars, parse_id, parsed_uuid, uuid_text};
use crate::models::Project;
use crate::text::{
    ascii_lower, ascii_lowercase, chars_eq, chars_of, has_prefix, push_all, push_str, starts_with,
    string_of, trim, trim_ws,
};

verus! {

/// The project `p` has the name `sel`, ignoring ASCII case.
pub open spec fn name_matches(p: Project, sel: Seq<char>) -> bool {
    ascii_lower(p.name@) == ascii_lower(sel)
}

/// The text of the project's id starts with `sel`.
pub open spec fn id_prefix_matches(p: Project, sel: Seq<char>) -> bool {
    has_prefix(uuid_text(p.id), sel)
}

/// The first index in `ps` whose project has id `id`.
pub open spec fn first_with_id(ps: Seq<Project>, id: u128) -> Option<int>
    decreases ps.len(),
{
    if ps.len() == 0 {
        None
    } else if ps[0].id == id {
        Some(0)
    } else {
        match first_with_id(ps.drop_first(), id) {
            Some(i) => Some(i + 1),
            None => None,
        }
    }
}

pub open spec fn selector_failure(message: Seq<char>) -> ErrorView {
    ErrorView::ToolFailed("project"@, message)
}

/// Which project a selector picks among `ps`.
///
/// The selector is trimmed. A selector that parses as a UUID picks the
/// project with that id. Otherwise a unique case-insensitive name match
/// wins; otherwise a unique id prefix match wins.
pub open spec fn resolution(ps: Seq<Project>, raw: Seq<char>) -> Result<Project, ErrorView> {
    let sel = trim_ws(raw);
    if sel.len() == 0 {
        Err(selector_failure("project selector cannot be empty"@))
    } else if parsed_uuid(sel) is Some {
        match first_with_id(ps, parsed_uuid(sel)->0) {
            Some(i) => Ok(ps[i]),
            None => Err(selector_failure("no project with id "@ + sel)),
        }
    } else {
        let by_name = ps.filter(|p: Project| name_matches(p, sel));
        let by_prefix = ps.filter(|p: Project| id_prefix_matches(p, sel));
        if by_name.len() == 1 {
            Ok(by_name[0])
        } else if by_name.len() > 1 {
            Err(selector_failure("multiple projects named `"@ + sel + "`"@))
        } else if by_prefix.len() == 0 {
            Err(selector_failure("no project matching `"@ + sel + "`"@))
        } else if by_prefix.len() == 1 {
            Ok(by_prefix[0])
        } else {
            Err(selector_failure("ambiguous project id prefix `"@ + sel + "`"@))
        }
    }
}

/// The error for an empty selector, checked before the projects are read.
pub fn empty_selector_error(selector: &str) -> (r: Option<AppError>)
    ensures
        r is Some <==> trim_ws(selector@).len() == 0,
        r matches Some(e) ==> e@ == selector_failure("project selector cannot be empty"@),
{
    let sel = trim(&chars_of(selector));
    if sel.len() == 0 {
        Some(AppError::ToolFailed {
            tool: "project".to_string(),
            message: "project selector cannot be empty".to_string(),
        })
    } else {
        None
    }
}

fn selector_error(before: &str, sel: &Vec<char>, after: &str) -> (e: AppError)
    ensures
        e@ == selector_failure(before@ + sel@ + after@),
{
    let mut m: Vec<char> = Vec::new();
    push_str(&mut m, before);
    push_all(&mut m, sel);
    push_str(&mut m, after);
    AppError::ToolFailed { tool: "project".to_string(), message: string_of(&m) }
}

/// Index of the first project with id `id`.
pub fn index_of_id(ps: &Vec<Project>, id: u128) -> (r: Option<usize>)
    ensures
        match r {
            Some(i) => first_with_id(ps@, id) == Some(i as int) && i < ps.len(),
            None => first_with_id(ps@, id) is None,
        },
{
    let mut i: usize = 0;
    while i < ps.len()
        invariant
            i <= ps.len(),
            forall|k: int| 0 <= k < i ==> ps@[k].id != id,
        decreases ps.len() - i,
    {
        if ps[i].id == id {
            proof {
                lemma_first_with_id_at(ps@, id, i as int);
            }
            return Some(i);
        }
        i += 1;
    }
    proof {
        lemma_first_with_id_absent(ps@, id);
    }
    None
}

/// The first index holding `id` is the first `i` with that id.
pub proof fn lemma_first_with_id_at(ps: Seq<Project>, id: u128, i: int)
    requires
        0 <= i < ps.len(),
        ps[i].id == id,
        forall|k: int| 0 <= k < i ==> ps[k].id != id,
    ensures
        first_with_id(ps, id) == Some(i),
    decreases i,
{
    if i > 0 {
        lemma_first_with_id_at(ps.drop_first(), id, i - 1);
    }
}

/// No index holds `id` when no project has it.
pub proof fn lemma_first_with_id_absent(ps: Seq<Project>, id: u128)
    requires
        forall|k: int| 0 <= k < ps.len() ==> ps[k].id != id,
    ensures
        first_with_id(ps, id) is None,
    decreases ps.len(),
{
    if ps.len() > 0 {
        lemma_first_with_id_absent(ps.drop_first(), id);
    }
}

/// Number of projects whose name matches `sel` ignoring ASCII case, and the
/// index of the first of them.
fn count_by_name(ps: &Vec<Project>, sel: &Vec<char>) -> (r: (usize, usize))
    ensures
        r.0 == ps@.filter(|p: Project| name_matches(p, sel@)).len(),
        r.0 > 0 ==> r.1 < ps.len() && ps@[r.1 as int] == ps@.filter(
            |p: Project| name_matches(p, sel@),
        )[0],
{
    let ghost f = |p: Project| name_matches(p, sel@);
    let lsel = ascii_lowercase(sel);
    let mut count: usize = 0;
    let mut first: usize = 0;
    let mut i: usize = 0;
    while i < ps.len()
        invariant
            i <= ps.len(),
            lsel@ == ascii_lower(sel@),
            f == (|p: Project| name_matches(p, sel@)),
            count == ps@.take(i as int).filter(f).len(),
            count <= i,
            count > 0 ==> first < i && ps@[first as int] == ps@.take(i as int).filter(f)[0],
        decreases ps.len() - i,
    {
        let ghost pre = ps@.take(i as int);
        assert(ps@.take(i + 1).drop_last() =~= pre);
        assert(ps@.take(i + 1).last() == ps@[i as int]);
        let lname = ascii_lowercase(&chars_of(ps[i].name.as_str()));
        let m = chars_eq(&lname, &lsel);
        proof {
            reveal_with_fuel(Seq::filter, 1);
            if m && count == 0 {
                assert(pre.filter(f).len() == 0);
                assert(ps@.take(i + 1).filter(f) =~= seq![ps@[i as int]]);
            }
            if count > 0 && m {
                assert(ps@.take(i + 1).filter(f) == pre.filter(f).push(ps@[i as int]));
                assert(ps@.take(i + 1).filter(f)[0] == pre.filter(f)[0]);
            }
        }
        if m {
            if count == 0 {
                first = i;
            }
            count += 1;
        }
        i += 1;
    }
    assert(ps@.take(ps.len() as int) =~= ps@);
    (count, first)
}

/// Number of projects whose id text starts with `sel`, and the index of the
/// first of them.
fn count_by_prefix(ps: &Vec<Project>, sel: &Vec<char>) -> (r: (usize, usize))
    ensures
        r.0 == ps@.filter(|p: Project| id_prefix_matches(p, sel@)).len(),
        r.0 > 0 ==> r.1 < ps.len() && ps@[r.1 as int] == ps@.filter(
            |p: Project| id_prefix_matches(p, sel@),
        )[0],
{
    let ghost f = |p: Project| id_prefix_matches(p, sel@);
    let mut count: usize = 0;
    let mut first: usize = 0;
    let mut i: usize = 0;
    while i < ps.len()
        invariant
            i <= ps.len(),
            f == (|p: Project| id_prefix_matches(p, sel@)),
            count == ps@.take(i as int).filter(f).len(),
            count <= i,
            count > 0 ==> first < i && ps@[first as int] == ps@.take(i as int).filter(f)[0],
        decreases ps.len() - i,
    {
        let ghost pre = ps@.take(i as int);
        assert(ps@.take(i + 1).drop_last() =~= pre);
        assert(ps@.take(i + 1).last() == ps@[i as int]);
        let text = chars_of(id_text(ps[i].id).as_str());
        let m = starts_with(&text, sel);
        proof {
            reveal_with_fuel(Seq::filter, 1);
            if m && count == 0 {
                assert(pre.filter(f).len() == 0);
                assert(ps@.take(i + 1).filter(f) =~= seq![ps@[i as int]]);
            }
            if count > 0 && m {
                assert(ps@.take(i + 1).filter(f) == pre.filter(f).push(ps@[i as int]));
                assert(ps@.take(i + 1).filter(f)[0] == pre.filter(f)[0]);
            }
        }
        if m {
            if count == 0 {
                first = i;
            }
            count += 1;
        }
        i += 1;
    }
    assert(ps@.take(ps.len() as int) =~= ps@);
    (count, first)
}

/// Picks the project named by `selector` among `projects`: by full id, then
/// by unique case-insensitive name, then by unique id prefix.
pub fn resolve_project(projects: &Vec<Project>, selector: &str) -> (r: Result<Project, AppError>)
    ensures
        match r {
            Ok(p) => resolution(projects@, selector@) matches Ok(q) && p@ == q@,
            Err(e) => resolution(projects@, selector@) == Err::<Project, ErrorView>(e@),
        },
{
    let sel = trim(&chars_of(selector));
    if sel.len() == 0 {
        return Err(
            AppError::ToolFailed {
                tool: "project".to_string(),
                message: "project selector cannot be empty".to_string(),
            },
        );
    }
    let sel_text = string_of(&sel);
    match parse_id(sel_text.as_str()) {
        Some(id) => {
            return match index_of_id(projects, id) {
                Some(i) => Ok(projects[i].duplicate()),
                None => {
                    proof {
                        reveal_strlit("");
                    }
                    assert(sel@ + ""@ =~= sel@);
                    Err(selector_error("no project with id ", &sel, ""))
                },
            };
        },
        None => {},
    }
    let (n_name, first_name) = count_by_name(projects, &sel);
    if n_name == 1 {
        return Ok(projects[first_name].duplicate());
    }
    if n_name > 1 {
        return Err(selector_error("multiple projects named `", &sel, "`"));
    }
    let (n_prefix, first_prefix) = count_by_prefix(projects, &sel);
    if n_prefix == 0 {
        Err(selector_error("no project matching `", &sel, "`"))
    } else if n_prefix == 1 {
        Ok(projects[first_prefix].duplicate())
    } else {
        Err(selector_error("ambiguous project id prefix `", &sel, "`"))
    }
}

/// Text without white space at either end is its own trim.
proof fn lemma_trim_nothing(s: Seq<char>)
    requires
        s.len() > 0,
        !crate::text::is_white_space(s[0]),
        !crate::text::is_white_space(s.last()),
    ensures
        trim_ws(s) == s,
{
}

/// A project's full id text selects the first project with that id.
pub proof fn law_resolve_by_full_id(ps: Seq<Project>, i: int)
    requires
        0 <= i < ps.len(),
    ensures
        first_with_id(ps, ps[i].id) is Some,
        resolution(ps, uuid_text(ps[i].id)) == Ok::<Project, ErrorView>(
            ps[first_with_id(ps, ps[i].id)->0],
        ),
{
    let id = ps[i].id;
    let t = uuid_text(id);
    law_id_text_parses_back(id);
    lemma_id_text_chars(id);
    assert(!crate::text::is_white_space(t[0]));
    assert(!crate::text::is_white_space(t[t.len() - 1]));
    lemma_trim_nothing(t);
    lemma_first_with_id_some(ps, id, i);
}

proof fn lemma_first_with_id_some(ps: Seq<Project>, id: u128, i: int)
    requires
        0 <= i < ps.len(),
        ps[i].id == id,
    ensures
        first_with_id(ps, id) is Some,
    decreases i,
{
    if i > 0 && ps[0].id != id {
        lemma_first_with_id_some(ps.drop_first(), id, i - 1);
    }
}

/// Among projects with distinct names (ignoring ASCII case) and a
/// selector that is not an id, a project's own trimmed name selects it.
pub proof fn law_resolve_by_unique_name(ps: Seq<Project>, i: int, sel: Seq<char>)
    requires
        0 <= i < ps.len(),
        sel == trim_ws(sel),
        sel.len() > 0,
        parsed_uuid(sel) is None,
        name_matches(ps[i], sel),
        forall|k: int| 0 <= k < ps.len() && k != i ==> !name_matches(#[trigger] ps[k], sel),
    ensures
        resolution(ps, sel) == Ok::<Project, ErrorView>(ps[i]),
{
    let f = |p: Project| name_matches(p, sel);
    lemma_filter_single(ps, f, i);
}

proof fn lemma_filter_single(ps: Seq<Project>, f: spec_fn(Project) -> bool, i: int)
    requires
        0 <= i < ps.len(),
        f(ps[i]),
        forall|k: int| 0 <= k < ps.len() && k != i ==> !f(#[trigger] ps[k]),
    ensures
        ps.filter(f) == seq![ps[i]],
    decreases ps.len(),
{
    reveal_with_fuel(Seq::filter, 1);
    if i == ps.len() - 1 {
        lemma_filter_none(ps.drop_last(), f);
        assert(ps.drop_last().filter(f) =~= Seq::<Project>::empty());
        assert(ps.filter(f) =~= seq![ps[i]]);
    } else {
        assert forall|k: int| 0 <= k < ps.drop_last().len() && k != i implies !f(
            #[trigger] ps.drop_last()[k],
        ) by {
            assert(ps.drop_last()[k] == ps[k]);
        }
        lemma_filter_single(ps.drop_last(), f, i);
        assert(!f(ps.last()));
    }
}

proof fn lemma_filter_none(ps: Seq<Project>, f: spec_fn(Project) -> bool)
    requires
        forall|k: int| 0 <= k < ps.len() ==> !f(#[trigger] ps[k]),
    ensures
        ps.filter(f).len() == 0,
    decreases ps.len(),
{
    reveal_with_fuel(Seq::filter, 1);
    if ps.len() > 0 {
        assert forall|k: int| 0 <= k < ps.drop_last().len() implies !f(#[trigger] ps.drop_last()[k]) by {
            assert(ps.drop_last()[k] == ps[k]);
        }
        lemma_filter_none(ps.drop_last(), f);
        assert(!f(ps.last()));
    }
}

/// A selector that is not an id and names no project (ignoring ASCII
/// case) selects the project whose id text starts with it, when exactly
/// one does.
pub proof fn law_resolve_by_unique_id_prefix(ps: Seq<Project>, i: int, sel: Seq<char>)
    requires
        0 <= i < ps.len(),
        sel == trim_ws(sel),
        sel.len() > 0,
        parsed_uuid(sel) is None,
        forall|k: int| 0 <= k < ps.len() ==> ascii_lower(#[trigger] ps[k].name@) != ascii_lower(sel),
        has_prefix(uuid_text(ps[i].id), sel),
        forall|k: int|
            0 <= k < ps.len() && k != i ==> !has_prefix(uuid_text(#[trigger] ps[k].id), sel),
    ensures
        resolution(ps, sel) == Ok::<Project, ErrorView>(ps[i]),
{
    let fname = |p: Project| name_matches(p, sel);
    assert forall|k: int| 0 <= k < ps.len() implies !fname(#[trigger] ps[k]) by {
        assert(ascii_lower(ps[k].name@) != ascii_lower(sel));
    }
    lemma_filter_none(ps, fname);
    let fid = |p: Project| id_prefix_matches(p, sel);
    assert forall|k: int| 0 <= k < ps.len() && k != i implies !fid(#[trigger] ps[k]) by {
        assert(!has_prefix(uuid_text(ps[k].id), sel));
    }
    lemma_filter_single(ps, fid, i);
}

/// A selector that is not an id and names no project (ignoring ASCII
/// case) only ever selects a project whose id text starts with it.
pub proof fn law_resolved_by_id_prefix_only(ps: Seq<Project>, sel: Seq<char>)
    requires
        sel == trim_ws(sel),
        parsed_uuid(sel) is None,
        forall|k: int| 0 <= k < ps.len() ==> ascii_lower(#[trigger] ps[k].name@) != ascii_lower(sel),
    ensures
        resolution(ps, sel) matches Ok(p) ==> has_prefix(uuid_text(p.id), sel),
{
    broadcast use vstd::seq_lib::group_filter_ensures;

    let fname = |p: Project| name_matches(p, sel);
    assert forall|k: int| 0 <= k < ps.len() implies !fname(#[trigger] ps[k]) by {
        assert(ascii_lower(ps[k].name@) != ascii_lower(sel));
    }
    lemma_filter_none(ps, fname);
    let fid = |p: Project| id_prefix_matches(p, sel);
    let by_prefix = ps.filter(fid);
    if by_prefix.len() == 1 {
        assert(by_prefix.contains(by_prefix[0]));
        assert(fid(by_prefix[0]));
    }
}

} // verus!

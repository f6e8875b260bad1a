//! Choosing an environment and rendering commands through it.
use vstd::prelude::*;
use crate::model::{Context, PacsCommand, Project, copy_opt};
use crate::template::{render, render_template};
use crate::text::{eq_ascii_nocase, eq_ignore_ascii_case};

verus! {

/// Values of the first environment whose name equals `name` up to ASCII case.
pub open spec fn env_nocase(ctxs: Seq<Context>, name: Seq<char>) -> Option<Seq<(String, String)>>
    decreases ctxs.len(),
{
    if ctxs.len() == 0 {
        None
    } else if eq_ascii_nocase(ctxs[0].name@, name) {
        Some(ctxs[0].values@)
    } else {
        env_nocase(ctxs.drop_first(), name)
    }
}

/// Values of the first environment called `name`.
pub open spec fn env_exact(ctxs: Seq<Context>, name: Seq<char>) -> Option<Seq<(String, String)>>
    decreases ctxs.len(),
{
    if ctxs.len() == 0 {
        None
    } else if ctxs[0].name@ == name {
        Some(ctxs[0].values@)
    } else {
        env_exact(ctxs.drop_first(), name)
    }
}

/// Values of a project's active environment, if it has one.
pub open spec fn active_env(p: Project) -> Option<Seq<(String, String)>> {
    match p.active_context {
        Some(a) => env_exact(p.contexts@, a@),
        None => None,
    }
}

/// The environment in effect: the one named, else the project's active one.
pub open spec fn selected_env(p: Project, context: Option<&str>) -> Option<Seq<(String, String)>> {
    match context {
        Some(n) => env_nocase(p.contexts@, n@),
        None => active_env(p),
    }
}

/// A body rendered under an optional environment; no environment leaves it as it is.
pub open spec fn render_opt(body: Seq<char>, vals: Option<Seq<(String, String)>>) -> Seq<char> {
    match vals {
        Some(v) => render(body, v),
        None => body,
    }
}

/// `r` is `c` with its body rendered under `vals`.
pub open spec fn is_rendered(c: PacsCommand, r: PacsCommand, vals: Option<Seq<(String, String)>>) -> bool {
    &&& r.name == c.name
    &&& r.cwd == c.cwd
    &&& r.tag == c.tag
    &&& r.command@ == render_opt(c.command@, vals)
}

/// `out` lists the commands of `p`, each rendered under `vals`, in order of names.
pub open spec fn is_listing(p: Project, vals: Option<Seq<(String, String)>>, out: Seq<PacsCommand>) -> bool {
    &&& crate::model::sorted_by_name(out)
    &&& exists|e: Seq<PacsCommand>|
        e.len() == p.commands@.len() && (forall|k: int|
            0 <= k < e.len() ==> is_rendered(p.commands@[k], #[trigger] e[k], vals))
            && out.to_multiset() == e.to_multiset()
}

/// The values of the first environment whose name equals `name` up to ASCII case.
pub fn find_env_nocase<'a>(ctxs: &'a Vec<Context>, name: &str) -> (r: Option<&'a Vec<(String, String)>>)
    ensures
        r matches Some(v) ==> env_nocase(ctxs@, name@) == Some(v@),
        r is None ==> env_nocase(ctxs@, name@) is None,
{
    let mut i: usize = 0;
    assert(ctxs@.skip(0) =~= ctxs@);
    while i < ctxs.len()
        invariant
            i <= ctxs@.len(),
            env_nocase(ctxs@, name@) == env_nocase(ctxs@.skip(i as int), name@),
        decreases ctxs@.len() - i,
    {
        assert(ctxs@.skip(i as int).drop_first() =~= ctxs@.skip(i + 1));
        if eq_ignore_ascii_case(ctxs[i].name.as_str(), name) {
            return Some(&ctxs[i].values);
        }
        i = i + 1;
    }
    None
}

/// The values of the first environment called `name`.
pub fn find_env_exact<'a>(ctxs: &'a Vec<Context>, name: &String) -> (r: Option<&'a Vec<(String, String)>>)
    ensures
        r matches Some(v) ==> env_exact(ctxs@, name@) == Some(v@),
        r is None ==> env_exact(ctxs@, name@) is None,
{
    let mut i: usize = 0;
    assert(ctxs@.skip(0) =~= ctxs@);
    while i < ctxs.len()
        invariant
            i <= ctxs@.len(),
            env_exact(ctxs@, name@) == env_exact(ctxs@.skip(i as int), name@),
        decreases ctxs@.len() - i,
    {
        assert(ctxs@.skip(i as int).drop_first() =~= ctxs@.skip(i + 1));
        if ctxs[i].name == *name {
            return Some(&ctxs[i].values);
        }
        i = i + 1;
    }
    None
}

/// The values of a project's active environment.
pub fn find_active_env<'a>(p: &'a Project) -> (r: Option<&'a Vec<(String, String)>>)
    ensures
        r matches Some(v) ==> active_env(*p) == Some(v@),
        r is None ==> active_env(*p) is None,
{
    match &p.active_context {
        Some(a) => find_env_exact(&p.contexts, a),
        None => None,
    }
}

/// A command with its body rendered under optional values.
pub fn render_command(c: &PacsCommand, vals: Option<&Vec<(String, String)>>) -> (r: PacsCommand)
    ensures
        is_rendered(*c, r, match vals { Some(v) => Some(v@), None => None }),
{
    let command = match vals {
        Some(v) => render_template(c.command.as_str(), v),
        None => c.command.clone(),
    };
    PacsCommand { name: c.name.clone(), command, cwd: copy_opt(&c.cwd), tag: c.tag.clone() }
}

/// Every command of a list rendered under optional values, in the same order.
pub fn render_all(cmds: &Vec<PacsCommand>, vals: Option<&Vec<(String, String)>>) -> (r: Vec<PacsCommand>)
    ensures
        r@.len() == cmds@.len(),
        forall|k: int| 0 <= k < r@.len() ==> is_rendered(cmds@[k], #[trigger] r@[k], match vals { Some(v) => Some(v@), None => None }),
{
    let mut out: Vec<PacsCommand> = Vec::new();
    let mut i: usize = 0;
    while i < cmds.len()
        invariant
            i <= cmds@.len(),
            out@.len() == i,
            forall|k: int| 0 <= k < i ==> is_rendered(cmds@[k], #[trigger] out@[k], match vals { Some(v) => Some(v@), None => None }),
        decreases cmds@.len() - i,
    {
        out.push(render_command(&cmds[i], vals));
        i = i + 1;
    }
    out
}

} // verus!

//! Deciding whether a store, for instance one read from files, keeps its invariant.
use vstd::prelude::*;
use crate::model::{Context, Config, PacsCommand, context_index, Project};
use crate::store::{Pacs, command_names_unique, context_names_unique, keys_ordered, project_wf};
use crate::text::{
    key_eq, lemma_text_le_antisym, lemma_text_le_trans, same_key, text_le, text_le_exec,
};

verus! {

/// Decides `command_names_unique`.
fn commands_unique(cmds: &Vec<PacsCommand>) -> (r: bool)
    ensures
        r == command_names_unique(cmds@),
{
    let n = cmds.len();
    let mut i: usize = 0;
    while i < n
        invariant
            n == cmds@.len(),
            i <= n,
            forall|a: int, b: int| 0 <= a < b < n && a < i ==> (#[trigger] cmds@[a]).name@ != (#[trigger] cmds@[b]).name@,
        decreases n - i,
    {
        let mut j: usize = i + 1;
        while j < n
            invariant
                n == cmds@.len(),
                i < n,
                i + 1 <= j <= n,
                forall|a: int, b: int| 0 <= a < b < n && a < i ==> (#[trigger] cmds@[a]).name@ != (#[trigger] cmds@[b]).name@,
                forall|b: int| i < b < j ==> cmds@[i as int].name@ != (#[trigger] cmds@[b]).name@,
            decreases n - j,
        {
            if cmds[i].name == cmds[j].name {
                assert(!command_names_unique(cmds@)) by {
                    assert(cmds@[i as int].name@ == cmds@[j as int].name@);
                }
                return false;
            }
            j = j + 1;
        }
        i = i + 1;
    }
    true
}

/// Decides `context_names_unique`.
fn contexts_unique(ctxs: &Vec<Context>) -> (r: bool)
    ensures
        r == context_names_unique(ctxs@),
{
    let n = ctxs.len();
    let mut i: usize = 0;
    while i < n
        invariant
            n == ctxs@.len(),
            i <= n,
            forall|a: int, b: int| 0 <= a < b < n && a < i ==> (#[trigger] ctxs@[a]).name@ != (#[trigger] ctxs@[b]).name@,
        decreases n - i,
    {
        let mut j: usize = i + 1;
        while j < n
            invariant
                n == ctxs@.len(),
                i < n,
                i + 1 <= j <= n,
                forall|a: int, b: int| 0 <= a < b < n && a < i ==> (#[trigger] ctxs@[a]).name@ != (#[trigger] ctxs@[b]).name@,
                forall|b: int| i < b < j ==> ctxs@[i as int].name@ != (#[trigger] ctxs@[b]).name@,
            decreases n - j,
        {
            if ctxs[i].name == ctxs[j].name {
                assert(!context_names_unique(ctxs@)) by {
                    assert(ctxs@[i as int].name@ == ctxs@[j as int].name@);
                }
                return false;
            }
            j = j + 1;
        }
        i = i + 1;
    }
    true
}

/// Decides `keys_ordered`.
fn keys_ok(vals: &Vec<(String, String)>) -> (r: bool)
    ensures
        r == keys_ordered(vals@),
{
    let n = vals.len();
    let mut i: usize = 1;
    if n == 0 {
        return true;
    }
    while i < n
        invariant
            n == vals@.len(),
            1 <= i <= n,
            forall|a: int, b: int| 0 <= a < b < i ==> #[trigger] text_le(vals@[a].0@, vals@[b].0@) && vals@[a].0@ != vals@[b].0@,
        decreases n - i,
    {
        let prev = &vals[i - 1].0;
        let cur = &vals[i].0;
        if !text_le_exec(prev.as_str(), cur.as_str()) || *prev == *cur {
            assert(!keys_ordered(vals@)) by {
                assert(!(text_le(vals@[i - 1].0@, vals@[i as int].0@) && vals@[i - 1].0@ != vals@[i as int].0@));
            }
            return false;
        }
        assert(text_le(vals@[i - 1].0@, vals@[i as int].0@) && vals@[i - 1].0@ != vals@[i as int].0@);
        proof {
            assert forall|a: int, b: int| 0 <= a < b < i + 1 implies #[trigger] text_le(vals@[a].0@, vals@[b].0@) && vals@[a].0@ != vals@[b].0@ by {
                if b < i {
                } else if a == i - 1 {
                } else {
                    assert(text_le(vals@[a].0@, vals@[i - 1].0@) && vals@[a].0@ != vals@[i - 1].0@);
                    lemma_text_le_trans(vals@[a].0@, vals@[i - 1].0@, vals@[i as int].0@);
                    if vals@[a].0@ == vals@[i as int].0@ {
                        lemma_text_le_antisym(vals@[a].0@, vals@[i - 1].0@);
                    }
                }
            }
        }
        i = i + 1;
    }
    true
}

/// Decides `project_wf`.
fn project_ok(p: &Project) -> (r: bool)
    ensures
        r == project_wf(*p),
{
    if !commands_unique(&p.commands) || !contexts_unique(&p.contexts) {
        return false;
    }
    let mut c: usize = 0;
    while c < p.contexts.len()
        invariant
            c <= p.contexts@.len(),
            forall|x: int| 0 <= x < c ==> keys_ordered((#[trigger] p.contexts@[x]).values@),
        decreases p.contexts@.len() - c,
    {
        if !keys_ok(&p.contexts[c].values) {
            return false;
        }
        c = c + 1;
    }
    match &p.active_context {
        Some(a) => context_index(&p.contexts, a.as_str()).is_some(),
        None => true,
    }
}

impl Pacs {
    /// An empty store with the given settings.
    pub fn empty(config: Config) -> (r: Pacs)
        ensures
            r.wf(),
            r.projects@.len() == 0,
            r.config == config,
    {
        Pacs { projects: Vec::new(), config }
    }

    /// Whether the store keeps its invariant; a store read from files may not.
    pub fn well_formed(&self) -> (r: bool)
        ensures
            r == self.wf(),
    {
        let ps = &self.projects;
        let n = ps.len();
        let mut i: usize = 0;
        while i < n
            invariant
                ps@ == self.projects@,
                n == ps@.len(),
                i <= n,
                forall|a: int| 0 <= a < i ==> project_wf(#[trigger] ps@[a]),
                forall|a: int, b: int| 0 <= a < b < n && a < i ==> !same_key((#[trigger] ps@[a]).name@, (#[trigger] ps@[b]).name@),
            decreases n - i,
        {
            if !project_ok(&ps[i]) {
                assert(!project_wf(self.projects@[i as int]));
                return false;
            }
            let mut j: usize = i + 1;
            while j < n
                invariant
                    ps@ == self.projects@,
                    n == ps@.len(),
                    i < n,
                    i + 1 <= j <= n,
                    forall|a: int, b: int| 0 <= a < b < n && a < i ==> !same_key((#[trigger] ps@[a]).name@, (#[trigger] ps@[b]).name@),
                    forall|b: int| i < b < j ==> !same_key(ps@[i as int].name@, (#[trigger] ps@[b]).name@),
                decreases n - j,
            {
                if key_eq(ps[i].name.as_str(), ps[j].name.as_str()) {
                    assert(!self.wf()) by {
                        assert(same_key(ps@[i as int].name@, ps@[j as int].name@));
                    }
                    return false;
                }
                j = j + 1;
            }
            i = i + 1;
        }
        true
    }
}

} // verus!

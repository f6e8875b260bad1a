//! Names offered to shell completion: commands, projects, tags and environments.
use vstd::prelude::*;
use crate::model::{Project, Scope};
use crate::store::{Pacs};
use crate::text::{
    lemma_text_le_antisym, lemma_text_le_total, lemma_text_le_trans, text_le, text_le_exec,
};

verus! {

/// Some string of `v` holds the characters `t`.
pub open spec fn contains_text(v: Seq<String>, t: Seq<char>) -> bool {
    exists|j: int| 0 <= j < v.len() && (#[trigger] v[j])@ == t
}

/// The strings of `v` stand in strictly increasing order.
pub open spec fn strictly_sorted(v: Seq<String>) -> bool {
    forall|i: int, j: int| 0 <= i < j < v.len() ==> #[trigger] text_le(v[i]@, v[j]@) && v[i]@ != v[j]@
}

/// Some command of some project, before position `c` of project `p` when
/// `p` is still being read, carries the tag `t`.
pub open spec fn tag_before(ps: Seq<Project>, p: int, c: int, t: Seq<char>) -> bool {
    exists|i: int, k: int|
        0 <= i < ps.len() && 0 <= k < ps[i].commands@.len() && (i < p || (i == p && k < c))
            && (#[trigger] ps[i].commands@[k]).tag@ == t
}

/// Some command of some project carries the tag `t`.
pub open spec fn has_tag(ps: Seq<Project>, t: Seq<char>) -> bool {
    exists|i: int, k: int|
        0 <= i < ps.len() && 0 <= k < ps[i].commands@.len() && (#[trigger] ps[i].commands@[k]).tag@ == t
}

/// Adds a string to a strictly sorted list unless it is there already.
fn insert_sorted_unique(out: &mut Vec<String>, t: &String)
    requires
        strictly_sorted(old(out)@),
    ensures
        strictly_sorted(final(out)@),
        forall|s: Seq<char>| contains_text(final(out)@, s) <==> contains_text(old(out)@, s) || s == t@,
{
    let mut k: usize = 0;
    while k < out.len() && text_le_exec(out[k].as_str(), t.as_str())
        invariant
            out@ == old(out)@,
            strictly_sorted(out@),
            k <= out@.len(),
            forall|i: int| 0 <= i < k ==> text_le(#[trigger] out@[i]@, t@) && out@[i]@ != t@,
        decreases out@.len() - k,
    {
        if out[k] == *t {
            assert(contains_text(out@, t@));
            return;
        }
        k = k + 1;
    }
    let ghost before = out@;
    proof {
        if k < before.len() {
            lemma_text_le_total(before[k as int]@, t@);
            assert forall|j: int| k <= j < before.len() implies text_le(t@, #[trigger] before[j]@) && before[j]@ != t@ by {
                if j > k {
                    lemma_text_le_trans(t@, before[k as int]@, before[j]@);
                }
            }
        }
    }
    out.insert(k, t.clone());
    proof {
        assert forall|i: int, j: int| 0 <= i < j < out@.len() implies #[trigger] text_le(out@[i]@, out@[j]@) && out@[i]@ != out@[j]@ by {
            if j < k {
                assert(out@[i] == before[i] && out@[j] == before[j]);
            } else if j == k {
                assert(out@[i] == before[i]);
            } else if i == k {
                assert(out@[j] == before[j - 1]);
            } else if i > k {
                assert(out@[i] == before[i - 1] && out@[j] == before[j - 1]);
            } else {
                assert(out@[i] == before[i] && out@[j] == before[j - 1]);
                lemma_text_le_trans(out@[i]@, t@, out@[j]@);
                if out@[i]@ == out@[j]@ {
                    lemma_text_le_antisym(out@[i]@, t@);
                }
            }
        }
        assert forall|s: Seq<char>| contains_text(out@, s) <==> contains_text(before, s) || s == t@ by {
            if contains_text(out@, s) {
                let j = choose|j: int| 0 <= j < out@.len() && (#[trigger] out@[j])@ == s;
                if j < k { assert(before[j] == out@[j]); } else if j > k { assert(before[j - 1] == out@[j]); }
            }
            if contains_text(before, s) {
                let j = choose|j: int| 0 <= j < before.len() && (#[trigger] before[j])@ == s;
                if j < k { assert(out@[j] == before[j]); } else { assert(out@[j + 1] == before[j]); }
            }
            if s == t@ { assert(out@[k as int]@ == s); }
        }
        assert(before == old(out)@);
        assert(forall|s: Seq<char>| contains_text(out@, s) <==> contains_text(old(out)@, s) || s == t@);
    }
}

/// The scope of an optional project name: that project, else the active one.
pub open spec fn scope_for(project: Option<&str>) -> Scope {
    match project {
        Some(n) => Scope::Project(n),
        None => Scope::Active,
    }
}

impl Pacs {
    /// Names of the active project's commands, in stored order; none without an
    /// active project.
    pub fn suggest_command_names(&self) -> (r: Vec<String>)
        ensures
            !self.resolves(Scope::Active) ==> r@.len() == 0,
            self.resolves(Scope::Active) ==> exists|i: int|
                #[trigger] self.targets(Scope::Active, i) && r@.len() == self.projects@[i].commands@.len()
                    && forall|k: int| 0 <= k < r@.len() ==> (#[trigger] r@[k])@ == self.projects@[i].commands@[k].name@,
    {
        let mut names: Vec<String> = Vec::new();
        let i = match self.resolve(Scope::Active) {
            Ok(i) => i,
            Err(_) => return names,
        };
        let cmds = &self.projects[i].commands;
        let mut k: usize = 0;
        while k < cmds.len()
            invariant
                k <= cmds@.len(),
                names@.len() == k,
                forall|j: int| 0 <= j < k ==> (#[trigger] names@[j])@ == cmds@[j].name@,
            decreases cmds@.len() - k,
        {
            names.push(cmds[k].name.clone());
            k = k + 1;
        }
        names
    }

    /// Names of all projects, in stored order.
    pub fn suggest_projects(&self) -> (r: Vec<String>)
        ensures
            r@.len() == self.projects@.len(),
            forall|k: int| 0 <= k < r@.len() ==> (#[trigger] r@[k])@ == self.projects@[k].name@,
    {
        let mut names: Vec<String> = Vec::new();
        let mut k: usize = 0;
        while k < self.projects.len()
            invariant
                k <= self.projects@.len(),
                names@.len() == k,
                forall|j: int| 0 <= j < k ==> (#[trigger] names@[j])@ == self.projects@[j].name@,
            decreases self.projects@.len() - k,
        {
            names.push(self.projects[k].name.clone());
            k = k + 1;
        }
        names
    }

    /// Names of the environments of the project named, else of the active
    /// project; none when neither designates a project.
    pub fn suggest_environments(&self, project: Option<&str>) -> (r: Vec<String>)
        ensures
            !self.resolves(scope_for(project)) ==> r@.len() == 0,
            self.resolves(scope_for(project)) ==> exists|i: int|
                #[trigger] self.targets(scope_for(project), i) && r@.len() == self.projects@[i].contexts@.len()
                    && forall|k: int| 0 <= k < r@.len() ==> (#[trigger] r@[k])@ == self.projects@[i].contexts@[k].name@,
    {
        let scope = match project {
            Some(n) => Scope::Project(n),
            None => Scope::Active,
        };
        assert(scope == scope_for(project));
        let mut names: Vec<String> = Vec::new();
        let i = match self.resolve(scope) {
            Ok(i) => i,
            Err(_) => return names,
        };
        let ctxs = &self.projects[i].contexts;
        let mut k: usize = 0;
        while k < ctxs.len()
            invariant
                k <= ctxs@.len(),
                names@.len() == k,
                forall|j: int| 0 <= j < k ==> (#[trigger] names@[j])@ == ctxs@[j].name@,
            decreases ctxs@.len() - k,
        {
            names.push(ctxs[k].name.clone());
            k = k + 1;
        }
        names
    }

    /// The distinct non-empty tags of all commands, in increasing order.
    pub fn suggest_tags(&self) -> (r: Vec<String>)
        ensures
            strictly_sorted(r@),
            forall|t: Seq<char>| contains_text(r@, t) <==> t.len() > 0 && has_tag(self.projects@, t),
    {
        let ps = &self.projects;
        let mut out: Vec<String> = Vec::new();
        let mut p: usize = 0;
        while p < ps.len()
            invariant
                p <= ps@.len(),
                strictly_sorted(out@),
                forall|t: Seq<char>| contains_text(out@, t) <==> t.len() > 0 && tag_before(ps@, p as int, 0, t),
            decreases ps@.len() - p,
        {
            let cmds = &ps[p].commands;
            let mut c: usize = 0;
            while c < cmds.len()
                invariant
                    p < ps@.len(),
                    cmds == ps@[p as int].commands,
                    c <= cmds@.len(),
                    strictly_sorted(out@),
                    forall|t: Seq<char>| contains_text(out@, t) <==> t.len() > 0 && tag_before(ps@, p as int, c as int, t),
                decreases cmds@.len() - c,
            {
                let tag = &cmds[c].tag;
                let ghost before = out@;
                if !tag.as_str().is_empty() {
                    insert_sorted_unique(&mut out, tag);
                }
                proof {
                    assert forall|t: Seq<char>| contains_text(out@, t) <==> t.len() > 0 && tag_before(ps@, p as int, c + 1, t) by {
                        if tag_before(ps@, p as int, c + 1, t) && !tag_before(ps@, p as int, c as int, t) {
                            let (i, k) = choose|i: int, k: int|
                                0 <= i < ps@.len() && 0 <= k < ps@[i].commands@.len() && (i < p || (i == p && k < c + 1))
                                    && (#[trigger] ps@[i].commands@[k]).tag@ == t;
                            assert(i == p && k == c);
                        }
                        if tag_before(ps@, p as int, c as int, t) {
                            let (i, k) = choose|i: int, k: int|
                                0 <= i < ps@.len() && 0 <= k < ps@[i].commands@.len() && (i < p || (i == p && k < c))
                                    && (#[trigger] ps@[i].commands@[k]).tag@ == t;
                            assert(tag_before(ps@, p as int, c + 1, t));
                        }
                        if t == tag@ {
                            assert(ps@[p as int].commands@[c as int].tag@ == t);
                            assert(tag_before(ps@, p as int, c + 1, t));
                        }
                    }
                }
                c = c + 1;
            }
            proof {
                assert forall|t: Seq<char>| tag_before(ps@, p as int, c as int, t) <==> tag_before(ps@, p + 1, 0, t) by {
                    if tag_before(ps@, p as int, c as int, t) {
                        let (i, k) = choose|i: int, k: int|
                            0 <= i < ps@.len() && 0 <= k < ps@[i].commands@.len() && (i < p || (i == p && k < c))
                                && (#[trigger] ps@[i].commands@[k]).tag@ == t;
                        assert(tag_before(ps@, p + 1, 0, t));
                    }
                    if tag_before(ps@, p + 1, 0, t) {
                        let (i, k) = choose|i: int, k: int|
                            0 <= i < ps@.len() && 0 <= k < ps@[i].commands@.len() && (i < p + 1 || (i == p + 1 && k < 0))
                                && (#[trigger] ps@[i].commands@[k]).tag@ == t;
                        assert(tag_before(ps@, p as int, c as int, t));
                    }
                }
            }
            p = p + 1;
        }
        proof {
            assert forall|t: Seq<char>| tag_before(ps@, p as int, 0, t) <==> has_tag(ps@, t) by {
                if has_tag(ps@, t) {
                    let (i, k) = choose|i: int, k: int|
                        0 <= i < ps@.len() && 0 <= k < ps@[i].commands@.len() && (#[trigger] ps@[i].commands@[k]).tag@ == t;
                    assert(tag_before(ps@, p as int, 0, t));
                }
            }
        }
        out
    }
}

} // verus!

//! The form in which a project is written to its file: commands in order of
//! their names, each body ending with a newline so that it is written as a
//! block of lines.
use vstd::prelude::*;
use crate::model::{
    Context, PacsCommand, Project, copy_contexts, copy_opt, sort_by_name, sorted_by_name,
};
use crate::text::{chars_of, string_of};

verus! {

/// A body as stored: it ends with a newline, one added when missing.
pub open spec fn stored_body(b: Seq<char>) -> Seq<char> {
    if b.len() > 0 && b.last() == '\n' {
        b
    } else {
        b.push('\n')
    }
}

/// `r` is `c` as stored.
pub open spec fn is_stored(c: PacsCommand, r: PacsCommand) -> bool {
    &&& r.name == c.name
    &&& r.cwd == c.cwd
    &&& r.tag == c.tag
    &&& r.command@ == stored_body(c.command@)
}

/// The environments of `a` and `b` agree name for name and value for value.
pub open spec fn same_contexts(a: Seq<Context>, b: Seq<Context>) -> bool {
    &&& a.len() == b.len()
    &&& forall|i: int| 0 <= i < a.len() ==> (#[trigger] a[i]).name == b[i].name && a[i].values@ == b[i].values@
}

/// `s` is the stored form of `p`: the same project with its commands stored
/// and put in order of their names.
pub open spec fn is_storage_form(p: Project, s: Project) -> bool {
    &&& s.name == p.name
    &&& s.path == p.path
    &&& s.active_context == p.active_context
    &&& same_contexts(s.contexts@, p.contexts@)
    &&& sorted_by_name(s.commands@)
    &&& exists|e: Seq<PacsCommand>|
        e.len() == p.commands@.len() && (forall|k: int|
            0 <= k < e.len() ==> is_stored(p.commands@[k], #[trigger] e[k])) && s.commands@.to_multiset()
            == #[trigger] e.to_multiset()
}

/// A body with a newline at its end, one added when missing.
pub fn with_trailing_newline(s: &String) -> (r: String)
    ensures
        r@ == stored_body(s@),
{
    let mut v = chars_of(s.as_str());
    let n = v.len();
    if n > 0 && v[n - 1] == '\n' {
        return s.clone();
    }
    v.push('\n');
    string_of(&v)
}

/// A command as stored.
pub fn stored_command(c: &PacsCommand) -> (r: PacsCommand)
    ensures
        is_stored(*c, r),
{
    PacsCommand {
        name: c.name.clone(),
        command: with_trailing_newline(&c.command),
        cwd: copy_opt(&c.cwd),
        tag: c.tag.clone(),
    }
}

/// The stored form of a project.
pub fn storage_form(p: &Project) -> (r: Project)
    ensures
        is_storage_form(*p, r),
{
    let mut stored: Vec<PacsCommand> = Vec::new();
    let mut k: usize = 0;
    while k < p.commands.len()
        invariant
            k <= p.commands@.len(),
            stored@.len() == k,
            forall|j: int| 0 <= j < k ==> is_stored(p.commands@[j], #[trigger] stored@[j]),
        decreases p.commands@.len() - k,
    {
        stored.push(stored_command(&p.commands[k]));
        k = k + 1;
    }
    let commands = sort_by_name(stored);
    let contexts = copy_contexts(&p.contexts);
    let r = Project {
        name: p.name.clone(),
        path: copy_opt(&p.path),
        commands,
        contexts,
        active_context: copy_opt(&p.active_context),
    };
    assert(same_contexts(r.contexts@, p.contexts@));
    r
}

impl Project {
    /// Gives a project read without a name the name `stem`, the stem of its file.
    pub fn fill_name_from_stem(&mut self, stem: &str)
        ensures
            old(self).name@.len() == 0 ==> final(self).name@ == stem@,
            old(self).name@.len() != 0 ==> final(self).name == old(self).name,
            final(self).path == old(self).path,
            final(self).commands == old(self).commands,
            final(self).contexts == old(self).contexts,
            final(self).active_context == old(self).active_context,
    {
        if self.name.as_str().is_empty() {
            self.name = stem.to_owned();
        }
    }
}

} // verus!

//! Properties that relate several operations of the store.
use vstd::prelude::*;
use crate::model::{PacsCommand, Project, Scope, has_command, sorted_by_name};
use crate::storage::{is_storage_form, is_stored, same_contexts, stored_body};
use crate::store::{Pacs, commands_replaced, others_kept};
use crate::template::{expand, find_pair, render};

verus! {

broadcast use vstd::seq_lib::group_to_multiset_ensures;

/// `f` is `o` after a successful `add_command(cmd, scope)` into the project at `i`.
pub open spec fn added(o: Pacs, f: Pacs, cmd: PacsCommand, scope: Scope, i: int) -> bool {
    &&& o.targets(scope, i)
    &&& others_kept(o.projects@, f.projects@, i)
    &&& commands_replaced(o.projects@[i], f.projects@[i], o.projects@[i].commands@.push(cmd))
    &&& f.config == o.config
}

proof fn lemma_same_names(o: Pacs, f: Pacs, i: int)
    requires
        others_kept(o.projects@, f.projects@, i),
        0 <= i < o.projects@.len(),
        f.projects@[i].name == o.projects@[i].name,
        f.config == o.config,
    ensures
        forall|s: Scope, j: int| o.targets(s, j) <==> #[trigger] f.targets(s, j),
        forall|s: Scope| o.resolves(s) <==> #[trigger] f.resolves(s),
{
    assert forall|j: int| 0 <= j < o.projects@.len() implies (#[trigger] f.projects@[j]).name == o.projects@[j].name by {
        if j != i {
            assert(f.projects@[j] == o.projects@[j]);
        }
    }
    assert forall|s: Scope| o.resolves(s) <==> #[trigger] f.resolves(s) by {
        if let Some(n) = o.scope_name(s) {
            if o.resolves(s) {
                let j = choose|j: int| 0 <= j < o.projects@.len() && crate::text::same_key((#[trigger] o.projects@[j]).name@, n);
                assert(crate::text::same_key(f.projects@[j].name@, n));
            }
            if f.resolves(s) {
                let j = choose|j: int| 0 <= j < f.projects@.len() && crate::text::same_key((#[trigger] f.projects@[j]).name@, n);
                assert(crate::text::same_key(o.projects@[j].name@, n));
            }
        }
    }
}

/// Once a command is added to a project, its name is taken there: a second
/// `add_command` with that name and the same scope fails with `CommandExists`.
pub proof fn law_added_name_is_taken(o: Pacs, f: Pacs, cmd: PacsCommand, scope: Scope, i: int)
    requires
        added(o, f, cmd, scope, i),
    ensures
        f.resolves(scope),
        f.scope_has_command(scope, cmd.name@),
{
    lemma_same_names(o, f, i);
    let cmds = f.projects@[i].commands@;
    assert(cmds[cmds.len() - 1] == cmd);
    assert(has_command(cmds, cmd.name@));
    assert(f.targets(scope, i));
}

/// Adding a command to one project leaves every other project as it was, so
/// the same name can still be added to another project that does not hold it.
pub proof fn law_add_leaves_other_projects(
    o: Pacs,
    f: Pacs,
    cmd: PacsCommand,
    scope: Scope,
    i: int,
    other: Scope,
    j: int,
)
    requires
        added(o, f, cmd, scope, i),
        o.targets(other, j),
        j != i,
    ensures
        f.targets(other, j),
        f.projects@[j] == o.projects@[j],
        f.scope_has_command(other, cmd.name@) <==> o.scope_has_command(other, cmd.name@),
{
    lemma_same_names(o, f, i);
    assert(f.targets(other, j));
    assert forall|k: int| #[trigger] f.targets(other, k) implies k == j by {
        assert(o.targets(other, k));
    }
    assert forall|k: int| #[trigger] o.targets(other, k) implies k == j by {}
    if f.scope_has_command(other, cmd.name@) {
        let k = choose|k: int| f.targets(other, k) && has_command(#[trigger] f.projects@[k].commands@, cmd.name@);
        assert(k == j);
    }
    if o.scope_has_command(other, cmd.name@) {
        let k = choose|k: int| o.targets(other, k) && has_command(#[trigger] o.projects@[k].commands@, cmd.name@);
        assert(k == j);
        assert(f.projects@[k] == o.projects@[k]);
    }
}

/// Two commands are equal up to the newline that storing puts at the end of a body.
pub open spec fn same_modulo_newline(a: PacsCommand, b: PacsCommand) -> bool {
    &&& a.name == b.name
    &&& a.cwd == b.cwd
    &&& a.tag == b.tag
    &&& stored_body(a.command@) == stored_body(b.command@)
}

/// Some command of `cmds` equals `x` up to the final newline of its body.
pub open spec fn has_counterpart(x: PacsCommand, cmds: Seq<PacsCommand>) -> bool {
    exists|j: int| 0 <= j < cmds.len() && same_modulo_newline(x, #[trigger] cmds[j])
}

/// Reading back the stored form of a project gives the same project, with its
/// commands in order of their names and each command equal, up to the final
/// newline of its body, to one of the project's own, none lost or added.
pub proof fn law_storage_round_trip(p: Project, s: Project)
    requires
        is_storage_form(p, s),
    ensures
        s.name == p.name,
        s.path == p.path,
        s.active_context == p.active_context,
        same_contexts(s.contexts@, p.contexts@),
        sorted_by_name(s.commands@),
        s.commands@.len() == p.commands@.len(),
        forall|k: int| 0 <= k < s.commands@.len() ==> #[trigger] has_counterpart(s.commands@[k], p.commands@),
        forall|j: int| 0 <= j < p.commands@.len() ==> #[trigger] has_counterpart(p.commands@[j], s.commands@),
{
    let e = choose|e: Seq<PacsCommand>|
        e.len() == p.commands@.len() && (forall|k: int| 0 <= k < e.len() ==> is_stored(p.commands@[k], #[trigger] e[k]))
            && s.commands@.to_multiset() == #[trigger] e.to_multiset();
    assert(s.commands@.len() == s.commands@.to_multiset().len());
    assert(e.len() == e.to_multiset().len());
    assert forall|k: int| 0 <= k < s.commands@.len() implies #[trigger] has_counterpart(s.commands@[k], p.commands@) by {
        let x = s.commands@[k];
        assert(s.commands@.contains(x));
        assert(s.commands@.to_multiset().count(x) > 0);
        assert(e.to_multiset().count(x) > 0);
        assert(e.contains(x));
        let j = choose|j: int| 0 <= j < e.len() && e[j] == x;
        assert(is_stored(p.commands@[j], e[j]));
        assert(same_modulo_newline(x, p.commands@[j]));
    }
    assert forall|j: int| 0 <= j < p.commands@.len() implies #[trigger] has_counterpart(p.commands@[j], s.commands@) by {
        let x = e[j];
        assert(is_stored(p.commands@[j], x));
        assert(e.contains(x));
        assert(e.to_multiset().count(x) > 0);
        assert(s.commands@.to_multiset().count(x) > 0);
        assert(s.commands@.contains(x));
        let k = choose|k: int| 0 <= k < s.commands@.len() && s.commands@[k] == x;
        assert(same_modulo_newline(p.commands@[j], s.commands@[k]));
    }
}

/// A body whose first `{{` is never closed by a `}}` renders as it is, whatever
/// the values.
pub proof fn law_unclosed_placeholder_kept(src: Seq<char>, vals: Seq<(String, String)>)
    requires
        find_pair(src, '{', 0) matches Some(o) && find_pair(src, '}', o + 2) is None,
    ensures
        expand(src, vals) == Some(src),
        render(src, vals) == src,
{
    assert(src.subrange(0, src.len() as int) =~= src);
}

} // verus!

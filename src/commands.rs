//! Adding, changing, removing, listing and resolving the commands of a project.
use vstd::prelude::*;
use crate::model::{
    PacsCommand, PacsError, Project, Scope, command_exists, command_index, command_not_found,
    copy_command, has_command, is_first_command, project_not_found, sort_by_name,
};
use crate::render::{
    env_nocase, active_env, find_active_env, find_env_nocase, is_listing, is_rendered, render_all,
    render_command, selected_env,
};
use crate::store::{
    Pacs, command_names_unique, commands_replaced, has_project, is_first_project, others_kept,
    project_index, project_wf,
};
use crate::text::{trim, trim_of};

verus! {

/// Holds of the commands not called `name`.
pub open spec fn not_named(name: Seq<char>) -> spec_fn(PacsCommand) -> bool {
    |c: PacsCommand| c.name@ != name
}

/// Holds of the commands tagged `tag`.
pub open spec fn tagged(tag: Seq<char>) -> spec_fn(PacsCommand) -> bool {
    |c: PacsCommand| c.tag@ == tag
}

/// `cmds` without the commands called `name`.
pub open spec fn without_command(cmds: Seq<PacsCommand>, name: Seq<char>) -> Seq<PacsCommand> {
    cmds.filter(not_named(name))
}

proof fn lemma_without_command_unique(s: Seq<PacsCommand>, name: Seq<char>)
    requires
        command_names_unique(s),
    ensures
        command_names_unique(without_command(s, name)),
    decreases s.len(),
{
    if s.len() > 0 {
        let t = s.drop_last();
        let x = s.last();
        assert(command_names_unique(t)) by {
            assert forall|i: int, j: int| 0 <= i < j < t.len() implies (#[trigger] t[i]).name@ != (#[trigger] t[j]).name@ by {
                assert(t[i] == s[i] && t[j] == s[j]);
            }
        }
        lemma_without_command_unique(t, name);
        assert(s == t.push(x));
        t.lemma_filter_push(x, not_named(name));
        let ft = without_command(t, name);
        if not_named(name)(x) {
            assert forall|i: int| 0 <= i < ft.len() implies (#[trigger] ft[i]).name@ != x.name@ by {
                assert(ft.contains(ft[i]));
                t.lemma_filter_contains_rev(not_named(name), ft[i]);
                let m = choose|m: int| 0 <= m < t.len() && t[m] == ft[i];
                assert(s[m] == t[m]);
            }
            let f = ft.push(x);
            assert forall|i: int, j: int| 0 <= i < j < f.len() implies (#[trigger] f[i]).name@ != (#[trigger] f[j]).name@ by {
                if j == ft.len() {
                    assert(f[i] == ft[i]);
                } else {
                    assert(f[i] == ft[i] && f[j] == ft[j]);
                }
            }
        }
    }
}

/// Removes every command called `name`.
fn retain_not_named(cmds: &mut Vec<PacsCommand>, name: &str)
    ensures
        final(cmds)@ == without_command(old(cmds)@, name@),
{
    let ghost orig = cmds@;
    let ghost pred = not_named(name@);
    let key = name.to_owned();
    let mut i: usize = 0;
    let ghost mut k: int = 0;
    while i < cmds.len()
        invariant
            key@ == name@,
            pred == not_named(name@),
            0 <= k <= orig.len(),
            i <= cmds@.len(),
            cmds@.len() - i == orig.len() - k,
            cmds@.take(i as int) == orig.take(k).filter(pred),
            cmds@.skip(i as int) == orig.skip(k),
        decreases cmds@.len() - i,
    {
        let ghost before = cmds@;
        proof {
            assert(orig.skip(k)[0] == orig[k]);
            assert(orig.take(k + 1) =~= orig.take(k).push(orig[k]));
            orig.take(k).lemma_filter_push(orig[k], pred);
            assert(orig.skip(k + 1) =~= orig.skip(k).drop_first());
        }
        if cmds[i].name == key {
            cmds.remove(i);
            assert(cmds@.take(i as int) =~= before.take(i as int));
            assert(cmds@.skip(i as int) =~= before.skip(i as int).drop_first());
        } else {
            assert(cmds@.take(i + 1) =~= before.take(i as int).push(before[i as int]));
            assert(cmds@.skip(i + 1) =~= before.skip(i as int).drop_first());
            i = i + 1;
        }
        proof {
            k = k + 1;
        }
    }
    proof {
        assert(orig.skip(k).len() == 0);
        assert(orig.take(k) =~= orig);
        assert(cmds@.take(i as int) =~= cmds@);
    }
}

impl Pacs {
    /// The project that `scope` designates holds a command called `name`.
    pub open spec fn scope_has_command(self, scope: Scope, name: Seq<char>) -> bool {
        exists|i: int| self.targets(scope, i) && has_command(#[trigger] self.projects@[i].commands@, name)
    }

    /// `c` is the first command called `name` in the project that `scope` designates.
    pub open spec fn scope_command(self, scope: Scope, name: Seq<char>, c: PacsCommand) -> bool {
        exists|i: int, k: int|
            self.targets(scope, i) && is_first_command(self.projects@[i].commands@, name, k)
                && c == #[trigger] self.projects@[i].commands@[k]
    }

    /// Looks a project up by name, up to case.
    pub fn get_project(&self, name: &str) -> (r: Result<&Project, PacsError>)
        ensures
            r is Ok <==> has_project(self.projects@, name@),
            r matches Ok(p) ==> exists|i: int| is_first_project(self.projects@, name@, i) && *p == self.projects@[i],
            r matches Err(e) ==> project_not_found(e, name@),
    {
        match project_index(&self.projects, name) {
            Some(i) => Ok(&self.projects[i]),
            None => Err(PacsError::ProjectNotFound(name.to_owned())),
        }
    }

    /// Looks a project up by name, up to case, for changing it in place.
    pub fn get_project_mut(&mut self, name: &str) -> (r: Result<&mut Project, PacsError>)
        ensures
            r is Ok <==> has_project(old(self).projects@, name@),
            r matches Ok(p) ==> exists|i: int| is_first_project(old(self).projects@, name@, i)
                && *p == old(self).projects@[i]
                && final(self).projects@ == old(self).projects@.update(i, *final(p))
                && final(self).config == old(self).config,
            r matches Err(e) ==> project_not_found(e, name@) && *final(self) == *old(self),
    {
        match project_index(&self.projects, name) {
            Some(i) => Ok(&mut self.projects[i]),
            None => Err(PacsError::ProjectNotFound(name.to_owned())),
        }
    }

    /// Looks a command up in the project that `scope` designates.
    pub fn get_command(&self, name: &str, scope: Scope) -> (r: Result<&PacsCommand, PacsError>)
        ensures
            r is Ok <==> self.resolves(scope) && self.scope_has_command(scope, name@),
            r matches Ok(c) ==> self.scope_command(scope, name@, *c),
            r matches Err(e) ==> if self.resolves(scope) {
                command_not_found(e, name@)
            } else {
                self.resolve_error(scope, e)
            },
    {
        let i = match self.resolve(scope) {
            Ok(i) => i,
            Err(e) => return Err(e),
        };
        match command_index(self.projects[i].commands.as_slice(), name) {
            Some(k) => Ok(&self.projects[i].commands[k]),
            None => Err(PacsError::CommandNotFound(name.to_owned())),
        }
    }

    /// Adds a command to the project that `scope` designates, unless one of that
    /// name is there already.
    pub fn add_command(&mut self, cmd: PacsCommand, scope: Scope) -> (r: Result<(), PacsError>)
        ensures
            old(self).wf() ==> final(self).wf(),
            r is Ok <==> old(self).resolves(scope) && !old(self).scope_has_command(scope, cmd.name@),
            r matches Err(e) ==> *final(self) == *old(self) && if old(self).resolves(scope) {
                command_exists(e, cmd.name@)
            } else {
                old(self).resolve_error(scope, e)
            },
            r is Ok ==> exists|i: int|
                old(self).targets(scope, i) && others_kept(old(self).projects@, final(self).projects@, i)
                    && commands_replaced(old(self).projects@[i], #[trigger] final(self).projects@[i],
                        old(self).projects@[i].commands@.push(cmd))
                    && final(self).config == old(self).config,
            r is Ok ==> final(self).resolves(scope) && final(self).scope_has_command(scope, cmd.name@),
    {
        let i = match self.resolve(scope) {
            Ok(i) => i,
            Err(e) => return Err(e),
        };
        if command_index(self.projects[i].commands.as_slice(), cmd.name.as_str()).is_some() {
            return Err(PacsError::CommandExists(cmd.name));
        }
        let ghost c = cmd;
        let proj = &mut self.projects[i];
        proj.commands.push(cmd);
        assert(commands_replaced(old(self).projects@[i as int], self.projects@[i as int],
            old(self).projects@[i as int].commands@.push(c)));
        assert(others_kept(old(self).projects@, self.projects@, i as int));
        proof {
            crate::laws::law_added_name_is_taken(*old(self), *self, c, scope, i as int);
        }
        Ok(())
    }

    /// Removes the commands called `name` from the project that `scope` designates.
    pub fn delete_command(&mut self, name: &str, scope: Scope) -> (r: Result<(), PacsError>)
        ensures
            old(self).wf() ==> final(self).wf(),
            r is Ok <==> old(self).resolves(scope) && old(self).scope_has_command(scope, name@),
            r matches Err(e) ==> *final(self) == *old(self) && if old(self).resolves(scope) {
                command_not_found(e, name@)
            } else {
                old(self).resolve_error(scope, e)
            },
            r is Ok ==> exists|i: int|
                old(self).targets(scope, i) && others_kept(old(self).projects@, final(self).projects@, i)
                    && commands_replaced(old(self).projects@[i], #[trigger] final(self).projects@[i],
                        without_command(old(self).projects@[i].commands@, name@))
                    && final(self).config == old(self).config,
    {
        let i = match self.resolve(scope) {
            Ok(i) => i,
            Err(e) => return Err(e),
        };
        if command_index(self.projects[i].commands.as_slice(), name).is_none() {
            return Err(PacsError::CommandNotFound(name.to_owned()));
        }
        let proj = &mut self.projects[i];
        retain_not_named(&mut proj.commands, name);
        assert(commands_replaced(old(self).projects@[i as int], self.projects@[i as int],
            without_command(old(self).projects@[i as int].commands@, name@)));
        assert(others_kept(old(self).projects@, self.projects@, i as int));
        proof {
            if old(self).wf() {
                lemma_without_command_unique(old(self).projects@[i as int].commands@, name@);
                assert(project_wf(self.projects@[i as int]));
                assert forall|x: int| 0 <= x < self.projects@.len() implies project_wf(#[trigger] self.projects@[x]) by {
                    if x != i {
                        assert(self.projects@[x] == old(self).projects@[x]);
                    }
                }
            }
        }
        Ok(())
    }

    /// Removes a command from the active project.
    pub fn delete_command_auto(&mut self, name: &str) -> (r: Result<(), PacsError>)
        ensures
            old(self).wf() ==> final(self).wf(),
            r is Ok <==> old(self).resolves(Scope::Active) && old(self).scope_has_command(Scope::Active, name@),
            r matches Err(e) ==> *final(self) == *old(self) && if old(self).resolves(Scope::Active) {
                command_not_found(e, name@)
            } else {
                e is NoActiveProject
            },
            r is Ok ==> exists|i: int|
                old(self).targets(Scope::Active, i) && others_kept(old(self).projects@, final(self).projects@, i)
                    && commands_replaced(old(self).projects@[i], #[trigger] final(self).projects@[i],
                        without_command(old(self).projects@[i].commands@, name@))
                    && final(self).config == old(self).config,
    {
        self.delete_command(name, Scope::Active)
    }

    /// Looks a command up in the active project.
    pub fn get_command_auto(&self, name: &str) -> (r: Result<&PacsCommand, PacsError>)
        ensures
            r is Ok <==> self.resolves(Scope::Active) && self.scope_has_command(Scope::Active, name@),
            r matches Ok(c) ==> self.scope_command(Scope::Active, name@, *c),
            r matches Err(e) ==> if self.resolves(Scope::Active) {
                command_not_found(e, name@)
            } else {
                e is NoActiveProject
            },
    {
        self.get_command(name, Scope::Active)
    }

    /// Replaces the body of a command of the active project; returns the old body.
    pub fn update_command_auto(&mut self, name: &str, new_command: String) -> (r: Result<String, PacsError>)
        ensures
            old(self).wf() ==> final(self).wf(),
            r is Ok <==> old(self).resolves(Scope::Active) && old(self).scope_has_command(Scope::Active, name@),
            r matches Err(e) ==> *final(self) == *old(self) && if old(self).resolves(Scope::Active) {
                command_not_found(e, name@)
            } else {
                e is NoActiveProject
            },
            r matches Ok(prev) ==> exists|i: int, k: int|
                old(self).targets(Scope::Active, i) && #[trigger] is_first_command(old(self).projects@[i].commands@, name@, k)
                    && others_kept(old(self).projects@, final(self).projects@, i)
                    && prev == old(self).projects@[i].commands@[k].command
                    && commands_replaced(old(self).projects@[i], final(self).projects@[i],
                        old(self).projects@[i].commands@.update(k, PacsCommand {
                            command: new_command,
                            ..old(self).projects@[i].commands@[k]
                        }))
                    && final(self).config == old(self).config,
    {
        let i = match self.resolve(Scope::Active) {
            Ok(i) => i,
            Err(e) => return Err(e),
        };
        let k = match command_index(self.projects[i].commands.as_slice(), name) {
            Some(k) => k,
            None => return Err(PacsError::CommandNotFound(name.to_owned())),
        };
        let proj = &mut self.projects[i];
        let cmd = &mut proj.commands[k];
        let prev = cmd.command.clone();
        cmd.command = new_command;
        Ok(prev)
    }

    /// Renames a command of the active project, unless the new name is taken there.
    pub fn rename_command_auto(&mut self, old_name: &str, new_name: &str) -> (r: Result<(), PacsError>)
        ensures
            old(self).wf() ==> final(self).wf(),
            r is Ok <==> old(self).resolves(Scope::Active) && old(self).scope_has_command(Scope::Active, old_name@)
                && !old(self).scope_has_command(Scope::Active, new_name@),
            r matches Err(e) ==> *final(self) == *old(self) && if !old(self).resolves(Scope::Active) {
                e is NoActiveProject
            } else if !old(self).scope_has_command(Scope::Active, old_name@) {
                command_not_found(e, old_name@)
            } else {
                command_exists(e, new_name@)
            },
            r is Ok ==> exists|i: int, k: int|
                old(self).targets(Scope::Active, i) && #[trigger] is_first_command(old(self).projects@[i].commands@, old_name@, k)
                    && others_kept(old(self).projects@, final(self).projects@, i)
                    && final(self).projects@[i].commands@[k].name@ == new_name@
                    && commands_replaced(old(self).projects@[i], final(self).projects@[i],
                        old(self).projects@[i].commands@.update(k, PacsCommand {
                            name: final(self).projects@[i].commands@[k].name,
                            ..old(self).projects@[i].commands@[k]
                        }))
                    && final(self).config == old(self).config,
    {
        let i = match self.resolve(Scope::Active) {
            Ok(i) => i,
            Err(e) => return Err(e),
        };
        let k = match command_index(self.projects[i].commands.as_slice(), old_name) {
            Some(k) => k,
            None => return Err(PacsError::CommandNotFound(old_name.to_owned())),
        };
        if command_index(self.projects[i].commands.as_slice(), new_name).is_some() {
            return Err(PacsError::CommandExists(new_name.to_owned()));
        }
        let proj = &mut self.projects[i];
        let cmd = &mut proj.commands[k];
        cmd.name = new_name.to_owned();
        Ok(())
    }

    /// The commands of the project that `scope` designates, rendered under the
    /// environment named by `context` (else the project's active one), in order
    /// of their names.
    pub fn list_commands(&self, scope: Scope, context: Option<&str>) -> (r: Result<Vec<PacsCommand>, PacsError>)
        ensures
            r is Ok <==> self.resolves(scope),
            r matches Err(e) ==> self.resolve_error(scope, e),
            r matches Ok(v) ==> exists|i: int|
                self.targets(scope, i) && is_listing(#[trigger] self.projects@[i], selected_env(self.projects@[i], context), v@),
    {
        let i = match self.resolve(scope) {
            Ok(i) => i,
            Err(e) => return Err(e),
        };
        let project = &self.projects[i];
        let vals = match context {
            Some(n) => find_env_nocase(&project.contexts, n),
            None => find_active_env(project),
        };
        let rendered = render_all(&project.commands, vals);
        let sorted = sort_by_name(rendered);
        assert(is_listing(self.projects@[i as int], selected_env(self.projects@[i as int], context), sorted@));
        Ok(sorted)
    }

    /// The listing of the project that `scope` designates, restricted to one tag.
    pub fn list_by_tag(&self, scope: Scope, tag: &str) -> (r: Result<Vec<PacsCommand>, PacsError>)
        ensures
            r is Ok <==> self.resolves(scope),
            r matches Err(e) ==> self.resolve_error(scope, e),
            r matches Ok(v) ==> exists|i: int, l: Seq<PacsCommand>|
                self.targets(scope, i) && #[trigger] is_listing(self.projects@[i], selected_env(self.projects@[i], None), l)
                    && v@ == l.filter(tagged(tag@)),
    {
        let all = match self.list_commands(scope, None) {
            Ok(v) => v,
            Err(e) => return Err(e),
        };
        let ghost pred = tagged(tag@);
        let key = tag.to_owned();
        let mut out: Vec<PacsCommand> = Vec::new();
        let mut j: usize = 0;
        while j < all.len()
            invariant
                key@ == tag@,
                pred == tagged(tag@),
                j <= all@.len(),
                out@ == all@.take(j as int).filter(pred),
            decreases all@.len() - j,
        {
            proof {
                assert(all@.take(j + 1) == all@.take(j as int).push(all@[j as int]));
                all@.take(j as int).lemma_filter_push(all@[j as int], pred);
                assert(pred(all@[j as int]) == (all@[j as int].tag@ == tag@));
            }
            if all[j].tag == key {
                out.push(copy_command(&all[j]));
            }
            j = j + 1;
        }
        assert(all@.take(all@.len() as int) =~= all@);
        Ok(out)
    }
}

impl Pacs {
    /// The command called `name` in the project that `scope` designates, rendered
    /// under the environment named by `context` (else the project's active one),
    /// ready to execute. A body that is blank once rendered is reported as not found.
    pub fn prepare_run(&self, name: &str, scope: Scope, context: Option<&str>) -> (r: Result<PacsCommand, PacsError>)
        ensures
            r is Ok ==> self.resolves(scope) && self.scope_has_command(scope, name@),
            !self.resolves(scope) ==> (r matches Err(e) && self.resolve_error(scope, e)),
            self.resolves(scope) && !self.scope_has_command(scope, name@) ==> (r matches Err(e)
                && command_not_found(e, name@)),
            self.resolves(scope) && self.scope_has_command(scope, name@) ==> exists|i: int, c: PacsCommand|
                #[trigger] self.targets(scope, i) && #[trigger] self.scope_command(scope, name@, c) && match r {
                    Ok(x) => is_rendered(c, x, selected_env(self.projects@[i], context)) && trim_of(x.command@).len() > 0,
                    Err(e) => exists|x: PacsCommand| is_rendered(c, x, selected_env(self.projects@[i], context))
                        && trim_of(x.command@).len() == 0 && command_not_found(e, name@),
                },
    {
        let i = match self.resolve(scope) {
            Ok(i) => i,
            Err(e) => return Err(e),
        };
        let project = &self.projects[i];
        let k = match command_index(project.commands.as_slice(), name) {
            Some(k) => k,
            None => return Err(PacsError::CommandNotFound(name.to_owned())),
        };
        let vals = match context {
            Some(n) => find_env_nocase(&project.contexts, n),
            None => find_active_env(project),
        };
        let rendered = render_command(&project.commands[k], vals);
        assert(self.scope_command(scope, name@, project.commands@[k as int]));
        let ghost x = rendered;
        assert(is_rendered(project.commands@[k as int], x, selected_env(self.projects@[i as int], context)));
        if trim(rendered.command.as_str()).is_empty() {
            return Err(PacsError::CommandNotFound(rendered.name));
        }
        Ok(rendered)
    }

    /// The command called `name` in the project that `scope` designates, rendered
    /// under that project's active environment, ready to execute. A body that is
    /// blank once rendered is reported as not found.
    pub fn run(&self, name: &str, scope: Scope) -> (r: Result<PacsCommand, PacsError>)
        ensures
            r is Ok ==> self.resolves(scope) && self.scope_has_command(scope, name@),
            !self.resolves(scope) ==> (r matches Err(e) && self.resolve_error(scope, e)),
            self.resolves(scope) && !self.scope_has_command(scope, name@) ==> (r matches Err(e)
                && command_not_found(e, name@)),
            self.resolves(scope) && self.scope_has_command(scope, name@) ==> exists|i: int, c: PacsCommand|
                #[trigger] self.targets(scope, i) && #[trigger] self.scope_command(scope, name@, c) && match r {
                    Ok(x) => is_rendered(c, x, active_env(self.projects@[i])) && trim_of(x.command@).len() > 0,
                    Err(e) => exists|x: PacsCommand| is_rendered(c, x, active_env(self.projects@[i]))
                        && trim_of(x.command@).len() == 0 && command_not_found(e, name@),
                },
    {
        self.prepare_run(name, scope, None)
    }

    /// `run` on the active project.
    pub fn run_auto(&self, name: &str) -> (r: Result<PacsCommand, PacsError>)
        ensures
            r is Ok ==> self.resolves(Scope::Active) && self.scope_has_command(Scope::Active, name@),
            !self.resolves(Scope::Active) ==> (r matches Err(e) && e is NoActiveProject),
            self.resolves(Scope::Active) && !self.scope_has_command(Scope::Active, name@) ==> (r matches Err(e)
                && command_not_found(e, name@)),
            self.resolves(Scope::Active) && self.scope_has_command(Scope::Active, name@) ==> exists|i: int, c: PacsCommand|
                #[trigger] self.targets(Scope::Active, i) && #[trigger] self.scope_command(Scope::Active, name@, c) && match r {
                    Ok(x) => is_rendered(c, x, active_env(self.projects@[i])) && trim_of(x.command@).len() > 0,
                    Err(e) => exists|x: PacsCommand| is_rendered(c, x, active_env(self.projects@[i]))
                        && trim_of(x.command@).len() == 0 && command_not_found(e, name@),
                },
    {
        self.run(name, Scope::Active)
    }

    /// A command rendered under the environment of `project` whose name equals
    /// `context_name` up to ASCII case; unchanged when there is none.
    pub fn expand_with_context(cmd: &PacsCommand, project: &Project, context_name: &str) -> (r: PacsCommand)
        ensures
            is_rendered(*cmd, r, env_nocase(project.contexts@, context_name@)),
    {
        render_command(cmd, find_env_nocase(&project.contexts, context_name))
    }

    /// A command rendered under the active environment of the project called
    /// `project_name`.
    pub fn expand_with_project_context(&self, cmd: &PacsCommand, project_name: &str) -> (r: Result<PacsCommand, PacsError>)
        ensures
            r is Ok <==> has_project(self.projects@, project_name@),
            r matches Err(e) ==> project_not_found(e, project_name@),
            r matches Ok(x) ==> exists|i: int|
                is_first_project(self.projects@, project_name@, i) && is_rendered(*cmd, x, active_env(#[trigger] self.projects@[i])),
    {
        let i = match project_index(&self.projects, project_name) {
            Some(i) => i,
            None => return Err(PacsError::ProjectNotFound(project_name.to_owned())),
        };
        Ok(render_command(cmd, find_active_env(&self.projects[i])))
    }

    /// The command called `name` in the active project, rendered under that
    /// project's active environment.
    pub fn expand_command_auto(&self, name: &str) -> (r: Result<PacsCommand, PacsError>)
        ensures
            r is Ok <==> self.resolves(Scope::Active) && self.scope_has_command(Scope::Active, name@),
            r matches Err(e) ==> if self.resolves(Scope::Active) {
                command_not_found(e, name@)
            } else {
                e is NoActiveProject
            },
            r matches Ok(x) ==> exists|i: int, c: PacsCommand|
                #[trigger] self.targets(Scope::Active, i) && #[trigger] self.scope_command(Scope::Active, name@, c)
                    && is_rendered(c, x, active_env(self.projects@[i])),
    {
        let i = match self.resolve(Scope::Active) {
            Ok(i) => i,
            Err(e) => return Err(e),
        };
        let project = &self.projects[i];
        let k = match command_index(project.commands.as_slice(), name) {
            Some(k) => k,
            None => return Err(PacsError::CommandNotFound(name.to_owned())),
        };
        assert(self.scope_command(Scope::Active, name@, project.commands@[k as int]));
        Ok(render_command(&project.commands[k], find_active_env(project)))
    }

}

} // verus!

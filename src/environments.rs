//! The environments of a project and which of them is active.
use vstd::prelude::*;
use crate::model::{
    Context, context_index, environment_exists, environment_not_found, has_context,
    is_first_context, PacsError, Project, copy_opt, project_not_found,
};
use crate::store::{
    Pacs, has_project, is_first_project, keys_ordered, others_kept, project_index, project_wf,
};

verus! {

/// `b` is `a` with other environments, or another active environment.
pub open spec fn only_contexts_changed(a: Project, b: Project) -> bool {
    &&& b.name == a.name
    &&& b.path == a.path
    &&& b.commands == a.commands
}

impl Pacs {
    /// Adds a new environment without values to a project.
    pub fn add_context(&mut self, project_name: &str, context_name: &str) -> (r: Result<(), PacsError>)
        ensures
            old(self).wf() ==> final(self).wf(),
            r is Ok <==> exists|i: int| is_first_project(old(self).projects@, project_name@, i)
                && !has_context(#[trigger] old(self).projects@[i].contexts@, context_name@),
            r matches Err(e) ==> *final(self) == *old(self) && if has_project(old(self).projects@, project_name@) {
                environment_exists(e, context_name@)
            } else {
                project_not_found(e, project_name@)
            },
            r is Ok ==> exists|i: int| {
                let (a, b) = (old(self).projects@[i], final(self).projects@[i]);
                &&& #[trigger] is_first_project(old(self).projects@, project_name@, i)
                &&& others_kept(old(self).projects@, final(self).projects@, i)
                &&& final(self).config == old(self).config
                &&& only_contexts_changed(a, b)
                &&& b.active_context == a.active_context
                &&& b.contexts@.drop_last() == a.contexts@
                &&& b.contexts@.len() == a.contexts@.len() + 1
                &&& b.contexts@.last().name@ == context_name@
                &&& b.contexts@.last().values@.len() == 0
            },
    {
        let i = match project_index(&self.projects, project_name) {
            Some(i) => i,
            None => return Err(PacsError::ProjectNotFound(project_name.to_owned())),
        };
        if context_index(&self.projects[i].contexts, context_name).is_some() {
            return Err(PacsError::EnvironmentExists(context_name.to_owned()));
        }
        let proj = &mut self.projects[i];
        proj.contexts.push(Context { name: context_name.to_owned(), values: Vec::new() });
        assert(self.projects@[i as int].contexts@.drop_last() =~= old(self).projects@[i as int].contexts@);
        assert(others_kept(old(self).projects@, self.projects@, i as int));
        Ok(())
    }
}

impl Pacs {
    /// Removes an environment from a project; the project's active environment
    /// is cleared when it was that one.
    pub fn remove_context(&mut self, project_name: &str, context_name: &str) -> (r: Result<(), PacsError>)
        ensures
            old(self).wf() ==> final(self).wf(),
            r is Ok <==> exists|i: int| is_first_project(old(self).projects@, project_name@, i)
                && has_context(#[trigger] old(self).projects@[i].contexts@, context_name@),
            r matches Err(e) ==> *final(self) == *old(self) && if has_project(old(self).projects@, project_name@) {
                environment_not_found(e, context_name@)
            } else {
                project_not_found(e, project_name@)
            },
            r is Ok ==> exists|i: int, k: int| {
                let (a, b) = (old(self).projects@[i], final(self).projects@[i]);
                &&& #[trigger] is_first_project(old(self).projects@, project_name@, i)
                &&& #[trigger] is_first_context(old(self).projects@[i].contexts@, context_name@, k)
                &&& others_kept(old(self).projects@, final(self).projects@, i)
                &&& final(self).config == old(self).config
                &&& only_contexts_changed(a, b)
                &&& b.contexts@ == a.contexts@.remove(k)
                &&& b.active_context == match a.active_context {
                    Some(n) => if n@ == context_name@ { None } else { Some(n) },
                    None => None,
                }
            },
    {
        let i = match project_index(&self.projects, project_name) {
            Some(i) => i,
            None => return Err(PacsError::ProjectNotFound(project_name.to_owned())),
        };
        let k = match context_index(&self.projects[i].contexts, context_name) {
            Some(k) => k,
            None => return Err(PacsError::EnvironmentNotFound(context_name.to_owned())),
        };
        let key = context_name.to_owned();
        let proj = &mut self.projects[i];
        let _removed = proj.contexts.remove(k);
        let was_active = match &proj.active_context {
            Some(n) => *n == key,
            None => false,
        };
        if was_active {
            proj.active_context = None;
        }
        assert(others_kept(old(self).projects@, self.projects@, i as int));
        proof {
            if old(self).wf() {
                let a = old(self).projects@[i as int];
                let b = self.projects@[i as int];
                assert(b.contexts@ == a.contexts@.remove(k as int));
                assert forall|x: int, y: int| 0 <= x < y < b.contexts@.len() implies (#[trigger] b.contexts@[x]).name@ != (#[trigger] b.contexts@[y]).name@ by {
                    let x2 = if x < k { x } else { x + 1 };
                    let y2 = if y < k { y } else { y + 1 };
                    assert(b.contexts@[x] == a.contexts@[x2] && b.contexts@[y] == a.contexts@[y2]);
                }
                assert forall|x: int| 0 <= x < b.contexts@.len() implies keys_ordered((#[trigger] b.contexts@[x]).values@) by {
                    let x2 = if x < k { x } else { x + 1 };
                    assert(b.contexts@[x] == a.contexts@[x2]);
                }
                if let Some(n) = b.active_context {
                    assert(n@ != context_name@);
                    let m = choose|m: int| 0 <= m < a.contexts@.len() && (#[trigger] a.contexts@[m]).name@ == n@;
                    assert(m != k);
                    let m2 = if m < k { m } else { m - 1 };
                    assert(b.contexts@[m2] == a.contexts@[m]);
                }
                assert(project_wf(b));
                assert forall|x: int| 0 <= x < self.projects@.len() implies project_wf(#[trigger] self.projects@[x]) by {
                    if x != i {
                        assert(self.projects@[x] == old(self).projects@[x]);
                    }
                }
            }
        }
        Ok(())
    }

    /// Replaces the values of a project's environment.
    pub fn edit_context_values(
        &mut self,
        project_name: &str,
        context_name: &str,
        values: Vec<(String, String)>,
    ) -> (r: Result<(), PacsError>)
        ensures
            old(self).wf() && keys_ordered(values@) ==> final(self).wf(),
            r is Ok <==> exists|i: int| is_first_project(old(self).projects@, project_name@, i)
                && has_context(#[trigger] old(self).projects@[i].contexts@, context_name@),
            r matches Err(e) ==> *final(self) == *old(self) && if has_project(old(self).projects@, project_name@) {
                environment_not_found(e, context_name@)
            } else {
                project_not_found(e, project_name@)
            },
            r is Ok ==> exists|i: int, k: int| {
                let (a, b) = (old(self).projects@[i], final(self).projects@[i]);
                &&& #[trigger] is_first_project(old(self).projects@, project_name@, i)
                &&& #[trigger] is_first_context(old(self).projects@[i].contexts@, context_name@, k)
                &&& others_kept(old(self).projects@, final(self).projects@, i)
                &&& final(self).config == old(self).config
                &&& only_contexts_changed(a, b)
                &&& b.active_context == a.active_context
                &&& b.contexts@ == a.contexts@.update(k, Context { values, ..a.contexts@[k] })
            },
    {
        let i = match project_index(&self.projects, project_name) {
            Some(i) => i,
            None => return Err(PacsError::ProjectNotFound(project_name.to_owned())),
        };
        let k = match context_index(&self.projects[i].contexts, context_name) {
            Some(k) => k,
            None => return Err(PacsError::EnvironmentNotFound(context_name.to_owned())),
        };
        let proj = &mut self.projects[i];
        let ghost new_values = values@;
        let ctx = &mut proj.contexts[k];
        ctx.values = values;
        assert(others_kept(old(self).projects@, self.projects@, i as int));
        proof {
            if old(self).wf() && keys_ordered(new_values) {
                let a = old(self).projects@[i as int];
                let b = self.projects@[i as int];
                assert forall|x: int| 0 <= x < b.contexts@.len() implies (#[trigger] b.contexts@[x]).name == a.contexts@[x].name by {}
                assert forall|x: int| 0 <= x < b.contexts@.len() implies keys_ordered((#[trigger] b.contexts@[x]).values@) by {
                    if x != k {
                        assert(b.contexts@[x] == a.contexts@[x]);
                    }
                }
                assert forall|x: int, y: int| 0 <= x < y < b.contexts@.len() implies (#[trigger] b.contexts@[x]).name@ != (#[trigger] b.contexts@[y]).name@ by {
                    assert(b.contexts@[x].name == a.contexts@[x].name && b.contexts@[y].name == a.contexts@[y].name);
                }
                if let Some(n) = b.active_context {
                    let m = choose|m: int| 0 <= m < a.contexts@.len() && (#[trigger] a.contexts@[m]).name@ == n@;
                    assert(b.contexts@[m].name == a.contexts@[m].name);
                }
                assert(project_wf(b));
                assert forall|x: int| 0 <= x < self.projects@.len() implies project_wf(#[trigger] self.projects@[x]) by {
                    if x != i {
                        assert(self.projects@[x] == old(self).projects@[x]);
                    }
                }
            }
        }
        Ok(())
    }

    /// Makes an existing environment the project's active one.
    pub fn activate_context(&mut self, project_name: &str, context_name: &str) -> (r: Result<(), PacsError>)
        ensures
            old(self).wf() ==> final(self).wf(),
            r is Ok <==> exists|i: int| is_first_project(old(self).projects@, project_name@, i)
                && has_context(#[trigger] old(self).projects@[i].contexts@, context_name@),
            r matches Err(e) ==> *final(self) == *old(self) && if has_project(old(self).projects@, project_name@) {
                environment_not_found(e, context_name@)
            } else {
                project_not_found(e, project_name@)
            },
            r is Ok ==> exists|i: int| {
                let (a, b) = (old(self).projects@[i], final(self).projects@[i]);
                &&& #[trigger] is_first_project(old(self).projects@, project_name@, i)
                &&& others_kept(old(self).projects@, final(self).projects@, i)
                &&& final(self).config == old(self).config
                &&& only_contexts_changed(a, b)
                &&& b.contexts == a.contexts
                &&& b.active_context matches Some(n) && n@ == context_name@
            },
    {
        let i = match project_index(&self.projects, project_name) {
            Some(i) => i,
            None => return Err(PacsError::ProjectNotFound(project_name.to_owned())),
        };
        if context_index(&self.projects[i].contexts, context_name).is_none() {
            return Err(PacsError::EnvironmentNotFound(context_name.to_owned()));
        }
        let proj = &mut self.projects[i];
        proj.active_context = Some(context_name.to_owned());
        assert(others_kept(old(self).projects@, self.projects@, i as int));
        Ok(())
    }

    /// Clears the project's active environment.
    pub fn deactivate_context(&mut self, project_name: &str) -> (r: Result<(), PacsError>)
        ensures
            old(self).wf() ==> final(self).wf(),
            r is Ok <==> has_project(old(self).projects@, project_name@),
            r matches Err(e) ==> *final(self) == *old(self) && project_not_found(e, project_name@),
            r is Ok ==> exists|i: int| {
                let (a, b) = (old(self).projects@[i], final(self).projects@[i]);
                &&& #[trigger] is_first_project(old(self).projects@, project_name@, i)
                &&& others_kept(old(self).projects@, final(self).projects@, i)
                &&& final(self).config == old(self).config
                &&& only_contexts_changed(a, b)
                &&& b.contexts == a.contexts
                &&& b.active_context is None
            },
    {
        let i = match project_index(&self.projects, project_name) {
            Some(i) => i,
            None => return Err(PacsError::ProjectNotFound(project_name.to_owned())),
        };
        let proj = &mut self.projects[i];
        proj.active_context = None;
        assert(others_kept(old(self).projects@, self.projects@, i as int));
        Ok(())
    }

    /// The name of the project's active environment, if any.
    pub fn get_active_context(&self, project_name: &str) -> (r: Result<Option<String>, PacsError>)
        ensures
            r is Ok <==> has_project(self.projects@, project_name@),
            r matches Err(e) ==> project_not_found(e, project_name@),
            r matches Ok(a) ==> exists|i: int|
                #[trigger] is_first_project(self.projects@, project_name@, i) && a == self.projects@[i].active_context,
    {
        match project_index(&self.projects, project_name) {
            Some(i) => Ok(copy_opt(&self.projects[i].active_context)),
            None => Err(PacsError::ProjectNotFound(project_name.to_owned())),
        }
    }
}

} // verus!

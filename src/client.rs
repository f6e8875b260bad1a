//! What the terminal interface asks of the store, and the state of its copy button.
use vstd::prelude::*;
use crate::model::{
    PacsError, Scope, copy_opt, copy_values, has_context, project_not_found, environment_not_found,
};
use crate::render::{active_env, find_active_env};
use crate::environments::only_contexts_changed;
use crate::store::{Pacs, has_project, is_first_project, others_kept};
use crate::suggest::scope_for;

verus! {

/// How long the copy button shows that it was pressed, in milliseconds.
pub const COPY_FEEDBACK_MS: u64 = 300;

/// The store as the terminal interface sees it.
#[derive(Debug)]
pub struct PacsClient {
    pub pacs: Pacs,
}

/// When the copy button was last pressed, in milliseconds of some clock.
#[derive(Debug, Clone, Copy, Default)]
pub struct CopyButtonState {
    pub clicked_at: Option<u64>,
}

impl CopyButtonState {
    /// Records a press at time `now_ms`.
    pub fn click(&mut self, now_ms: u64)
        ensures
            final(self).clicked_at == Some(now_ms),
    {
        self.clicked_at = Some(now_ms);
    }

    /// The button shows its pressed look for a short while after a press.
    pub fn is_active(&self, now_ms: u64) -> (r: bool)
        ensures
            r == match self.clicked_at {
                Some(t) => now_ms < t || now_ms - t < COPY_FEEDBACK_MS,
                None => false,
            },
    {
        match self.clicked_at {
            Some(t) => now_ms < t || now_ms - t < COPY_FEEDBACK_MS,
            None => false,
        }
    }
}

impl PacsClient {
    /// A client over a loaded store.
    pub fn new(pacs: Pacs) -> (r: PacsClient)
        ensures
            r.pacs == pacs,
    {
        PacsClient { pacs }
    }

    /// Names of all projects, in stored order.
    pub fn list_projects(&self) -> (r: Vec<String>)
        ensures
            r@.len() == self.pacs.projects@.len(),
            forall|k: int| 0 <= k < r@.len() ==> (#[trigger] r@[k])@ == self.pacs.projects@[k].name@,
    {
        self.pacs.suggest_projects()
    }

    /// Names of the active project's environments; none without an active project.
    pub fn list_environments(&self) -> (r: Vec<String>)
        ensures
            !self.pacs.resolves(Scope::Active) ==> r@.len() == 0,
            self.pacs.resolves(Scope::Active) ==> exists|i: int|
                #[trigger] self.pacs.targets(Scope::Active, i) && r@.len() == self.pacs.projects@[i].contexts@.len()
                    && forall|k: int| 0 <= k < r@.len() ==> (#[trigger] r@[k])@ == self.pacs.projects@[i].contexts@[k].name@,
    {
        let r = self.pacs.suggest_environments(None);
        assert(scope_for(None) == Scope::Active);
        r
    }

    /// The active project's name, when it designates a project.
    pub fn active_project(&self) -> (r: Option<String>)
        ensures
            r is Some <==> self.pacs.resolves(Scope::Active),
            r matches Some(n) ==> Some(n@) == self.pacs.active_name(),
    {
        match self.pacs.resolve(Scope::Active) {
            Ok(_) => copy_opt(&self.pacs.config.active_project),
            Err(_) => None,
        }
    }

    /// The active environment of the active project, if both are set.
    pub fn active_environment(&self) -> (r: Option<String>)
        ensures
            !self.pacs.resolves(Scope::Active) ==> r is None,
            self.pacs.resolves(Scope::Active) ==> exists|i: int|
                #[trigger] self.pacs.targets(Scope::Active, i) && r == self.pacs.projects@[i].active_context,
    {
        match self.pacs.resolve(Scope::Active) {
            Ok(i) => copy_opt(&self.pacs.projects[i].active_context),
            Err(_) => None,
        }
    }

    /// Makes the project called `name` the active one.
    pub fn set_active_project(&mut self, name: &str) -> (r: Result<(), PacsError>)
        ensures
            r is Ok <==> has_project(old(self).pacs.projects@, name@),
            r matches Err(e) ==> project_not_found(e, name@) && *final(self) == *old(self),
            r is Ok ==> final(self).pacs.projects == old(self).pacs.projects
                && final(self).pacs.active_name() == Some(name@),
    {
        self.pacs.set_active_project(name)
    }

    /// Makes the environment called `name` the active one of the active project.
    pub fn set_active_environment(&mut self, name: &str) -> (r: Result<(), PacsError>)
        ensures
            !old(self).pacs.resolves(Scope::Active) ==> (r matches Err(e) && e is NoActiveProject)
                && *final(self) == *old(self),
            old(self).pacs.resolves(Scope::Active) ==> exists|i: int| {
                let (a, b) = (old(self).pacs.projects@[i], final(self).pacs.projects@[i]);
                &&& #[trigger] old(self).pacs.targets(Scope::Active, i)
                &&& (r is Ok <==> has_context(a.contexts@, name@))
                &&& (r matches Err(e) ==> environment_not_found(e, name@) && *final(self) == *old(self))
                &&& (r is Ok ==> others_kept(old(self).pacs.projects@, final(self).pacs.projects@, i)
                    && final(self).pacs.config == old(self).pacs.config && only_contexts_changed(a, b)
                    && b.contexts == a.contexts && (b.active_context matches Some(n) && n@ == name@))
            },
    {
        let i = match self.pacs.resolve(Scope::Active) {
            Ok(i) => i,
            Err(e) => return Err(e),
        };
        let project = self.pacs.projects[i].name.clone();
        proof {
            let a = old(self).pacs.active_name()->0;
            assert(crate::text::same_key(project@, a));
            assert forall|j: int| 0 <= j < i implies !crate::text::same_key((#[trigger] self.pacs.projects@[j]).name@, project@) by {
                assert(!crate::text::same_key(self.pacs.projects@[j].name@, a));
            }
            assert(is_first_project(self.pacs.projects@, project@, i as int));
        }
        let r = self.pacs.activate_context(project.as_str(), name);
        proof {
            if r is Ok {
                let j = choose|j: int| #[trigger] is_first_project(old(self).pacs.projects@, project@, j);
                assert(j == i);
            }
        }
        r
    }

    /// The values of the active project's active environment; none when either
    /// is not set.
    pub fn environment_values(&self) -> (r: Vec<(String, String)>)
        ensures
            !self.pacs.resolves(Scope::Active) ==> r@.len() == 0,
            self.pacs.resolves(Scope::Active) ==> exists|i: int|
                #[trigger] self.pacs.targets(Scope::Active, i) && r@ == match active_env(self.pacs.projects@[i]) {
                    Some(v) => v,
                    None => Seq::empty(),
                },
    {
        let i = match self.pacs.resolve(Scope::Active) {
            Ok(i) => i,
            Err(_) => return Vec::new(),
        };
        match find_active_env(&self.pacs.projects[i]) {
            Some(v) => copy_values(v),
            None => Vec::new(),
        }
    }
}

} // verus!

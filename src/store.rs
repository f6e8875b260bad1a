//! The in-memory store of projects and the resolution of which project an
//! operation targets.
use vstd::prelude::*;
use crate::model::{
    Context, Config, PacsCommand, has_context, PacsError, Project, Scope, copy_opt, project_exists,
    project_not_found,
};
use crate::storage::{is_storage_form, storage_form};
use crate::text::{lower_of, lowercase, same_key, text_le};

verus! {

/// All projects, with the settings that say which one is active.
#[derive(Debug)]
pub struct Pacs {
    /// Registered projects with their commands and environments.
    pub projects: Vec<Project>,
    /// The settings kept beside the projects.
    pub config: Config,
}

/// Some project of `ps` is called `name`, up to case.
pub open spec fn has_project(ps: Seq<Project>, name: Seq<char>) -> bool {
    exists|i: int| 0 <= i < ps.len() && same_key((#[trigger] ps[i]).name@, name)
}

/// `i` is the first position of a project called `name`, up to case.
pub open spec fn is_first_project(ps: Seq<Project>, name: Seq<char>, i: int) -> bool {
    &&& 0 <= i < ps.len()
    &&& same_key(ps[i].name@, name)
    &&& forall|j: int| 0 <= j < i ==> !same_key((#[trigger] ps[j]).name@, name)
}

/// `new` is `old` with at most the project at `i` changed.
pub open spec fn others_kept(old: Seq<Project>, new: Seq<Project>, i: int) -> bool {
    &&& new.len() == old.len()
    &&& forall|j: int| 0 <= j < old.len() && j != i ==> new[j] == old[j]
}

/// No two commands share a name.
pub open spec fn command_names_unique(cmds: Seq<PacsCommand>) -> bool {
    forall|i: int, j: int| 0 <= i < j < cmds.len() ==> (#[trigger] cmds[i]).name@ != (#[trigger] cmds[j]).name@
}

/// No two environments share a name.
pub open spec fn context_names_unique(ctxs: Seq<Context>) -> bool {
    forall|i: int, j: int| 0 <= i < j < ctxs.len() ==> (#[trigger] ctxs[i]).name@ != (#[trigger] ctxs[j]).name@
}

/// The keys of environment values stand in strictly increasing order, so
/// each key appears once.
pub open spec fn keys_ordered(vals: Seq<(String, String)>) -> bool {
    forall|i: int, j: int| 0 <= i < j < vals.len() ==> #[trigger] text_le(vals[i].0@, vals[j].0@) && vals[i].0@ != vals[j].0@
}

/// The invariant of a project: names of commands and of environments are
/// unique, the values of each environment are ordered by key, and the active
/// environment, if set, is one of its environments.
pub open spec fn project_wf(p: Project) -> bool {
    &&& command_names_unique(p.commands@)
    &&& context_names_unique(p.contexts@)
    &&& forall|i: int| 0 <= i < p.contexts@.len() ==> keys_ordered((#[trigger] p.contexts@[i]).values@)
    &&& (p.active_context matches Some(a) ==> has_context(p.contexts@, a@))
}

/// `b` is `a` with a new list of commands.
pub open spec fn commands_replaced(a: Project, b: Project, cmds: Seq<PacsCommand>) -> bool {
    &&& b.name == a.name
    &&& b.path == a.path
    &&& b.contexts == a.contexts
    &&& b.active_context == a.active_context
    &&& b.commands@ == cmds
}

/// Position of the first project called `name`, up to case.
pub fn project_index(ps: &Vec<Project>, name: &str) -> (r: Option<usize>)
    ensures
        r matches Some(i) ==> is_first_project(ps@, name@, i as int),
        r is None ==> !has_project(ps@, name@),
{
    let key = lowercase(name);
    let mut i: usize = 0;
    while i < ps.len()
        invariant
            key@ == lower_of(name@),
            i <= ps@.len(),
            forall|j: int| 0 <= j < i ==> !same_key((#[trigger] ps@[j]).name@, name@),
        decreases ps@.len() - i,
    {
        let k = lowercase(ps[i].name.as_str());
        if k == key {
            return Some(i);
        }
        i = i + 1;
    }
    None
}

impl Pacs {
    /// A store of the given projects and settings.
    pub fn new(projects: Vec<Project>, config: Config) -> (r: Pacs)
        ensures
            r.projects == projects,
            r.config == config,
    {
        Pacs { projects, config }
    }

    /// The invariant of the store: project names are unique up to case, and
    /// every project keeps its own invariant.
    pub open spec fn wf(self) -> bool {
        &&& forall|i: int, j: int|
            0 <= i < j < self.projects@.len() ==> !same_key((#[trigger] self.projects@[i]).name@, (#[trigger] self.projects@[j]).name@)
        &&& forall|i: int| 0 <= i < self.projects@.len() ==> project_wf(#[trigger] self.projects@[i])
    }

    /// The name of the active project as the settings hold it.
    pub open spec fn active_name(self) -> Option<Seq<char>> {
        match self.config.active_project {
            Some(a) => Some(a@),
            None => None,
        }
    }

    /// The name that `scope` designates, if any.
    pub open spec fn scope_name(self, scope: Scope) -> Option<Seq<char>> {
        match scope {
            Scope::Project(n) => Some(n@),
            Scope::Active => self.active_name(),
        }
    }

    /// `scope` designates an existing project.
    pub open spec fn resolves(self, scope: Scope) -> bool {
        match self.scope_name(scope) {
            Some(n) => has_project(self.projects@, n),
            None => false,
        }
    }

    /// `scope` designates the project at position `i`.
    pub open spec fn targets(self, scope: Scope, i: int) -> bool {
        match self.scope_name(scope) {
            Some(n) => is_first_project(self.projects@, n, i),
            None => false,
        }
    }

    /// `e` is the error for a scope that designates no project.
    pub open spec fn resolve_error(self, scope: Scope, e: PacsError) -> bool {
        match scope {
            Scope::Project(n) => project_not_found(e, n@),
            Scope::Active => e is NoActiveProject,
        }
    }

    /// The position of the project that `scope` designates.
    pub fn resolve(&self, scope: Scope) -> (r: Result<usize, PacsError>)
        ensures
            r is Ok <==> self.resolves(scope),
            r matches Ok(i) ==> self.targets(scope, i as int),
            r matches Err(e) ==> self.resolve_error(scope, e),
    {
        match scope {
            Scope::Project(n) => match project_index(&self.projects, n) {
                Some(i) => Ok(i),
                None => Err(PacsError::ProjectNotFound(n.to_owned())),
            },
            Scope::Active => match &self.config.active_project {
                Some(a) => match project_index(&self.projects, a.as_str()) {
                    Some(i) => Ok(i),
                    None => Err(PacsError::NoActiveProject),
                },
                None => Err(PacsError::NoActiveProject),
            },
        }
    }

    /// Sets the active project by name.
    pub fn set_active_project(&mut self, name: &str) -> (r: Result<(), PacsError>)
        ensures
            old(self).wf() ==> final(self).wf(),
            r is Ok <==> has_project(old(self).projects@, name@),
            r matches Err(e) ==> project_not_found(e, name@) && *final(self) == *old(self),
            r is Ok ==> final(self).projects == old(self).projects && final(self).active_name()
                == Some(name@),
    {
        match project_index(&self.projects, name) {
            None => Err(PacsError::ProjectNotFound(name.to_owned())),
            Some(_) => {
                self.config.active_project = Some(name.to_owned());
                Ok(())
            },
        }
    }

    /// Clears the active project.
    pub fn clear_active_project(&mut self)
        ensures
            old(self).wf() ==> final(self).wf(),
            final(self).projects == old(self).projects,
            final(self).config.active_project is None,
    {
        self.config.active_project = None;
    }

    /// The active project's name. A name that no longer designates a project
    /// is cleared from the settings.
    pub fn get_active_project(&mut self) -> (r: Option<String>)
        ensures
            old(self).wf() ==> final(self).wf(),
            final(self).projects == old(self).projects,
            old(self).resolves(Scope::Active) ==> *final(self) == *old(self) && r is Some
                && r->0@ == old(self).active_name()->0,
            !old(self).resolves(Scope::Active) ==> r is None
                && final(self).config.active_project is None,
    {
        match self.resolve(Scope::Active) {
            Ok(_) => copy_opt(&self.config.active_project),
            Err(_) => {
                self.config.active_project = None;
                None
            },
        }
    }

    /// Creates a new, empty project with the given name and optional path.
    pub fn init_project(&mut self, name: &str, path: Option<String>) -> (r: Result<(), PacsError>)
        ensures
            old(self).wf() ==> final(self).wf(),
            r is Err <==> has_project(old(self).projects@, name@),
            r matches Err(e) ==> project_exists(e, name@) && *final(self) == *old(self),
            r is Ok ==> {
                let p = final(self).projects@.last();
                &&& final(self).projects@.drop_last() == old(self).projects@
                &&& final(self).projects@.len() == old(self).projects@.len() + 1
                &&& p.name@ == name@
                &&& p.path == path
                &&& p.commands@.len() == 0
                &&& p.contexts@.len() == 0
                &&& p.active_context is None
                &&& final(self).config == old(self).config
            },
    {
        if project_index(&self.projects, name).is_some() {
            return Err(PacsError::ProjectExists(name.to_owned()));
        }
        let project = Project {
            name: name.to_owned(),
            path,
            commands: Vec::new(),
            contexts: Vec::new(),
            active_context: None,
        };
        self.projects.push(project);
        proof {
            assert(self.projects@.drop_last() =~= old(self).projects@);
        }
        Ok(())
    }

    /// Removes a project. The active project is cleared when it was that one.
    pub fn delete_project(&mut self, name: &str) -> (r: Result<(), PacsError>)
        ensures
            old(self).wf() ==> final(self).wf(),
            r is Err <==> !has_project(old(self).projects@, name@),
            r matches Err(e) ==> project_not_found(e, name@) && *final(self) == *old(self),
            r is Ok ==> exists|i: int|
                is_first_project(old(self).projects@, name@, i) && final(self).projects@
                    == old(self).projects@.remove(i),
            r is Ok ==> match old(self).config.active_project {
                Some(a) => if same_key(a@, name@) {
                    final(self).config.active_project is None
                } else {
                    final(self).config == old(self).config
                },
                None => final(self).config == old(self).config,
            },
    {
        let i = match project_index(&self.projects, name) {
            None => return Err(PacsError::ProjectNotFound(name.to_owned())),
            Some(i) => i,
        };
        let _removed = self.projects.remove(i);
        let clear = match &self.config.active_project {
            Some(a) => {
                let ka = lowercase(a.as_str());
                let kn = lowercase(name);
                ka == kn
            },
            None => false,
        };
        if clear {
            self.config.active_project = None;
        }
        Ok(())
    }
}

impl Pacs {
    /// The stored form of the project called `project_name`, ready to be written
    /// to its file.
    pub fn save_project_by_name(&self, name: &str) -> (r: Result<Project, PacsError>)
        ensures
            r is Ok <==> has_project(self.projects@, name@),
            r matches Err(e) ==> project_not_found(e, name@),
            r matches Ok(s) ==> exists|i: int|
                #[trigger] is_first_project(self.projects@, name@, i) && is_storage_form(self.projects@[i], s),
    {
        match project_index(&self.projects, name) {
            Some(i) => Ok(storage_form(&self.projects[i])),
            None => Err(PacsError::ProjectNotFound(name.to_owned())),
        }
    }
}

} // verus!

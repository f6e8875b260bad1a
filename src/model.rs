//! Commands, environments, projects and the error kinds of the store.
use vstd::prelude::*;
use vstd::multiset::Multiset;
use crate::text::{text_le, text_le_exec, lemma_text_le_total, lemma_text_le_trans};

verus! {

broadcast use vstd::seq_lib::group_seq_properties, vstd::seq_lib::group_to_multiset_ensures;

/// Which project an operation targets: one named explicitly, or the active one.
#[derive(Debug, Clone, Copy)]
pub enum Scope<'a> {
    Active,
    Project(&'a str),
}

/// Errors of the store.
#[derive(Debug, Clone)]
pub enum PacsError {
    CommandNotFound(String),
    CommandExists(String),
    DangerousCommand(String),
    CommandFailed(i32),
    UnresolvedPlaceholders(String),
    HomeDirUnavailable,
    ProjectExists(String),
    ProjectNotFound(String),
    EnvironmentExists(String),
    EnvironmentNotFound(String),
    NoActiveProject,
}

/// A saved command that can be executed.
#[derive(Debug, Clone)]
pub struct PacsCommand {
    /// Unique identifier for this command within its project.
    pub name: String,
    /// The shell command to execute.
    pub command: String,
    /// Working directory for execution; the current directory when `None`.
    pub cwd: Option<String>,
    /// Optional tag for organization; empty when untagged.
    pub tag: String,
}

/// A named set of values that fill the placeholders of a project's commands.
#[derive(Debug, Clone)]
pub struct Context {
    /// Environment identifier (e.g. "dev", "stg").
    pub name: String,
    /// Key/value pairs, one per key, ordered by key.
    pub values: Vec<(String, String)>,
}

/// A collection of commands associated with a project.
#[derive(Debug)]
pub struct Project {
    /// Project identifier, unique up to case.
    pub name: String,
    /// Optional filesystem path associated with this project.
    pub path: Option<String>,
    /// Commands belonging to this project.
    pub commands: Vec<PacsCommand>,
    /// Environments defined for this project.
    pub contexts: Vec<Context>,
    /// The environment used to render placeholders, if any.
    pub active_context: Option<String>,
}

/// The settings kept beside the projects.
#[derive(Debug)]
pub struct Config {
    /// The currently active project name.
    pub active_project: Option<String>,
}

/// `e` reports that no command is called `name`.
pub open spec fn command_not_found(e: PacsError, name: Seq<char>) -> bool {
    match e {
        PacsError::CommandNotFound(n) => n@ == name,
        _ => false,
    }
}

/// `e` reports that a command called `name` exists already.
pub open spec fn command_exists(e: PacsError, name: Seq<char>) -> bool {
    match e {
        PacsError::CommandExists(n) => n@ == name,
        _ => false,
    }
}

/// `e` reports that no project is called `name`.
pub open spec fn project_not_found(e: PacsError, name: Seq<char>) -> bool {
    match e {
        PacsError::ProjectNotFound(n) => n@ == name,
        _ => false,
    }
}

/// `e` reports that a project called `name` exists already.
pub open spec fn project_exists(e: PacsError, name: Seq<char>) -> bool {
    match e {
        PacsError::ProjectExists(n) => n@ == name,
        _ => false,
    }
}

/// `e` reports that no environment is called `name`.
pub open spec fn environment_not_found(e: PacsError, name: Seq<char>) -> bool {
    match e {
        PacsError::EnvironmentNotFound(n) => n@ == name,
        _ => false,
    }
}

/// `e` reports that an environment called `name` exists already.
pub open spec fn environment_exists(e: PacsError, name: Seq<char>) -> bool {
    match e {
        PacsError::EnvironmentExists(n) => n@ == name,
        _ => false,
    }
}

// ----- commands -----

/// Some command of `cmds` is called `name`.
pub open spec fn has_command(cmds: Seq<PacsCommand>, name: Seq<char>) -> bool {
    exists|i: int| 0 <= i < cmds.len() && (#[trigger] cmds[i]).name@ == name
}

/// `i` is the first position of a command called `name`.
pub open spec fn is_first_command(cmds: Seq<PacsCommand>, name: Seq<char>, i: int) -> bool {
    &&& 0 <= i < cmds.len()
    &&& cmds[i].name@ == name
    &&& forall|j: int| 0 <= j < i ==> (#[trigger] cmds[j]).name@ != name
}

/// Position of the first command called `name`.
pub fn command_index(cmds: &[PacsCommand], name: &str) -> (r: Option<usize>)
    ensures
        r matches Some(i) ==> is_first_command(cmds@, name@, i as int),
        r is None ==> !has_command(cmds@, name@),
{
    let key = name.to_owned();
    let mut i: usize = 0;
    while i < cmds.len()
        invariant
            key@ == name@,
            i <= cmds@.len(),
            forall|j: int| 0 <= j < i ==> (#[trigger] cmds@[j]).name@ != name@,
        decreases cmds@.len() - i,
    {
        if cmds[i].name == key {
            return Some(i);
        }
        i = i + 1;
    }
    None
}

/// A copy of a command, field for field.
pub fn copy_command(c: &PacsCommand) -> (r: PacsCommand)
    ensures
        r == *c,
{
    PacsCommand {
        name: c.name.clone(),
        command: c.command.clone(),
        cwd: copy_opt(&c.cwd),
        tag: c.tag.clone(),
    }
}

/// A copy of an optional string.
pub fn copy_opt(o: &Option<String>) -> (r: Option<String>)
    ensures
        r == *o,
{
    match o {
        Some(s) => Some(s.clone()),
        None => None,
    }
}

impl PacsCommand {
    /// Finds a command by name in a slice.
    pub fn find_by_name<'a>(commands: &'a [PacsCommand], name: &str) -> (r: Result<
        &'a PacsCommand,
        PacsError,
    >)
        ensures
            r matches Ok(c) ==> exists|i: int|
                is_first_command(commands@, name@, i) && *c == commands@[i],
            r matches Err(e) ==> !has_command(commands@, name@) && command_not_found(e, name@),
            r is Err <==> !has_command(commands@, name@),
    {
        match command_index(commands, name) {
            Some(i) => Ok(&commands[i]),
            None => Err(PacsError::CommandNotFound(name.to_owned())),
        }
    }

    /// Finds a command by name in a vector, for changing it in place.
    pub fn find_by_name_mut<'a>(commands: &'a mut Vec<PacsCommand>, name: &str) -> (r: Result<
        &'a mut PacsCommand,
        PacsError,
    >)
        ensures
            r matches Ok(c) ==> exists|i: int|
                is_first_command(old(commands)@, name@, i) && *c == old(commands)@[i]
                    && final(commands)@ == old(commands)@.update(i, *final(c)),
            r matches Err(e) ==> !has_command(old(commands)@, name@) && command_not_found(e, name@)
                && final(commands)@ == old(commands)@,
            r is Err <==> !has_command(old(commands)@, name@),
    {
        match command_index(commands.as_slice(), name) {
            Some(i) => Ok(&mut commands[i]),
            None => Err(PacsError::CommandNotFound(name.to_owned())),
        }
    }
}

// ----- environments -----

/// Some environment of `ctxs` is called `name`.
pub open spec fn has_context(ctxs: Seq<Context>, name: Seq<char>) -> bool {
    exists|i: int| 0 <= i < ctxs.len() && (#[trigger] ctxs[i]).name@ == name
}

/// `i` is the first position of an environment called `name`.
pub open spec fn is_first_context(ctxs: Seq<Context>, name: Seq<char>, i: int) -> bool {
    &&& 0 <= i < ctxs.len()
    &&& ctxs[i].name@ == name
    &&& forall|j: int| 0 <= j < i ==> (#[trigger] ctxs[j]).name@ != name
}

/// Position of the first environment called `name`.
pub fn context_index(ctxs: &Vec<Context>, name: &str) -> (r: Option<usize>)
    ensures
        r matches Some(i) ==> is_first_context(ctxs@, name@, i as int),
        r is None ==> !has_context(ctxs@, name@),
{
    let key = name.to_owned();
    let mut i: usize = 0;
    while i < ctxs.len()
        invariant
            key@ == name@,
            i <= ctxs@.len(),
            forall|j: int| 0 <= j < i ==> (#[trigger] ctxs@[j]).name@ != name@,
        decreases ctxs@.len() - i,
    {
        if ctxs[i].name == key {
            return Some(i);
        }
        i = i + 1;
    }
    None
}

/// A copy of environment values, entry for entry.
pub fn copy_values(v: &Vec<(String, String)>) -> (r: Vec<(String, String)>)
    ensures
        r@ == v@,
{
    let mut r: Vec<(String, String)> = Vec::new();
    let mut i: usize = 0;
    while i < v.len()
        invariant
            i <= v@.len(),
            r@ == v@.take(i as int),
        decreases v@.len() - i,
    {
        let k = v[i].0.clone();
        let x = v[i].1.clone();
        r.push((k, x));
        assert(v@.take(i + 1) == v@.take(i as int).push(v@[i as int]));
        i = i + 1;
    }
    assert(v@.take(v@.len() as int) == v@);
    r
}

/// A copy of an environment.
pub fn copy_context(c: &Context) -> (r: Context)
    ensures
        r.name == c.name,
        r.values@ == c.values@,
{
    Context { name: c.name.clone(), values: copy_values(&c.values) }
}

/// A copy of a project's environments.
pub fn copy_contexts(v: &Vec<Context>) -> (r: Vec<Context>)
    ensures
        r@.len() == v@.len(),
        forall|i: int|
            0 <= i < v@.len() ==> (#[trigger] r@[i]).name == v@[i].name && r@[i].values@
                == v@[i].values@,
{
    let mut r: Vec<Context> = Vec::new();
    let mut i: usize = 0;
    while i < v.len()
        invariant
            i <= v@.len(),
            r@.len() == i,
            forall|j: int|
                0 <= j < i ==> (#[trigger] r@[j]).name == v@[j].name && r@[j].values@
                    == v@[j].values@,
        decreases v@.len() - i,
    {
        r.push(copy_context(&v[i]));
        i = i + 1;
    }
    r
}

// ----- order by name -----

/// Commands stand in order of their names.
pub open spec fn sorted_by_name(cmds: Seq<PacsCommand>) -> bool {
    forall|i: int, j: int| 0 <= i < j < cmds.len() ==> #[trigger] text_le(cmds[i].name@, cmds[j].name@)
}

/// Sorts commands by name; the commands are kept, each once.
pub fn sort_by_name(cmds: Vec<PacsCommand>) -> (r: Vec<PacsCommand>)
    ensures
        sorted_by_name(r@),
        r@.to_multiset() == cmds@.to_multiset(),
{
    let mut input = cmds;
    let mut out: Vec<PacsCommand> = Vec::new();
    while input.len() > 0
        invariant
            sorted_by_name(out@),
            out@.to_multiset().add(input@.to_multiset()) == cmds@.to_multiset(),
        decreases input@.len(),
    {
        let ghost before_in = input@;
        let c = input.pop().unwrap();
        assert(before_in == input@.push(c));
        let mut k: usize = 0;
        while k < out.len() && text_le_exec(out[k].name.as_str(), c.name.as_str())
            invariant
                k <= out@.len(),
                forall|i: int| 0 <= i < k ==> text_le(#[trigger] out@[i].name@, c.name@),
            decreases out@.len() - k,
        {
            k = k + 1;
        }
        proof {
            if k < out@.len() {
                lemma_text_le_total(out@[k as int].name@, c.name@);
                assert forall|j: int| k <= j < out@.len() implies text_le(c.name@, #[trigger] out@[j].name@) by {
                    if j > k {
                        lemma_text_le_trans(c.name@, out@[k as int].name@, out@[j].name@);
                    }
                }
            }
        }
        let ghost before_out = out@;
        out.insert(k, c);
        proof {
            assert(out@ =~= before_out.take(k as int).push(c) + before_out.skip(k as int));
            vstd::seq_lib::lemma_multiset_commutative(before_out.take(k as int).push(c), before_out.skip(k as int));
            vstd::seq_lib::lemma_multiset_commutative(before_out.take(k as int), before_out.skip(k as int));
            assert(before_out =~= before_out.take(k as int) + before_out.skip(k as int));
            assert(out@.to_multiset() =~= before_out.to_multiset().insert(c));
            assert(before_in.to_multiset() =~= input@.to_multiset().insert(c));
            assert forall|i: int, j: int| 0 <= i < j < out@.len() implies #[trigger] text_le(out@[i].name@, out@[j].name@) by {
                if i < k && j > k {
                    lemma_text_le_trans(out@[i].name@, c.name@, out@[j].name@);
                }
            }
        }
    }
    assert(input@.to_multiset() =~= Multiset::empty());
    out
}

} // verus!

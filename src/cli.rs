//! The command line of the tool as plain values: what was asked for, and with
//! which arguments. Parsing the words of the command line into these values is
//! left to the program around the library.
use vstd::prelude::*;
use crate::model::Scope;

verus! {

/// A command line of the tool.
#[derive(Debug)]
pub struct Cli {
    pub command: Commands,
}

/// The operations of the tool.
#[derive(Debug)]
pub enum Commands {
    Init,
    Add(AddArgs),
    Remove(RemoveArgs),
    Edit(EditArgs),
    Rename(RenameArgs),
    List(ListArgs),
    Run(RunArgs),
    Copy(CopyArgs),
    Search(SearchArgs),
    Project { command: ProjectCommands },
    Environment { command: EnvironmentCommands },
}

/// Operations on projects.
#[derive(Debug)]
pub enum ProjectCommands {
    Add(ProjectAddArgs),
    Remove(ProjectRemoveArgs),
    List,
    Switch(ProjectSwitchArgs),
    Clear,
    Active,
}

/// Operations on the environments of a project.
#[derive(Debug)]
pub enum EnvironmentCommands {
    Add(EnvironmentAddArgs),
    Remove(EnvironmentRemoveArgs),
    Edit(EnvironmentEditArgs),
    List(EnvironmentListArgs),
    Switch(EnvironmentSwitchArgs),
    Active(EnvironmentActiveArgs),
}

#[derive(Debug)]
pub struct ProjectAddArgs {
    pub name: String,
    pub path: Option<String>,
}

#[derive(Debug)]
pub struct ProjectRemoveArgs {
    pub name: String,
}

#[derive(Debug)]
pub struct ProjectSwitchArgs {
    pub name: String,
}

#[derive(Debug)]
pub struct EnvironmentAddArgs {
    pub name: String,
    pub project: Option<String>,
}

#[derive(Debug)]
pub struct EnvironmentRemoveArgs {
    pub name: String,
    pub project: Option<String>,
}

#[derive(Debug)]
pub struct EnvironmentEditArgs {
    pub project: Option<String>,
}

#[derive(Debug)]
pub struct EnvironmentListArgs {
    pub project: Option<String>,
}

#[derive(Debug)]
pub struct EnvironmentSwitchArgs {
    pub name: String,
    pub project: Option<String>,
}

#[derive(Debug)]
pub struct EnvironmentActiveArgs {
    pub project: Option<String>,
}

#[derive(Debug)]
pub struct AddArgs {
    pub name: String,
    pub command: Option<String>,
    pub project: Option<String>,
    pub cwd: Option<String>,
    pub tag: String,
}

#[derive(Debug)]
pub struct CopyArgs {
    pub name: String,
    pub environment: Option<String>,
}

#[derive(Debug)]
pub struct SearchArgs {
    pub query: String,
}

#[derive(Debug)]
pub struct RemoveArgs {
    pub name: String,
}

#[derive(Debug)]
pub struct EditArgs {
    pub name: String,
}

#[derive(Debug)]
pub struct RenameArgs {
    pub old_name: String,
    pub new_name: String,
}

#[derive(Debug)]
pub struct ListArgs {
    pub name: Option<String>,
    pub project: Option<String>,
    pub tag: Option<String>,
    pub environment: Option<String>,
    pub names: bool,
}

#[derive(Debug)]
pub struct RunArgs {
    pub name: String,
    pub project: Option<String>,
    pub environment: Option<String>,
}

/// The project an operation names with its `--project` argument, if any.
pub open spec fn project_of(c: &Commands) -> Option<String> {
    match c {
        Commands::Add(a) => a.project,
        Commands::List(a) => a.project,
        Commands::Run(a) => a.project,
        Commands::Environment { command } => match command {
            EnvironmentCommands::Add(a) => a.project,
            EnvironmentCommands::Remove(a) => a.project,
            EnvironmentCommands::Edit(a) => a.project,
            EnvironmentCommands::List(a) => a.project,
            EnvironmentCommands::Switch(a) => a.project,
            EnvironmentCommands::Active(a) => a.project,
        },
        _ => None,
    }
}

impl Commands {
    /// The project named by the operation's `--project` argument, if any.
    pub fn project_arg(&self) -> (r: Option<&String>)
        ensures
            match project_of(self) {
                Some(p) => r == Some(&p),
                None => r is None,
            },
    {
        let p = match self {
            Commands::Add(a) => &a.project,
            Commands::List(a) => &a.project,
            Commands::Run(a) => &a.project,
            Commands::Environment { command } => match command {
                EnvironmentCommands::Add(a) => &a.project,
                EnvironmentCommands::Remove(a) => &a.project,
                EnvironmentCommands::Edit(a) => &a.project,
                EnvironmentCommands::List(a) => &a.project,
                EnvironmentCommands::Switch(a) => &a.project,
                EnvironmentCommands::Active(a) => &a.project,
            },
            _ => return None,
        };
        match p {
            Some(s) => Some(s),
            None => None,
        }
    }
}

/// The scope of an optional project argument: that project, else the active one.
pub fn scope_of(project: Option<&String>) -> (r: Scope<'_>)
    ensures
        match project {
            Some(p) => (r matches Scope::Project(n) && n@ == p@),
            None => r == Scope::Active,
        },
{
    match project {
        Some(p) => Scope::Project(p.as_str()),
        None => Scope::Active,
    }
}

/// The editor to open: the one `VISUAL` names, else the one `EDITOR` names,
/// else `vi`.
pub fn choose_editor(visual: Option<String>, editor: Option<String>) -> (r: String)
    ensures
        visual matches Some(v) ==> r == v,
        visual is None && editor is Some ==> r == editor->0,
        visual is None && editor is None ==> r@ == "vi"@,
{
    match visual {
        Some(v) => v,
        None => match editor {
            Some(e) => e,
            None => {
                proof {
                    reveal_strlit("vi");
                }
                "vi".to_owned()
            },
        },
    }
}

} // verus!

use pacs::cli::{
    AddArgs, Commands, EnvironmentCommands, EnvironmentListArgs, ProjectCommands, RemoveArgs,
    RunArgs, choose_editor, scope_of,
};
use pacs::Scope;

#[test]
fn verify_cli() {
    let add = Commands::Add(AddArgs {
        name: "b".into(),
        command: None,
        project: Some("web".into()),
        cwd: None,
        tag: String::new(),
    });
    assert_eq!(add.project_arg().map(|s| s.as_str()), Some("web"));
    assert!(matches!(scope_of(add.project_arg()), Scope::Project("web")));

    let run = Commands::Run(RunArgs { name: "b".into(), project: None, environment: None });
    assert!(run.project_arg().is_none());
    assert!(matches!(scope_of(run.project_arg()), Scope::Active));

    let env = Commands::Environment {
        command: EnvironmentCommands::List(EnvironmentListArgs { project: Some("api".into()) }),
    };
    assert_eq!(env.project_arg().map(|s| s.as_str()), Some("api"));

    assert!(Commands::Remove(RemoveArgs { name: "x".into() }).project_arg().is_none());
    assert!(Commands::Project { command: ProjectCommands::List }.project_arg().is_none());
    assert!(Commands::Init.project_arg().is_none());
}

#[test]
fn editor_choice() {
    assert_eq!(choose_editor(Some("code".into()), Some("nano".into())), "code");
    assert_eq!(choose_editor(None, Some("nano".into())), "nano");
    assert_eq!(choose_editor(None, None), "vi");
}

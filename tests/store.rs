use pacs::{Config, Pacs, PacsCommand, PacsError, Scope};

fn new_pacs() -> Pacs {
    Pacs::new(Vec::new(), Config { active_project: None })
}

fn cmd(name: &str, body: &str, tag: &str) -> PacsCommand {
    PacsCommand {
        name: name.into(),
        command: body.into(),
        cwd: None,
        tag: tag.into(),
    }
}

/// A store with one project, made the active one.
fn active_pacs(project: &str) -> Pacs {
    let mut pacs = new_pacs();
    pacs.init_project(project, None).unwrap();
    pacs.set_active_project(project).unwrap();
    pacs
}

#[test]
fn test_project() {
    let mut pacs = new_pacs();
    pacs.init_project("test", None).unwrap();

    assert!(pacs.projects.iter().any(|p| p.name == "test"));

    pacs.add_command(
        PacsCommand {
            name: "hello".into(),
            command: "echo hello".into(),
            cwd: None,
            tag: "".into(),
        },
        Scope::Project("test"),
    )
    .unwrap();

    let cmds = pacs.list_commands(Scope::Project("test"), None).unwrap();
    assert_eq!(cmds.len(), 1);
    assert_eq!(cmds[0].name, "hello");

    pacs.delete_command("hello", Scope::Project("test")).unwrap();
    let cmds = pacs.list_commands(Scope::Project("test"), None).unwrap();
    assert!(cmds.is_empty());

    pacs.delete_project("test").unwrap();
    assert!(!pacs.projects.iter().any(|p| p.name == "test"));
}

#[test]
fn test_duplicate_in_global() {
    let mut pacs = active_pacs("main");
    pacs.add_command(cmd("build", "cargo build", ""), Scope::Active).unwrap();
    let result = pacs.add_command(cmd("build", "cargo build --release", ""), Scope::Active);
    assert!(matches!(result, Err(PacsError::CommandExists(_))));
}

#[test]
fn test_duplicate_in_same_project() {
    let mut pacs = new_pacs();
    pacs.init_project("proj1", None).unwrap();
    pacs.add_command(cmd("test", "cargo test", ""), Scope::Project("proj1")).unwrap();
    let result = pacs.add_command(cmd("test", "cargo test --all", ""), Scope::Project("proj1"));
    assert!(matches!(result, Err(PacsError::CommandExists(_))));
}

#[test]
fn test_duplicates_allowed_between_projects() {
    let mut pacs = new_pacs();
    pacs.init_project("proj1", None).unwrap();
    pacs.init_project("proj2", None).unwrap();

    pacs.add_command(cmd("run", "echo proj1", ""), Scope::Project("proj1")).unwrap();
    pacs.add_command(cmd("run", "echo proj2", ""), Scope::Project("proj2")).unwrap();

    let cmds1 = pacs.list_commands(Scope::Project("proj1"), None).unwrap();
    let cmds2 = pacs.list_commands(Scope::Project("proj2"), None).unwrap();
    assert_eq!(cmds1.len(), 1);
    assert_eq!(cmds2.len(), 1);
    assert_eq!(cmds1[0].command, "echo proj1");
    assert_eq!(cmds2[0].command, "echo proj2");
}

#[test]
fn test_delete_command_auto() {
    let mut pacs = active_pacs("active_proj");
    pacs.add_command(cmd("cmd1", "echo 1", ""), Scope::Project("active_proj")).unwrap();
    pacs.add_command(cmd("cmd2", "echo 2", ""), Scope::Active).unwrap();

    pacs.delete_command_auto("cmd1").unwrap();
    let left = pacs.list_commands(Scope::Project("active_proj"), None).unwrap();
    assert_eq!(left.len(), 1);

    pacs.delete_command_auto("cmd2").unwrap();
    assert!(pacs.list_commands(Scope::Active, None).unwrap().is_empty());

    let result = pacs.delete_command_auto("nonexistent");
    assert!(matches!(result, Err(PacsError::CommandNotFound(_))));
}

#[test]
fn test_get_command_auto() {
    let mut pacs = active_pacs("proj");
    pacs.add_command(cmd("proj-cmd", "echo project", ""), Scope::Project("proj")).unwrap();
    pacs.add_command(cmd("global-cmd", "echo global", ""), Scope::Active).unwrap();

    assert_eq!(pacs.get_command_auto("proj-cmd").unwrap().command, "echo project");
    assert_eq!(pacs.get_command_auto("global-cmd").unwrap().command, "echo global");
    assert!(matches!(
        pacs.get_command_auto("nope"),
        Err(PacsError::CommandNotFound(_))
    ));
}

#[test]
fn test_update_command_auto() {
    let mut pacs = active_pacs("main");
    pacs.add_command(cmd("cmd", "old", ""), Scope::Active).unwrap();

    let old = pacs.update_command_auto("cmd", "new".into()).unwrap();
    assert_eq!(old, "old");
    assert_eq!(pacs.get_command_auto("cmd").unwrap().command, "new");
}

#[test]
fn test_rename_command_auto() {
    let mut pacs = active_pacs("main");
    pacs.add_command(cmd("old-name", "echo test", ""), Scope::Active).unwrap();

    pacs.rename_command_auto("old-name", "new-name").unwrap();
    assert!(matches!(
        pacs.get_command_auto("old-name"),
        Err(PacsError::CommandNotFound(_))
    ));
    assert_eq!(pacs.get_command_auto("new-name").unwrap().command, "echo test");
}

#[test]
fn test_rename_to_existing_fails() {
    let mut pacs = active_pacs("main");
    pacs.add_command(cmd("a", "", ""), Scope::Active).unwrap();
    pacs.add_command(cmd("b", "", ""), Scope::Active).unwrap();

    let result = pacs.rename_command_auto("a", "b");
    assert!(matches!(result, Err(PacsError::CommandExists(_))));
}

#[test]
fn test_run_auto() {
    let mut pacs = active_pacs("main");
    pacs.add_command(cmd("echo-test", "echo hello", ""), Scope::Active).unwrap();

    let ready = pacs.run_auto("echo-test").unwrap();
    assert_eq!(ready.command, "echo hello");
    assert!(matches!(
        pacs.run_auto("nonexistent"),
        Err(PacsError::CommandNotFound(_))
    ));
}

#[test]
fn test_active_project() {
    let mut pacs = new_pacs();
    pacs.init_project("p1", None).unwrap();
    pacs.init_project("p2", None).unwrap();

    assert!(pacs.get_active_project().is_none());

    pacs.set_active_project("p1").unwrap();
    assert_eq!(pacs.get_active_project(), Some("p1".into()));

    pacs.clear_active_project();
    assert!(pacs.get_active_project().is_none());
}

#[test]
fn test_list_by_tag() {
    let mut pacs = active_pacs("main");
    pacs.add_command(cmd("a", "", "dev"), Scope::Active).unwrap();
    pacs.add_command(cmd("b", "", "prod"), Scope::Active).unwrap();

    let dev = pacs.list_by_tag(Scope::Active, "dev").unwrap();
    assert_eq!(dev.len(), 1);
    assert_eq!(dev[0].name, "a");
}

#[test]
fn same_name_in_two_projects() {
    let mut pacs = new_pacs();
    pacs.init_project("p", None).unwrap();
    pacs.init_project("q", None).unwrap();
    pacs.add_command(cmd("x", "echo 1", ""), Scope::Project("p")).unwrap();
    let again = pacs.add_command(cmd("x", "echo 2", ""), Scope::Project("p"));
    assert!(matches!(again, Err(PacsError::CommandExists(n)) if n == "x"));
    pacs.add_command(cmd("x", "echo 3", ""), Scope::Project("q")).unwrap();
}

#[test]
fn rename_does_not_reach_other_projects() {
    let mut pacs = new_pacs();
    pacs.init_project("p1", None).unwrap();
    pacs.init_project("p2", None).unwrap();
    pacs.set_active_project("p1").unwrap();
    pacs.add_command(cmd("only-in-p2", "echo", ""), Scope::Project("p2")).unwrap();
    let r = pacs.rename_command_auto("only-in-p2", "renamed");
    assert!(matches!(r, Err(PacsError::CommandNotFound(n)) if n == "only-in-p2"));
}

#[test]
fn removing_active_environment_clears_it() {
    let mut pacs = new_pacs();
    pacs.init_project("p1", None).unwrap();
    pacs.add_context("p1", "dev").unwrap();
    pacs.activate_context("p1", "dev").unwrap();
    assert_eq!(pacs.get_active_context("p1").unwrap(), Some("dev".to_string()));
    pacs.remove_context("p1", "dev").unwrap();
    assert_eq!(pacs.get_active_context("p1").unwrap(), None);
    assert!(pacs.projects[0].active_context.is_none());
}

#[test]
fn project_names_ignore_case() {
    let mut pacs = new_pacs();
    pacs.init_project("myproj", None).unwrap();
    pacs.delete_project("MyProj").unwrap();
    assert!(pacs.projects.is_empty());
}

#[test]
fn project_creation_ignores_case() {
    let mut pacs = new_pacs();
    pacs.init_project("Web", None).unwrap();
    let r = pacs.init_project("WEB", None);
    assert!(matches!(r, Err(PacsError::ProjectExists(n)) if n == "WEB"));
}

#[test]
fn deleting_the_active_project_clears_it() {
    let mut pacs = active_pacs("Alpha");
    pacs.delete_project("alpha").unwrap();
    assert!(pacs.config.active_project.is_none());
}

#[test]
fn stale_active_project_is_cleared() {
    let mut pacs = new_pacs();
    pacs.config.active_project = Some("gone".into());
    assert!(pacs.get_active_project().is_none());
    assert!(pacs.config.active_project.is_none());
}

#[test]
fn errors_name_what_is_missing() {
    let mut pacs = new_pacs();
    assert!(matches!(pacs.delete_project("none"), Err(PacsError::ProjectNotFound(n)) if n == "none"));
    assert!(matches!(pacs.get_command_auto("x"), Err(PacsError::NoActiveProject)));
    assert!(matches!(
        pacs.add_command(cmd("x", "", ""), Scope::Active),
        Err(PacsError::NoActiveProject)
    ));
    assert!(matches!(
        pacs.list_commands(Scope::Project("ghost"), None),
        Err(PacsError::ProjectNotFound(_))
    ));
    pacs.init_project("p", None).unwrap();
    assert!(matches!(pacs.remove_context("p", "dev"), Err(PacsError::EnvironmentNotFound(n)) if n == "dev"));
    assert!(matches!(pacs.activate_context("p", "dev"), Err(PacsError::EnvironmentNotFound(_))));
    pacs.add_context("p", "dev").unwrap();
    assert!(matches!(pacs.add_context("p", "dev"), Err(PacsError::EnvironmentExists(n)) if n == "dev"));
    assert!(matches!(pacs.set_active_project("q"), Err(PacsError::ProjectNotFound(_))));
}

#[test]
fn listing_is_sorted_and_rendered() {
    let mut pacs = new_pacs();
    pacs.init_project("p", None).unwrap();
    pacs.add_command(cmd("zeta", "echo {{who}}", ""), Scope::Project("p")).unwrap();
    pacs.add_command(cmd("alpha", "echo {{who}} {{missing}}", ""), Scope::Project("p")).unwrap();
    pacs.add_context("p", "dev").unwrap();
    pacs.edit_context_values("p", "dev", vec![("who".into(), "world".into())]).unwrap();

    let plain = pacs.list_commands(Scope::Project("p"), None).unwrap();
    assert_eq!(plain[0].name, "alpha");
    assert_eq!(plain[1].command, "echo {{who}}");

    let dev = pacs.list_commands(Scope::Project("p"), Some("DEV")).unwrap();
    assert_eq!(dev[0].command, "echo {{who}} {{missing}}");
    assert_eq!(dev[1].command, "echo world");

    pacs.activate_context("p", "dev").unwrap();
    let active = pacs.list_commands(Scope::Project("p"), None).unwrap();
    assert_eq!(active[1].command, "echo world");
    pacs.deactivate_context("p").unwrap();
    let again = pacs.list_commands(Scope::Project("p"), None).unwrap();
    assert_eq!(again[1].command, "echo {{who}}");
}

#[test]
fn blank_command_is_not_run() {
    let mut pacs = active_pacs("main");
    pacs.add_command(cmd("blank", "   \n", ""), Scope::Active).unwrap();
    assert!(matches!(pacs.run_auto("blank"), Err(PacsError::CommandNotFound(n)) if n == "blank"));
    assert!(matches!(pacs.run("blank", Scope::Project("main")), Err(PacsError::CommandNotFound(_))));
}

#[test]
fn run_renders_with_active_environment() {
    let mut pacs = active_pacs("main");
    pacs.add_command(cmd("hi", "echo {{name}}", ""), Scope::Active).unwrap();
    pacs.add_context("main", "dev").unwrap();
    pacs.edit_context_values("main", "dev", vec![("name".into(), "dev-box".into())]).unwrap();
    pacs.activate_context("main", "dev").unwrap();
    assert_eq!(pacs.run_auto("hi").unwrap().command, "echo dev-box");
    assert_eq!(pacs.expand_command_auto("hi").unwrap().command, "echo dev-box");
}

#[test]
fn storage_form_sorts_and_ends_bodies() {
    let mut pacs = new_pacs();
    pacs.init_project("p", Some("/src/p".into())).unwrap();
    pacs.add_command(cmd("b", "echo b", ""), Scope::Project("p")).unwrap();
    pacs.add_command(cmd("a", "echo a\n", "t"), Scope::Project("p")).unwrap();
    let stored = pacs.save_project_by_name("P").unwrap();
    assert_eq!(stored.name, "p");
    assert_eq!(stored.path.as_deref(), Some("/src/p"));
    assert_eq!(stored.commands[0].name, "a");
    assert_eq!(stored.commands[0].command, "echo a\n");
    assert_eq!(stored.commands[0].tag, "t");
    assert_eq!(stored.commands[1].command, "echo b\n");
    assert!(matches!(pacs.save_project_by_name("x"), Err(PacsError::ProjectNotFound(_))));
}

#[test]
fn stem_names_an_unnamed_project() {
    let mut pacs = new_pacs();
    pacs.init_project("", None).unwrap();
    let mut p = pacs.projects.remove(0);
    p.fill_name_from_stem("from-file");
    assert_eq!(p.name, "from-file");
    p.fill_name_from_stem("other");
    assert_eq!(p.name, "from-file");
}

#[test]
fn suggestions() {
    let mut pacs = new_pacs();
    pacs.init_project("p", None).unwrap();
    pacs.init_project("q", None).unwrap();
    pacs.add_command(cmd("one", "", "web"), Scope::Project("p")).unwrap();
    pacs.add_command(cmd("two", "", ""), Scope::Project("p")).unwrap();
    pacs.add_command(cmd("three", "", "db"), Scope::Project("q")).unwrap();
    pacs.add_command(cmd("four", "", "web"), Scope::Project("q")).unwrap();
    assert_eq!(pacs.suggest_tags(), vec!["db".to_string(), "web".to_string()]);
    assert_eq!(pacs.suggest_projects(), vec!["p".to_string(), "q".to_string()]);
    assert!(pacs.suggest_command_names().is_empty());
    pacs.set_active_project("q").unwrap();
    assert_eq!(pacs.suggest_command_names(), vec!["three".to_string(), "four".to_string()]);
    pacs.add_context("q", "stg").unwrap();
    assert_eq!(pacs.suggest_environments(None), vec!["stg".to_string()]);
    assert!(pacs.suggest_environments(Some("p")).is_empty());
}

#[test]
fn find_by_name_finds_first() {
    let mut cmds = vec![cmd("a", "1", ""), cmd("b", "2", "")];
    assert_eq!(PacsCommand::find_by_name(&cmds, "b").unwrap().command, "2");
    assert!(matches!(PacsCommand::find_by_name(&cmds, "c"), Err(PacsError::CommandNotFound(_))));
    PacsCommand::find_by_name_mut(&mut cmds, "a").unwrap().command = "9".into();
    assert_eq!(cmds[0].command, "9");
}

#[test]
fn invariant_is_checked() {
    let mut pacs = Pacs::empty(Config { active_project: None });
    assert!(pacs.well_formed());
    pacs.init_project("p", None).unwrap();
    pacs.add_command(cmd("a", "echo", ""), Scope::Project("p")).unwrap();
    pacs.add_context("p", "dev").unwrap();
    pacs.activate_context("p", "dev").unwrap();
    assert!(pacs.well_formed());

    pacs.projects[0].commands.push(cmd("a", "again", ""));
    assert!(!pacs.well_formed());
    pacs.projects[0].commands.pop();

    pacs.projects[0].active_context = Some("prod".into());
    assert!(!pacs.well_formed());
    pacs.projects[0].active_context = None;

    pacs.init_project("Q", None).unwrap();
    pacs.projects[1].name = "P".into();
    assert!(!pacs.well_formed());
}

#[test]
fn environment_values_must_be_ordered() {
    let mut pacs = Pacs::empty(Config { active_project: None });
    pacs.init_project("p", None).unwrap();
    pacs.add_context("p", "dev").unwrap();
    pacs.edit_context_values("p", "dev", vec![("a".into(), "1".into()), ("b".into(), "2".into())]).unwrap();
    assert!(pacs.well_formed());
    pacs.edit_context_values("p", "dev", vec![("b".into(), "1".into()), ("a".into(), "2".into())]).unwrap();
    assert!(!pacs.well_formed());
    pacs.edit_context_values("p", "dev", vec![("a".into(), "1".into()), ("a".into(), "2".into())]).unwrap();
    assert!(!pacs.well_formed());
}

#[test]
fn expansion_entry_points() {
    let mut pacs = new_pacs();
    pacs.init_project("Proj", None).unwrap();
    pacs.add_context("Proj", "Stage").unwrap();
    pacs.edit_context_values("Proj", "Stage", vec![("host".into(), "stage.example".into())]).unwrap();
    let c = cmd("ping", "ping {{host}}", "net");

    let project = pacs.get_project("proj").unwrap();
    let by_name = Pacs::expand_with_context(&c, project, "stage");
    assert_eq!(by_name.command, "ping stage.example");
    assert_eq!(by_name.tag, "net");
    let unknown = Pacs::expand_with_context(&c, project, "prod");
    assert_eq!(unknown.command, "ping {{host}}");

    assert_eq!(pacs.expand_with_project_context(&c, "PROJ").unwrap().command, "ping {{host}}");
    pacs.activate_context("Proj", "Stage").unwrap();
    assert_eq!(pacs.expand_with_project_context(&c, "PROJ").unwrap().command, "ping stage.example");
    assert!(matches!(pacs.expand_with_project_context(&c, "none"), Err(PacsError::ProjectNotFound(_))));

    pacs.get_project_mut("proj").unwrap().path = Some("/srv".into());
    assert_eq!(pacs.projects[0].path.as_deref(), Some("/srv"));
    assert!(matches!(pacs.get_project_mut("nope"), Err(PacsError::ProjectNotFound(_))));
}

#[test]
fn run_with_named_environment() {
    let mut pacs = active_pacs("main");
    pacs.add_command(cmd("hi", "echo {{name}}", ""), Scope::Active).unwrap();
    pacs.add_context("main", "dev").unwrap();
    pacs.edit_context_values("main", "dev", vec![("name".into(), "dev-box".into())]).unwrap();
    assert_eq!(pacs.prepare_run("hi", Scope::Active, Some("Dev")).unwrap().command, "echo dev-box");
    assert_eq!(pacs.prepare_run("hi", Scope::Active, None).unwrap().command, "echo {{name}}");
    assert!(matches!(pacs.prepare_run("hi", Scope::Project("x"), None), Err(PacsError::ProjectNotFound(_))));
}

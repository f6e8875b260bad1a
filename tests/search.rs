use pacs::{Config, Pacs, PacsCommand, Scope};

fn store(names: &[(&str, &str)]) -> Pacs {
    let mut pacs = Pacs::new(Vec::new(), Config { active_project: None });
    pacs.init_project("p", None).unwrap();
    for (n, b) in names {
        pacs.add_command(
            PacsCommand { name: n.to_string(), command: b.to_string(), cwd: None, tag: String::new() },
            Scope::Project("p"),
        )
        .unwrap();
    }
    pacs
}

#[test]
fn prefix_query_ranks_first() {
    let pacs = store(&[("update", "echo go"), ("deploy", "echo go")]);
    let found = pacs.search("dep");
    assert!(!found.is_empty());
    assert_eq!(found[0].name, "deploy");
}

#[test]
fn non_subsequence_query_matches_nothing() {
    let pacs = store(&[("update", "echo go"), ("deploy", "echo go")]);
    assert!(pacs.search("xyz123").is_empty());
}

#[test]
fn body_matches_count() {
    let pacs = store(&[("a", "cargo build --release"), ("b", "ls")]);
    let found = pacs.search("release");
    assert_eq!(found.len(), 1);
    assert_eq!(found[0].name, "a");
}

#[test]
fn search_spans_projects() {
    let mut pacs = store(&[("deploy", "echo one")]);
    pacs.init_project("q", None).unwrap();
    pacs.add_command(
        PacsCommand { name: "deploy".into(), command: "echo two".into(), cwd: None, tag: String::new() },
        Scope::Project("q"),
    )
    .unwrap();
    let found = pacs.search("deploy");
    assert_eq!(found.len(), 2);
    assert_eq!(found[0].command, "echo one");
    assert_eq!(found[1].command, "echo two");
}

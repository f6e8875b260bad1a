use pacs::{Config, CopyButtonState, Pacs, PacsClient, PacsError};

fn client() -> PacsClient {
    let mut pacs = Pacs::new(Vec::new(), Config { active_project: None });
    pacs.init_project("p", None).unwrap();
    pacs.init_project("q", None).unwrap();
    pacs.add_context("q", "dev").unwrap();
    pacs.edit_context_values("q", "dev", vec![("host".into(), "localhost".into())]).unwrap();
    PacsClient::new(pacs)
}

#[test]
fn client_follows_active_project() {
    let mut c = client();
    assert_eq!(c.list_projects(), vec!["p".to_string(), "q".to_string()]);
    assert!(c.active_project().is_none());
    assert!(c.list_environments().is_empty());
    assert!(matches!(c.set_active_environment("dev"), Err(PacsError::NoActiveProject)));

    c.set_active_project("q").unwrap();
    assert_eq!(c.active_project(), Some("q".to_string()));
    assert_eq!(c.list_environments(), vec!["dev".to_string()]);
    assert!(c.environment_values().is_empty());
    assert!(c.active_environment().is_none());

    c.set_active_environment("dev").unwrap();
    assert_eq!(c.active_environment(), Some("dev".to_string()));
    assert_eq!(c.environment_values(), vec![("host".to_string(), "localhost".to_string())]);
    assert!(matches!(c.set_active_environment("prod"), Err(PacsError::EnvironmentNotFound(_))));
}

#[test]
fn copy_button_lights_briefly() {
    let mut b = CopyButtonState::default();
    assert!(!b.is_active(1000));
    b.click(1000);
    assert!(b.is_active(1000));
    assert!(b.is_active(1299));
    assert!(!b.is_active(1300));
}

use aperture::installer::{
    check_installed, hook_command_in, install, is_installed, is_ours, script_body, subscribed_events,
    with_hooks_installed, with_hooks_removed, EventHooks, HookEntry, HooksTable, Settings,
};

fn list<'a>(s: &'a Settings, event: &str) -> Option<&'a Vec<HookEntry>> {
    match &s.hooks {
        HooksTable::Table(t) => t.iter().find(|(k, _)| k == event).and_then(|(_, v)| match v {
            EventHooks::List(es) => Some(es),
            EventHooks::NotList(_) => None,
        }),
        _ => None,
    }
}

fn theirs() -> HookEntry {
    HookEntry::Existing {
        json: r#"{"matcher":"","hooks":[{"type":"command","command":"say done"}]}"#.to_string(),
        commands: Some(vec![Some("say done".to_string())]),
    }
}

fn command() -> String {
    hook_command_in("/home/u", '/')
}

#[test]
fn install_is_idempotent_and_preserves_other_hooks() {
    let existing = Settings {
        others: vec![("model".to_string(), "\"opus\"".to_string())],
        hooks: HooksTable::Table(vec![("Stop".to_string(), EventHooks::List(vec![theirs()]))]),
    };
    let once = with_hooks_installed(existing, &command());
    let twice = with_hooks_installed(once.clone(), &command());
    assert_eq!(once, twice);
    assert_eq!(twice.others, vec![("model".to_string(), "\"opus\"".to_string())]);
    let stop = list(&twice, "Stop").unwrap();
    assert_eq!(stop.len(), 2, "theirs + ours");
    assert!(is_installed(&twice));

    let removed = with_hooks_removed(twice);
    assert!(!is_installed(&removed));
    assert_eq!(list(&removed, "Stop").unwrap().len(), 1);
    assert!(list(&removed, "SessionStart").is_none());
    match &removed.hooks {
        HooksTable::Table(t) => assert!(!t.iter().any(|(k, _)| k == "SessionStart")),
        _ => panic!("hooks must stay an object"),
    }
}

#[test]
fn installing_subscribes_every_event_once() {
    let empty = Settings { others: Vec::new(), hooks: HooksTable::Absent };
    let done = with_hooks_installed(empty, &command());
    for ev in subscribed_events() {
        let l = list(&done, &ev).unwrap();
        assert_eq!(l.len(), 1);
        assert!(is_ours(&l[0]));
    }
}

#[test]
fn removal_leaves_foreign_members_alone() {
    let s = Settings {
        others: Vec::new(),
        hooks: HooksTable::Table(vec![
            ("Custom".to_string(), EventHooks::NotList("true".to_string())),
            ("Stop".to_string(), EventHooks::List(vec![theirs()])),
        ]),
    };
    let removed = with_hooks_removed(s.clone());
    assert_eq!(removed, s);
    let not_table = Settings { others: Vec::new(), hooks: HooksTable::NotTable("[]".to_string()) };
    assert_eq!(with_hooks_removed(not_table.clone()), not_table);
}

#[test]
fn entries_are_ours_by_a_marked_command_in_any_case() {
    assert!(is_ours(&HookEntry::Existing {
        json: String::new(),
        commands: Some(vec![None, Some("/x/APERTURE.sh".to_string())]),
    }));
    assert!(!is_ours(&HookEntry::Existing { json: String::new(), commands: None }));
    assert!(!is_ours(&theirs()));
    assert!(is_ours(&HookEntry::Aperture { command: command() }));
}

#[test]
fn the_script_gets_the_listener_port() {
    assert_eq!(
        script_body("curl http://127.0.0.1:__PORT__/hook # __PORT__", 47831),
        "curl http://127.0.0.1:47831/hook # 47831"
    );
    assert_eq!(script_body("no placeholder", 1), "no placeholder");
}

#[test]
fn the_hook_command_quotes_the_script_path() {
    let c = hook_command_in("/home/u", '/');
    assert_eq!(c, format!("\"/home/u/.{}/hooks/aperture.sh\"", aperture::model::vendor()));
    let w = hook_command_in("/home/u", '\\');
    assert!(w.ends_with("aperture.cmd\""));
}

#[test]
fn install_writes_the_script_and_the_settings() {
    let empty = Settings { others: Vec::new(), hooks: HooksTable::Absent };
    let (script, settings) = install(empty, &command(), "port=__PORT__", 9);
    assert_eq!(script, "port=9");
    assert!(check_installed(Some(&settings)));
    assert!(!check_installed(None));
}

#[test]
fn the_installed_command_is_recognised_as_ours() {
    for sep in ['/', '\\'] {
        let c = hook_command_in("/home/u", sep);
        assert!(c.to_ascii_lowercase().contains("aperture"));
        let entry = HookEntry::Aperture { command: c.clone() };
        assert!(is_ours(&entry));
        let empty = Settings { others: Vec::new(), hooks: HooksTable::Absent };
        let once = with_hooks_installed(empty, &c);
        assert!(is_installed(&once));
        assert_eq!(with_hooks_installed(once.clone(), &c), once);
        assert!(!is_installed(&with_hooks_removed(once)));
    }
}

#[test]
fn removing_after_installing_restores_clean_settings() {
    let existing = Settings {
        others: vec![("model".to_string(), "\"opus\"".to_string())],
        hooks: HooksTable::Table(vec![("Stop".to_string(), EventHooks::List(vec![theirs()]))]),
    };
    let installed = with_hooks_installed(existing.clone(), &command());
    assert_eq!(with_hooks_removed(installed), existing);
    assert_eq!(with_hooks_removed(existing.clone()), existing);
}

use iconcraft::model::{AppliedTarget, IconRule};
use iconcraft::rules::{
    check_rule, check_rules, find_rule_by_id, find_rule_for, finish_repair, is_known_target, needs_repair,
    previous_backup_of, record_repair, remove_rules_for, remove_rules_with_id, restore_items,
    restore_target_items, toggle_rule, upsert_rule, ApplySession, RestoreItem, RuleFacts,
};

fn rule(id: &str, target: &str, kind: &str) -> IconRule {
    IconRule {
        id: id.to_string(),
        name: format!("rule {id}"),
        target: target.to_string(),
        kind: kind.to_string(),
        icon_path: format!("/icons/{id}.png"),
        enabled: true,
        monitored: true,
        last_applied: Some(1),
        status: Some("ok".to_string()),
        backup: None,
        recursive_mode: "none".to_string(),
        max_depth: None,
        applied_targets: vec![],
    }
}

fn applied(target: &str, backup: Option<&str>) -> AppliedTarget {
    AppliedTarget { target: target.to_string(), backup: backup.map(|b| b.to_string()) }
}

#[test]
fn finds_first_rule_for_target_and_kind() {
    let rules = vec![rule("a", "/x", "file"), rule("b", "/x", "folder"), rule("c", "/x", "folder")];
    assert_eq!(find_rule_for(&rules, "/x", "folder"), Some(1));
    assert_eq!(find_rule_for(&rules, "/y", "folder"), None);
    assert_eq!(find_rule_by_id(&rules, "c"), Some(2));
    assert_eq!(find_rule_by_id(&rules, "z"), None);
}

#[test]
fn upsert_replaces_every_rule_for_the_key() {
    let mut rules = vec![rule("a", "/x", "folder"), rule("b", "/y", "folder"), rule("c", "/x", "folder")];
    upsert_rule(&mut rules, rule("n", "/x", "folder"));
    let ids: Vec<&str> = rules.iter().map(|r| r.id.as_str()).collect();
    assert_eq!(ids, vec!["b", "n"]);
}

#[test]
fn removals_keep_order() {
    let mut rules = vec![rule("a", "/x", "folder"), rule("b", "/y", "file"), rule("a", "/z", "file")];
    remove_rules_with_id(&mut rules, "a");
    assert_eq!(rules.len(), 1);
    assert_eq!(rules[0].id, "b");
    let mut more = vec![rule("a", "/x", "folder"), rule("b", "/x", "file"), rule("c", "/x", "folder")];
    remove_rules_for(&mut more, "/x", "folder");
    assert_eq!(more.len(), 1);
    assert_eq!(more[0].id, "b");
}

#[test]
fn toggle_changes_only_the_first_match() {
    let mut rules = vec![rule("a", "/x", "folder"), rule("a", "/y", "folder")];
    toggle_rule(&mut rules, "a", false);
    assert!(!rules[0].enabled);
    assert!(rules[1].enabled);
    let before = rules.clone();
    toggle_rule(&mut rules, "missing", false);
    assert_eq!(rules, before);
}

#[test]
fn reapply_keeps_first_backup() {
    let mut old = rule("old", "/d", "folder");
    old.backup = Some("ROOT".to_string());
    old.applied_targets = vec![applied("/d", Some("ROOT")), applied("/d/s", None)];
    let mut s = ApplySession::new(Some(old), vec!["/d".to_string(), "/d/s".to_string(), "/d/t".to_string()]);
    let (t0, cap0) = s.next_target().unwrap();
    assert_eq!(t0, "/d");
    assert!(!cap0);
    s.record(Some("NEW0".to_string()));
    let (t1, cap1) = s.next_target().unwrap();
    assert_eq!(t1, "/d/s");
    assert!(cap1);
    s.record(Some("NEW1".to_string()));
    let (_, cap2) = s.next_target().unwrap();
    assert!(cap2);
    s.record(None);
    assert!(s.next_target().is_none());
    let r = s.finish(
        "id".to_string(),
        "n".to_string(),
        "/d".to_string(),
        "folder".to_string(),
        "/i.png".to_string(),
        true,
        42,
        "all".to_string(),
        None,
    );
    assert_eq!(r.applied_targets, vec![applied("/d", Some("ROOT")), applied("/d/s", Some("NEW1")), applied("/d/t", None)]);
    assert_eq!(r.backup, Some("ROOT".to_string()));
    assert_eq!(r.status, Some("ok".to_string()));
    assert_eq!(r.last_applied, Some(42));
    assert!(r.enabled && r.monitored);
}

#[test]
fn first_application_takes_backup_of_first_target() {
    let mut s = ApplySession::new(None, vec!["/a".to_string(), "/b".to_string()]);
    assert!(s.next_target().unwrap().1);
    s.record(Some("A".to_string()));
    s.record(Some("B".to_string()));
    let r = s.finish(
        "i".to_string(),
        "n".to_string(),
        "/a".to_string(),
        "folder".to_string(),
        "/p".to_string(),
        false,
        7,
        "depth".to_string(),
        Some(2),
    );
    assert_eq!(r.backup, Some("A".to_string()));
    assert!(!r.enabled && !r.monitored);
    assert_eq!(r.max_depth, Some(2));
}

#[test]
fn previous_backup_uses_first_entry() {
    let mut old = rule("o", "/d", "folder");
    old.applied_targets = vec![applied("/d", None), applied("/d", Some("late"))];
    assert_eq!(previous_backup_of(&Some(old), "/d"), None);
    assert_eq!(previous_backup_of(&None, "/d"), None);
}

#[test]
fn restore_items_of_rules() {
    let mut r = rule("a", "/x", "extension");
    r.backup = Some("B".to_string());
    assert_eq!(
        restore_items(&r),
        vec![RestoreItem { target: "/x".to_string(), kind: "extension".to_string(), backup: Some("B".to_string()) }]
    );
    r.applied_targets = vec![applied("/x", Some("1")), applied("/x/y", None)];
    let items = restore_items(&r);
    assert_eq!(items.len(), 2);
    assert_eq!(items[1].target, "/x/y");
    assert_eq!(items[1].kind, "extension");
    assert_eq!(items[1].backup, None);
}

#[test]
fn restore_target_without_rules_restores_target_itself() {
    let rules = vec![rule("a", "/x", "folder")];
    assert_eq!(
        restore_target_items(&rules, "/y", "folder"),
        vec![RestoreItem { target: "/y".to_string(), kind: "folder".to_string(), backup: None }]
    );
    let mut r2 = rule("b", "/y", "folder");
    r2.applied_targets = vec![applied("/y", Some("q")), applied("/y/z", None)];
    let rules = vec![rule("a", "/y", "folder"), r2];
    let items = restore_target_items(&rules, "/y", "folder");
    assert_eq!(items.len(), 3);
    assert_eq!(items[1].backup, Some("q".to_string()));
}

#[test]
fn check_rule_disables_broken_rules() {
    let mut gone = rule("a", "/missing", "folder");
    assert!(!check_rule(&mut gone, RuleFacts { is_dir: false, is_file: false, icon_exists: true }));
    assert!(!gone.enabled);
    assert_eq!(gone.status.as_deref(), Some("目标已失效"));
    let mut no_icon = rule("b", "/d", "folder");
    assert!(!check_rule(&mut no_icon, RuleFacts { is_dir: true, is_file: false, icon_exists: false }));
    assert_eq!(no_icon.status.as_deref(), Some("图标资源已丢失"));
    let mut fine = rule("c", ".md", "extension");
    let before = fine.clone();
    assert!(check_rule(&mut fine, RuleFacts { is_dir: false, is_file: false, icon_exists: true }));
    assert_eq!(fine, before);
}

#[test]
fn check_rules_goes_through_all() {
    let mut rules = vec![rule("a", "/d", "folder"), rule("b", "/f", "file")];
    check_rules(
        &mut rules,
        &vec![
            RuleFacts { is_dir: true, is_file: false, icon_exists: true },
            RuleFacts { is_dir: false, is_file: false, icon_exists: true },
        ],
    );
    assert!(rules[0].enabled);
    assert!(!rules[1].enabled);
}

#[test]
fn repair_records_new_targets_and_errors() {
    let mut r = rule("a", "/d", "folder");
    r.enabled = true;
    assert!(needs_repair(&r));
    r.applied_targets = vec![applied("/d", Some("b"))];
    assert!(is_known_target(&r, "/d"));
    assert!(!is_known_target(&r, "/d/n"));
    let mut failed = None;
    let mut count = 0usize;
    record_repair(&mut r, "/d".to_string(), Ok(None), &mut failed, &mut count);
    record_repair(&mut r, "/d/n".to_string(), Ok(Some("nb".to_string())), &mut failed, &mut count);
    record_repair(&mut r, "/d/m".to_string(), Err("boom".to_string()), &mut failed, &mut count);
    assert_eq!(count, 2);
    assert_eq!(r.applied_targets, vec![applied("/d", Some("b")), applied("/d/n", Some("nb"))]);
    finish_repair(&mut r, failed, 99);
    assert_eq!(r.status.as_deref(), Some("boom"));
    assert_eq!(r.last_applied, Some(99));
    finish_repair(&mut r, None, 100);
    assert_eq!(r.status.as_deref(), Some("ok"));
    r.monitored = false;
    assert!(!needs_repair(&r));
}

#[test]
fn repeated_repairs_keep_the_first_backups() {
    let mut r = rule("a", "/d", "folder");
    r.applied_targets = vec![applied("/d", Some("first"))];
    let mut failed = None;
    let mut count = 0usize;
    for _ in 0..3 {
        for value in ["/d", "/d/x", "/d/y"] {
            let backup = if is_known_target(&r, value) { None } else { Some(format!("b{value}")) };
            record_repair(&mut r, value.to_string(), Ok(backup), &mut failed, &mut count);
        }
        record_repair(&mut r, "/d/z".to_string(), Err("denied".to_string()), &mut failed, &mut count);
    }
    assert_eq!(count, 9);
    assert_eq!(
        r.applied_targets,
        vec![applied("/d", Some("first")), applied("/d/x", Some("b/d/x")), applied("/d/y", Some("b/d/y"))]
    );
    assert_eq!(failed.as_deref(), Some("denied"));
}

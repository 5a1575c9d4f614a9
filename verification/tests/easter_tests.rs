use iconcraft::easter::{
    easter_batch, easter_targets, join_errors, preview_of, remove_batches_with_id, restore_easter_plan,
    reversed_items, EasterRun, EasterTarget,
};
use iconcraft::error::IconError;
use iconcraft::model::{EasterBatch, EasterItem};
use iconcraft::native::{backup_text, restore_native, NativeRestore};
use iconcraft::target::Platform;
use iconcraft::walk::WalkResult;

fn result() -> WalkResult {
    WalkResult {
        dirs: vec!["/r".to_string(), "/r/a".to_string()],
        files: vec!["/r/x.txt".to_string()],
        extensions: vec![".txt".to_string()],
    }
}

fn item(t: &str) -> EasterItem {
    EasterItem { target: t.to_string(), kind: "folder".to_string(), backup: None }
}

fn batch(id: &str, items: Vec<EasterItem>) -> EasterBatch {
    easter_batch(id.to_string(), "/r".to_string(), "/i.png".to_string(), 5, &result(), items)
}

#[test]
fn preview_counts() {
    let p = preview_of(&result());
    assert_eq!(p.directory_count, 2);
    assert_eq!(p.file_count, 1);
    assert_eq!(p.extensions, vec![".txt"]);
}

#[test]
fn targets_by_platform() {
    let t = |a: &str, k: &str| EasterTarget { target: a.to_string(), kind: k.to_string() };
    assert_eq!(
        easter_targets(Platform::MacOs, &result()),
        vec![t("/r", "folder"), t("/r/a", "folder"), t("/r/x.txt", "file")]
    );
    assert_eq!(
        easter_targets(Platform::Windows, &result()),
        vec![t("/r", "folder"), t("/r/a", "folder"), t(".txt", "extension")]
    );
    assert_eq!(easter_targets(Platform::Other, &result()).len(), 2);
}

#[test]
fn restore_goes_last_first() {
    let items = vec![item("1"), item("2"), item("3")];
    let rev = reversed_items(&items);
    assert_eq!(rev.iter().map(|i| i.target.as_str()).collect::<Vec<_>>(), vec!["3", "2", "1"]);
    let batches = vec![batch("a", vec![item("x")]), batch("b", items)];
    let plan = restore_easter_plan(&batches, "b").unwrap();
    assert_eq!(plan[0].target, "3");
    assert_eq!(restore_easter_plan(&batches, "c"), Err(IconError::EasterBatchMissing));
}

#[test]
fn batch_record() {
    let b = batch("id", vec![item("x")]);
    assert_eq!(b.directory_count, 2);
    assert_eq!(b.file_count, 1);
    assert_eq!(b.extensions, vec![".txt"]);
    assert_eq!(b.created_at, 5);
}

#[test]
fn remove_batch() {
    let mut v = vec![batch("a", vec![]), batch("b", vec![]), batch("a", vec![])];
    remove_batches_with_id(&mut v, "a");
    assert_eq!(v.len(), 1);
    assert_eq!(v[0].id, "b");
}

#[test]
fn errors_are_joined() {
    assert_eq!(join_errors(&vec![]), "");
    assert_eq!(join_errors(&vec!["a".to_string()]), "a");
    assert_eq!(join_errors(&vec!["a".to_string(), "b".to_string(), "c".to_string()]), "a；b；c");
}

#[test]
fn easter_run_rolls_back_last_first() {
    let mut run = EasterRun::new(easter_targets(Platform::MacOs, &result()));
    let first = run.next_target().unwrap();
    assert_eq!(first.target, "/r");
    run.record(Some("b0".to_string()));
    let second = run.next_target().unwrap();
    assert_eq!(second.target, "/r/a");
    run.record(None);
    let back = run.rollback_items();
    assert_eq!(back.iter().map(|i| i.target.as_str()).collect::<Vec<_>>(), vec!["/r/a", "/r"]);
    assert_eq!(back[1].backup, Some("b0".to_string()));
    run.record(None);
    assert!(run.next_target().is_none());
    let items = run.into_items();
    assert_eq!(items.len(), 3);
    assert_eq!(items[2].kind, "file");
}

#[test]
fn restoring_a_batch_gives_every_target_its_old_state() {
    let old_ini = b"[.ShellClassInfo]\r\nIconResource=old.ico,0\r\n".to_vec();
    let old_icon = vec![0x4d, 0x4d, 0x00, 0x2a, 9];
    let mut win_run = EasterRun::new(vec![
        EasterTarget { target: "/r".to_string(), kind: "folder".to_string() },
        EasterTarget { target: "/r/a".to_string(), kind: "folder".to_string() },
    ]);
    win_run.record(backup_text(Some(old_ini.clone())));
    win_run.record(backup_text(None));
    let win = vec![batch("w", win_run.into_items())];
    let plan = restore_easter_plan(&win, "w").unwrap();
    let plans: Vec<NativeRestore> = plan
        .iter()
        .map(|i| restore_native(Platform::Windows, &i.target, &i.kind, i.backup.as_deref()))
        .collect();
    let ini = |d: &str| std::path::Path::new(d).join("desktop.ini").to_string_lossy().into_owned();
    assert_eq!(
        plans,
        vec![
            NativeRestore::RemoveIni { ini_path: ini("/r/a") },
            NativeRestore::WriteIni { ini_path: ini("/r"), bytes: old_ini },
        ]
    );
    let mut mac_run = EasterRun::new(vec![
        EasterTarget { target: "/m".to_string(), kind: "folder".to_string() },
        EasterTarget { target: "/m/f.txt".to_string(), kind: "file".to_string() },
    ]);
    mac_run.record(backup_text(None));
    mac_run.record(backup_text(Some(old_icon.clone())));
    let mac = vec![batch("m", mac_run.into_items())];
    let plans: Vec<NativeRestore> = restore_easter_plan(&mac, "m")
        .unwrap()
        .iter()
        .map(|i| restore_native(Platform::MacOs, &i.target, &i.kind, i.backup.as_deref()))
        .collect();
    assert_eq!(
        plans,
        vec![
            NativeRestore::FinderRestoreIcon { target: "/m/f.txt".to_string(), image: old_icon },
            NativeRestore::FinderReset { target: "/m".to_string() },
        ]
    );
}

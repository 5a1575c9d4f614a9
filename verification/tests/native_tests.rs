use base64::Engine;
use iconcraft::error::IconError;
use iconcraft::native::{
    apply_native, choose_prog_id, default_icon_key, extension_backup, extension_restore_ops, extension_writes,
    backup_text, restore_native, user_choice_key, NativeApply, NativeRestore, RegistryOp, RegistryWrite,
};
use iconcraft::target::Platform;

#[test]
fn macos_folder_icon_can_be_applied_and_restored() {
    let plan = apply_native(Platform::MacOs, "/tmp/d", "folder", "/icons/i.png", true).unwrap();
    assert_eq!(
        plan,
        NativeApply::FinderIcon {
            target: "/tmp/d".to_string(),
            icon: "/icons/i.png".to_string(),
            capture_backup: true,
        }
    );
    assert_eq!(
        restore_native(Platform::MacOs, "/tmp/d", "folder", None),
        NativeRestore::FinderReset { target: "/tmp/d".to_string() }
    );
}

#[test]
fn macos_has_no_extension_icons() {
    assert_eq!(
        apply_native(Platform::MacOs, ".md", "extension", "/i.png", true),
        Err(IconError::MacExtensionUnsupported)
    );
    assert_eq!(restore_native(Platform::MacOs, ".md", "extension", None), NativeRestore::Nothing);
}

#[test]
fn windows_refuses_single_files() {
    assert_eq!(
        apply_native(Platform::Windows, "C:\\a.txt", "file", "C:\\i.ico", true),
        Err(IconError::WindowsFileUnsupported)
    );
}

#[test]
fn windows_folder_gets_desktop_ini() {
    match apply_native(Platform::Windows, "/tmp/d", "folder", "/i/x.ico", false).unwrap() {
        NativeApply::FolderIni { target, ini_path, content, capture_backup } => {
            assert_eq!(target, "/tmp/d");
            assert_eq!(ini_path, std::path::Path::new("/tmp/d").join("desktop.ini").to_string_lossy());
            assert_eq!(content, "[.ShellClassInfo]\r\nIconResource=/i/x.ico,0\r\n");
            assert!(!capture_backup);
        }
        other => panic!("unexpected plan {other:?}"),
    }
}

#[test]
fn windows_extension_is_lowercased() {
    assert_eq!(
        apply_native(Platform::Windows, ".MD", "extension", "C:\\i.ico", true).unwrap(),
        NativeApply::ExtensionIcon { ext: ".md".to_string(), icon_value: "C:\\i.ico,0".to_string(), capture_backup: true }
    );
}

#[test]
fn other_platforms_cannot_apply() {
    assert_eq!(apply_native(Platform::Other, "/d", "folder", "/i", true), Err(IconError::PlatformUnsupported));
    assert_eq!(restore_native(Platform::Other, "/d", "folder", Some("x")), NativeRestore::Nothing);
}

#[test]
fn backup_text_round_trips() {
    let old = b"[.ShellClassInfo]\r\nIconResource=old,0\r\n".to_vec();
    let backup = backup_text(Some(old.clone())).unwrap();
    assert_eq!(backup, base64::engine::general_purpose::STANDARD.encode(&old));
    match restore_native(Platform::Windows, "/tmp/d", "folder", Some(&backup)) {
        NativeRestore::WriteIni { bytes, .. } => assert_eq!(bytes, old),
        other => panic!("unexpected plan {other:?}"),
    }
    assert_eq!(backup_text(None), None);
}

#[test]
fn folder_without_backup_loses_ini() {
    assert!(matches!(restore_native(Platform::Windows, "/tmp/d", "folder", None), NativeRestore::RemoveIni { .. }));
    assert!(matches!(
        restore_native(Platform::Windows, "/tmp/d", "folder", Some("%%%")),
        NativeRestore::RemoveIni { .. }
    ));
}

#[test]
fn windows_extension_restore_keeps_backup_text() {
    assert_eq!(
        restore_native(Platform::Windows, ".TXT", "extension", Some("{}")),
        NativeRestore::Extension { ext: ".txt".to_string(), backup: Some("{}".to_string()) }
    );
    assert_eq!(restore_native(Platform::Windows, "/f", "file", None), NativeRestore::Nothing);
}

#[test]
fn registry_keys() {
    assert_eq!(default_icon_key(".md"), ".md\\DefaultIcon");
    assert_eq!(
        user_choice_key(".md"),
        "Software\\Microsoft\\Windows\\CurrentVersion\\Explorer\\FileExts\\.md\\UserChoice"
    );
}

#[test]
fn prog_id_preference_order() {
    let s = |v: &str| Some(v.to_string());
    assert_eq!(choose_prog_id(s("u"), s("c"), s("m")), s("u"));
    assert_eq!(choose_prog_id(None, s("c"), s("m")), s("c"));
    assert_eq!(choose_prog_id(None, None, s("m")), s("m"));
    assert_eq!(choose_prog_id(None, None, None), None);
}

#[test]
fn extension_restore_undoes_writes() {
    let writes = extension_writes(".md", Some("mdfile"), "C:\\i.ico,0");
    assert_eq!(
        writes,
        vec![
            RegistryWrite { key: ".md\\DefaultIcon".to_string(), value: "C:\\i.ico,0".to_string() },
            RegistryWrite { key: "mdfile\\DefaultIcon".to_string(), value: "C:\\i.ico,0".to_string() },
        ]
    );
    let backup = extension_backup(Some("old".to_string()), Some("mdfile".to_string()), None);
    assert_eq!(backup.version, 1);
    assert_eq!(
        extension_restore_ops(".md", Some(backup)),
        vec![
            RegistryOp::SetDefault { key: ".md\\DefaultIcon".to_string(), value: "old".to_string() },
            RegistryOp::DeleteTree { key: "mdfile\\DefaultIcon".to_string() },
        ]
    );
    assert_eq!(
        extension_restore_ops(".md", None),
        vec![RegistryOp::DeleteTree { key: ".md\\DefaultIcon".to_string() }]
    );
}

#[test]
fn macos_custom_icon_is_put_back() {
    let old = vec![0x4d, 0x4d, 0x00, 0x2a, 0x01, 0x02, 0x03];
    let backup = backup_text(Some(old.clone())).unwrap();
    assert_eq!(backup, "TU0AKgECAw==");
    assert_eq!(
        restore_native(Platform::MacOs, "/tmp/d", "folder", Some(&backup)),
        NativeRestore::FinderRestoreIcon { target: "/tmp/d".to_string(), image: old }
    );
    assert_eq!(
        restore_native(Platform::MacOs, "/tmp/a.txt", "file", Some("%%%")),
        NativeRestore::FinderReset { target: "/tmp/a.txt".to_string() }
    );
}

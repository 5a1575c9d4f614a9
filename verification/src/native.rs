//! What applying or restoring an icon does on each platform, as plans that
//! the caller carries out: Finder icons on macOS; `desktop.ini` files and
//! registry `DefaultIcon` keys on Windows. The backups these plans take
//! restore exactly what was there before.

use vstd::prelude::*;
use crate::error::IconError;
use crate::model::opt_view;
use crate::outside::{base64_decode, base64_decoding, base64_encode, base64_encoding, joined_path, lowercase, path_join, to_lowercase};
use crate::target::{extension_kind, file_kind, folder_kind, Platform};
use crate::text::str_eq;

verus! {

/// The contents of the `desktop.ini` that gives a folder the icon at `icon`.
pub open spec fn ini_content(icon: Seq<char>) -> Seq<char> {
    "[.ShellClassInfo]\r\nIconResource="@ + icon + ",0\r\n"@
}

/// The registry value naming the first icon resource of a file.
pub open spec fn icon_resource(icon: Seq<char>) -> Seq<char> {
    icon + ",0"@
}

/// The registry key, under the user's classes, of a class's default icon.
pub open spec fn default_icon_key_of(name: Seq<char>) -> Seq<char> {
    name + "\\DefaultIcon"@
}

/// The registry key, under the current user, of the program chosen for an
/// extension.
pub open spec fn user_choice_key_of(ext: Seq<char>) -> Seq<char> {
    "Software\\Microsoft\\Windows\\CurrentVersion\\Explorer\\FileExts\\"@ + ext + "\\UserChoice"@
}

/// How an icon is applied to one target.
#[derive(Debug, Clone, PartialEq, Eq)]
pub enum NativeApply {
    /// macOS: have Finder set the icon file `icon` on `target`; read the
    /// custom icon it replaces, if any, first when `capture_backup` holds.
    FinderIcon { target: String, icon: String, capture_backup: bool },
    /// Windows: write `content` to `ini_path` inside the folder `target`,
    /// mark it hidden and system and the folder read-only; read the old file
    /// first when `capture_backup` holds.
    FolderIni { target: String, ini_path: String, content: String, capture_backup: bool },
    /// Windows: point the default icon of the extension `ext` (and of the
    /// program class it opens with) at `icon_value`; read the old values
    /// first when `capture_backup` holds.
    ExtensionIcon { ext: String, icon_value: String, capture_backup: bool },
}

/// How the default icon of one target is restored.
#[derive(Debug, Clone, PartialEq, Eq)]
pub enum NativeRestore {
    /// Nothing to do.
    Nothing,
    /// macOS: have Finder remove the custom icon of `target`.
    FinderReset { target: String },
    /// macOS: have Finder put back the saved custom icon `image` of `target`.
    FinderRestoreIcon { target: String, image: Vec<u8> },
    /// Windows: put the saved `desktop.ini` back.
    WriteIni { ini_path: String, bytes: Vec<u8> },
    /// Windows: remove the `desktop.ini`, where there is one.
    RemoveIni { ini_path: String },
    /// Windows: restore the registry keys of the extension `ext` from the
    /// saved record `backup` (its serialised form), then notify the shell.
    Extension { ext: String, backup: Option<String> },
}

/// The plan for applying the icon file `icon` to `target` of `kind`: on
/// macOS any kind but an extension goes to Finder; on Windows a single file
/// is refused, a folder gets a `desktop.ini`, and anything else is taken as
/// an extension; elsewhere icons cannot be applied.
pub fn apply_native(platform: Platform, target: &str, kind: &str, icon: &str, capture_backup: bool) -> (r: Result<NativeApply, IconError>)
    ensures
        platform == Platform::MacOs ==> if kind@ == extension_kind() {
            r == Err::<NativeApply, IconError>(IconError::MacExtensionUnsupported)
        } else {
            r matches Ok(NativeApply::FinderIcon { target: t, icon: i, capture_backup: cb }) && t@ == target@
                && i@ == icon@ && cb == capture_backup
        },
        platform == Platform::Windows ==> if kind@ == file_kind() {
            r == Err::<NativeApply, IconError>(IconError::WindowsFileUnsupported)
        } else if kind@ == folder_kind() {
            r matches Ok(NativeApply::FolderIni { target: t, ini_path, content, capture_backup: cb })
                && t@ == target@ && ini_path@ == joined_path(target@, "desktop.ini"@)
                && content@ == ini_content(icon@) && cb == capture_backup
        } else {
            r matches Ok(NativeApply::ExtensionIcon { ext, icon_value, capture_backup: cb })
                && ext@ == lowercase(target@) && icon_value@ == icon_resource(icon@)
                && cb == capture_backup
        },
        platform == Platform::Other ==> r == Err::<NativeApply, IconError>(IconError::PlatformUnsupported),
{
    match platform {
        Platform::MacOs => {
            if str_eq(kind, "extension") {
                Err(IconError::MacExtensionUnsupported)
            } else {
                Ok(NativeApply::FinderIcon {
                    target: String::from_str(target),
                    icon: String::from_str(icon),
                    capture_backup,
                })
            }
        },
        Platform::Windows => {
            if str_eq(kind, "file") {
                Err(IconError::WindowsFileUnsupported)
            } else if str_eq(kind, "folder") {
                let ini_path = path_join(target, "desktop.ini");
                let content = String::from_str("[.ShellClassInfo]\r\nIconResource=").concat(icon).concat(",0\r\n");
                Ok(NativeApply::FolderIni {
                    target: String::from_str(target),
                    ini_path,
                    content,
                    capture_backup,
                })
            } else {
                let ext = to_lowercase(target);
                let icon_value = String::from_str(icon).concat(",0");
                Ok(NativeApply::ExtensionIcon { ext, icon_value, capture_backup })
            }
        },
        Platform::Other => Err(IconError::PlatformUnsupported),
    }
}

/// The backup of what an icon replaces: the old bytes, if there were any
/// (a folder's `desktop.ini` on Windows, the custom icon image on macOS),
/// as standard base64 text. The text decodes back to exactly those bytes.
pub fn backup_text(old: Option<Vec<u8>>) -> (r: Option<String>)
    requires
        old matches Some(b) ==> b@.len() / 3 * 4 + 4 <= usize::MAX,
    ensures
        r is Some <==> old is Some,
        r matches Some(t) ==> t@ == base64_encoding(old->0@),
        r matches Some(t) ==> base64_decoding(t@) == Some(old->0@),
        backup_of(opt_bytes_view(old), opt_view(r)),
{
    match old {
        Some(bytes) => Some(base64_encode(bytes.as_slice())),
        None => None,
    }
}

/// The bytes a backup text gives back, where it decodes.
fn saved_bytes(backup: Option<&str>) -> (r: Option<Vec<u8>>)
    ensures
        match r {
            Some(b) => backup_bytes(opt_str_view(backup)) == Some(b@),
            None => backup_bytes(opt_str_view(backup)) is None,
        },
{
    match backup {
        Some(text) => match base64_decode(text) {
            Ok(bytes) => Some(bytes),
            Err(_) => None,
        },
        None => None,
    }
}

/// What the restore plan for `target` of `kind` is, given the backup text
/// `backup` taken when the icon was first applied.
pub open spec fn restore_outcome(
    platform: Platform,
    target: Seq<char>,
    kind: Seq<char>,
    backup: Option<Seq<char>>,
    r: NativeRestore,
) -> bool {
    match platform {
        Platform::MacOs => if kind == extension_kind() {
            r == NativeRestore::Nothing
        } else {
            match backup_bytes(backup) {
                Some(bytes) => r matches NativeRestore::FinderRestoreIcon { target: t, image } && t@ == target
                    && image@ == bytes,
                None => r matches NativeRestore::FinderReset { target: t } && t@ == target,
            }
        },
        Platform::Windows => if kind == folder_kind() {
            match backup_bytes(backup) {
                Some(bytes) => r matches NativeRestore::WriteIni { ini_path, bytes: b } && ini_path@
                    == joined_path(target, "desktop.ini"@) && b@ == bytes,
                None => r matches NativeRestore::RemoveIni { ini_path } && ini_path@ == joined_path(
                    target,
                    "desktop.ini"@,
                ),
            }
        } else if kind == extension_kind() {
            r matches NativeRestore::Extension { ext, backup: b } && ext@ == lowercase(target) && opt_view(b)
                == backup
        } else {
            r == NativeRestore::Nothing
        },
        Platform::Other => r == NativeRestore::Nothing,
    }
}

/// The plan for restoring the icon of `target` of `kind` with the backup
/// taken when the icon was first applied: on macOS Finder puts back the
/// saved custom icon, or removes the custom icon where none was saved
/// (extensions have none); on Windows a folder gets its saved `desktop.ini`
/// back, or loses the one written, and an extension gets its saved registry
/// values back.
pub fn restore_native(platform: Platform, target: &str, kind: &str, backup: Option<&str>) -> (r: NativeRestore)
    ensures
        restore_outcome(platform, target@, kind@, opt_str_view(backup), r),
{
    match platform {
        Platform::MacOs => {
            if str_eq(kind, "extension") {
                NativeRestore::Nothing
            } else {
                match saved_bytes(backup) {
                    Some(image) => NativeRestore::FinderRestoreIcon { target: String::from_str(target), image },
                    None => NativeRestore::FinderReset { target: String::from_str(target) },
                }
            }
        },
        Platform::Windows => {
            if str_eq(kind, "folder") {
                let ini_path = path_join(target, "desktop.ini");
                match saved_bytes(backup) {
                    Some(bytes) => NativeRestore::WriteIni { ini_path, bytes },
                    None => NativeRestore::RemoveIni { ini_path },
                }
            } else if str_eq(kind, "extension") {
                let ext = to_lowercase(target);
                let saved = match backup {
                    Some(text) => Some(String::from_str(text)),
                    None => None,
                };
                NativeRestore::Extension { ext, backup: saved }
            } else {
                NativeRestore::Nothing
            }
        },
        Platform::Other => NativeRestore::Nothing,
    }
}

/// Restoring from the backup taken when an icon was applied gives back
/// exactly what was replaced (a folder's old `desktop.ini` on Windows, the
/// old custom icon on macOS): a backup text that decodes to the old bytes,
/// as `backup_text` ensures of its text, makes the restore put back those
/// bytes.
pub proof fn lemma_backup_round_trip(text: Seq<char>, old: Seq<u8>)
    requires
        base64_decoding(text) == Some(old),
    ensures
        backup_bytes(Some(text)) == Some(old),
{
}

/// The bytes of an optional byte vector.
pub open spec fn opt_bytes_view(o: Option<Vec<u8>>) -> Option<Seq<u8>> {
    match o {
        Some(b) => Some(b@),
        None => None,
    }
}

/// `saved` is a backup of the old bytes `old` (a folder's `desktop.ini` or a
/// custom icon image), as `backup_text` makes it: none where there were no
/// bytes, else a text that decodes to them.
pub open spec fn backup_of(old: Option<Seq<u8>>, saved: Option<Seq<char>>) -> bool {
    match old {
        Some(b) => saved matches Some(t) && base64_decoding(t) == Some(b),
        None => saved is None,
    }
}

/// The restore plan `r` for `target` of `kind` gives back the old state
/// `old` saved in the backup text `saved`: on Windows a folder gets exactly
/// its old `desktop.ini` bytes back, or loses the one written where it had
/// none, and an extension gets the very record `saved` taken of its registry
/// values; on macOS a file or folder gets its old custom icon back, or the
/// default icon where it had none.
pub open spec fn puts_back(
    platform: Platform,
    target: Seq<char>,
    kind: Seq<char>,
    old: Option<Seq<u8>>,
    saved: Option<Seq<char>>,
    r: NativeRestore,
) -> bool {
    if platform == Platform::Windows && kind == folder_kind() {
        match old {
            Some(b) => r matches NativeRestore::WriteIni { ini_path, bytes } && ini_path@ == joined_path(
                target,
                "desktop.ini"@,
            ) && bytes@ == b,
            None => r matches NativeRestore::RemoveIni { ini_path } && ini_path@ == joined_path(
                target,
                "desktop.ini"@,
            ),
        }
    } else if platform == Platform::Windows && kind == extension_kind() {
        r matches NativeRestore::Extension { ext, backup: b } && ext@ == lowercase(target) && opt_view(b) == saved
    } else if platform == Platform::MacOs && kind != extension_kind() {
        match old {
            Some(b) => r matches NativeRestore::FinderRestoreIcon { target: t, image } && t@ == target && image@
                == b,
            None => r matches NativeRestore::FinderReset { target: t } && t@ == target,
        }
    } else {
        r == NativeRestore::Nothing
    }
}

/// Restoring a target from the backup taken when its icon was applied gives
/// back what it had before: where the backup text is what `backup_text` made
/// of the target's old bytes (for anything but an extension, whose backup is
/// the record of its registry values), the restore plan puts exactly those
/// bytes back, or removes what was written where there were none.
pub proof fn lemma_restore_gives_back(
    platform: Platform,
    target: Seq<char>,
    kind: Seq<char>,
    old: Option<Seq<u8>>,
    saved: Option<Seq<char>>,
    r: NativeRestore,
)
    requires
        kind != extension_kind() ==> backup_of(old, saved),
        restore_outcome(platform, target, kind, saved, r),
    ensures
        puts_back(platform, target, kind, old, saved, r),
{
    if platform == Platform::Windows && kind == folder_kind() {
        assert(folder_kind() != extension_kind()) by {
            reveal_strlit("folder");
            reveal_strlit("extension");
            assert(folder_kind().len() != extension_kind().len());
        }
    }
}

/// The characters of an optional string slice.
pub open spec fn opt_str_view(o: Option<&str>) -> Option<Seq<char>> {
    match o {
        Some(s) => Some(s@),
        None => None,
    }
}

/// The bytes a backup gives back: its base64 decoding, where it has one.
pub open spec fn backup_bytes(backup: Option<Seq<char>>) -> Option<Seq<u8>> {
    match backup {
        Some(text) => base64_decoding(text),
        None => None,
    }
}

/// What was under an extension's registry keys before its icon was set:
/// the old default icon of the extension, the program class the extension
/// opens with, and that class's old default icon.
#[derive(Debug, Clone, PartialEq, Eq)]
pub struct WindowsExtensionBackup {
    pub version: u8,
    pub old_direct_icon: Option<String>,
    pub prog_id: Option<String>,
    pub old_prog_icon: Option<String>,
}

/// A value written under the user's classes: the default value of `key`.
#[derive(Debug, Clone, PartialEq, Eq)]
pub struct RegistryWrite {
    pub key: String,
    pub value: String,
}

/// A change under the user's classes made to restore an extension's icon.
#[derive(Debug, Clone, PartialEq, Eq)]
pub enum RegistryOp {
    /// Set the default value of `key`; a failure ends the restore.
    SetDefault { key: String, value: String },
    /// Delete `key` with everything under it; a failure is passed over.
    DeleteTree { key: String },
}

/// A registry change as values.
pub enum RegistryOpView {
    SetDefault { key: Seq<char>, value: Seq<char> },
    DeleteTree { key: Seq<char> },
}

impl View for RegistryOp {
    type V = RegistryOpView;

    open spec fn view(&self) -> RegistryOpView {
        match self {
            RegistryOp::SetDefault { key, value } => RegistryOpView::SetDefault { key: key@, value: value@ },
            RegistryOp::DeleteTree { key } => RegistryOpView::DeleteTree { key: key@ },
        }
    }
}

/// The change that puts back the old default value of `key`: the old value
/// where there was one, else removal of the key.
pub open spec fn put_back(key: Seq<char>, old: Option<Seq<char>>) -> RegistryOpView {
    match old {
        Some(v) => RegistryOpView::SetDefault { key, value: v },
        None => RegistryOpView::DeleteTree { key },
    }
}

/// The writes that give the extension `ext`, and the class `prog_id` it
/// opens with, the icon value.
pub open spec fn extension_writes_spec(ext: Seq<char>, prog_id: Option<Seq<char>>, icon_value: Seq<char>) -> Seq<(Seq<char>, Seq<char>)> {
    match prog_id {
        Some(p) => seq![(default_icon_key_of(ext), icon_value), (default_icon_key_of(p), icon_value)],
        None => seq![(default_icon_key_of(ext), icon_value)],
    }
}

/// The changes that restore the extension `ext` from its backup record, or,
/// without one, remove the icon key written for it.
pub open spec fn extension_restore_spec(
    ext: Seq<char>,
    backup: Option<(Option<Seq<char>>, Option<Seq<char>>, Option<Seq<char>>)>,
) -> Seq<RegistryOpView> {
    match backup {
        Some((old_direct, prog_id, old_prog)) => match prog_id {
            Some(p) => seq![put_back(default_icon_key_of(ext), old_direct), put_back(default_icon_key_of(p), old_prog)],
            None => seq![put_back(default_icon_key_of(ext), old_direct)],
        },
        None => seq![RegistryOpView::DeleteTree { key: default_icon_key_of(ext) }],
    }
}

/// The values of a backup record that a restore uses.
pub open spec fn backup_values(b: WindowsExtensionBackup) -> (Option<Seq<char>>, Option<Seq<char>>, Option<Seq<char>>) {
    (opt_view(b.old_direct_icon), opt_view(b.prog_id), opt_view(b.old_prog_icon))
}

/// Setting an extension's icon points every key it writes at the chosen icon:
/// the extension's own `DefaultIcon` key first, then, where the extension
/// opens with a program class, that class's `DefaultIcon` key, and each of
/// them gets exactly `icon_value`.
pub proof fn lemma_extension_writes_carry_icon(ext: Seq<char>, prog_id: Option<Seq<char>>, icon_value: Seq<char>)
    ensures
        ({
            let w = extension_writes_spec(ext, prog_id, icon_value);
            &&& w.len() == if prog_id is Some { 2int } else { 1int }
            &&& w[0].0 == ext + "\\DefaultIcon"@
            &&& prog_id matches Some(p) ==> w[1].0 == p + "\\DefaultIcon"@
            &&& forall|k: int| 0 <= k < w.len() ==> (#[trigger] w[k]).1 == icon_value
        }),
{
}

/// The registry key of a class's default icon.
pub fn default_icon_key(name: &str) -> (k: String)
    ensures
        k@ == default_icon_key_of(name@),
{
    String::from_str(name).concat("\\DefaultIcon")
}

/// The registry key of the program chosen for an extension.
pub fn user_choice_key(ext: &str) -> (k: String)
    ensures
        k@ == user_choice_key_of(ext@),
{
    String::from_str("Software\\Microsoft\\Windows\\CurrentVersion\\Explorer\\FileExts\\").concat(ext).concat(
        "\\UserChoice",
    )
}

/// The program class an extension opens with: the user's choice, else the
/// class registered for the extension for the user, else for the machine.
pub fn choose_prog_id(user_choice: Option<String>, user_class: Option<String>, machine_class: Option<String>) -> (r: Option<String>)
    ensures
        r == (match user_choice {
            Some(u) => Some(u),
            None => match user_class {
                Some(c) => Some(c),
                None => machine_class,
            },
        }),
{
    match user_choice {
        Some(u) => Some(u),
        None => match user_class {
            Some(c) => Some(c),
            None => machine_class,
        },
    }
}

/// The backup record of an extension's icon keys.
pub fn extension_backup(old_direct_icon: Option<String>, prog_id: Option<String>, old_prog_icon: Option<String>) -> (b: WindowsExtensionBackup)
    ensures
        b.version == 1,
        b.old_direct_icon == old_direct_icon,
        b.prog_id == prog_id,
        b.old_prog_icon == old_prog_icon,
{
    WindowsExtensionBackup { version: 1, old_direct_icon, prog_id, old_prog_icon }
}

/// The writes that point the default icon of the extension `ext`, and of the
/// class `prog_id` it opens with, at `icon_value`.
pub fn extension_writes(ext: &str, prog_id: Option<&str>, icon_value: &str) -> (w: Vec<RegistryWrite>)
    ensures
        w@.map_values(|x: RegistryWrite| (x.key@, x.value@)) == extension_writes_spec(
            ext@,
            opt_str_view(prog_id),
            icon_value@,
        ),
{
    let mut w: Vec<RegistryWrite> = Vec::new();
    w.push(RegistryWrite { key: default_icon_key(ext), value: String::from_str(icon_value) });
    match prog_id {
        Some(p) => {
            w.push(RegistryWrite { key: default_icon_key(p), value: String::from_str(icon_value) });
        },
        None => {},
    }
    proof {
        assert(w@.map_values(|x: RegistryWrite| (x.key@, x.value@)) =~= extension_writes_spec(
            ext@,
            opt_str_view(prog_id),
            icon_value@,
        ));
    }
    w
}

/// The change that puts back an old default value.
fn put_back_op(key: String, old: Option<String>) -> (op: RegistryOp)
    ensures
        op@ == put_back(key@, opt_view(old)),
{
    match old {
        Some(v) => RegistryOp::SetDefault { key, value: v },
        None => RegistryOp::DeleteTree { key },
    }
}

/// The changes that restore the icon keys of the extension `ext` from the
/// backup record taken when its icon was first set.
pub fn extension_restore_ops(ext: &str, backup: Option<WindowsExtensionBackup>) -> (ops: Vec<RegistryOp>)
    ensures
        ops@.map_values(|o: RegistryOp| o@) == extension_restore_spec(
            ext@,
            match backup {
                Some(b) => Some(backup_values(b)),
                None => None,
            },
        ),
{
    let mut ops: Vec<RegistryOp> = Vec::new();
    match backup {
        Some(b) => {
            ops.push(put_back_op(default_icon_key(ext), b.old_direct_icon));
            match b.prog_id {
                Some(p) => {
                    ops.push(put_back_op(default_icon_key(p.as_str()), b.old_prog_icon));
                },
                None => {},
            }
        },
        None => {
            ops.push(RegistryOp::DeleteTree { key: default_icon_key(ext) });
        },
    }
    proof {
        assert(ops@.map_values(|o: RegistryOp| o@) =~= extension_restore_spec(
            ext@,
            match backup {
                Some(b) => Some(backup_values(b)),
                None => None,
            },
        ));
    }
    ops
}

/// Restoring an extension from the backup taken before its icon was set
/// undoes every write: the restore touches the same keys in the same order,
/// and puts back under each the value it held before, or removes it where it
/// held none.
pub proof fn lemma_extension_round_trip(
    ext: Seq<char>,
    prog_id: Option<Seq<char>>,
    icon_value: Seq<char>,
    old_direct: Option<Seq<char>>,
    old_prog: Option<Seq<char>>,
)
    ensures
        ({
            let writes = extension_writes_spec(ext, prog_id, icon_value);
            let ops = extension_restore_spec(ext, Some((old_direct, prog_id, old_prog)));
            &&& ops.len() == writes.len()
            &&& ops[0] == put_back(writes[0].0, old_direct)
            &&& writes.len() == 2 ==> ops[1] == put_back(writes[1].0, old_prog)
        }),
{
}

} // verus!

//! Where the application keeps its files, how icon images are prepared for
//! the platform, the clock, start at login, and the monitor's timing.

use vstd::prelude::*;
use crate::error::IconError;
use crate::outside::{
    new_uuid_v4, base64_decode, base64_decoding, decode_error_text, decode_png, duration_secs, encode_ico, image_error_text,
    decoded_png, ico_file, joined_path, local_data_dir, path_join, path_with_file_name, renamed_path, resize_square, resized_square,
    since_unix_epoch, system_time_now, user_home_dir,
};
use crate::model::opt_view;
use crate::target::Platform;
use vstd::string::*;

verus! {

/// The application's data directory inside the user's local data
/// directory `base`, or the error where there is none.
pub fn data_dir_in(base: Option<String>) -> (r: Result<String, IconError>)
    ensures
        match base {
            Some(b) => r matches Ok(d) && d@ == joined_path(b@, "IconCraft"@),
            None => r == Err::<String, IconError>(IconError::NoDataDir),
        },
{
    match base {
        Some(b) => Ok(path_join(b.as_str(), "IconCraft")),
        None => Err(IconError::NoDataDir),
    }
}

/// The application's data directory (the caller creates it). The user's
/// local data directory comes from the environment, so only the shape of
/// the result is stated.
pub fn data_dir() -> (r: Result<String, IconError>)
    ensures
        match r {
            Ok(d) => exists|b: Seq<char>| d@ == joined_path(b, "IconCraft"@),
            Err(e) => e == IconError::NoDataDir,
        },
{
    let base = local_data_dir();
    let ghost seen = base;
    let r = data_dir_in(base);
    proof {
        if let Some(b) = seen {
            assert(r->Ok_0@ == joined_path(b@, "IconCraft"@));
        }
    }
    r
}

/// The settings file inside the data directory `dir`.
pub fn settings_path_in(dir: &str) -> (p: String)
    ensures
        p@ == joined_path(dir@, "settings.json"@),
{
    path_join(dir, "settings.json")
}

/// The settings file of the application.
pub fn settings_path() -> (r: Result<String, IconError>)
    ensures
        match r {
            Ok(p) => exists|b: Seq<char>| p@ == joined_path(joined_path(b, "IconCraft"@), "settings.json"@),
            Err(e) => e == IconError::NoDataDir,
        },
{
    let dir = data_dir()?;
    let p = settings_path_in(dir.as_str());
    proof {
        let b = choose|b: Seq<char>| dir@ == joined_path(b, "IconCraft"@);
        assert(p@ == joined_path(joined_path(b, "IconCraft"@), "settings.json"@));
    }
    Ok(p)
}

/// The directory of stored icons inside the data directory `dir`.
pub fn icons_dir_in(dir: &str) -> (p: String)
    ensures
        p@ == joined_path(dir@, "icons"@),
{
    path_join(dir, "icons")
}

/// The stored PNG of the icon named `name` in the icon directory.
pub fn icon_png_path(icons_dir: &str, name: &str) -> (p: String)
    ensures
        p@ == joined_path(icons_dir@, name@ + ".png"@),
{
    let file = String::from_str(name).concat(".png");
    path_join(icons_dir, file.as_str())
}

/// The name of the icon of the easter batch `id`.
pub fn easter_icon_name(id: &str) -> (n: String)
    ensures
        n@ == "easter-"@ + id@,
{
    String::from_str("easter-").concat(id)
}

/// The bytes of an uploaded image, sent as standard base64 text.
pub fn decode_png_data(png_data: &str) -> (r: Result<Vec<u8>, IconError>)
    ensures
        match r {
            Ok(bytes) => base64_decoding(png_data@) == Some(bytes@),
            Err(e) => base64_decoding(png_data@) is None && e is InvalidImageData,
        },
{
    match base64_decode(png_data) {
        Ok(bytes) => Ok(bytes),
        Err(e) => Err(IconError::InvalidImageData(decode_error_text(&e))),
    }
}

/// Which icon file the platform uses for a stored PNG.
#[derive(Debug, Clone, PartialEq, Eq)]
pub enum NativeIcon {
    /// The PNG itself.
    UsePng { path: String },
    /// An ICO made from the PNG, stored beside it.
    ConvertToIco { png_path: String, ico_path: String },
}

/// The icon file the platform uses for the PNG stored for `id`: Windows
/// needs an ICO file named after the id beside the PNG; the others use the
/// PNG.
pub fn prepare_native_icon(platform: Platform, png_path: &str, id: &str) -> (r: NativeIcon)
    ensures
        platform == Platform::Windows ==> (r matches NativeIcon::ConvertToIco { png_path: p, ico_path }
            && p@ == png_path@ && ico_path@ == renamed_path(png_path@, id@ + ".ico"@)),
        platform != Platform::Windows ==> (r matches NativeIcon::UsePng { path } && path@ == png_path@),
{
    match platform {
        Platform::Windows => {
            let name = String::from_str(id).concat(".ico");
            NativeIcon::ConvertToIco {
                png_path: String::from_str(png_path),
                ico_path: path_with_file_name(png_path, name.as_str()),
            }
        },
        _ => NativeIcon::UsePng { path: String::from_str(png_path) },
    }
}

/// Makes an ICO file from PNG bytes: the image scaled to 256 by 256, the
/// largest single ICO layer. It succeeds exactly where the bytes are a PNG
/// image, and is refused with `ImageRead` otherwise.
pub fn png_to_ico(png: &[u8]) -> (r: Result<Vec<u8>, IconError>)
    ensures
        match decoded_png(png@) {
            Some(img) => r matches Ok(b) && b@ == ico_file(resized_square(img, 256)),
            None => r matches Err(IconError::ImageRead(_)),
        },
{
    let img = match decode_png(png) {
        Ok(img) => img,
        Err(e) => return Err(IconError::ImageRead(image_error_text(&e))),
    };
    let scaled = resize_square(&img, 256);
    match encode_ico(&scaled) {
        Ok(bytes) => Ok(bytes),
        Err(e) => Err(IconError::IcoWrite(image_error_text(&e))),
    }
}

/// A lowercase hexadecimal digit.
pub open spec fn lower_hex(c: char) -> bool {
    ('0' <= c && c <= '9') || ('a' <= c && c <= 'f')
}

/// The text of a version-4 UUID in the lowercase hyphenated form: 36
/// characters, hyphens at 8, 13, 18 and 23, lowercase hex elsewhere, the
/// version digit (14) `4` and the variant digit (19) one of `8`, `9`, `a`, `b`.
pub open spec fn uuid_v4_text(s: Seq<char>) -> bool {
    &&& s.len() == 36
    &&& forall|i: int|
        0 <= i < 36 ==> if i == 8 || i == 13 || i == 18 || i == 23 {
            #[trigger] s[i] == '-'
        } else {
            lower_hex(s[i])
        }
    &&& s[14] == '4'
    &&& (s[19] == '8' || s[19] == '9' || s[19] == 'a' || s[19] == 'b')
}

/// A fresh random identifier for a rule, icon or batch: a version-4 UUID in
/// the 36-character lowercase hyphenated form. Which one is chance.
pub fn new_id() -> (id: String)
    ensures
        uuid_v4_text(id@),
{
    new_uuid_v4()
}

/// The timestamp of a clock reading: its whole seconds since the Unix
/// epoch, or zero where the reading lies before the epoch (`None`).
pub fn unix_seconds_or_zero(since_epoch: Option<u64>) -> (secs: u64)
    ensures
        secs == match since_epoch {
            Some(s) => s,
            None => 0,
        },
{
    match since_epoch {
        Some(s) => s,
        None => 0,
    }
}

/// The current time in whole seconds since the Unix epoch, or zero where
/// the clock stands before it. The reading depends on the clock, so nothing
/// is stated of the result; `unix_seconds_or_zero` states what is done with
/// the reading.
pub fn now() -> u64 {
    let t = system_time_now();
    let since_epoch = match since_unix_epoch(&t) {
        Ok(d) => Some(duration_secs(&d)),
        Err(_) => None,
    };
    unix_seconds_or_zero(since_epoch)
}

/// What setting start at login does.
#[derive(Debug, Clone, PartialEq, Eq)]
pub enum AutostartPlan {
    /// macOS: write the launch agent `xml` to `path`.
    WritePlist { path: String, xml: String },
    /// macOS: remove the launch agent at `path`, where there is one.
    RemovePlist { path: String },
    /// Windows: set the value `name` of the user's `key` to `value`.
    SetRunValue { key: String, name: String, value: String },
    /// Windows: delete the value `name` of the user's `key`, if present.
    DeleteRunValue { key: String, name: String },
}

/// A character as XML text.
pub open spec fn xml_escaped_char(c: char) -> Seq<char> {
    if c == '&' {
        "&amp;"@
    } else if c == '<' {
        "&lt;"@
    } else if c == '>' {
        "&gt;"@
    } else {
        seq![c]
    }
}

/// A text with `&`, `<` and `>` escaped for XML.
pub open spec fn xml_escaped(s: Seq<char>) -> Seq<char>
    decreases s.len(),
{
    if s.len() == 0 {
        Seq::empty()
    } else {
        xml_escaped(s.drop_last()) + xml_escaped_char(s.last())
    }
}

/// Escapes `&`, `<` and `>` for XML.
pub fn escape_xml(s: &str) -> (r: String)
    ensures
        r@ == xml_escaped(s@),
{
    let chars = crate::text::chars_of(s);
    let mut r = String::new();
    let mut i: usize = 0;
    assert(s@.take(0) =~= Seq::<char>::empty());
    while i < chars.len()
        invariant
            chars@ == s@,
            i <= chars@.len(),
            r@ == xml_escaped(s@.take(i as int)),
        decreases chars.len() - i,
    {
        let c = chars[i];
        if c == '&' {
            r = r.concat("&amp;");
        } else if c == '<' {
            r = r.concat("&lt;");
        } else if c == '>' {
            r = r.concat("&gt;");
        } else {
            let one = s.substring_char(i, i + 1);
            assert(one@ =~= seq![c]);
            r = r.concat(one);
        }
        proof {
            assert(s@.take(i + 1).drop_last() =~= s@.take(i as int));
            assert(s@.take(i + 1).last() == c);
        }
        i = i + 1;
    }
    assert(s@.take(chars@.len() as int) =~= s@);
    r
}

/// The launch agent that starts the program at `exe` at login.
pub open spec fn plist_xml(exe: Seq<char>) -> Seq<char> {
    "<?xml version=\"1.0\" encoding=\"UTF-8\"?><!DOCTYPE plist PUBLIC \"-//Apple//DTD PLIST 1.0//EN\" \"http://www.apple.com/DTDs/PropertyList-1.0.dtd\"><plist version=\"1.0\"><dict><key>Label</key><string>com.iconcraft.desktop</string><key>ProgramArguments</key><array><string>"@
        + xml_escaped(exe) + "</string></array><key>RunAtLoad</key><true/></dict></plist>"@
}

/// Where the launch agent lives inside the user's home directory `home`.
pub open spec fn launch_agent_path(home: Seq<char>) -> Seq<char> {
    joined_path(home, "Library/LaunchAgents/com.iconcraft.desktop.plist"@)
}

/// The plan for turning start at login on or off on `platform`, given the
/// user's home directory `home` (which only macOS uses) and the path of the
/// running program `exe` (or the error of finding it, which only matters
/// when turning it on).
pub open spec fn autostart_outcome(
    platform: Platform,
    enabled: bool,
    home: Option<Seq<char>>,
    exe: Result<String, String>,
    r: Result<AutostartPlan, IconError>,
) -> bool {
    match platform {
        Platform::MacOs => match home {
            None => r == Err::<AutostartPlan, IconError>(IconError::NoHomeDir),
            Some(h) => if enabled {
                match exe {
                    Ok(e) => r matches Ok(AutostartPlan::WritePlist { path, xml }) && path@ == launch_agent_path(h)
                        && xml@ == plist_xml(e@),
                    Err(x) => r == Err::<AutostartPlan, IconError>(IconError::Other(x)),
                }
            } else {
                r matches Ok(AutostartPlan::RemovePlist { path }) && path@ == launch_agent_path(h)
            },
        },
        Platform::Windows => if enabled {
            match exe {
                Ok(e) => r matches Ok(AutostartPlan::SetRunValue { key, name, value }) && key@
                    == "Software\\Microsoft\\Windows\\CurrentVersion\\Run"@ && name@ == "IconCraft"@ && value@
                    == "\""@ + e@ + "\""@,
                Err(x) => r == Err::<AutostartPlan, IconError>(IconError::Other(x)),
            }
        } else {
            r matches Ok(AutostartPlan::DeleteRunValue { key, name }) && key@
                == "Software\\Microsoft\\Windows\\CurrentVersion\\Run"@ && name@ == "IconCraft"@
        },
        Platform::Other => r == Err::<AutostartPlan, IconError>(IconError::AutostartUnsupported),
    }
}

/// The plan for turning start at login on or off, given the user's home
/// directory and the path of the running program: on macOS a launch agent
/// in the home directory (refused where there is none), on Windows a value
/// under the user's `Run` key; on other platforms it is refused.
pub fn autostart_plan(platform: Platform, enabled: bool, home: Option<String>, exe: Result<String, String>) -> (r: Result<AutostartPlan, IconError>)
    ensures
        autostart_outcome(platform, enabled, opt_view(home), exe, r),
{
    match platform {
        Platform::MacOs => {
            let home = match home {
                Some(h) => h,
                None => return Err(IconError::NoHomeDir),
            };
            let path = path_join(home.as_str(), "Library/LaunchAgents/com.iconcraft.desktop.plist");
            if enabled {
                let exe = match exe {
                    Ok(e) => e,
                    Err(x) => return Err(IconError::Other(x)),
                };
                let safe = escape_xml(exe.as_str());
                let xml = String::from_str(
                    "<?xml version=\"1.0\" encoding=\"UTF-8\"?><!DOCTYPE plist PUBLIC \"-//Apple//DTD PLIST 1.0//EN\" \"http://www.apple.com/DTDs/PropertyList-1.0.dtd\"><plist version=\"1.0\"><dict><key>Label</key><string>com.iconcraft.desktop</string><key>ProgramArguments</key><array><string>",
                ).concat(safe.as_str()).concat("</string></array><key>RunAtLoad</key><true/></dict></plist>");
                Ok(AutostartPlan::WritePlist { path, xml })
            } else {
                Ok(AutostartPlan::RemovePlist { path })
            }
        },
        Platform::Windows => {
            let key = String::from_str("Software\\Microsoft\\Windows\\CurrentVersion\\Run");
            let name = String::from_str("IconCraft");
            if enabled {
                match exe {
                    Ok(e) => {
                        let value = String::from_str("\"").concat(e.as_str()).concat("\"");
                        Ok(AutostartPlan::SetRunValue { key, name, value })
                    },
                    Err(x) => Err(IconError::Other(x)),
                }
            } else {
                Ok(AutostartPlan::DeleteRunValue { key, name })
            }
        },
        Platform::Other => Err(IconError::AutostartUnsupported),
    }
}

/// The plan for turning start at login on or off, given the path of the
/// running program (or the error of finding it). On macOS the user's home
/// directory is looked up first; it comes from the environment, so the
/// result is stated for whatever that lookup gave, through
/// `autostart_plan`. The other platforms do not look it up.
pub fn set_autostart_native(platform: Platform, enabled: bool, exe: Result<String, String>) -> (r: Result<AutostartPlan, IconError>)
    ensures
        exists|home: Option<Seq<char>>|
            (platform != Platform::MacOs ==> home is None) && #[trigger] autostart_outcome(
                platform,
                enabled,
                home,
                exe,
                r,
            ),
{
    let home = match platform {
        Platform::MacOs => user_home_dir(),
        _ => None,
    };
    let ghost seen = opt_view(home);
    let r = autostart_plan(platform, enabled, home, exe);
    assert(autostart_outcome(platform, enabled, seen, exe, r));
    r
}

/// The generation after `g`: starting the monitor again makes every
/// earlier monitor stop at its next wake.
pub fn next_generation(g: u64) -> (n: u64)
    requires
        g < u64::MAX,
    ensures
        n == g + 1,
{
    g + 1
}

/// How long the monitor sleeps between repairs: the interval in minutes,
/// at least one, in seconds.
pub fn monitor_sleep_secs(interval_minutes: u64) -> (s: u64)
    requires
        (if interval_minutes < 1 { 1 } else { interval_minutes }) * 60 <= u64::MAX,
    ensures
        s == (if interval_minutes < 1 { 1 } else { interval_minutes }) * 60,
{
    let m = if interval_minutes < 1 { 1 } else { interval_minutes };
    m * 60
}

/// Whether a monitor started as generation `mine` keeps running when the
/// current generation is `current`.
pub fn monitor_continues(current: u64, mine: u64) -> (b: bool)
    ensures
        b == (current == mine),
{
    current == mine
}

} // verus!

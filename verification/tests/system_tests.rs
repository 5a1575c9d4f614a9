use base64::Engine;
use iconcraft::error::IconError;
use iconcraft::system::{
    autostart_plan, data_dir_in, decode_png_data, easter_icon_name, escape_xml, icon_png_path, icons_dir_in, monitor_continues,
    monitor_sleep_secs, new_id, next_generation, now, unix_seconds_or_zero, png_to_ico, prepare_native_icon, set_autostart_native,
    settings_path_in, AutostartPlan, NativeIcon,
};
use iconcraft::target::Platform;
use std::path::Path;

#[test]
fn data_paths() {
    let d = data_dir_in(Some("/home/u/.local/share".to_string())).unwrap();
    assert_eq!(d, Path::new("/home/u/.local/share").join("IconCraft").to_string_lossy());
    assert_eq!(data_dir_in(None), Err(IconError::NoDataDir));
    assert_eq!(settings_path_in("/d"), Path::new("/d").join("settings.json").to_string_lossy());
    assert_eq!(icons_dir_in("/d"), Path::new("/d").join("icons").to_string_lossy());
    assert_eq!(icon_png_path("/d/icons", "abc"), Path::new("/d/icons").join("abc.png").to_string_lossy());
    assert_eq!(easter_icon_name("abc"), "easter-abc");
}

#[test]
fn decoding_uploaded_images() {
    let text = base64::engine::general_purpose::STANDARD.encode([1u8, 2, 3]);
    assert_eq!(decode_png_data(&text), Ok(vec![1, 2, 3]));
    assert!(matches!(decode_png_data("not base64!"), Err(IconError::InvalidImageData(_))));
}

#[test]
fn native_icon_by_platform() {
    assert_eq!(
        prepare_native_icon(Platform::MacOs, "/d/i/a.png", "a"),
        NativeIcon::UsePng { path: "/d/i/a.png".to_string() }
    );
    assert_eq!(
        prepare_native_icon(Platform::Windows, "/d/i/a.png", "a"),
        NativeIcon::ConvertToIco { png_path: "/d/i/a.png".to_string(), ico_path: "/d/i/a.ico".to_string() }
    );
}

#[test]
fn ico_conversion() {
    assert!(matches!(png_to_ico(b"not a png"), Err(IconError::ImageRead(_))));
    let img = image::RgbaImage::from_pixel(4, 4, image::Rgba([10, 20, 30, 255]));
    let mut png = std::io::Cursor::new(Vec::new());
    image::DynamicImage::ImageRgba8(img).write_to(&mut png, image::ImageFormat::Png).unwrap();
    let ico = png_to_ico(png.get_ref()).unwrap();
    assert_eq!(&ico[0..4], &[0, 0, 1, 0]);
    let back = image::load_from_memory_with_format(&ico, image::ImageFormat::Ico).unwrap();
    assert_eq!((back.width(), back.height()), (256, 256));
}

#[test]
fn clock_is_after_2020() {
    assert!(now() > 1_577_836_800);
}

#[test]
fn xml_escaping() {
    assert_eq!(escape_xml("/A&B/<c>.app"), "/A&amp;B/&lt;c&gt;.app");
    assert_eq!(escape_xml("плain"), "плain");
}

#[test]
fn autostart_plans() {
    match set_autostart_native(Platform::MacOs, true, Ok("/Apps/I&C".to_string())) {
        Ok(AutostartPlan::WritePlist { path, xml }) => {
            assert!(path.ends_with("Library/LaunchAgents/com.iconcraft.desktop.plist"));
            assert!(xml.contains("<string>/Apps/I&amp;C</string>"));
            assert!(xml.starts_with("<?xml version=\"1.0\" encoding=\"UTF-8\"?>"));
        }
        Err(IconError::NoHomeDir) => {}
        other => panic!("unexpected plan {other:?}"),
    }
    assert_eq!(
        set_autostart_native(Platform::Windows, true, Ok("C:\\I.exe".to_string())),
        Ok(AutostartPlan::SetRunValue {
            key: "Software\\Microsoft\\Windows\\CurrentVersion\\Run".to_string(),
            name: "IconCraft".to_string(),
            value: "\"C:\\I.exe\"".to_string(),
        })
    );
    assert_eq!(
        set_autostart_native(Platform::Windows, true, Err("no exe".to_string())),
        Err(IconError::Other("no exe".to_string()))
    );
    assert!(matches!(
        set_autostart_native(Platform::Windows, false, Err("x".to_string())),
        Ok(AutostartPlan::DeleteRunValue { .. })
    ));
    assert_eq!(
        set_autostart_native(Platform::Other, true, Ok("x".to_string())),
        Err(IconError::AutostartUnsupported)
    );
}

#[test]
fn monitor_timing() {
    assert_eq!(next_generation(4), 5);
    assert_eq!(monitor_sleep_secs(0), 60);
    assert_eq!(monitor_sleep_secs(10), 600);
    assert!(monitor_continues(3, 3));
    assert!(!monitor_continues(4, 3));
}

#[test]
fn clock_readings_before_the_epoch_give_zero() {
    assert_eq!(unix_seconds_or_zero(Some(1_700_000_000)), 1_700_000_000);
    assert_eq!(unix_seconds_or_zero(None), 0);
}

#[test]
fn launch_agent_goes_into_the_given_home() {
    let plist = Path::new("/Users/u").join("Library/LaunchAgents/com.iconcraft.desktop.plist").to_string_lossy().into_owned();
    assert_eq!(
        autostart_plan(Platform::MacOs, true, Some("/Users/u".to_string()), Ok("/Apps/A<B>.app".to_string())),
        Ok(AutostartPlan::WritePlist {
            path: plist.clone(),
            xml: "<?xml version=\"1.0\" encoding=\"UTF-8\"?><!DOCTYPE plist PUBLIC \"-//Apple//DTD PLIST 1.0//EN\" \"http://www.apple.com/DTDs/PropertyList-1.0.dtd\"><plist version=\"1.0\"><dict><key>Label</key><string>com.iconcraft.desktop</string><key>ProgramArguments</key><array><string>/Apps/A&lt;B&gt;.app</string></array><key>RunAtLoad</key><true/></dict></plist>".to_string(),
        })
    );
    assert_eq!(
        autostart_plan(Platform::MacOs, false, Some("/Users/u".to_string()), Err("x".to_string())),
        Ok(AutostartPlan::RemovePlist { path: plist })
    );
    assert_eq!(
        autostart_plan(Platform::MacOs, true, None, Ok("/Apps/A.app".to_string())),
        Err(IconError::NoHomeDir)
    );
    assert_eq!(
        autostart_plan(Platform::MacOs, true, Some("/Users/u".to_string()), Err("no exe".to_string())),
        Err(IconError::Other("no exe".to_string()))
    );
    assert_eq!(
        autostart_plan(Platform::Windows, false, None, Ok("x".to_string())),
        Ok(AutostartPlan::DeleteRunValue {
            key: "Software\\Microsoft\\Windows\\CurrentVersion\\Run".to_string(),
            name: "IconCraft".to_string(),
        })
    );
}

#[test]
fn ico_is_the_png_scaled_to_256() {
    let img = image::RgbaImage::from_fn(5, 3, |x, y| image::Rgba([x as u8 * 40, y as u8 * 80, 7, 200]));
    let mut png = std::io::Cursor::new(Vec::new());
    image::DynamicImage::ImageRgba8(img).write_to(&mut png, image::ImageFormat::Png).unwrap();
    let ico = png_to_ico(png.get_ref()).unwrap();
    let decoded = image::load_from_memory_with_format(png.get_ref(), image::ImageFormat::Png).unwrap();
    let scaled = decoded.resize_exact(256, 256, image::imageops::FilterType::Lanczos3);
    let mut expected = std::io::Cursor::new(Vec::new());
    scaled.write_to(&mut expected, image::ImageFormat::Ico).unwrap();
    assert_eq!(ico, expected.into_inner());
}

#[test]
fn ids_are_version_4_uuids() {
    let a = new_id();
    let b = new_id();
    assert_ne!(a, b);
    for id in [a, b] {
        let c: Vec<char> = id.chars().collect();
        assert_eq!(c.len(), 36);
        for (i, ch) in c.iter().enumerate() {
            if [8, 13, 18, 23].contains(&i) {
                assert_eq!(*ch, '-');
            } else {
                assert!(ch.is_ascii_digit() || ('a'..='f').contains(ch));
            }
        }
        assert_eq!(c[14], '4');
        assert!(['8', '9', 'a', 'b'].contains(&c[19]));
    }
}

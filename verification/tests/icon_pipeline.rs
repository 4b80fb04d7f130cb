//! Exercises the icon rasterizer, the desktop-link helpers, the browser
//! command parsing and the listing rules on concrete values.

use base64::Engine;

use advanced_shortcut::apps::{
    add_shortcuts_from_dir, clean_icon_path, find_exe_in_dir, is_system_component,
    sort_installed_apps, ScanEntry,
};
use advanced_shortcut::browser::{extract_command_path, new_window_flag};
use advanced_shortcut::data::{default_app_data, find_shortcut_index, AppData, InstalledApp};
use advanced_shortcut::icon::{
    create_ico_from_base64, get_corner_center, is_in_rounded_corner, rasterize_icon,
};
use advanced_shortcut::links::{
    ensure_lnk_extension, finish_resolved_link, shortcut_description, shortcut_launch_args,
    utf16_prefix_until_nul,
};
use advanced_shortcut::procs::sorted_unique_processes;
use advanced_shortcut::text::eq_ignore_case;

fn sample_png() -> Vec<u8> {
    let mut img = image::RgbaImage::from_pixel(20, 20, image::Rgba([10, 20, 30, 255]));
    // A couple of distinct pixels so that resampling is not trivial.
    img.put_pixel(0, 0, image::Rgba([200, 100, 50, 255]));
    img.put_pixel(19, 19, image::Rgba([1, 2, 3, 128]));
    let mut png: Vec<u8> = Vec::new();
    image::DynamicImage::ImageRgba8(img)
        .write_to(&mut std::io::Cursor::new(&mut png), image::ImageFormat::Png)
        .unwrap();
    png
}

#[test]
fn radius_zero_equals_plain_resize() {
    let png = sample_png();
    let icon = rasterize_icon(&png, 0).unwrap();
    assert_eq!(icon.buffers.len(), 6);
    let sizes = [256u32, 128, 64, 48, 32, 16];
    for (i, size) in sizes.iter().enumerate() {
        let expected = image::load_from_memory(&png)
            .unwrap()
            .resize_exact(*size, *size, image::imageops::FilterType::Lanczos3)
            .to_rgba8()
            .into_raw();
        assert_eq!(icon.buffers[i], expected, "size {}", size);
    }
}

#[test]
fn radius_fifty_clears_the_four_corner_pixels() {
    let png = sample_png();
    let icon = rasterize_icon(&png, 50).unwrap();
    assert_eq!(icon.buffers.len(), 6);
    let sizes = [256usize, 128, 64, 48, 32, 16];
    for (i, s) in sizes.iter().enumerate() {
        let buf = &icon.buffers[i];
        assert_eq!(buf.len(), 4 * s * s);
        let corners = [0usize, s - 1, (s - 1) * s, s * s - 1];
        for p in corners {
            assert_eq!(&buf[4 * p..4 * p + 4], &[0, 0, 0, 0], "size {} pixel {}", s, p);
        }
        // An interior pixel keeps its resampled value.
        let center = 4 * ((s / 2) * s + s / 2);
        let plain = rasterize_icon(&png, 0).unwrap();
        assert_eq!(&buf[center..center + 4], &plain.buffers[i][center..center + 4]);
    }
}

#[test]
fn any_radius_yields_exactly_six_buffers() {
    let png = sample_png();
    for radius in [0u32, 10, 25, 50] {
        let icon = rasterize_icon(&png, radius).unwrap();
        assert_eq!(icon.buffers.len(), 6);
        let sizes = [256usize, 128, 64, 48, 32, 16];
        for (i, s) in sizes.iter().enumerate() {
            assert_eq!(icon.buffers[i].len(), 4 * s * s);
        }
    }
}

#[test]
fn ico_container_holds_six_entries_and_is_deterministic() {
    let png = sample_png();
    let b64 = base64::engine::general_purpose::STANDARD.encode(&png);
    let bytes = create_ico_from_base64(&b64, 30).unwrap();
    // ICONDIR header: reserved 0, type 1 (icon), count 6, little endian.
    assert_eq!(&bytes[0..6], &[0, 0, 1, 0, 6, 0]);
    // Identical input and radius give byte-identical containers.
    let again = create_ico_from_base64(&b64, 30).unwrap();
    assert_eq!(bytes, again);
}

#[test]
fn bad_base64_and_bad_image_are_rejected() {
    let e = create_ico_from_base64("!!!not-base64!!!", 0).unwrap_err();
    assert!(e.starts_with("Failed to decode base64: "), "{}", e);
    let not_an_image = base64::engine::general_purpose::STANDARD.encode(b"plain text");
    let e = create_ico_from_base64(&not_an_image, 0).unwrap_err();
    assert!(e.starts_with("Failed to load image: "), "{}", e);
    let png = sample_png();
    let good = base64::engine::general_purpose::STANDARD.encode(&png);
    assert!(create_ico_from_base64(&good, 0).is_ok());
}

#[test]
fn corner_membership_and_centers() {
    // 100x100 raster with radius 10.
    assert!(is_in_rounded_corner(0, 0, 100, 100, 10));
    assert!(is_in_rounded_corner(99, 0, 100, 100, 10));
    assert!(is_in_rounded_corner(0, 99, 100, 100, 10));
    assert!(is_in_rounded_corner(99, 99, 100, 100, 10));
    assert!(!is_in_rounded_corner(50, 50, 100, 100, 10));
    assert!(!is_in_rounded_corner(10, 10, 100, 100, 10));
    assert_eq!(get_corner_center(0, 0, 100, 100, 10), (10, 10));
    assert_eq!(get_corner_center(99, 0, 100, 100, 10), (90, 10));
    assert_eq!(get_corner_center(0, 99, 100, 100, 10), (10, 90));
    assert_eq!(get_corner_center(99, 99, 100, 100, 10), (90, 90));
}

#[test]
fn browser_command_lines_parse() {
    assert_eq!(
        extract_command_path("\"C:\\Program Files\\Chrome\\chrome.exe\" --single-argument %1"),
        Some("C:\\Program Files\\Chrome\\chrome.exe".to_string())
    );
    assert_eq!(
        extract_command_path("C:\\browser.exe %1"),
        Some("C:\\browser.exe".to_string())
    );
    assert_eq!(
        extract_command_path("  C:\\bare.exe  "),
        Some("C:\\bare.exe".to_string())
    );
    // An unterminated quote resolves nothing.
    assert_eq!(extract_command_path("\"C:\\broken.exe"), None);
}

#[test]
fn new_window_flags_follow_the_executable_table() {
    assert_eq!(new_window_flag("firefox.exe"), "-new-window");
    assert_eq!(new_window_flag("Firefox.exe"), "-new-window");
    assert_eq!(new_window_flag("chrome.exe"), "--new-window");
    assert_eq!(new_window_flag("msedge.exe"), "--new-window");
    assert_eq!(new_window_flag("unknown-browser.exe"), "--new-window");
}

#[test]
fn launch_args_and_description_and_extension() {
    assert_eq!(shortcut_launch_args("abc-123"), "--execute-shortcut abc-123");
    assert_eq!(shortcut_description("My App"), "Advanced Shortcut - My App");
    assert_eq!(ensure_lnk_extension("C:\\desk\\link"), "C:\\desk\\link.lnk");
    assert_eq!(ensure_lnk_extension("C:\\desk\\link.lnk"), "C:\\desk\\link.lnk");
}

#[test]
fn resolved_link_fields_round_trip() {
    let buf: Vec<u16> = vec![72, 105, 0, 99, 99];
    assert_eq!(utf16_prefix_until_nul(&buf), vec![72, 105]);
    let whole: Vec<u16> = vec![72, 105];
    assert_eq!(utf16_prefix_until_nul(&whole), vec![72, 105]);

    let ok = finish_resolved_link("C:\\app.exe".to_string(), "--x".to_string()).unwrap();
    assert_eq!(ok.path, "C:\\app.exe");
    assert_eq!(ok.args, "--x");
    let err = finish_resolved_link(String::new(), "--x".to_string()).unwrap_err();
    assert_eq!(err, "Could not resolve shortcut target");
}

#[test]
fn icon_values_clean_to_executable_paths() {
    assert_eq!(clean_icon_path("C:\\app\\main.exe,0"), "C:\\app\\main.exe");
    assert_eq!(clean_icon_path("C:\\app\\main.exe"), "C:\\app\\main.exe");
    assert_eq!(clean_icon_path("\"C:\\app\\main.exe\""), "C:\\app\\main.exe");
    // Quotes are stripped from the ends of the whole value only: with an
    // icon index appended, an inner closing quote survives, so such a value
    // fails the executable check and the install-location fallback runs.
    assert_eq!(clean_icon_path("\"C:\\app\\main.exe\",0"), "C:\\app\\main.exe\"");
}

#[test]
fn system_components_are_recognised() {
    assert!(is_system_component("KB5001234"));
    assert!(is_system_component("Security Update for Widgets"));
    assert!(is_system_component("Widget Hotfix Pack"));
    assert!(!is_system_component("Widget Studio"));
}

#[test]
fn installer_binaries_are_skipped() {
    let entries = vec![
        "C:\\app\\unins000.exe".to_string(),
        "C:\\app\\Setup.exe".to_string(),
        "C:\\app\\updater.exe".to_string(),
        "C:\\app\\main.exe".to_string(),
    ];
    assert_eq!(find_exe_in_dir(&entries), "C:\\app\\main.exe");
    let none = vec!["C:\\app\\setup.exe".to_string()];
    assert_eq!(find_exe_in_dir(&none), "");
}

#[test]
fn start_menu_links_deduplicate_by_folded_stem() {
    let mut apps: Vec<InstalledApp> = Vec::new();
    let mut seen: Vec<String> = Vec::new();
    let entries = vec![
        ScanEntry {
            stem: "Widget".to_string(),
            path: "C:\\menu\\Widget.lnk".to_string(),
        },
        ScanEntry {
            stem: "WIDGET".to_string(),
            path: "C:\\menu\\other\\WIDGET.lnk".to_string(),
        },
        ScanEntry {
            stem: "Widget Uninstall".to_string(),
            path: "C:\\menu\\Widget Uninstall.lnk".to_string(),
        },
        ScanEntry {
            stem: "Gadget".to_string(),
            path: "C:\\menu\\Gadget.lnk".to_string(),
        },
    ];
    add_shortcuts_from_dir(&mut apps, &mut seen, &entries);
    let names: Vec<&str> = apps.iter().map(|a| a.name.as_str()).collect();
    assert_eq!(names, vec!["Widget", "Gadget"]);
    assert!(apps.iter().all(|a| a.icon.is_none()));
}

#[test]
fn installed_apps_sort_by_folded_name() {
    let apps = vec![
        InstalledApp {
            name: "zeta".to_string(),
            path: "z".to_string(),
            icon: None,
        },
        InstalledApp {
            name: "Alpha".to_string(),
            path: "a".to_string(),
            icon: None,
        },
        InstalledApp {
            name: "beta".to_string(),
            path: "b".to_string(),
            icon: Some("i".to_string()),
        },
    ];
    let sorted = sort_installed_apps(apps);
    let names: Vec<&str> = sorted.iter().map(|a| a.name.as_str()).collect();
    assert_eq!(names, vec!["Alpha", "beta", "zeta"]);
}

#[test]
fn process_list_is_sorted_and_unique_by_folded_name() {
    let list = vec![
        advanced_shortcut::data::ProcessInfo {
            pid: 3,
            name: "Zsh".to_string(),
            memory_usage: 1,
        },
        advanced_shortcut::data::ProcessInfo {
            pid: 1,
            name: "bash".to_string(),
            memory_usage: 2,
        },
        advanced_shortcut::data::ProcessInfo {
            pid: 2,
            name: "BASH".to_string(),
            memory_usage: 3,
        },
    ];
    let r = sorted_unique_processes(&list);
    assert_eq!(r.len(), 2);
    assert!(eq_ignore_case(r[0].name.as_str(), "bash"));
    assert!(eq_ignore_case(r[1].name.as_str(), "zsh"));
}

#[test]
fn default_store_holds_one_expanded_group() {
    let data = default_app_data();
    assert!(data.shortcuts.is_empty());
    assert_eq!(data.groups.len(), 1);
    assert_eq!(data.groups[0].id, "default");
    assert_eq!(data.groups[0].name, "デフォルト");
    assert_eq!(data.groups[0].color, "#22d3ee");
    assert_eq!(data.groups[0].icon, "folder");
    assert_eq!(data.groups[0].order, 0);
    assert!(data.groups[0].is_expanded);
}

#[test]
fn shortcut_lookup_finds_the_first_match() {
    let mut data: AppData = default_app_data();
    let mut s = advanced_shortcut::data::Shortcut {
        id: "one".to_string(),
        name: "First".to_string(),
        icon: String::new(),
        group_id: "default".to_string(),
        actions: vec![],
        order: 0,
        created_at: String::new(),
        updated_at: String::new(),
    };
    data.shortcuts.push(s.clone());
    s.id = "two".to_string();
    data.shortcuts.push(s);
    assert_eq!(find_shortcut_index(&data, &"two".to_string()), Some(1));
    assert_eq!(find_shortcut_index(&data, &"three".to_string()), None);
}

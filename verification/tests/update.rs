use vterm::update::{decide_newer, find_app_bundle, install_update, is_newer, trim_leading_v, update_from_release, Asset, Release, UpdateInfo, UpdateState};

#[test]
fn test_is_newer() {
    assert!(is_newer("0.2.0", "0.1.0"));
    assert!(is_newer("1.0.0", "0.9.9"));
    assert!(!is_newer("0.1.0", "0.1.0"));
    assert!(!is_newer("0.1.0", "0.2.0"));
    assert!(is_newer("v0.2.0", "0.1.0"));
    assert!(!is_newer("beta", "beta"));
}

#[test]
fn prerelease_and_fallback_comparisons() {
    assert!(is_newer("1.0.0", "1.0.0-rc.1"));
    assert!(!is_newer("1.0.0-rc.1", "1.0.0"));
    assert!(is_newer("nightly", "0.1.0"));
    assert!(decide_newer(Some(false), "a", "b") == false);
    assert!(decide_newer(None, "a", "b"));
    assert!(!decide_newer(None, "a", "a"));
}

fn asset(name: &str, url: &str) -> Asset {
    Asset { name: name.to_string(), browser_download_url: url.to_string() }
}

#[test]
fn update_offers_the_first_disk_image() {
    let release = Release {
        tag_name: "v0.3.0".to_string(),
        body: Some("notes".to_string()),
        assets: vec![asset("vterm.zip", "u1"), asset("vterm.dmg", "u2"), asset("other.dmg", "u3")],
    };
    let info = update_from_release(&release, "v0.2.9").unwrap();
    assert_eq!(info.version, "0.3.0");
    assert_eq!(info.download_url, "u2");
    assert!(info.can_auto_install);
    assert_eq!(info.release_notes, "notes");
    assert!(update_from_release(&release, "0.3.0").is_none());
}

#[test]
fn update_without_a_disk_image_points_at_the_release_page() {
    let release = Release { tag_name: "1.2.3".to_string(), body: None, assets: vec![asset("src.tar.gz", "u")] };
    let info = update_from_release(&release, "1.2.2").unwrap();
    assert_eq!(info.download_url, "https://github.com/boytur/vterm/releases/latest");
    assert!(!info.can_auto_install);
    assert_eq!(info.release_notes, "");
}

#[test]
fn leading_vs_are_dropped() {
    assert_eq!(trim_leading_v("vv1.0"), "1.0");
    assert_eq!(trim_leading_v("1.0v"), "1.0v");
    assert_eq!(trim_leading_v(""), "");
}

#[test]
fn installing_is_refused_off_macos() {
    assert_eq!(install_update("/tmp/x.app"), Err("automatic updates are currently supported on macOS only".to_string()));
}

#[test]
fn app_bundle_is_found_up_the_path() {
    assert_eq!(find_app_bundle("/Applications/vterm.app/Contents/MacOS/vterm"), Some("/Applications/vterm.app".to_string()));
    assert_eq!(find_app_bundle("/usr/local/bin/vterm"), None);
    assert_eq!(find_app_bundle("x.app"), Some("x.app".to_string()));
}

#[test]
fn prerelease_versions_follow_semver_order() {
    assert!(!is_newer("1.0.0-alpha", "1.0.0-alpha"));
    assert!(is_newer("1.0.0-alpha.10", "1.0.0-alpha.2"));
    assert!(!is_newer("1.0.0-alpha.2", "1.0.0-alpha.10"));
    assert!(is_newer("1.0.0-alpha.1", "1.0.0-alpha"));
    assert!(is_newer("1.0.0-alpha.beta", "1.0.0-alpha.1"));
    assert!(is_newer("1.0.0-beta", "1.0.0-alpha"));
    assert!(is_newer("1.0.0+2", "1.0.0+1"));
    assert!(!is_newer("1.0.0+build", "1.0.0+build"));
}

#[test]
fn settings_page_update_line() {
    let mut s = UpdateState::new();
    assert_eq!(s.status_text(), "You're up to date");
    s.info = Some(UpdateInfo {
        version: "0.3.0".to_string(),
        download_url: "u".to_string(),
        can_auto_install: false,
        release_notes: String::new(),
    });
    assert_eq!(s.status_text(), "v0.3.0 is available from the release page");
    s.info.as_mut().unwrap().can_auto_install = true;
    assert_eq!(s.status_text(), "v0.3.0 is available");
    s.error = Some("boom".to_string());
    assert_eq!(s.status_text(), "Could not prepare the update");
    s.staged = Some("/tmp/vterm.app".to_string());
    assert_eq!(s.status_text(), "v0.3.0 is ready \u{2014} relaunch when convenient");
    s.downloading = true;
    assert_eq!(s.status_text(), "Downloading update in the background\u{2026}");
    s.checking = true;
    assert_eq!(s.status_text(), "Checking for updates\u{2026}");
}

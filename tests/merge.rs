use boilr::merge::{remove_tagged, update_platform_shortcuts};
use boilr::shortcut::{PlatformEntry, Shortcut};

fn shortcut(app_id: u32, name: &str, tags: &[&str]) -> Shortcut {
    Shortcut {
        order: String::new(),
        app_id,
        app_name: name.to_string(),
        exe: format!("/games/{}", name),
        start_dir: String::new(),
        icon: String::new(),
        shortcut_path: String::new(),
        launch_options: String::new(),
        is_hidden: false,
        allow_desktop_config: true,
        allow_overlay: true,
        open_vr: 0,
        dev_kit: 0,
        dev_kit_game_id: String::new(),
        dev_kit_overrite_app_id: 0,
        last_play_time: 0,
        tags: tags.iter().map(|t| t.to_string()).collect(),
    }
}

fn entry(name: &str) -> PlatformEntry {
    PlatformEntry {
        app_name: name.to_string(),
        exe: format!("/epic/{}.exe", name),
        start_dir: "/epic".to_string(),
        icon: String::new(),
        launch_options: "-silent".to_string(),
    }
}

fn summary(c: &[Shortcut]) -> Vec<(u32, String, Vec<String>)> {
    c.iter().map(|s| (s.app_id, s.app_name.clone(), s.tags.clone())).collect()
}

#[test]
fn manual_shortcut_kept_and_entry_added() {
    let mut c = vec![shortcut(1, "Manual", &[])];
    let r = update_platform_shortcuts(&"epic".to_string(), Ok(vec![entry("Game A")]), &mut c);
    assert!(r.is_ok());
    assert_eq!(c.len(), 2);
    assert_eq!(c[0].app_id, 1);
    assert_eq!(c[0].app_name, "Manual");
    assert!(c[0].tags.is_empty());
    assert_eq!(c[1].app_name, "Game A");
    assert_eq!(c[1].exe, "/epic/Game A.exe");
    assert_eq!(c[1].start_dir, "/epic");
    assert_eq!(c[1].launch_options, "-silent");
    assert_eq!(c[1].tags, vec!["epic".to_string()]);
    assert!(c[1].allow_overlay);
    assert!(!c[1].is_hidden);
    let expected = steam_shortcuts_util::app_id_generator::calculate_app_id("/epic/Game A.exe", "Game A");
    assert_eq!(c[1].app_id, expected);
    assert!(c[1].app_id >= 0x8000_0000);
}

#[test]
fn uninstalled_game_removed() {
    let mut c = vec![shortcut(2, "Old", &["epic"])];
    let r = update_platform_shortcuts(&"epic".to_string(), Ok(vec![]), &mut c);
    assert!(r.is_ok());
    assert!(c.is_empty());
}

#[test]
fn merge_twice_is_idempotent() {
    let mut c = vec![shortcut(1, "Manual", &[]), shortcut(3, "Other", &["legendary"])];
    let tag = "epic".to_string();
    update_platform_shortcuts(&tag, Ok(vec![entry("A"), entry("B")]), &mut c).unwrap();
    let once = summary(&c);
    update_platform_shortcuts(&tag, Ok(vec![entry("A"), entry("B")]), &mut c).unwrap();
    assert_eq!(summary(&c), once);
    assert_eq!(c.len(), 4);
}

#[test]
fn other_platforms_untouched() {
    let mut c = vec![
        shortcut(3, "Leg", &["legendary"]),
        shortcut(4, "Old epic", &["epic"]),
        shortcut(5, "Mine", &["Favorite"]),
    ];
    update_platform_shortcuts(&"epic".to_string(), Ok(vec![entry("New")]), &mut c).unwrap();
    assert_eq!(c.len(), 3);
    assert_eq!(c[0].app_id, 3);
    assert_eq!(c[0].tags, vec!["legendary".to_string()]);
    assert_eq!(c[1].app_id, 5);
    assert_eq!(c[2].app_name, "New");
}

#[test]
fn failed_platform_keeps_its_shortcuts() {
    let mut c = vec![shortcut(4, "Old epic", &["epic"]), shortcut(1, "Manual", &[])];
    let r = update_platform_shortcuts(&"epic".to_string(), Err("launcher not installed".to_string()), &mut c);
    assert_eq!(r, Err("launcher not installed".to_string()));
    assert_eq!(c.len(), 2);
    assert_eq!(c[0].app_id, 4);
    assert_eq!(c[1].app_id, 1);
}

#[test]
fn remove_tagged_keeps_order() {
    let mut c = vec![
        shortcut(1, "a", &["x"]),
        shortcut(2, "b", &[]),
        shortcut(3, "c", &["y", "x"]),
        shortcut(4, "d", &["y"]),
    ];
    remove_tagged(&"x".to_string(), &mut c);
    let ids: Vec<u32> = c.iter().map(|s| s.app_id).collect();
    assert_eq!(ids, vec![2, 4]);
}

#[test]
fn has_tag_matches_whole_tag() {
    let s = shortcut(1, "a", &["epic games", "Installed"]);
    assert!(s.has_tag(&"Installed".to_string()));
    assert!(!s.has_tag(&"epic".to_string()));
}

#[test]
fn entry_with_given_id() {
    let s = entry("Z").to_shortcut_with_id(&"legendary".to_string(), 42);
    assert_eq!(s.app_id, 42);
    assert_eq!(s.tags, vec!["legendary".to_string()]);
    let t = entry("Z").to_shortcut(&"legendary".to_string());
    assert_ne!(t.app_id, 0);
    assert_eq!(t.app_id, steam_shortcuts_util::app_id_generator::calculate_app_id("/epic/Z.exe", "Z"));
}

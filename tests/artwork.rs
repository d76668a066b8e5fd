use boilr::cache::CachedSearch;
use boilr::images::{all_image_types, push_decimal, ImageType};
use boilr::shortcut::Shortcut;
use boilr::sync::{
    downloads_for_response, file_present, pending_searches, find_url, game_ids, image_missing, requests_for_type,
    search_queue, shortcut_needs_search, ImageRequest,
};

fn shortcut(app_id: u32, name: &str) -> Shortcut {
    Shortcut {
        order: String::new(),
        app_id,
        app_name: name.to_string(),
        exe: String::new(),
        start_dir: String::new(),
        icon: String::new(),
        shortcut_path: String::new(),
        launch_options: String::new(),
        is_hidden: false,
        allow_desktop_config: true,
        allow_overlay: true,
        open_vr: 0,
        dev_kit: 0,
        dev_kit_game_id: String::new(),
        dev_kit_overrite_app_id: 0,
        last_play_time: 0,
        tags: vec![],
    }
}

fn names(v: &[&str]) -> Vec<String> {
    v.iter().map(|s| s.to_string()).collect()
}

#[test]
fn file_names_follow_convention() {
    assert_eq!(ImageType::Hero.file_name(5), "5_hero.png");
    assert_eq!(ImageType::Grid.file_name(5), "5p.png");
    assert_eq!(ImageType::Logo.file_name(123), "123_logo.png");
    assert_eq!(ImageType::Hero.file_name(0), "0_hero.png");
    assert_eq!(ImageType::Grid.file_name(4294967295), "4294967295p.png");
    assert_eq!(ImageType::Logo.file_name(3000000000), "3000000000_logo.png");
}

#[test]
fn decimal_appends() {
    let mut s = "id=".to_string();
    push_decimal(&mut s, 1090);
    assert_eq!(s, "id=1090");
}

#[test]
fn image_types_in_processing_order() {
    assert_eq!(all_image_types(), vec![ImageType::Logo, ImageType::Hero, ImageType::Grid]);
}

#[test]
fn cache_records_first_match_once() {
    let mut c = CachedSearch::new();
    assert_eq!(c.cached(8), None);
    assert_eq!(c.record(8, &vec![11, 12]), Some(11));
    assert_eq!(c.cached(8), Some(Some(11)));
    assert_eq!(c.record(8, &vec![99]), Some(11));
    assert_eq!(c.cached(8), Some(Some(11)));
}

#[test]
fn cache_keeps_not_found() {
    let mut c = CachedSearch::new();
    assert_eq!(c.record(7, &vec![]), None);
    assert_eq!(c.cached(7), Some(None));
    assert_eq!(c.record(7, &vec![3]), None);
    assert_eq!(c.cached(7), Some(None));
}

#[test]
fn cache_insert_replaces() {
    let mut c = CachedSearch::new();
    c.insert(1, None);
    c.insert(1, Some(4));
    assert_eq!(c.cached(1), Some(Some(4)));
}

#[test]
fn cache_entries_round_trip() {
    let mut c = CachedSearch::new();
    c.record(1, &vec![10]);
    c.record(2, &vec![]);
    let back = CachedSearch::from_entries(c.to_entries());
    assert_eq!(back.cached(1), Some(Some(10)));
    assert_eq!(back.cached(2), Some(None));
    assert_eq!(back.cached(3), None);
}

#[test]
fn presence_checks() {
    let known = names(&["5_hero.png", "9p.png"]);
    assert!(file_present(&known, &"9p.png".to_string()));
    assert!(!file_present(&known, &"9_hero.png".to_string()));
    assert!(!image_missing(&known, ImageType::Hero, 5));
    assert!(image_missing(&known, ImageType::Grid, 5));
    assert!(shortcut_needs_search(&known, 5));
}

#[test]
fn complete_shortcut_not_searched() {
    let shortcuts = vec![shortcut(5, "a"), shortcut(6, "b"), shortcut(7, "c")];
    let known = names(&["6_hero.png", "6p.png", "6_logo.png", "5p.png"]);
    assert!(!shortcut_needs_search(&known, 6));
    assert_eq!(search_queue(&shortcuts, &known), vec![0, 2]);
}

#[test]
fn hero_present_only_grid_and_logo_requested() {
    let shortcuts = vec![shortcut(5, "Game")];
    let known = names(&["5_hero.png"]);
    assert_eq!(search_queue(&shortcuts, &known), vec![0]);
    let mut cache = CachedSearch::new();
    cache.record(5, &vec![500]);
    assert!(requests_for_type(&shortcuts, &cache, &known, ImageType::Hero).is_empty());
    let want = vec![ImageRequest { app_id: 5, game_id: 500 }];
    assert_eq!(requests_for_type(&shortcuts, &cache, &known, ImageType::Grid), want);
    assert_eq!(requests_for_type(&shortcuts, &cache, &known, ImageType::Logo), want);
}

#[test]
fn cached_not_found_is_not_searched_or_downloaded() {
    let shortcuts = vec![shortcut(7, "Unknown")];
    let known: Vec<String> = vec![];
    let mut cache = CachedSearch::new();
    cache.record(7, &vec![]);
    let stored = CachedSearch::from_entries(cache.to_entries());
    assert_eq!(search_queue(&shortcuts, &known), vec![0]);
    assert_eq!(stored.cached(7), Some(None));
    assert!(pending_searches(&shortcuts, &known, &stored).is_empty());
    for t in all_image_types() {
        assert!(requests_for_type(&shortcuts, &stored, &known, t).is_empty());
    }
}

#[test]
fn uncached_shortcut_gets_no_request() {
    let shortcuts = vec![shortcut(1, "a"), shortcut(2, "b")];
    let mut cache = CachedSearch::new();
    cache.record(2, &vec![20, 21]);
    let reqs = requests_for_type(&shortcuts, &cache, &vec![], ImageType::Hero);
    assert_eq!(reqs, vec![ImageRequest { app_id: 2, game_id: 20 }]);
    assert_eq!(game_ids(&reqs), vec![20]);
}

#[test]
fn images_matched_by_id_not_position() {
    let reqs = vec![ImageRequest { app_id: 1, game_id: 10 }, ImageRequest { app_id: 2, game_id: 20 }];
    assert_eq!(game_ids(&reqs), vec![10, 20]);
    let response = vec![(20, Some("http://b".to_string())), (10, Some("http://a".to_string()))];
    let d = downloads_for_response(&reqs, &response, ImageType::Hero);
    assert_eq!(d.len(), 2);
    assert_eq!((d[0].app_id, d[0].file_name.as_str(), d[0].url.as_str()), (1, "1_hero.png", "http://a"));
    assert_eq!((d[1].app_id, d[1].file_name.as_str(), d[1].url.as_str()), (2, "2_hero.png", "http://b"));
}

#[test]
fn missing_answer_skips_only_that_request() {
    let reqs = vec![ImageRequest { app_id: 1, game_id: 10 }, ImageRequest { app_id: 2, game_id: 20 }];
    let response = vec![(20, Some("http://b".to_string()))];
    let d = downloads_for_response(&reqs, &response, ImageType::Logo);
    assert_eq!(d.len(), 1);
    assert_eq!((d[0].app_id, d[0].file_name.as_str(), d[0].url.as_str()), (2, "2_logo.png", "http://b"));
}

#[test]
fn failed_answer_gives_no_download() {
    let reqs = vec![ImageRequest { app_id: 3, game_id: 30 }];
    let response = vec![(30, None), (30, Some("http://late".to_string()))];
    assert!(downloads_for_response(&reqs, &response, ImageType::Grid).is_empty());
    assert_eq!(find_url(&response, 30), None);
    assert_eq!(find_url(&vec![(4, Some("u".to_string()))], 4), Some("u".to_string()));
    assert_eq!(find_url(&vec![], 4), None);
}

#[test]
fn pending_skips_cached_and_complete() {
    let shortcuts = vec![shortcut(1, "a"), shortcut(2, "b"), shortcut(3, "c")];
    let known = names(&["3_hero.png", "3p.png", "3_logo.png"]);
    let mut cache = CachedSearch::new();
    assert_eq!(pending_searches(&shortcuts, &known, &cache), vec![0, 1]);
    cache.record(2, &vec![]);
    assert_eq!(pending_searches(&shortcuts, &known, &cache), vec![0]);
    cache.record(1, &vec![5]);
    assert!(pending_searches(&shortcuts, &known, &cache).is_empty());
}

use bookmark_extractor::Bookmark;
use bookmark_extractor::browser::Browser;
use bookmark_extractor::chromium::JsonValue;
use bookmark_extractor::chromium::extract_from_document;
use bookmark_extractor::chromium::parse_chromium_bookmarks;
use bookmark_extractor::extract::ExtractError;
use bookmark_extractor::extract::ExtractPlan;
use bookmark_extractor::extract::plan_extraction;
use bookmark_extractor::extract::resolve_profile;
use bookmark_extractor::gecko::GeckoRow;
use bookmark_extractor::gecko::find_profile_path;
use bookmark_extractor::gecko::places_db_path;
use bookmark_extractor::gecko::places_query;
use bookmark_extractor::gecko::rows_to_bookmarks;
use bookmark_extractor::prompt::build_analysis_prompt;

fn bytes(s: &str) -> Vec<u8> {
    s.as_bytes().to_vec()
}

#[test]
fn detect_none_is_unknown() {
    assert_eq!(Browser::detect(None), Browser::Unknown);
}

#[test]
fn detect_each_family() {
    assert_eq!(Browser::detect(Some(&bytes("zen-browser.desktop"))), Browser::Zen);
    assert_eq!(Browser::detect(Some(&bytes("google-chrome.desktop"))), Browser::Chrome);
    assert_eq!(Browser::detect(Some(&bytes("firefox.desktop"))), Browser::Firefox);
    assert_eq!(Browser::detect(Some(&bytes("brave-browser.desktop"))), Browser::Brave);
    assert_eq!(Browser::detect(Some(&bytes("microsoft-edge.desktop"))), Browser::Edge);
    assert_eq!(Browser::detect(Some(&bytes("opera.desktop"))), Browser::Unknown);
}

#[test]
fn detect_is_case_insensitive() {
    assert_eq!(Browser::detect(Some(&bytes("FIREFOX.DESKTOP"))), Browser::Firefox);
    assert_eq!(Browser::detect(Some(&bytes("Google-Chrome"))), Browser::Chrome);
}

#[test]
fn detect_zen_before_chrome() {
    assert_eq!(Browser::detect(Some(&bytes("zen-with-chrome-engine"))), Browser::Zen);
    assert_eq!(Browser::detect(Some(&bytes("chrome-then-zen"))), Browser::Zen);
    assert_eq!(Browser::detect(Some(&bytes("zen-firefox-fork"))), Browser::Zen);
}

#[test]
fn detect_empty_output_is_unknown() {
    assert_eq!(Browser::detect(Some(&bytes(""))), Browser::Unknown);
}

#[test]
fn bookmark_path_unknown_is_absent() {
    let home = String::from("/home/u");
    assert!(Browser::Unknown.bookmark_path(Some(&home)).is_none());
    assert!(Browser::Unknown.bookmark_path(None).is_none());
}

#[test]
fn bookmark_path_needs_home() {
    assert!(Browser::Chrome.bookmark_path(None).is_none());
    assert!(Browser::Firefox.bookmark_path(None).is_none());
}

#[test]
fn bookmark_path_chromium_suffixes() {
    let home = String::from("/home/u");
    let chrome = Browser::Chrome.bookmark_path(Some(&home)).unwrap();
    assert_eq!(chrome, "/home/u/.config/google-chrome/Default/Bookmarks");
    let brave = Browser::Brave.bookmark_path(Some(&home)).unwrap();
    assert_eq!(brave, "/home/u/.config/BraveSoftware/Brave-Browser/Default/Bookmarks");
    let edge = Browser::Edge.bookmark_path(Some(&home)).unwrap();
    assert_eq!(edge, "/home/u/.config/microsoft-edge/Default/Bookmarks");
    assert!(chrome.starts_with("/home/u/"));
    assert!(brave.starts_with("/home/u/"));
    assert!(edge.starts_with("/home/u/"));
}

#[test]
fn bookmark_path_gecko_is_home() {
    let home = String::from("/home/u");
    assert_eq!(Browser::Firefox.bookmark_path(Some(&home)).unwrap(), "/home/u");
    assert_eq!(Browser::Zen.bookmark_path(Some(&home)).unwrap(), "/home/u");
}

fn text(s: &str) -> JsonValue {
    JsonValue::Text(String::from(s))
}

fn obj(fields: Vec<(&str, JsonValue)>) -> JsonValue {
    JsonValue::Object(fields.into_iter().map(|(k, v)| (String::from(k), v)).collect())
}

#[test]
fn chromium_tree_round_trip() {
    let url_node = obj(vec![
        ("type", text("url")),
        ("name", text("A")),
        ("url", text("http://a")),
    ]);
    let malformed = obj(vec![("type", text("url")), ("name", text("B"))]);
    let folder = obj(vec![
        ("type", text("folder")),
        ("children", JsonValue::Array(vec![url_node, malformed])),
    ]);
    let bar = obj(vec![
        ("type", text("folder")),
        ("children", JsonValue::Array(vec![folder])),
    ]);
    let doc = obj(vec![("roots", obj(vec![("bookmark_bar", bar)]))]);
    let out = extract_from_document(&doc);
    assert_eq!(out.len(), 1);
    assert_eq!(out[0].name, "A");
    assert_eq!(out[0].url, "http://a");
}

#[test]
fn chromium_unknown_type_not_recursed() {
    let url_node = obj(vec![
        ("type", text("url")),
        ("name", text("A")),
        ("url", text("http://a")),
    ]);
    let odd = obj(vec![
        ("type", text("separator")),
        ("children", JsonValue::Array(vec![url_node])),
    ]);
    let doc = obj(vec![("roots", obj(vec![("bookmark_bar", odd)]))]);
    assert_eq!(extract_from_document(&doc).len(), 0);
}

#[test]
fn chromium_empty_url_dropped() {
    let node = obj(vec![("type", text("url")), ("name", text("A")), ("url", text(""))]);
    let doc = obj(vec![("roots", obj(vec![("bookmark_bar", node)]))]);
    assert_eq!(extract_from_document(&doc).len(), 0);
}

#[test]
fn chromium_missing_type_skipped() {
    let untyped = obj(vec![("name", text("A")), ("url", text("http://a"))]);
    let doc = obj(vec![("roots", obj(vec![("bookmark_bar", untyped)]))]);
    assert_eq!(extract_from_document(&doc).len(), 0);
}

#[test]
fn chromium_root_order_bar_other_synced() {
    let mk = |name: &str, url: &str| {
        obj(vec![("type", text("url")), ("name", text(name)), ("url", text(url))])
    };
    let doc = obj(vec![(
        "roots",
        obj(vec![
            ("synced", mk("S", "http://s")),
            ("other", mk("O", "http://o")),
            ("bookmark_bar", mk("B", "http://b")),
        ]),
    )]);
    let out = extract_from_document(&doc);
    assert_eq!(out.len(), 3);
    assert_eq!(out[0].name, "B");
    assert_eq!(out[1].name, "O");
    assert_eq!(out[2].name, "S");
}

#[test]
fn chromium_parse_whole_document() {
    let content = "{\"roots\":{\"bookmark_bar\":{\"type\":\"folder\",\"children\":[{\"type\":\"url\",\"name\":\"A\",\"url\":\"http://a\"},{\"type\":\"url\",\"name\":\"B\"}]}}}";
    let out = parse_chromium_bookmarks(content).unwrap();
    assert_eq!(out.len(), 1);
    assert_eq!(out[0].name, "A");
    assert_eq!(out[0].url, "http://a");
}

#[test]
fn chromium_no_roots_is_empty_not_error() {
    let out = parse_chromium_bookmarks("{}").unwrap();
    assert!(out.is_empty());
    let out = parse_chromium_bookmarks("{\"other_key\":3}").unwrap();
    assert!(out.is_empty());
    let out = parse_chromium_bookmarks("[1,2,3]").unwrap();
    assert!(out.is_empty());
}

#[test]
fn chromium_invalid_json_is_parse_error() {
    let r = parse_chromium_bookmarks("{not json");
    assert!(matches!(r, Err(ExtractError::ParseError)));
}

#[test]
fn profile_last_path_wins() {
    let ini = "[Profile1]\nPath=p1\nDefault=1\n\n[Profile0]\nPath=p2\n";
    let p = find_profile_path(ini, "/home/u/.mozilla/firefox").unwrap();
    assert_eq!(p, "/home/u/.mozilla/firefox/p2");
}

#[test]
fn profile_single_path() {
    let p = find_profile_path("Path=abc.default\n", "/home/u/.zen").unwrap();
    assert_eq!(p, "/home/u/.zen/abc.default");
}

#[test]
fn profile_crlf_lines() {
    let p = find_profile_path("[Profile0]\r\nPath=win.profile\r\n", "/r").unwrap();
    assert_eq!(p, "/r/win.profile");
}

#[test]
fn profile_absolute_path_replaces_registry() {
    let p = find_profile_path("Path=/abs/profile\n", "/r").unwrap();
    assert_eq!(p, "/abs/profile");
}

#[test]
fn profile_no_path_line() {
    assert!(find_profile_path("[Profile0]\nDefault=1\n", "/r").is_none());
    assert!(find_profile_path("", "/r").is_none());
}

#[test]
fn profile_path_must_start_line() {
    assert!(find_profile_path(" Path=p\n", "/r").is_none());
    assert!(find_profile_path("XPath=p\n", "/r").is_none());
}

#[test]
fn resolve_profile_missing_registry() {
    let r = resolve_profile("/r", None);
    assert!(matches!(r, Err(ExtractError::ProfileNotFound)));
}

#[test]
fn resolve_profile_found() {
    let ini = String::from("Path=p9\n");
    let r = resolve_profile("/r", Some(&ini)).unwrap();
    assert_eq!(r, "/r/p9");
}

fn row(title: Option<&str>, url: Option<&str>) -> GeckoRow {
    GeckoRow { title: title.map(String::from), url: url.map(String::from) }
}

#[test]
fn rows_null_title_is_untitled() {
    let rows = vec![row(None, Some("http://x"))];
    let out = rows_to_bookmarks(&rows);
    assert_eq!(out.len(), 1);
    assert_eq!(out[0].name, "Untitled");
    assert_eq!(out[0].url, "http://x");
}

#[test]
fn rows_null_url_is_skipped() {
    let rows = vec![
        row(Some("T"), Some("http://x")),
        row(Some("dropped"), None),
        row(None, Some("http://y")),
    ];
    let out = rows_to_bookmarks(&rows);
    assert_eq!(out.len(), 2);
    assert_eq!(out[0].name, "T");
    assert_eq!(out[0].url, "http://x");
    assert_eq!(out[1].name, "Untitled");
    assert_eq!(out[1].url, "http://y");
}

#[test]
fn rows_empty_url_dropped() {
    let rows = vec![row(Some("T"), Some("")), row(Some("U"), Some("http://u"))];
    let out = rows_to_bookmarks(&rows);
    assert_eq!(out.len(), 1);
    assert_eq!(out[0].name, "U");
}

#[test]
fn rows_empty_is_empty() {
    let rows: Vec<GeckoRow> = Vec::new();
    assert!(rows_to_bookmarks(&rows).is_empty());
}

#[test]
fn places_paths_and_query() {
    assert_eq!(places_db_path("/r/p"), "/r/p/places.sqlite");
    let q = places_query();
    assert_eq!(
        q,
        "SELECT mb.title, mp.url FROM moz_bookmarks mb JOIN moz_places mp ON mb.fk = mp.id WHERE mb.type = 1 AND mp.url IS NOT NULL"
    );
}

#[test]
fn plan_unknown_fails_detection() {
    let home = String::from("/home/u");
    let plan = plan_extraction(&Browser::Unknown, Some(&home));
    match plan {
        ExtractPlan::Fail { error } => {
            assert!(matches!(error, ExtractError::DetectionFailed));
            assert_eq!(error.message(), "could not detect browser");
        },
        _ => panic!("unknown browser must fail"),
    }
}

#[test]
fn plan_chromium_paths() {
    let home = String::from("/home/u");
    match plan_extraction(&Browser::Chrome, Some(&home)) {
        ExtractPlan::Chromium { path } => {
            assert_eq!(path, "/home/u/.config/google-chrome/Default/Bookmarks");
        },
        _ => panic!("chrome plans a chromium parse"),
    }
    match plan_extraction(&Browser::Chrome, None) {
        ExtractPlan::Fail { error } => assert!(matches!(error, ExtractError::PathUnresolved)),
        _ => panic!("missing home must fail"),
    }
}

#[test]
fn plan_gecko_registries() {
    let home = String::from("/home/u");
    match plan_extraction(&Browser::Zen, Some(&home)) {
        ExtractPlan::Gecko { registry } => assert_eq!(registry, "/home/u/.zen"),
        _ => panic!("zen plans a gecko lookup"),
    }
    match plan_extraction(&Browser::Firefox, Some(&home)) {
        ExtractPlan::Gecko { registry } => assert_eq!(registry, "/home/u/.mozilla/firefox"),
        _ => panic!("firefox plans a gecko lookup"),
    }
    match plan_extraction(&Browser::Firefox, None) {
        ExtractPlan::Fail { error } => assert!(matches!(error, ExtractError::ProfileNotFound)),
        _ => panic!("missing home must fail"),
    }
}

#[test]
fn error_messages() {
    assert_eq!(ExtractError::DetectionFailed.message(), "could not detect browser");
    assert_eq!(ExtractError::PathUnresolved.message(), "could not determine bookmark path");
    assert_eq!(ExtractError::ProfileNotFound.message(), "could not find profile");
    assert_eq!(
        ExtractError::FileNotFound(String::from("/x/Bookmarks")).message(),
        "bookmark file not found at /x/Bookmarks"
    );
    assert_eq!(ExtractError::IoError.message(), "could not read bookmark data");
    assert_eq!(ExtractError::ParseError.message(), "could not parse bookmark file");
    assert_eq!(ExtractError::StoreError.message(), "could not read bookmark store");
}

#[test]
fn prompt_lists_bookmarks() {
    let bookmarks = vec![
        Bookmark { name: String::from("A"), url: String::from("http://a") },
        Bookmark { name: String::from("B"), url: String::from("http://b") },
    ];
    let p = build_analysis_prompt(&bookmarks);
    let expected = format!(
        "You are an insightful analyst. Based on someone's browser bookmarks, provide a thoughtful reflection about their interests, habits, and personality. Be creative and engaging.\n\nBookmarks:\n{}\n\nProvide a 2-3 paragraph reflection:",
        "- A: http://a\n- B: http://b"
    );
    assert_eq!(p, expected);
}

#[test]
fn prompt_of_no_bookmarks() {
    let bookmarks: Vec<Bookmark> = Vec::new();
    let p = build_analysis_prompt(&bookmarks);
    assert!(p.contains("Bookmarks:\n\n\nProvide"));
}

#[test]
fn successful_results_have_nonempty_urls() {
    let content = "{\"roots\":{\"bookmark_bar\":{\"type\":\"folder\",\"children\":[{\"type\":\"url\",\"name\":\"A\",\"url\":\"http://a\"},{\"type\":\"url\",\"name\":\"\",\"url\":\"http://b\"}]}}}";
    for b in parse_chromium_bookmarks(content).unwrap() {
        assert!(!b.url.is_empty());
    }
    let rows = vec![row(None, Some("http://x")), row(Some("t"), None)];
    for b in rows_to_bookmarks(&rows) {
        assert!(!b.url.is_empty());
    }
}

use inline_assets::address::{base_for, directory_of, extension_of, pick};
use inline_assets::cache::Entry;
use inline_assets::encode::make_data_uri;
use inline_assets::{get, load_path, Cache, Config, Error, Fetched, Lookup, MimeTable};

fn table() -> MimeTable {
    let mut table = MimeTable::new();
    table.insert("png", "image/png");
    table.insert("woff", "font/woff");
    table
}

fn content(bytes: &[u8]) -> Fetched {
    Fetched::Content { bytes: bytes.to_vec(), content_type: None }
}

fn chars(text: &str) -> Vec<char> {
    text.chars().collect()
}

fn request(answer: Lookup) -> (String, bool) {
    match answer {
        Lookup::Fetch(request) => (request.location, request.remote),
        Lookup::Value(value) => panic!("no request: {:?}", value),
    }
}

fn value(answer: Lookup) -> Option<String> {
    match answer {
        Lookup::Value(value) => value,
        Lookup::Fetch(request) => panic!("a request for {}", request.location),
    }
}

#[test]
fn the_default_switches_everything_on() {
    let config = Config::default();
    assert!(config.inline_fonts);
    assert!(config.inline_remote);
    assert_eq!(config.max_inline_size, 5000);
}

#[test]
fn a_file_is_asked_for_under_the_root() {
    let mut cache = Cache::new();
    let config = Config::default();
    assert_eq!(
        request(get(&mut cache, "img/a.png", &config, "/site")),
        ("/site/img/a.png".to_string(), false)
    );
    assert_eq!(
        request(get(&mut cache, "img/a.png", &config, "/site/")),
        ("/site/img/a.png".to_string(), false)
    );
    assert_eq!(
        request(get(&mut cache, "/abs/a.png", &config, "/site")),
        ("/abs/a.png".to_string(), false)
    );
    assert_eq!(
        request(get(&mut cache, "a.png", &config, "")),
        ("a.png".to_string(), false)
    );
}

#[test]
fn a_url_is_asked_for_as_it_is() {
    let mut cache = Cache::new();
    let config = Config::default();
    assert_eq!(
        request(get(&mut cache, "http://example.com/a.png", &config, "/site")),
        ("http://example.com/a.png".to_string(), true)
    );
}

#[test]
fn query_and_fragment_are_not_part_of_the_address() {
    let mut cache = Cache::new();
    let config = Config::default();
    for path in ["a.png?v=1", "a.png#top", "a.png?#iefix", "a.png?v=1#top", "a.png#x?y"] {
        assert_eq!(
            request(get(&mut cache, path, &config, "/site")),
            ("/site/a.png".to_string(), false)
        );
    }
}

#[test]
fn the_same_address_is_fetched_once() {
    let mut cache = Cache::new();
    let config = Config::default();
    let table = table();
    let (key, _) = request(get(&mut cache, "a.png?v=1", &config, "/site"));
    let recorded = cache.record(&key, content(b"PNG"), &config, &table);
    assert_eq!(recorded, Some("data:image/png;base64,UE5H".to_string()));
    assert_eq!(cache.len(), 1);
    for path in ["a.png", "a.png?v=2", "a.png#x"] {
        assert_eq!(
            value(get(&mut cache, path, &config, "/site")),
            Some("data:image/png;base64,UE5H".to_string())
        );
    }
    let (other, _) = request(get(&mut cache, "b.png", &config, "/site"));
    assert_eq!(other, "/site/b.png");
    assert_eq!(
        value(get(&mut cache, "/site/a.png", &config, "/elsewhere")),
        Some("data:image/png;base64,UE5H".to_string())
    );
}

#[test]
fn a_failed_fetch_is_not_tried_again() {
    let mut cache = Cache::new();
    let config = Config::default();
    let table = table();
    let (key, _) = request(get(&mut cache, "a.png", &config, "/site"));
    let recorded = cache.record(&key, Fetched::Failed(Error::Io("gone".to_string())), &config, &table);
    assert_eq!(recorded, None);
    assert_eq!(value(get(&mut cache, "a.png", &config, "/site")), None);
}

#[test]
fn recording_again_replaces() {
    let mut cache = Cache::new();
    let config = Config::default();
    let table = table();
    cache.record("/site/a.txt", content(b"one"), &config, &table);
    cache.record("/site/b.txt", content(b"two"), &config, &table);
    cache.record("/site/a.txt", content(b"three"), &config, &table);
    assert_eq!(cache.len(), 2);
    assert_eq!(value(get(&mut cache, "a.txt", &config, "/site")), Some("three".to_string()));
    assert_eq!(value(get(&mut cache, "b.txt", &config, "/site")), Some("two".to_string()));
}

#[test]
fn a_data_uri_is_never_fetched() {
    let mut cache = Cache::new();
    let config = Config::default();
    assert_eq!(value(get(&mut cache, "data:image/png;base64,AAAA", &config, "/site")), None);
}

#[test]
fn fonts_are_left_out_on_demand() {
    let mut cache = Cache::new();
    let table = table();
    let off = Config { inline_fonts: false, ..Config::default() };
    for path in ["f.eot", "f.woff2", "f.woff", "f.tff", "http://example.com/f.woff", "f.woff?v=1"] {
        assert_eq!(value(get(&mut cache, path, &off, "/site")), None, "{}", path);
    }
    let (key, _) = request(get(&mut cache, "f.ttf", &off, "/site"));
    assert_eq!(key, "/site/f.ttf");
    let on = Config::default();
    let (key, _) = request(get(&mut cache, "f.woff", &on, "/site"));
    cache.record(&key, content(b"font"), &on, &table);
    assert_eq!(
        value(get(&mut cache, "f.woff", &on, "/site")),
        Some("data:font/woff;base64,Zm9udA==".to_string())
    );
    assert_eq!(value(get(&mut cache, "f.woff", &off, "/site")), None);
}

#[test]
fn urls_are_left_out_on_demand() {
    let mut cache = Cache::new();
    let table = table();
    let off = Config { inline_remote: false, ..Config::default() };
    assert_eq!(value(get(&mut cache, "http://example.com/a.png", &off, "/site")), None);
    assert_eq!(value(get(&mut cache, "https://example.com/a.css?x#y", &off, "/site")), None);
    cache.record("http://example.com/a.png", content(b"PNG"), &off, &table);
    assert_eq!(value(get(&mut cache, "http://example.com/a.png", &off, "/site")), None);
    let (key, remote) = request(get(&mut cache, "a.png", &off, "/site"));
    assert_eq!((key.as_str(), remote), ("/site/a.png", false));
}

#[test]
fn what_is_too_large_is_left_out() {
    let mut cache = Cache::new();
    let table = table();
    let config = Config { max_inline_size: 3, ..Config::default() };
    assert_eq!(cache.record("a.png", content(b"PNG"), &config, &table).is_some(), true);
    assert_eq!(cache.record("/site/b.png", content(b"PNG!"), &config, &table), None);
    assert_eq!(cache.record("c.txt", content(b"text"), &config, &table), None);
    assert_eq!(value(get(&mut cache, "b.png", &config, "/site")), None);
    assert_eq!(cache.record("d.txt", content(b""), &config, &table), Some(String::new()));
}

#[test]
fn a_wrong_content_type_is_left_out() {
    let mut cache = Cache::new();
    let table = table();
    let config = Config::default();
    let named = |kind: &str| Fetched::Content {
        bytes: b"PNG".to_vec(),
        content_type: Some(kind.to_string()),
    };
    assert_eq!(cache.record("http://h/a.png", named("text/html"), &config, &table), None);
    assert_eq!(
        cache.record("http://h/b.png", named("image/png"), &config, &table),
        Some("data:image/png;base64,UE5H".to_string())
    );
    assert_eq!(
        cache.record("http://h/c.css", named("text/html"), &config, &table),
        Some("PNG".to_string())
    );
    assert_eq!(value(get(&mut cache, "http://h/a.png", &config, "/site")), None);
}

#[test]
fn text_is_read_as_utf8_with_losses() {
    let mut cache = Cache::new();
    let table = table();
    let config = Config::default();
    assert_eq!(
        cache.record("a.js", content(b"let a = '\xc3\xa9';"), &config, &table),
        Some("let a = 'é';".to_string())
    );
    assert_eq!(
        cache.record("b.js", content(b"a\xffb"), &config, &table),
        Some("a\u{fffd}b".to_string())
    );
    assert_eq!(
        cache.record("noext", content(b"data: x"), &config, &table),
        Some("data: x".to_string())
    );
}

#[test]
fn binary_is_base64_that_reads_back() {
    let mut cache = Cache::new();
    let table = table();
    let config = Config::default();
    let bytes: Vec<u8> = (0..=255u8).collect();
    for n in [0usize, 1, 2, 3, 4, 255, 256] {
        let value = cache.record("x.png", content(&bytes[..n]), &config, &table).unwrap();
        let payload = value.strip_prefix("data:image/png;base64,").unwrap();
        assert_eq!(base64::decode(payload).unwrap(), &bytes[..n]);
    }
    assert_eq!(
        cache.record("x.weird.png", content(b"\x00\xff"), &config, &table),
        Some("data:image/png;base64,AP8=".to_string())
    );
}

#[test]
fn the_plan_for_an_address() {
    let config = Config::default();
    let plan = load_path(&chars("a.png"), &config, &chars("/site")).unwrap();
    assert_eq!((plan.location.as_str(), plan.remote), ("/site/a.png", false));
    let off = Config { inline_fonts: false, inline_remote: false, max_inline_size: 0 };
    assert!(load_path(&chars("a.woff"), &off, &chars("/site")).is_none());
    assert!(load_path(&chars("http://h/a.png"), &off, &chars("/site")).is_none());
    assert!(load_path(&chars("a.png"), &off, &chars("/site")).is_some());
}

#[test]
fn what_a_fetch_is_recorded_as() {
    let config = Config::default();
    let table = table();
    let entry = inline_assets::cache::settle(&chars("a.txt"), content(b"hi"), &config, &table);
    assert!(matches!(entry, Entry::Inlined(text) if text == chars("hi")));
    let failed = Fetched::Failed(Error::HttpRequest("500".to_string()));
    let entry = inline_assets::cache::settle(&chars("a.txt"), failed, &config, &table);
    assert!(matches!(entry, Entry::Failed(Error::HttpRequest(text)) if text == "500"));
}

#[test]
fn errors_in_words() {
    assert_eq!(Error::InvalidPath("x".to_string()).message(), "`x`");
    assert_eq!(Error::Io("x".to_string()).message(), "`x`");
    assert_eq!(Error::HttpRequest("x".to_string()).message(), "http request error: `x`");
    assert_eq!(Error::ImportCycle("x".to_string()).message(), "import cycle: `x`");
}

#[test]
fn the_plan_given_what_the_address_is() {
    let config = Config::default();
    let url = inline_assets::cache::plan(&chars("x"), true, &config, &chars("/site")).unwrap();
    assert_eq!((url.location.as_str(), url.remote), ("x", true));
    let file = inline_assets::cache::plan(&chars("x"), false, &config, &chars("/site")).unwrap();
    assert_eq!((file.location.as_str(), file.remote), ("/site/x", false));
    let off = Config { inline_remote: false, ..config };
    assert!(inline_assets::cache::plan(&chars("x"), true, &off, &chars("/site")).is_none());
}

#[test]
fn the_address_given_what_the_parser_made() {
    let root = chars("/site");
    let reference = chars("a.png");
    assert_eq!(pick(Some(Some(chars("http://h/a.png"))), None, &root, &reference), Some(chars("http://h/a.png")));
    assert_eq!(pick(Some(None), Some(chars("x")), &root, &reference), None);
    assert_eq!(pick(None, Some(chars("http://h/")), &root, &reference), Some(chars("http://h/")));
    assert_eq!(pick(None, None, &root, &reference), Some(chars("/site/a.png")));
    assert_eq!(pick(None, None, &root, &chars("/a.png")), Some(chars("/a.png")));
}

#[test]
fn a_data_uri_from_its_parts() {
    let uri: String = make_data_uri(&chars("image/png"), &chars("UE5H")).iter().collect();
    assert_eq!(uri, "data:image/png;base64,UE5H");
}

#[test]
fn the_extension_is_what_follows_the_last_dot() {
    assert_eq!(extension_of(&chars("a.b.png")), chars("png"));
    assert_eq!(extension_of(&chars("png")), chars("png"));
    assert_eq!(extension_of(&chars("a.")), chars(""));
    assert_eq!(extension_of(&chars("dir.x/file")), chars("x/file"));
}

#[test]
fn the_table_answers_with_its_last_line() {
    let mut table = MimeTable::new();
    assert_eq!(table.get("png"), None);
    table.insert("png", "image/png");
    table.insert("png", "image/x-png");
    table.insert("gif", "image/gif");
    assert_eq!(table.get("png"), Some("image/x-png".to_string()));
    assert_eq!(table.get("gif"), Some("image/gif".to_string()));
    assert_eq!(table.get("PNG"), None);
}

#[test]
fn a_font_that_is_left_out_is_noted() {
    let mut cache = Cache::new();
    let off = Config { inline_fonts: false, inline_remote: true, max_inline_size: 5000 };
    assert_eq!(value(get(&mut cache, "font.woff#iefix", &off, "/r")), None);
    assert_eq!(cache.len(), 1);
    assert_eq!(value(get(&mut cache, "font.woff", &off, "/r")), None);
    assert_eq!(cache.len(), 1);
    assert_eq!(value(get(&mut cache, "other.woff2", &off, "/r")), None);
    assert_eq!(cache.len(), 2);
}

#[test]
fn a_url_that_is_left_out_is_noted() {
    let mut cache = Cache::new();
    let off = Config { inline_fonts: true, inline_remote: false, max_inline_size: 5000 };
    assert_eq!(value(get(&mut cache, "http://example.com/a.png?x", &off, "/r")), None);
    assert_eq!(cache.len(), 1);
    let on = Config::default();
    assert_eq!(value(get(&mut cache, "http://example.com/a.png", &on, "/r")), None);
    assert_eq!(cache.len(), 1);
}

#[test]
fn nothing_is_noted_for_a_data_uri_or_a_request() {
    let mut cache = Cache::new();
    let config = Config::default();
    assert_eq!(value(get(&mut cache, "data:,x", &config, "/r")), None);
    assert_eq!(cache.len(), 0);
    let (location, _) = request(get(&mut cache, "a.png", &config, "/r"));
    assert_eq!(location, "/r/a.png");
    assert_eq!(cache.len(), 0);
}

#[test]
fn noting_keeps_what_the_cache_holds() {
    let mut cache = Cache::new();
    let table = table();
    let config = Config::default();
    cache.record("f.woff", content(b"font"), &config, &table);
    cache.note(chars("f.woff"));
    cache.note_all(&vec![chars("g.woff"), chars("f.woff"), chars("g.woff")]);
    assert_eq!(cache.len(), 2);
    assert_eq!(
        value(get(&mut cache, "f.woff", &config, "")),
        Some("data:font/woff;base64,Zm9udA==".to_string())
    );
    assert_eq!(value(get(&mut cache, "g.woff", &config, "")), None);
}

#[test]
fn the_directory_of_a_file() {
    for (location, dir) in [
        ("/r/css/a.css", "/r/css/"),
        ("/a.css", "/"),
        ("a.css", ""),
        ("css/a.css", "css/"),
        ("/r/css/", "/r/css/"),
        ("", ""),
    ] {
        assert_eq!(directory_of(&chars(location)), chars(dir));
    }
    assert_eq!(base_for(&chars("/r/css/a.css")), chars("/r/css/"));
    assert_eq!(base_for(&chars("http://h/x/a.css")), chars("http://h/x/a.css"));
}

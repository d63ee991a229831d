use inline_assets::{inline_css, inline_css_path, Cache, Config, Error, Fetched, MimeTable, Step};

fn table() -> MimeTable {
    let mut table = MimeTable::new();
    table.insert("png", "image/png");
    table.insert("woff", "font/woff");
    table
}

fn fetch(files: &[(&str, &str)], location: &str) -> Fetched {
    match files.iter().find(|(path, _)| *path == location) {
        Some((_, content)) => Fetched::Content {
            bytes: content.as_bytes().to_vec(),
            content_type: None,
        },
        None => Fetched::Failed(Error::Io(format!("no file {}", location))),
    }
}

fn sheet_at(path: &str, files: &[(&str, &str)], config: &Config) -> Result<Option<String>, Error> {
    let table = table();
    let mut cache = Cache::new();
    let mut fetches = 0;
    loop {
        match inline_css_path(&mut cache, path, config, "/site") {
            Step::Done(css) => return Ok(css),
            Step::Failed(error) => return Err(error),
            Step::Fetch(request) => {
                fetches += 1;
                assert!(fetches < 50);
                cache.record(&request.location, fetch(files, &request.location), config, &table);
            }
        }
    }
}

fn sheet(css: &str, files: &[(&str, &str)], config: &Config) -> Result<String, Error> {
    let table = table();
    let mut cache = Cache::new();
    let mut fetches = 0;
    loop {
        match inline_css(&mut cache, css, "/site", config, "/site") {
            Step::Done(css) => return Ok(css),
            Step::Failed(error) => return Err(error),
            Step::Fetch(request) => {
                fetches += 1;
                assert!(fetches < 50);
                cache.record(&request.location, fetch(files, &request.location), config, &table);
            }
        }
    }
}

#[test]
fn an_import_gives_way_to_the_sheet() {
    let files = [("/site/a.css", "@import url(b.css);"), ("/site/b.css", "body{color:red}")];
    let css = sheet_at("a.css", &files, &Config::default()).unwrap();
    assert_eq!(css, Some("body{color:red}".to_string()));
}

#[test]
fn an_imported_sheet_keeps_its_last_semicolon() {
    let files = [("/site/a.css", "@import url(b.css);"), ("/site/b.css", "body{color:red;}")];
    let css = sheet_at("a.css", &files, &Config::default()).unwrap().unwrap();
    assert_eq!(css, "body{color:red;}");
    assert!(!css.contains("@import"));
}

#[test]
fn an_import_with_a_condition_goes_under_media() {
    let files =
        [("/site/a.css", "@import url(b.css) screen;"), ("/site/b.css", "body{color:red}")];
    let css = sheet_at("a.css", &files, &Config::default()).unwrap();
    assert_eq!(css, Some("@media screen{body{color:red}}".to_string()));
}

#[test]
fn an_import_may_be_quoted() {
    let files = [("/site/b.css", "p { margin: 0 }")];
    let config = Config::default();
    assert_eq!(sheet("@import \"b.css\";a{}", &files, &config).unwrap(), "p {margin:0}a{}");
    assert_eq!(sheet("@import 'b.css' print;", &files, &config).unwrap(), "@media print{p {margin:0}}");
    assert_eq!(
        sheet("@import url('b.css') screen and (min-width: 1px);", &files, &config).unwrap(),
        "@media screen and (min-width:1px){p {margin:0}}"
    );
}

#[test]
fn an_import_over_two_lines_is_no_import() {
    let files = [("/site/b.css", "p{}")];
    let css = sheet("@import url(b.css)\n;", &files, &Config::default()).unwrap();
    assert_eq!(css, "@import url('p{}') ;");
}

#[test]
fn comments_go_first() {
    let files = [("/site/b.css", "p{}")];
    let config = Config::default();
    assert_eq!(sheet("a{}/* @import url(b.css); */b{}", &files, &config).unwrap(), "a{}b{}");
    assert_eq!(sheet("/* one *//* two */x/**/", &files, &config).unwrap(), "x");
    assert_eq!(sheet("a /* open", &files, &config).unwrap(), "a /* open");
}

#[test]
fn imports_nest() {
    let files = [
        ("/site/a.css", "@import url(b.css);a{}"),
        ("/site/b.css", "@import url(c.css) print;b{}"),
        ("/site/c.css", "c { }"),
    ];
    let css = sheet_at("a.css", &files, &Config::default()).unwrap();
    assert_eq!(css, Some("@media print{c {}}b{}a{}".to_string()));
}

#[test]
fn a_sheet_may_be_imported_twice() {
    let files = [("/site/b.css", "b{}")];
    let css = sheet("@import url(b.css);@import url(b.css);", &files, &Config::default()).unwrap();
    assert_eq!(css, "b{}b{}");
}

#[test]
fn a_sheet_that_imports_itself_fails() {
    let files = [("/site/a.css", "@import url(/site/a.css);")];
    match sheet_at("/site/a.css", &files, &Config::default()) {
        Err(Error::ImportCycle(address)) => assert_eq!(address, "/site/a.css"),
        other => panic!("{:?}", other),
    }
    let files = [("/site/a.css", "@import 'b.css';"), ("/site/b.css", "@import 'a.css';")];
    match sheet("@import 'a.css';", &files, &Config::default()) {
        Err(Error::ImportCycle(address)) => assert_eq!(address, "/site/a.css"),
        other => panic!("{:?}", other),
    }
}

#[test]
fn a_sheet_that_imports_itself_is_fetched_once() {
    let table = table();
    let config = Config::default();
    let mut cache = Cache::new();
    let location = match inline_css_path(&mut cache, "a.css?v=1", &config, "/site") {
        Step::Fetch(request) => request.location,
        _ => panic!(),
    };
    assert_eq!(location, "/site/a.css");
    let fetched = Fetched::Content { bytes: b"@import 'a.css';".to_vec(), content_type: None };
    cache.record(&location, fetched, &config, &table);
    match inline_css_path(&mut cache, "a.css?v=1", &config, "/site") {
        Step::Failed(Error::ImportCycle(address)) => assert_eq!(address, "/site/a.css"),
        _ => panic!(),
    }
}

#[test]
fn a_failed_fetch_under_import_fails_the_sheet() {
    let files = [("/site/a.css", "@import url(missing.css);")];
    match sheet_at("a.css", &files, &Config::default()) {
        Err(Error::Io(text)) => assert_eq!(text, "no file /site/missing.css"),
        other => panic!("{:?}", other),
    }
}

#[test]
fn a_failed_fetch_under_url_fails_the_sheet() {
    match sheet("a{background:url(missing.png)}", &[], &Config::default()) {
        Err(Error::Io(text)) => assert_eq!(text, "no file /site/missing.png"),
        other => panic!("{:?}", other),
    }
}

#[test]
fn a_failed_fetch_of_the_sheet_itself_leaves_it_out() {
    assert_eq!(sheet_at("missing.css", &[], &Config::default()).unwrap(), None);
}

#[test]
fn a_url_gives_way_to_a_data_uri() {
    let files = [("/site/dot.png", "PNG")];
    let css = sheet("a { background: url( \"dot.png\" ) }", &files, &Config::default()).unwrap();
    assert_eq!(css, "a {background:url('data:image/png;base64,UE5H')}");
}

#[test]
fn a_url_to_text_is_inlined_as_text() {
    let files = [("/site/note.txt", "hello"), ("/site/b.css", "b {  }")];
    let config = Config::default();
    assert_eq!(sheet("a{x:url(note.txt)}", &files, &config).unwrap(), "a{x:url('hello')}");
    assert_eq!(sheet("a{x:url(b.css)}", &files, &config).unwrap(), "a{x:url('b {}')}");
}

#[test]
fn a_data_uri_stays() {
    let css = sheet("a{b:url( 'data:image/png;base64,AAAA' )}", &[], &Config::default()).unwrap();
    assert_eq!(css, "a{b:url( 'data:image/png;base64,AAAA' )}");
}

#[test]
fn a_url_that_is_left_out_keeps_its_reference() {
    let files = [("/site/big.png", "0123456789")];
    let config = Config { inline_fonts: false, inline_remote: false, max_inline_size: 4 };
    assert_eq!(sheet("a{b:url(\"big.png\")}", &files, &config).unwrap(), "a{b:url('big.png')}");
    assert_eq!(sheet("a{b:url(f.woff)}", &files, &config).unwrap(), "a{b:url('f.woff')}");
    assert_eq!(
        sheet("a{b:url(http://example.com/x.png)}", &files, &config).unwrap(),
        "a{b:url('http://example.com/x.png')}"
    );
}

#[test]
fn references_in_a_remote_sheet_are_joined_to_its_url() {
    let files = [
        ("http://example.com/css/a.css", "@import url(b.css);a{b:url(../img/dot.png)}"),
        ("http://example.com/css/b.css", "b{}"),
        ("http://example.com/img/dot.png", "PNG"),
    ];
    let css = sheet_at("http://example.com/css/a.css", &files, &Config::default()).unwrap();
    assert_eq!(css, Some("b{}a{b:url('data:image/png;base64,UE5H')}".to_string()));
}

#[test]
fn an_absolute_url_in_a_local_sheet_is_fetched() {
    let files = [("http://example.com/b.css", "b{}")];
    let css = sheet("@import url(http://example.com/b.css);", &files, &Config::default()).unwrap();
    assert_eq!(css, "b{}");
}

#[test]
fn the_result_is_minified() {
    let css = sheet("a {\n  color: red;\n}\n", &[], &Config::default()).unwrap();
    assert_eq!(css, "a {color:red;} ");
}

#[test]
fn an_absolute_url_is_fetched_as_the_parser_writes_it() {
    let files = [("http://example.com/b.css", "b{}")];
    let css = sheet("@import url(HTTP://EXAMPLE.com:80/x/../b.css);", &files, &Config::default());
    assert_eq!(css.unwrap(), "b{}");
}

#[test]
fn a_reference_that_cannot_be_joined() {
    let files = [("http://example.com/a.css", "a{b:url(http://[)}"), ("http://example.com/b.css", "@import 'http://[';")];
    let css = sheet_at("http://example.com/a.css", &files, &Config::default()).unwrap();
    assert_eq!(css, Some("a{b:url('http://[')}".to_string()));
    match sheet_at("http://example.com/b.css", &files, &Config::default()) {
        Err(Error::InvalidPath(reference)) => assert_eq!(reference, "http://["),
        other => panic!("{:?}", other),
    }
}

#[test]
fn a_failed_request_under_import_fails_the_sheet() {
    let table = table();
    let config = Config::default();
    let mut cache = Cache::new();
    let css = "@import url(http://example.com/gone.css);";
    let request = match inline_css(&mut cache, css, "/site", &config, "/site") {
        Step::Fetch(request) => request,
        _ => panic!(),
    };
    assert_eq!((request.location.as_str(), request.remote), ("http://example.com/gone.css", true));
    let failed = Fetched::Failed(Error::HttpRequest("404 Not Found".to_string()));
    cache.record(&request.location, failed, &config, &table);
    match inline_css(&mut cache, css, "/site", &config, "/site") {
        Step::Failed(error) => {
            assert_eq!(error.message(), "http request error: `404 Not Found`")
        }
        _ => panic!(),
    }
}

#[test]
fn the_reference_of_an_import_is_taken_as_written() {
    let files = [
        ("/site/curl.css", "a{b:c}"),
        ("/site/my url.css", "d{}"),
        ("/site/(x).css", "e{}"),
    ];
    let config = Config::default();
    assert_eq!(sheet("@import url(curl.css);", &files, &config).unwrap(), "a{b:c}");
    assert_eq!(sheet("@import url( \"curl.css\" );", &files, &config).unwrap(), "a{b:c}");
    assert_eq!(sheet("@import 'my url.css';", &files, &config).unwrap(), "d{}");
    assert_eq!(sheet("@import \"(x).css\" print;", &files, &config).unwrap(), "@media print{e{}}");
    assert_eq!(sheet("@import curl.css;", &files, &config).unwrap(), "a{b:c}");
    assert_eq!(sheet("@import curl.css  tv ;", &files, &config).unwrap(), "@media tv{a{b:c}}");
}

#[test]
fn the_condition_of_an_import_is_kept_as_written() {
    let files = [("/site/b.css", "p{}")];
    let config = Config::default();
    assert_eq!(
        sheet("@import url('b.css') screen and (orientation:landscape);", &files, &config)
            .unwrap(),
        "@media screen and (orientation:landscape){p{}}"
    );
    assert_eq!(
        sheet("@import 'b.css' (x) and 'b.css' ;", &files, &config).unwrap(),
        "@media (x) and 'b.css'{p{}}"
    );
    assert_eq!(sheet("@import url(b.css)   ;", &files, &config).unwrap(), "p{}");
}

#[test]
fn references_are_seen_from_the_sheet() {
    let files = [
        ("/site/css/a.css", "@import url(b.css);a{b:url(img/dot.png)}"),
        ("/site/css/b.css", "@import '../c.css';b{}"),
        ("/site/css/../c.css", "c{d:url(dot.png)}"),
        ("/site/css/img/dot.png", "PNG"),
        ("/site/css/../dot.png", "DOT"),
    ];
    let css = sheet_at("css/a.css", &files, &Config::default()).unwrap();
    assert_eq!(
        css,
        Some(
            "c{d:url('data:image/png;base64,RE9U')}b{}a{b:url('data:image/png;base64,UE5H')}"
                .to_string()
        )
    );
}

#[test]
fn a_sheet_handed_over_is_seen_from_where_it_was_found() {
    let table = table();
    let config = Config::default();
    let mut cache = Cache::new();
    let css = "a{b:url(img.png)}";
    match inline_css(&mut cache, css, "/r/css/a.css", &config, "/r") {
        Step::Fetch(request) => assert_eq!(request.location, "/r/css/img.png"),
        _ => panic!(),
    }
    match inline_css(&mut cache, css, "/r", &config, "/r") {
        Step::Fetch(request) => assert_eq!(request.location, "/r/img.png"),
        _ => panic!(),
    }
    match inline_css(&mut cache, css, "http://example.com/x/a.css", &config, "/r") {
        Step::Fetch(request) => assert_eq!(request.location, "http://example.com/x/img.png"),
        _ => panic!(),
    }
    let fetched = Fetched::Content { bytes: b"PNG".to_vec(), content_type: None };
    cache.record("/r/css/img.png", fetched, &config, &table);
    match inline_css(&mut cache, css, "/r/css/a.css", &config, "/r") {
        Step::Done(css) => assert_eq!(css, "a{b:url('data:image/png;base64,UE5H')}"),
        _ => panic!(),
    }
}

#[test]
fn what_is_left_out_before_any_fetch_is_noted() {
    let mut cache = Cache::new();
    let off = Config { inline_fonts: false, inline_remote: false, max_inline_size: 5000 };
    match inline_css_path(&mut cache, "http://example.com/a.css", &off, "/r") {
        Step::Done(None) => {}
        _ => panic!(),
    }
    assert_eq!(cache.len(), 1);
    match inline_css_path(&mut cache, "http://example.com/a.css#x", &off, "/r") {
        Step::Done(None) => {}
        _ => panic!(),
    }
    assert_eq!(cache.len(), 1);
    let css = "@font-face{src:url(f.woff)}a{b:url(http://example.com/i.png)}c{d:url(data:,x)}";
    match inline_css(&mut cache, css, "/r", &off, "/r") {
        Step::Done(css) => assert_eq!(
            css,
            "@font-face{src:url('f.woff')}a{b:url('http://example.com/i.png')}c{d:url(data:,x)}"
        ),
        _ => panic!(),
    }
    assert_eq!(cache.len(), 3);
    let css = "@import url(g.woff);a{b:url(h.png)}";
    match inline_css(&mut cache, css, "/r", &off, "/r") {
        Step::Fetch(request) => assert_eq!(request.location, "/r/h.png"),
        _ => panic!(),
    }
    assert_eq!(cache.len(), 4);
}

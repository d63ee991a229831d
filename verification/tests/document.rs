use inline_assets::{
    collapse_spaces, inline_base64, inline_html_string, inline_script_link, Attribute, Cache,
    Config, Edit, Element, Error, Fetched, MimeTable, Step,
};

fn table() -> MimeTable {
    let mut table = MimeTable::new();
    table.insert("png", "image/png");
    table.insert("woff", "font/woff");
    table.insert("mp4", "video/mp4");
    table
}

fn element(tag: &str, attributes: &[(&str, &str)], text: &str) -> Element {
    Element {
        tag: tag.to_string(),
        attributes: attributes
            .iter()
            .map(|(name, value)| Attribute { name: name.to_string(), value: value.to_string() })
            .collect(),
        text: text.to_string(),
    }
}

fn show(edit: &Edit) -> String {
    match edit {
        Edit::SetAttribute { element, name, value } => format!("{} {}={}", element, name, value),
        Edit::Replace { element, tag, text } => format!("{} <{}>{}", element, tag, text),
    }
}

fn run(
    document: &Vec<Element>,
    files: &[(&str, &str)],
    config: &Config,
) -> Result<(Vec<String>, Vec<String>), Error> {
    let table = table();
    let mut cache = Cache::new();
    let mut asked = Vec::new();
    loop {
        match inline_html_string(document, "/site", config, &mut cache) {
            Step::Done(edits) => return Ok((edits.iter().map(show).collect(), asked)),
            Step::Failed(error) => return Err(error),
            Step::Fetch(request) => {
                assert!(!asked.contains(&request.location));
                asked.push(request.location.clone());
                let fetched = match files.iter().find(|(path, _)| *path == request.location) {
                    Some((_, content)) => Fetched::Content {
                        bytes: content.as_bytes().to_vec(),
                        content_type: None,
                    },
                    None => Fetched::Failed(Error::Io("missing".to_string())),
                };
                cache.record(&request.location, fetched, config, &table);
            }
        }
    }
}

#[test]
fn images_videos_and_icons_get_data_uris() {
    let document = vec![
        element("img", &[("alt", "x"), ("src", "a.png")], ""),
        element("video", &[("src", "v.mp4")], ""),
        element("link", &[("rel", "icon"), ("href", "a.png")], ""),
        element("link", &[("rel", "shortcut icon"), ("href", "a.png")], ""),
        element("link", &[("rel", "apple-touch-icon"), ("href", "a.png")], ""),
        element("link", &[("rel", "apple-touch-startup-image"), ("href", "a.png")], ""),
        element("link", &[("rel", "preload"), ("href", "a.png")], ""),
        element("img", &[("alt", "no source")], ""),
        element("audio", &[("src", "a.png")], ""),
    ];
    let files = [("/site/a.png", "PNG"), ("/site/v.mp4", "MP4")];
    let (edits, asked) = run(&document, &files, &Config::default()).unwrap();
    assert_eq!(
        edits,
        vec![
            "0 src=data:image/png;base64,UE5H",
            "1 src=data:video/mp4;base64,TVA0",
            "2 href=data:image/png;base64,UE5H",
            "3 href=data:image/png;base64,UE5H",
            "4 href=data:image/png;base64,UE5H",
            "5 href=data:image/png;base64,UE5H",
        ]
    );
    assert_eq!(asked, vec!["/site/a.png", "/site/v.mp4"]);
}

#[test]
fn scripts_styles_and_sheets_are_replaced() {
    let document = vec![
        element("script", &[("src", "app.js")], ""),
        element("script", &[], "let inline = 1;"),
        element("style", &[], "a {  color: red  }"),
        element("link", &[("rel", "stylesheet"), ("href", "main.css")], ""),
        element("link", &[("rel", "stylesheet")], ""),
        element("link", &[("rel", "author"), ("href", "main.css")], ""),
        element("p", &[("style", "background: url(a.png)")], "text"),
        element("svg", &[("style", "background: url(a.png)")], ""),
        element("p", &[("class", "x")], ""),
    ];
    let files = [
        ("/site/app.js", "let  a = 1;\n"),
        ("/site/main.css", "b { }"),
        ("/site/a.png", "PNG"),
    ];
    let (edits, asked) = run(&document, &files, &Config::default()).unwrap();
    assert_eq!(
        edits,
        vec![
            "0 <script>let  a = 1;\n",
            "2 <style>a {color:red}",
            "3 <style>b {}",
            "6 style=background:url('data:image/png;base64,UE5H')",
        ]
    );
    assert_eq!(asked, vec!["/site/app.js", "/site/main.css", "/site/a.png"]);
}

#[test]
fn the_first_round_comes_first() {
    let document = vec![
        element("script", &[("src", "app.js")], ""),
        element("img", &[("src", "a.png"), ("style", "x: y")], ""),
    ];
    let files = [("/site/app.js", "js"), ("/site/a.png", "PNG")];
    let (edits, asked) = run(&document, &files, &Config::default()).unwrap();
    assert_eq!(edits, vec!["1 src=data:image/png;base64,UE5H", "0 <script>js", "1 style=x:y"]);
    assert_eq!(asked, vec!["/site/a.png", "/site/app.js"]);
}

#[test]
fn what_is_too_large_keeps_its_reference() {
    let document = vec![
        element("img", &[("src", "big.png")], ""),
        element("img", &[("src", "small.png")], ""),
        element("script", &[("src", "big.js")], ""),
        element("link", &[("rel", "stylesheet"), ("href", "big.css")], ""),
    ];
    let files = [
        ("/site/big.png", "0123456789"),
        ("/site/small.png", "0123"),
        ("/site/big.js", "0123456789"),
        ("/site/big.css", "a{color:red}"),
    ];
    let config = Config { max_inline_size: 4, ..Config::default() };
    let (edits, _) = run(&document, &files, &config).unwrap();
    assert_eq!(edits, vec!["1 src=data:image/png;base64,MDEyMw=="]);
}

#[test]
fn remote_references_stay_where_remote_is_off() {
    let document = vec![
        element("img", &[("src", "http://example.com/a.png")], ""),
        element("link", &[("rel", "icon"), ("href", "https://example.com/a.png")], ""),
        element("script", &[("src", "http://example.com/app.js")], ""),
        element("link", &[("rel", "stylesheet"), ("href", "http://example.com/a.css")], ""),
        element("img", &[("src", "a.png")], ""),
    ];
    let files = [("/site/a.png", "PNG")];
    let config = Config { inline_remote: false, ..Config::default() };
    let (edits, asked) = run(&document, &files, &config).unwrap();
    assert_eq!(edits, vec!["4 src=data:image/png;base64,UE5H"]);
    assert_eq!(asked, vec!["/site/a.png"]);
}

#[test]
fn a_font_icon_stays_where_fonts_are_off() {
    let document = vec![element("link", &[("rel", "icon"), ("href", "font.woff")], "")];
    let files = [("/site/font.woff", "font")];
    let config = Config { inline_fonts: false, ..Config::default() };
    let (edits, asked) = run(&document, &files, &config).unwrap();
    assert!(edits.is_empty());
    assert!(asked.is_empty());
    let (edits, _) = run(&document, &files, &Config::default()).unwrap();
    assert_eq!(edits, vec!["0 href=data:font/woff;base64,Zm9udA=="]);
}

#[test]
fn a_missing_file_leaves_the_element_alone() {
    let document = vec![
        element("img", &[("src", "missing.png")], ""),
        element("script", &[("src", "missing.js")], ""),
        element("link", &[("rel", "stylesheet"), ("href", "missing.css")], ""),
        element("img", &[("src", "a.png")], ""),
    ];
    let files = [("/site/a.png", "PNG")];
    let (edits, asked) = run(&document, &files, &Config::default()).unwrap();
    assert_eq!(edits, vec!["3 src=data:image/png;base64,UE5H"]);
    assert_eq!(asked, vec!["/site/missing.png", "/site/a.png", "/site/missing.js", "/site/missing.css"]);
}

#[test]
fn a_missing_import_fails_the_pass() {
    let document = vec![element("style", &[], "@import url(missing.css);")];
    match run(&document, &[], &Config::default()) {
        Err(Error::Io(text)) => assert_eq!(text, "missing"),
        other => panic!("{:?}", other),
    }
}

#[test]
fn each_round_alone() {
    let document = vec![
        element("img", &[("src", "a.txt")], ""),
        element("script", &[("src", "a.txt")], ""),
    ];
    let table = table();
    let config = Config::default();
    let mut cache = Cache::new();
    match inline_base64(&mut cache, &config, "/site", &document) {
        Step::Fetch(request) => assert_eq!(request.location, "/site/a.txt"),
        _ => panic!(),
    }
    let fetched = Fetched::Content { bytes: b"hello".to_vec(), content_type: None };
    cache.record("/site/a.txt", fetched, &config, &table);
    match inline_base64(&mut cache, &config, "/site", &document) {
        Step::Done(edits) => {
            assert_eq!(edits.iter().map(show).collect::<Vec<_>>(), vec!["0 src=hello"])
        }
        _ => panic!(),
    }
    match inline_script_link(&mut cache, &config, "/site", &document) {
        Step::Done(edits) => {
            assert_eq!(edits.iter().map(show).collect::<Vec<_>>(), vec!["1 <script>hello"])
        }
        _ => panic!(),
    }
}

#[test]
fn an_empty_document_has_no_edits() {
    let (edits, asked) = run(&Vec::new(), &[], &Config::default()).unwrap();
    assert!(edits.is_empty());
    assert!(asked.is_empty());
}

#[test]
fn only_a_style_has_its_text_read() {
    assert!(inline_assets::needs_text("style"));
    assert!(!inline_assets::needs_text("script"));
    assert!(!inline_assets::needs_text("p"));
    assert!(!inline_assets::needs_text(""));
    let with_text = vec![element("p", &[("style", "a: b")], "text"), element("script", &[], "x")];
    let without = vec![element("p", &[("style", "a: b")], ""), element("script", &[], "")];
    let config = Config::default();
    assert_eq!(run(&with_text, &[], &config).unwrap(), run(&without, &[], &config).unwrap());
}

#[test]
fn runs_of_spaces_collapse() {
    assert_eq!(collapse_spaces("a  b   c d"), "a b c d");
    assert_eq!(collapse_spaces("  "), " ");
    assert_eq!(collapse_spaces(" \n  \t "), " \n \t ");
    assert_eq!(collapse_spaces(""), "");
}

#[test]
fn a_pass_notes_what_it_leaves_out() {
    let document = vec![
        element("link", &[("rel", "icon"), ("href", "font.woff")], ""),
        element("img", &[("src", "http://example.com/a.png")], ""),
        element("img", &[("src", "data:,x")], ""),
        element("style", &[], "a{b:url(c.woff2)}"),
        element("script", &[("src", "https://example.com/app.js")], ""),
    ];
    let off = Config { inline_fonts: false, inline_remote: false, max_inline_size: 5000 };
    let mut cache = Cache::new();
    match inline_html_string(&document, "/site", &off, &mut cache) {
        Step::Done(edits) => {
            assert_eq!(edits.iter().map(show).collect::<Vec<_>>(), vec!["3 <style>a{b:url('c.woff2')}"])
        }
        _ => panic!(),
    }
    assert_eq!(cache.len(), 4);
    match inline_html_string(&document, "/site", &off, &mut cache) {
        Step::Done(edits) => assert_eq!(edits.len(), 1),
        _ => panic!(),
    }
    assert_eq!(cache.len(), 4);
}

#[test]
fn every_edit_names_an_element_of_the_document() {
    let document = vec![
        element("p", &[], ""),
        element("img", &[("src", "a.png"), ("style", "x: y")], ""),
        element("script", &[("src", "app.js")], ""),
        element("img", &[("src", "missing.png")], ""),
    ];
    let files = [("/site/a.png", "PNG"), ("/site/app.js", "js")];
    let (edits, _) = run(&document, &files, &Config::default()).unwrap();
    assert_eq!(edits, vec!["1 src=data:image/png;base64,UE5H", "1 style=x:y", "2 <script>js"]);
}

use inline_assets::document::collapse_spaces;
use inline_assets::minify::{clear, close, squeeze, Gap};
use inline_assets::scan::{find_import, find_url, read_import, strip_comments};
use regex::Regex;

fn chars(text: &str) -> Vec<char> {
    text.chars().collect()
}

fn text(chars: &[char]) -> String {
    chars.iter().collect()
}

fn texts(alphabet: &[&str], count: usize, longest: usize, seed: u64) -> Vec<String> {
    let mut state = seed;
    let mut next = move || {
        state = state.wrapping_mul(6364136223846793005).wrapping_add(1442695040888963407);
        (state >> 33) as usize
    };
    let mut all = Vec::new();
    for _ in 0..count {
        let pieces = next() % (longest + 1);
        let mut one = String::new();
        for _ in 0..pieces {
            one.push_str(alphabet[next() % alphabet.len()]);
        }
        all.push(one);
    }
    all
}

fn replaced(pattern: &str, with: &str, input: &str) -> String {
    Regex::new(pattern).unwrap().replace_all(input, with).to_string()
}

#[test]
fn comments_as_the_pattern_finds_them() {
    let pattern = r#"/\*[^*]*\*+(?:[^/*][^*]*\*+)*/"#;
    let alphabet = ["/", "*", "a", " ", "\n", "/*", "*/"];
    for input in texts(&alphabet, 4000, 12, 1) {
        assert_eq!(text(&strip_comments(&chars(&input))), replaced(pattern, "", &input), "{:?}", input);
    }
    for input in ["/**/", "/*/", "/***/", "/*/*x*/", "a/*b*/c/*d", "/* a */ b /* c */", "*//*"] {
        assert_eq!(text(&strip_comments(&chars(input))), replaced(pattern, "", input), "{:?}", input);
    }
}

#[test]
fn white_space_as_the_pattern_finds_it() {
    let alphabet =
        ["a", " ", "\n", "\t", "\r", "\u{b}", "\u{c}", "\u{85}", "\u{a0}", "\u{1680}", "\u{2003}",
         "\u{2028}", "\u{2029}", "\u{202f}", "\u{205f}", "\u{3000}", "\u{200b}", "\u{feff}", "é"];
    for input in texts(&alphabet, 3000, 10, 2) {
        assert_eq!(text(&squeeze(&chars(&input))), replaced(r"(\s+)", " ", &input), "{:?}", input);
    }
}

#[test]
fn the_passes_as_patterns() {
    let alphabet = ["a", " ", "\n", "\t", ":", ";", "{", "}", "/", "*", "\u{a0}"];
    for input in texts(&alphabet, 4000, 10, 3) {
        let given = chars(&input);
        assert_eq!(text(&close(&Gap::AfterColon, &given)), replaced(r":(\s+)", ":", &input), "{:?}", input);
        assert_eq!(text(&clear(&given)), replaced(r"/\*.*?\*", "", &input), "{:?}", input);
        assert_eq!(text(&close(&Gap::BeforeClose, &given)), replaced(r"( \})", "}", &input), "{:?}", input);
        assert_eq!(text(&close(&Gap::AfterOpen, &given)), replaced(r"(\{ )", "{", &input), "{:?}", input);
        assert_eq!(text(&close(&Gap::AfterSemicolon, &given)), replaced(r"(; )", ";", &input), "{:?}", input);
        assert_eq!(text(&close(&Gap::LineFeed, &given)), replaced(r"(\n+)", "", &input), "{:?}", input);
        assert_eq!(collapse_spaces(&input), replaced(r"( {2,})", " ", &input), "{:?}", input);
    }
}

fn imports_found(input: &str) -> Vec<(String, String)> {
    let given = chars(input);
    let mut found = Vec::new();
    let mut i = 0;
    while i < given.len() {
        match find_import(&given, i) {
            Some(semicolon) => {
                found.push((text(&given[i..semicolon + 1]), text(&given[i + 7..semicolon])));
                i = semicolon + 1;
            }
            None => i += 1,
        }
    }
    found
}

#[test]
fn imports_as_the_pattern_finds_them() {
    let pattern = Regex::new(r#"(@import)(\s*.*?);"#).unwrap();
    let alphabet = ["@import", "@", " ", "\n", "\t", ";", "a", "url(b)", "\u{a0}", "'c'"];
    let mut inputs = texts(&alphabet, 4000, 8, 4);
    inputs.push("@import url(b.css) screen;".to_string());
    inputs.push("@import\n\n 'a' ;@import;@import@import;".to_string());
    for input in inputs {
        let expected: Vec<(String, String)> = pattern
            .captures_iter(&input)
            .map(|caps| (caps[0].to_string(), caps[2].to_string()))
            .collect();
        assert_eq!(imports_found(&input), expected, "{:?}", input);
    }
}

#[test]
fn the_parts_of_an_import() {
    let cases: [(&str, &str, Option<&str>); 14] = [
        (" url(b.css) screen", "b.css", Some("screen")),
        (" url(curl.css)", "curl.css", None),
        ("url( 'b.css' )", "b.css", None),
        ("url(\"b.css\") screen and (min-width: 1px) ", "b.css", Some("screen and (min-width: 1px)")),
        ("url('b.css\")", "'b.css\"", None),
        ("url(b.css", "b.css", None),
        (" 'a b.css' print", "a b.css", Some("print")),
        ("\"b.css\"", "b.css", None),
        ("'b.css", "b.css", None),
        ("b.css tv", "b.css", Some("tv")),
        ("b.css\ttv  and x", "b.css", Some("tv  and x")),
        ("", "", None),
        ("   ", "", None),
        ("url (b.css)", "url", Some("(b.css)")),
    ];
    for (body, reference, condition) in cases {
        let (read, rest) = read_import(&chars(body));
        assert_eq!(text(&read), reference, "{:?}", body);
        assert_eq!(rest.map(|rest| text(&rest)), condition.map(|c| c.to_string()), "{:?}", body);
    }
}

fn urls_found(input: &str) -> Vec<(String, String)> {
    let given = chars(input);
    let mut found = Vec::new();
    let mut i = 0;
    while i < given.len() {
        match find_url(&given, i) {
            Some((end, from, to)) => {
                found.push((text(&given[i..end]), text(&given[from..to])));
                i = end;
            }
            None => i += 1,
        }
    }
    found
}

#[test]
fn urls_as_the_pattern_finds_them() {
    let pattern = Regex::new(r#"url\s*?\(\s*?["']?([^"')]+?)["']?\s*?\)"#).unwrap();
    let alphabet = ["url", "(", ")", "'", "\"", " ", "a", "\n", "url(", "\t", "b"];
    let mut inputs = texts(&alphabet, 20000, 9, 6);
    for input in [
        "url(a.png)", "url( a.png )", "url('a.png')", "url( \"a.png\" )", "url()", "url( )",
        "url(  )", "url(\")", "url(\" )", "url(\"\")", "url(a\")", "url(\"a)", "url (a)",
        "url\n(\ta\n)", "url(a'b)", "url(' a ')", "url( ' a ' )", "url('a'')", "url(''a')",
        "urlurl(a)url(b)", "url(a b)", "url(a)b)", "url((a)",
    ] {
        inputs.push(input.to_string());
    }
    for input in inputs {
        let expected: Vec<(String, String)> = pattern
            .captures_iter(&input)
            .map(|caps| (caps[0].to_string(), caps[1].to_string()))
            .collect();
        assert_eq!(urls_found(&input), expected, "{:?}", input);
    }
}

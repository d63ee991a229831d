use inline_assets::address::{join_path, normalize};
use inline_assets::text::{chars_of, is_space_char, text_of, trim};
use std::path::Path;

fn chars(text: &str) -> Vec<char> {
    text.chars().collect()
}

fn text(chars: &[char]) -> String {
    chars.iter().collect()
}

fn samples(alphabet: &[&str], count: usize, longest: usize, seed: u64) -> Vec<String> {
    let mut state = seed;
    let mut next = move || {
        state = state.wrapping_mul(6364136223846793005).wrapping_add(1442695040888963407);
        (state >> 33) as usize
    };
    let mut all = Vec::new();
    for _ in 0..count {
        let pieces = next() % (longest + 1);
        let mut one = String::new();
        for _ in 0..pieces {
            one.push_str(alphabet[next() % alphabet.len()]);
        }
        all.push(one);
    }
    all
}

#[test]
fn white_space_is_what_unicode_says() {
    for code in 0..=0x10ffffu32 {
        if let Some(c) = char::from_u32(code) {
            assert_eq!(is_space_char(c), c.is_whitespace(), "U+{:04X}", code);
        }
    }
}

#[test]
fn text_goes_to_characters_and_back() {
    for input in ["", "a", "héllo wörld", "\u{10ffff}\u{0}", "日本語"] {
        assert_eq!(chars_of(input), chars(input));
        assert_eq!(text_of(&chars(input)), input);
    }
}

#[test]
fn trimming_takes_white_space_off_both_ends() {
    let alphabet = ["a", " ", "\n", "\t", "\u{a0}", "\u{3000}", "b", "\u{200b}"];
    for input in samples(&alphabet, 3000, 8, 7) {
        assert_eq!(text(&trim(&chars(&input))), input.trim(), "{:?}", input);
    }
}

#[test]
fn a_path_is_joined_the_way_paths_are() {
    let alphabet = ["/", "a", "b", ".", "..", " ", "c.png"];
    let roots = samples(&alphabet, 60, 5, 9);
    let references = samples(&alphabet, 60, 5, 10);
    for root in &roots {
        for reference in &references {
            let expected = Path::new(root).join(reference);
            assert_eq!(
                text(&join_path(&chars(root), &chars(reference))),
                expected.to_str().unwrap(),
                "{:?} and {:?}",
                root,
                reference
            );
        }
    }
}

#[test]
fn an_address_ends_before_query_and_fragment() {
    for (path, address) in [
        ("a.css", "a.css"),
        ("a.css?v=1", "a.css"),
        ("a.css#x", "a.css"),
        ("a.css?#iefix", "a.css"),
        ("a.css#x?y", "a.css"),
        ("?x", ""),
        ("", ""),
        ("http://example.com/a?b=c#d", "http://example.com/a"),
    ] {
        assert_eq!(text(&normalize(&chars(path))), address);
    }
}

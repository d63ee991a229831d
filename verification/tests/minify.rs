use inline_assets::compress_css;

#[test]
fn whitespace_runs_become_one_space() {
    assert_eq!(compress_css("a  \n\t b"), "a b");
    assert_eq!(compress_css("a\u{a0}\u{2003}b"), "a b");
    assert_eq!(compress_css(""), "");
    assert_eq!(compress_css(" \n "), " ");
}

#[test]
fn space_after_colon_goes() {
    assert_eq!(compress_css("color:   red"), "color:red");
    assert_eq!(compress_css("a : b"), "a :b");
    assert_eq!(compress_css(": : x"), "::x");
}

#[test]
fn comment_rest_goes() {
    assert_eq!(compress_css("a/*x*b"), "ab");
    assert_eq!(compress_css("a/*x*/b"), "a/b");
    assert_eq!(compress_css("a/*xb"), "a/*xb");
    assert_eq!(compress_css("/**"), "");
}

#[test]
fn spaces_at_braces_and_semicolons_go() {
    assert_eq!(compress_css("a { b: c; }"), "a {b:c;}");
    assert_eq!(compress_css("a{ }"), "a{}");
    assert_eq!(compress_css("x; y"), "x;y");
    assert_eq!(compress_css("} a"), "} a");
    assert_eq!(compress_css("a {"), "a {");
}

#[test]
fn a_rule_is_minified() {
    assert_eq!(
        compress_css("body {\n  color: red;\n  margin: 0 auto;\n}\n"),
        "body {color:red;margin:0 auto;} "
    );
}

#[test]
fn minified_text_stays_as_it_is() {
    let inputs = [
        "body {\n  color: red;\n}\n",
        "a : b ; c { d } e",
        "@media screen { a { b : c } }",
        "  x  ",
        "a\n\n\nb",
        ":;{}",
        "a{ ;} : {",
    ];
    for input in inputs {
        let once = compress_css(input);
        let twice = compress_css(&once);
        assert_eq!(twice, once, "for {:?}", input);
    }
}

#[test]
fn a_comment_rest_can_leave_work_for_a_second_run() {
    let once = compress_css("a:/*x* b");
    assert_eq!(once, "a: b");
    assert_eq!(compress_css(&once), "a:b");
}

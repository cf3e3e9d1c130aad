use static_blog::assets::{
    classify_extension, combine_styles, css_paths, inline_css_in_html, inline_styles,
    mend_splits, minify_css_source, script_outcome, strip_global_wrappers, AssetError,
    AssetKind,
};

#[test]
fn files_are_told_apart_by_extension() {
    assert_eq!(classify_extension("css"), AssetKind::StyleSheet);
    assert_eq!(classify_extension("js"), AssetKind::Script);
    assert_eq!(classify_extension("html"), AssetKind::Page);
    for image in ["png", "jpg", "jpeg", "webp"] {
        assert_eq!(classify_extension(image), AssetKind::Image);
    }
    assert_eq!(classify_extension("CSS"), AssetKind::Other);
    assert_eq!(classify_extension("svg"), AssetKind::Other);
    assert_eq!(classify_extension(""), AssetKind::Other);
}

#[test]
fn global_wrappers_are_taken_off() {
    assert_eq!(
        strip_global_wrappers(":global(.a) .b :global() :global(.c, .d){} :global(.e"),
        ".a .b :global() .c, .d{} :global(.e"
    );
    assert_eq!(strip_global_wrappers(":global(:global(x))"), ":global(x)");
}

#[test]
fn styles_are_combined_in_order() {
    assert_eq!(combine_styles("g{}", "u{}", ":global(.l){}"), "g{}.l{}u{}");
}

#[test]
fn placeholders_are_found_in_order() {
    let html = "<!-- INLINE_CSS:/a.css --><p><!-- INLINE_CSS:b.css --><!-- INLINE_CSS:/.css --><!-- INLINE_CSS:/s/b.css --><!-- INLINE_CSS:/c.css-->";
    assert_eq!(css_paths(html), vec!["/a.css", "/s/b.css"]);
    assert_eq!(css_paths("none"), Vec::<String>::new());
}

#[test]
fn sheets_take_the_place_of_placeholders() {
    let html = "x<!-- INLINE_CSS:/a.css -->y<!-- INLINE_CSS:/b.css -->z<!-- INLINE_CSS:/c.css -->";
    assert_eq!(
        inline_css_in_html(html, &[Some("a{}".to_string()), None]),
        "x<style>a{}</style>y<!-- INLINE_CSS:/b.css -->z<!-- INLINE_CSS:/c.css -->"
    );
    assert_eq!(inline_css_in_html("plain", &[Some("a{}".to_string())]), "plain");
}

#[test]
fn split_arguments_are_mended() {
    assert_eq!(
        mend_splits("a.split(`\\\\n`);b.split('\\\\n');c.split(\"\\\\n\");d.split('\\n')"),
        "a.split(`\\n`);b.split('\\n');c.split(\"\\n\");d.split('\\n')"
    );
}

fn minified(js: &str) -> Result<Vec<u8>, String> {
    let session = minify_js::Session::new();
    let mut output = Vec::new();
    match minify_js::minify(&session, minify_js::TopLevelMode::Global, js.as_bytes(), &mut output) {
        Ok(()) => Ok(output),
        Err(e) => Err(format!("{:?}", e)),
    }
}

#[test]
fn script_is_made_small() {
    let js = "const main = () => { let my_first_variable = 1; };";
    assert_eq!(script_outcome(js, minified(js)).unwrap(), "const main=()=>{let a=1}");
}

#[test]
fn script_outcome_mends_splits_and_keeps_the_script_for_bad_bytes() {
    assert_eq!(
        script_outcome("x", Ok(b"a.split('\\\\n')".to_vec())).unwrap(),
        "a.split('\\n')"
    );
    assert_eq!(script_outcome("b.split(\"\\\\n\")", Ok(vec![0xff])).unwrap(), "b.split(\"\\n\")");
    match script_outcome("x", Err("why".to_string())) {
        Err(AssetError::Script(report)) => assert_eq!(report, "why"),
        other => panic!("{:?}", other),
    }
}

#[test]
fn broken_script_is_reported() {
    let js = "let = = ;";
    match script_outcome(js, minified(js)) {
        Err(AssetError::Script(report)) => {
            assert!(!report.is_empty());
            assert!(AssetError::Script(report).message().starts_with("JS minify error: "));
        }
        other => panic!("{:?}", other),
    }
}

#[test]
fn style_sheet_is_made_small() {
    assert_eq!(minify_css_source("a {\n  color: red;\n}\n").unwrap(), "a{color:red}");
    assert_eq!(
        inline_styles("body { margin: 0px }", ".u { top: 0 }", ":global(.l) { left: 0 }").unwrap(),
        "body{margin:0}.l{left:0}.u{top:0}"
    );
}

#[test]
fn broken_style_sheet_is_reported() {
    match minify_css_source("a { color: red; } }") {
        Err(AssetError::StyleSheet(report)) => {
            assert!(AssetError::StyleSheet(report).message().starts_with("CSS error: "));
        }
        other => panic!("{:?}", other),
    }
}

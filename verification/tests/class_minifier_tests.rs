use static_blog::class_minifier::{
    build_class_map, extract_classes_from_css, generate_short_name, minify_css_classes,
    replace_classes_in_css, replace_classes_in_html, replace_classes_in_inline_scripts,
    replace_classes_in_inline_styles, replace_classes_in_js, replace_space_separated_classes,
    ClassMap,
};

#[test]
fn test_generate_short_name() {
    assert_eq!(generate_short_name(0), "a");
    assert_eq!(generate_short_name(25), "z");
    assert_eq!(generate_short_name(26), "A");
    assert_eq!(generate_short_name(51), "Z");
    assert_eq!(generate_short_name(52), "aa");
    assert_eq!(generate_short_name(53), "ab");
}

#[test]
fn test_extract_classes() {
    let css = ".container { } .foo-bar:hover { } .baz.qux { }";
    let classes = extract_classes_from_css(css);
    assert!(classes.contains("container"));
    assert!(classes.contains("foo-bar"));
    assert!(classes.contains("baz"));
    assert!(classes.contains("qux"));
}

#[test]
fn test_replace_css() {
    let mut map = ClassMap::new();
    map.insert("container", "a");
    map.insert("flex", "b");

    let css = ".container { display: flex; } .container.flex { }";
    let result = replace_classes_in_css(css, &map);
    assert_eq!(result, ".a { display: flex; } .a.b { }");
}

#[test]
fn test_replace_html_classes() {
    let mut map = ClassMap::new();
    map.insert("container", "a");
    map.insert("flex", "b");

    let html = r#"<div class="container flex">test</div>"#;
    let result = replace_classes_in_html(html, &map);
    assert_eq!(result, r#"<div class="a b">test</div>"#);
}

#[test]
fn test_replace_js_classes() {
    let mut map = ClassMap::new();
    map.insert("isHidden", "a");

    let js = r#"el.classList.add('isHidden'); el.classList.toggle("isHidden");"#;
    let result = replace_classes_in_js(js, &map);
    assert_eq!(result, r#"el.classList.add('a'); el.classList.toggle("a");"#);
}

#[test]
fn test_replace_js_selectors() {
    let mut map = ClassMap::new();
    map.insert("container", "a");
    map.insert("tag", "b");

    let js = r#"document.querySelectorAll('.container .tag');"#;
    let result = replace_classes_in_js(js, &map);
    assert_eq!(result, r#"document.querySelectorAll('.a .b');"#);
}

#[test]
fn test_does_not_replace_dom_classname() {
    let mut map = ClassMap::new();
    map.insert("className", "a");

    let js = r#"element.className = 'foo';"#;
    let result = replace_classes_in_js(js, &map);
    assert_eq!(result, r#"element.className = 'foo';"#);
}

#[test]
fn test_replace_ternary_class_names() {
    let mut map = ClassMap::new();
    map.insert("copyButtonExpanded", "a");
    map.insert("copyButton", "b");
    map.insert("copyButtonNormal", "c");

    let js = r#"btn.className = isExpandable ? (isExpanded ? 'copyButtonExpanded' : 'copyButton') : 'copyButtonNormal';"#;
    let result = replace_classes_in_js(js, &map);
    assert_eq!(
        result,
        r#"btn.className = isExpandable ? (isExpanded ? 'a' : 'b') : 'c';"#
    );
}

#[test]
fn test_replace_space_separated_classes() {
    let mut map = ClassMap::new();
    map.insert("codeBlock", "a");
    map.insert("collapsed", "b");

    let js = r#"el.className = 'codeBlock collapsed';"#;
    let result = replace_classes_in_js(js, &map);
    assert_eq!(result, r#"el.className = 'a b';"#);
}

#[test]
fn short_names_continue_past_two_letters() {
    assert_eq!(generate_short_name(52 + 51), "aZ");
    assert_eq!(generate_short_name(52 + 52), "ba");
    assert_eq!(generate_short_name(52 + 52 * 52 - 1), "ZZ");
    assert_eq!(generate_short_name(52 + 52 * 52), "aaa");
}

#[test]
fn short_names_are_all_different() {
    let mut seen = std::collections::HashSet::new();
    for index in 0..6000 {
        assert!(seen.insert(generate_short_name(index)));
    }
}

#[test]
fn classes_are_collected_once_and_in_order() {
    let classes = extract_classes_from_css(".b{} .a{} .b:hover{} .5rem ._x-1{} a.c9.d");
    assert_eq!(classes.len(), 5);
    assert!(!classes.contains("5rem"));
    assert!(classes.contains("_x-1"));
    assert_eq!(classes.names(), vec!["_x-1", "a", "b", "c9", "d"]);
}

#[test]
fn class_map_numbers_classes_in_dictionary_order() {
    let classes = extract_classes_from_css(".zeta{} .alpha{} .Mid{}");
    let map = build_class_map(&classes);
    assert_eq!(replace_classes_in_css(".alpha .Mid .zeta .other", &map), ".b .a .c .other");
}

#[test]
fn class_list_without_alias_gives_nothing() {
    let mut map = ClassMap::new();
    map.insert("x", "a");
    assert_eq!(replace_space_separated_classes("p q", &map), None);
    assert_eq!(replace_space_separated_classes("  p \t x\n", &map), Some("p a".to_string()));
    assert_eq!(replace_space_separated_classes("", &map), None);
}

#[test]
fn class_set_grows_by_insert_and_extend() {
    let mut set = extract_classes_from_css(".m{}");
    set.insert("z");
    set.insert("a");
    set.insert("m");
    let mut other = extract_classes_from_css("");
    assert!(other.is_empty());
    other.insert("k");
    other.insert("a");
    set.extend(&other);
    assert_eq!(set.names(), vec!["a", "k", "m", "z"]);
    assert_eq!(set.len(), 4);
    assert!(!set.contains("b"));
}

#[test]
fn class_map_insert_replaces_alias() {
    let mut map = ClassMap::new();
    map.insert("x", "a");
    map.insert("x", "b");
    assert_eq!(replace_classes_in_css(".x", &map), ".b");
}

#[test]
fn markup_attribute_is_normalised_when_renamed() {
    let mut map = ClassMap::new();
    map.insert("x", "a");
    assert_eq!(replace_classes_in_html("<p class = 'x y'>", &map), "<p class=\"a y\">");
    assert_eq!(replace_classes_in_html("<p class = 'y'>", &map), "<p class = 'y'>");
    assert_eq!(replace_classes_in_html("<p class='x>", &map), "<p class='x>");
}

#[test]
fn class_list_call_loses_white_space_when_renamed() {
    let mut map = ClassMap::new();
    map.insert("x", "a");
    assert_eq!(
        replace_classes_in_js("e.classList.remove ( 'x'  );", &map),
        "e.classList.remove('a');"
    );
    assert_eq!(
        replace_classes_in_js("e.classList.contains(\"y\") ? \"x\" : 'x'", &map),
        "e.classList.contains(\"y\") ? \"a\" : 'a'"
    );
    assert_eq!(replace_classes_in_js("e.classList.replace('x')", &map), "e.classList.replace('x')");
}

#[test]
fn script_attribute_and_backtick_selector_are_renamed() {
    let mut map = ClassMap::new();
    map.insert("x", "a");
    assert_eq!(
        replace_classes_in_js("h = '<b class=\"x\">'; q(`.x`); r = \"<i class='x y'>\";", &map),
        "h = '<b class=\"a\">'; q(`.a`); r = \"<i class='a y'>\";"
    );
}

#[test]
fn inline_style_and_script_are_renamed() {
    let mut map = ClassMap::new();
    map.insert("x", "a");
    assert_eq!(
        replace_classes_in_inline_styles("<style media=\"all\">.x{}</style><style>.y", &map),
        "<style>.a{}</style><style>.y"
    );
    assert_eq!(
        replace_classes_in_inline_scripts("<script defer>q('.x')</script>", &map),
        "<script defer>q('.a')</script>"
    );
}

#[test]
fn site_without_classes_stays_as_it_is() {
    let css = vec!["p { margin: 0.5rem }".to_string()];
    let html = vec!["<style media=\"all\">p{}</style>".to_string()];
    let js = vec!["q('.x')".to_string()];
    let out = minify_css_classes(&css, &html, &js);
    assert_eq!(out.css, css);
    assert_eq!(out.html, html);
    assert_eq!(out.js, js);
}

#[test]
fn site_is_rewritten_with_one_mapping() {
    let css = vec![".wide{} .tall{}".to_string(), ".tall.dark{}".to_string()];
    let html = vec![
        "<div class=\"wide dark\"><style>.tall{}</style><script>q('.dark')</script></div>"
            .to_string(),
    ];
    let js = vec!["e.classList.add('tall', 'wide');".to_string()];
    let out = minify_css_classes(&css, &html, &js);
    assert_eq!(out.css, vec![".c{} .b{}", ".b.a{}"]);
    assert_eq!(
        out.html,
        vec!["<div class=\"c a\"><style>.b{}</style><script>q('.a')</script></div>"]
    );
    assert_eq!(out.js, vec!["e.classList.add('b', 'wide');"]);
}

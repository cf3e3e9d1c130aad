//! The scanners of the library against the regular expressions and the
//! standard library functions that say the same, on many small texts.

use regex::{Captures, Regex};
use static_blog::assets::{css_paths, strip_global_wrappers};
use static_blog::class_minifier::{
    extract_classes_from_css, generate_short_name, replace_classes_in_css,
    replace_classes_in_html, replace_classes_in_inline_scripts, replace_classes_in_inline_styles,
    replace_classes_in_js, replace_space_separated_classes, ClassMap,
};
use static_blog::hashtags::convert_hashtags_to_links;
use static_blog::markup::{add_heading_ids, slugify, strip_html_tags};
use static_blog::post::{extract_tags, extract_title, remove_first_h1};
use static_blog::rss::escape_xml;
use std::collections::HashMap;

/// Texts made of the given pieces, chosen by a fixed sequence of numbers.
fn samples(pieces: &[&str], count: usize, max_pieces: usize) -> Vec<String> {
    let mut state: u64 = 0x2545_f491_4f6c_dd1d;
    let mut next = move || {
        state ^= state << 13;
        state ^= state >> 7;
        state ^= state << 17;
        state
    };
    let mut texts = vec![String::new()];
    for _ in 0..count {
        let n = 1 + (next() as usize) % max_pieces;
        let mut text = String::new();
        for _ in 0..n {
            text.push_str(pieces[(next() as usize) % pieces.len()]);
        }
        texts.push(text);
    }
    texts
}

fn slug_by_parts(text: &str) -> String {
    text.to_lowercase()
        .chars()
        .map(|c| if c.is_alphanumeric() { c } else { '-' })
        .collect::<String>()
        .split('-')
        .filter(|s| !s.is_empty())
        .collect::<Vec<_>>()
        .join("-")
}

#[test]
fn tag_stripping_agrees_with_its_pattern() {
    let re = Regex::new(r"<[^>]*>").unwrap();
    for text in samples(&["<", ">", "a", "\n", "<b>", "</", " ", "é"], 3000, 10) {
        assert_eq!(strip_html_tags(&text), re.replace_all(&text, "").to_string(), "{:?}", text);
    }
}

#[test]
fn slug_agrees_with_splitting_at_other_characters() {
    for text in samples(&["A", "b", "-", " ", "_", "É", "1", "!", "--", "ß", "٣"], 3000, 10) {
        assert_eq!(slugify(&text), slug_by_parts(&text), "{:?}", text);
    }
}

#[test]
fn heading_ids_agree_with_their_pattern() {
    let re = Regex::new(r"<h([1-6])>(.*?)</h[1-6]>").unwrap();
    let strip = Regex::new(r"<[^>]*>").unwrap();
    let pieces =
        ["<h1>", "<h2>", "</h1>", "</h3>", "<h7>", "</h0>", "A b", "<em>", "\n", "<", "h", ">", "<h", "1", "/"];
    for text in samples(&pieces, 4000, 9) {
        let expected = re.replace_all(&text, |caps: &Captures| {
            let id = slug_by_parts(&strip.replace_all(&caps[2], ""));
            format!("<h{} id=\"{}\">{}</h{}>", &caps[1], id, &caps[2], &caps[1])
        });
        assert_eq!(add_heading_ids(&text), expected.to_string(), "{:?}", text);
    }
}

#[test]
fn hashtag_links_agree_with_their_pattern() {
    let tags = vec!["a".to_string(), "ab".to_string(), "b-c".to_string(), "_".to_string()];
    let pattern =
        tags.iter().map(|tag| format!("#{}", regex::escape(tag))).collect::<Vec<_>>().join("|");
    let re = Regex::new(&format!(r"<p>((?:(?:{})\s*)+)</p>", pattern)).unwrap();
    let hashtag = Regex::new(r"#([a-zA-Z0-9_-]+)").unwrap();
    let pieces = ["<p>", "</p>", "#a", "#ab", "#b-c", "#_", "#", " ", "\n", "x", "b", "-c", "\u{a0}", "<"];
    for text in samples(&pieces, 4000, 9) {
        let expected = re.replace_all(&text, |caps: &Captures| {
            let links = hashtag.replace_all(&caps[1], |c: &Captures| {
                format!("<a href=\"/index.html#{}\">#{}</a>", &c[1], &c[1])
            });
            format!("<p class=\"post-hashtags\">{}</p>", links)
        });
        assert_eq!(convert_hashtags_to_links(&text, &tags), expected.to_string(), "{:?}", text);
    }
}

#[test]
fn tags_agree_with_their_pattern() {
    let re = Regex::new(r"#([a-zA-Z0-9_-]+)").unwrap();
    for text in samples(&["#a", "#", "b_1", " ", "\n", "\r\n", "\t", "-", "é", "\r", "\u{2003}"], 4000, 10) {
        let lines: Vec<&str> = text.lines().filter(|l| !l.trim().is_empty()).collect();
        let expected: Vec<String> = match lines.last() {
            Some(last) => re.captures_iter(last).map(|cap| cap[1].to_string()).collect(),
            None => Vec::new(),
        };
        assert_eq!(extract_tags(&text), expected, "{:?}", text);
    }
}

#[test]
fn title_agrees_with_the_lines_of_the_text() {
    for text in samples(&["# ", "#", "T", " ", "\n", "\r\n", "\r", "\t", "x", "\u{a0}"], 4000, 10) {
        let title = text
            .lines()
            .find_map(|line| line.strip_prefix("# "))
            .map(|t| t.trim().to_string())
            .unwrap_or_default();
        assert_eq!(extract_title(&text), title, "{:?}", text);

        let mut found = false;
        let rest: Vec<&str> = text
            .lines()
            .filter(|line| {
                if !found && line.starts_with("# ") {
                    found = true;
                    false
                } else {
                    true
                }
            })
            .collect();
        assert_eq!(remove_first_h1(&text), rest.join("\n"), "{:?}", text);
    }
}

#[test]
fn xml_escapes_agree_with_replacing_in_turn() {
    for text in samples(&["&", "<", ">", "\"", "'", "a", "&amp;", "é"], 2000, 10) {
        let expected = text
            .replace('&', "&amp;")
            .replace('<', "&lt;")
            .replace('>', "&gt;")
            .replace('"', "&quot;")
            .replace('\'', "&#39;");
        assert_eq!(escape_xml(&text), expected, "{:?}", text);
    }
}

#[test]
fn short_names_agree_with_counting_in_letters() {
    let letters: Vec<char> =
        "abcdefghijklmnopqrstuvwxyzABCDEFGHIJKLMNOPQRSTUVWXYZ".chars().collect();
    for index in (0..200_000).step_by(37).chain([usize::MAX, usize::MAX - 1, 52 * 52 + 51]) {
        let mut n = index;
        let mut name = Vec::new();
        while n >= letters.len() {
            name.push(letters[n % letters.len()]);
            n = n / letters.len() - 1;
        }
        name.push(letters[n]);
        name.reverse();
        assert_eq!(generate_short_name(index), name.into_iter().collect::<String>());
    }
}

fn maps() -> (ClassMap, HashMap<String, String>) {
    let mut map = ClassMap::new();
    let mut plain = HashMap::new();
    for (name, alias) in [("x", "a"), ("y-z", "b"), ("add", "c"), ("className", "d"), ("_u", "e")] {
        map.insert(name, alias);
        plain.insert(name.to_string(), alias.to_string());
    }
    (map, plain)
}

fn renamed_list(list: &str, plain: &HashMap<String, String>) -> Option<String> {
    let mut changed = false;
    let mut out = Vec::new();
    for class in list.split_whitespace() {
        match plain.get(class) {
            Some(alias) => {
                changed = true;
                out.push(alias.as_str());
            }
            None => out.push(class),
        }
    }
    if changed {
        Some(out.join(" "))
    } else {
        None
    }
}

fn css_by_pattern(re: &Regex, css: &str, plain: &HashMap<String, String>) -> String {
    re.replace_all(css, |caps: &Captures| match plain.get(&caps[1]) {
        Some(alias) => format!(".{}", alias),
        None => caps[0].to_string(),
    })
    .to_string()
}

fn html_by_pattern(re: &Regex, html: &str, plain: &HashMap<String, String>) -> String {
    re.replace_all(html, |caps: &Captures| match renamed_list(&caps[1], plain) {
        Some(list) => format!("class=\"{}\"", list),
        None => caps[0].to_string(),
    })
    .to_string()
}

/// The patterns of the passes over a script, in order.
struct ScriptPatterns(Vec<Regex>);

impl ScriptPatterns {
    fn new() -> Self {
        let patterns = [
            r#"(['"`])\.([a-zA-Z_][a-zA-Z0-9_-]*)"#,
            r#"( )\.([a-zA-Z_][a-zA-Z0-9_-]*)"#,
            r#"classList\.(add|remove|toggle|contains)\s*\(\s*'([^']*)'\s*"#,
            r#"classList\.(add|remove|toggle|contains)\s*\(\s*"([^"]*)"\s*"#,
            r#"\.className\s*=\s*'([^']*)'"#,
            r#"\.className\s*=\s*"([^"]*)""#,
            r#"class="([^"]*)""#,
            r#"class='([^']*)'"#,
            r#"([?:])\s*'([a-zA-Z_][a-zA-Z0-9_-]*)'"#,
            r#"([?:])\s*"([a-zA-Z_][a-zA-Z0-9_-]*)""#,
        ];
        ScriptPatterns(patterns.iter().map(|p| Regex::new(p).unwrap()).collect())
    }

    fn rename(&self, js: &str, plain: &HashMap<String, String>) -> String {
        let one = |re: &Regex, text: &str, write: &dyn Fn(&Captures, &str) -> String| -> String {
            re.replace_all(text, |caps: &Captures| match plain.get(&caps[2]) {
                Some(alias) => write(caps, alias),
                None => caps[0].to_string(),
            })
            .to_string()
        };
        let list = |re: &Regex,
                    group: usize,
                    text: &str,
                    write: &dyn Fn(&Captures, &str) -> String|
         -> String {
            re.replace_all(text, |caps: &Captures| match renamed_list(&caps[group], plain) {
                Some(names) => write(caps, &names),
                None => caps[0].to_string(),
            })
            .to_string()
        };
        let re = &self.0;
        let s = one(&re[0], js, &|c, a| format!("{}.{}", &c[1], a));
        let s = one(&re[1], &s, &|c, a| format!("{}.{}", &c[1], a));
        let s = list(&re[2], 2, &s, &|c, n| format!("classList.{}('{}'", &c[1], n));
        let s = list(&re[3], 2, &s, &|c, n| format!("classList.{}(\"{}\"", &c[1], n));
        let s = list(&re[4], 1, &s, &|_, n| format!(".className = '{}'", n));
        let s = list(&re[5], 1, &s, &|_, n| format!(".className = \"{}\"", n));
        let s = list(&re[6], 1, &s, &|_, n| format!("class=\"{}\"", n));
        let s = list(&re[7], 1, &s, &|_, n| format!("class='{}'", n));
        let s = one(&re[8], &s, &|c, a| format!("{} '{}'", &c[1], a));
        one(&re[9], &s, &|c, a| format!("{} \"{}\"", &c[1], a))
    }
}

#[test]
fn class_lists_agree_with_splitting_at_white_space() {
    let (map, plain) = maps();
    for text in samples(&["x", "y-z", " ", "\t", "\n", "q", "\u{a0}", "-", "_u", "\u{3000}"], 3000, 8) {
        assert_eq!(
            replace_space_separated_classes(&text, &map),
            renamed_list(&text, &plain),
            "{:?}",
            text
        );
    }
}

#[test]
fn class_selectors_agree_with_their_pattern() {
    let (map, plain) = maps();
    let re = Regex::new(r"\.([a-zA-Z_][a-zA-Z0-9_-]*)").unwrap();
    for text in samples(&[".", "x", "y-z", "_u", "5", "-", " ", "{", ".q", "..", "é"], 4000, 9) {
        assert_eq!(
            replace_classes_in_css(&text, &map),
            css_by_pattern(&re, &text, &plain),
            "{:?}",
            text
        );
        let mut names: Vec<String> = re.captures_iter(&text).map(|c| c[1].to_string()).collect();
        names.sort();
        names.dedup();
        assert_eq!(extract_classes_from_css(&text).names(), names, "{:?}", text);
    }
}

#[test]
fn class_attributes_agree_with_their_pattern() {
    let (map, plain) = maps();
    let re = Regex::new(r#"class\s*=\s*["']([^"']*)["']"#).unwrap();
    let pieces = ["class", "=", "\"", "'", " ", "\n", "x", "y-z", "q", ">", "Name", "classclass="];
    for text in samples(&pieces, 4000, 10) {
        assert_eq!(
            replace_classes_in_html(&text, &map),
            html_by_pattern(&re, &text, &plain),
            "{:?}",
            text
        );
    }
}

#[test]
fn scripts_agree_with_their_patterns() {
    let (map, plain) = maps();
    let pieces = [
        "classList.", "add", "remove", "toggle", "contains", "(", ")", "'", "\"", "`", " ", ".",
        "x", "y-z", "q", "className", ".className", "=", "class=", "?", ":", "\n", ",", "_u",
    ];
    let patterns = ScriptPatterns::new();
    for text in samples(&pieces, 8000, 12) {
        assert_eq!(replace_classes_in_js(&text, &map), patterns.rename(&text, &plain), "{:?}", text);
    }
}

#[test]
fn inline_blocks_agree_with_their_patterns() {
    let (map, plain) = maps();
    let style = Regex::new(r"(?s)<style[^>]*>(.*?)</style>").unwrap();
    let script = Regex::new(r"(?s)<script[^>]*>(.*?)</script>").unwrap();
    let selector = Regex::new(r"\.([a-zA-Z_][a-zA-Z0-9_-]*)").unwrap();
    let pieces = [
        "<style", "<style>", "</style>", "<script", "<script>", "</script>", ">", " a=b", ".x",
        "'.x'", "\n", "<", "s", "</",
    ];
    let patterns = ScriptPatterns::new();
    for text in samples(&pieces, 5000, 9) {
        let styles = style.replace_all(&text, |caps: &Captures| {
            format!("<style>{}</style>", css_by_pattern(&selector, &caps[1], &plain))
        });
        assert_eq!(replace_classes_in_inline_styles(&text, &map), styles.to_string(), "{:?}", text);
        let scripts = script.replace_all(&text, |caps: &Captures| {
            let whole = &caps[0];
            let opening = &whole[..whole.find('>').unwrap() + 1];
            format!("{}{}</script>", opening, patterns.rename(&caps[1], &plain))
        });
        assert_eq!(replace_classes_in_inline_scripts(&text, &map), scripts.to_string(), "{:?}", text);
    }
}

#[test]
fn global_wrappers_agree_with_their_pattern() {
    let re = Regex::new(r":global\(([^)]+)\)").unwrap();
    for text in samples(&[":global(", ")", "(", ".a", " ", ":global", ":", "\n"], 3000, 9) {
        assert_eq!(strip_global_wrappers(&text), re.replace_all(&text, "$1").to_string(), "{:?}", text);
    }
}

#[test]
fn placeholders_agree_with_their_pattern() {
    let re = Regex::new(r"<!-- INLINE_CSS:(/[^>]+\.css) -->").unwrap();
    let pieces = ["<!-- INLINE_CSS:", "/", "a", ".css", " -->", "-->", ">", " ", ".css --", "<!--"];
    for text in samples(&pieces, 5000, 9) {
        let expected: Vec<String> = re.captures_iter(&text).map(|c| c[1].to_string()).collect();
        assert_eq!(css_paths(&text), expected, "{:?}", text);
    }
}

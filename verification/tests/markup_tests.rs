use static_blog::hashtags::convert_hashtags_to_links;
use static_blog::highlight::{classify_scope, convert_syntect_classes_to_prism, Bucket};
use static_blog::markdown::markdown_to_html;
use static_blog::markup::{
    add_heading_ids, decode_entities, extract_headings, slugify, strip_html_tags,
};
use static_blog::syntaxes::SyntaxCatalog;

#[test]
fn strips_tags_and_keeps_text() {
    assert_eq!(strip_html_tags("<em>Hello</em>, World!"), "Hello, World!");
    assert_eq!(strip_html_tags("a < b"), "a < b");
    assert_eq!(strip_html_tags("a <b\nc> d"), "a  d");
}

#[test]
fn slug_joins_runs_with_hyphens() {
    assert_eq!(slugify("Hello, World!"), "hello-world");
    assert_eq!(slugify("  --A  b--"), "a-b");
    assert_eq!(slugify("!!!"), "");
}

#[test]
fn heading_gets_id_from_visible_text() {
    assert_eq!(
        add_heading_ids("<h2><em>Hello</em>, World!</h2>"),
        "<h2 id=\"hello-world\"><em>Hello</em>, World!</h2>"
    );
}

#[test]
fn heading_with_line_break_is_left_alone() {
    assert_eq!(add_heading_ids("<h2>a\nb</h2>"), "<h2>a\nb</h2>");
    assert_eq!(add_heading_ids("<h7>a</h7>"), "<h7>a</h7>");
    assert_eq!(add_heading_ids("<h1>a</h3>"), "<h1 id=\"a\">a</h1>");
}

#[test]
fn hashtag_paragraph_becomes_links() {
    let tags = vec!["foo".to_string(), "bar".to_string()];
    assert_eq!(
        convert_hashtags_to_links("<p>#foo #bar</p>", &tags),
        "<p class=\"post-hashtags\"><a href=\"/index.html#foo\">#foo</a> <a href=\"/index.html#bar\">#bar</a></p>"
    );
}

#[test]
fn mixed_paragraph_is_left_alone() {
    let tags = vec!["foo".to_string(), "bar".to_string()];
    assert_eq!(convert_hashtags_to_links("<p>prefix #foo</p>", &tags), "<p>prefix #foo</p>");
    assert_eq!(convert_hashtags_to_links("<p>#foo #baz</p>", &tags), "<p>#foo #baz</p>");
    assert_eq!(convert_hashtags_to_links("<p>#foobar</p>", &tags), "<p>#foobar</p>");
    assert_eq!(convert_hashtags_to_links("<p>#foo</p>", &[]), "<p>#foo</p>");
}

#[test]
fn scope_without_needle_has_no_bucket() {
    assert_eq!(classify_scope("meta.embedded"), None);
    assert_eq!(classify_scope("source rust keyword control"), Some(Bucket::Keyword));
    assert_eq!(classify_scope("constant numeric"), Some(Bucket::Number));
    assert_eq!(classify_scope("constant language"), None);
    assert_eq!(classify_scope("support function"), Some(Bucket::Function));
    assert_eq!(classify_scope("support type"), Some(Bucket::Builtin));
    assert_eq!(
        convert_syntect_classes_to_prism("<span class=\"meta.embedded\">x</span>"),
        "<span>x</span>"
    );
    assert_eq!(
        convert_syntect_classes_to_prism("<span class=\"string quoted\">x</span><span class=\"\">"),
        "<span class=\"token string\">x</span><span class=\"\">"
    );
}

#[test]
fn markdown_renders_code_table_and_hashtags() {
    let catalog = SyntaxCatalog::new(None);
    let tags = vec!["foo".to_string()];
    let html = markdown_to_html("## Title *x*\n\ntext & more\n\n#foo\n", &tags, &catalog);
    assert_eq!(
        html,
        "<h2 id=\"title-x\">Title <em>x</em></h2>\n<p>text &amp; more</p>\n<p class=\"post-hashtags\"><a href=\"/index.html#foo\">#foo</a></p>\n"
    );
    let html = markdown_to_html("```\na<b\n```\n", &[], &catalog);
    assert_eq!(
        html,
        "<div class=\"remark-highlight\"><pre class=\"language-text\"><code class=\"language-text\">a&lt;b\n</code></pre></div>"
    );
    let html = markdown_to_html("```nosuchlang\na<b\n```\n", &[], &catalog);
    assert_eq!(html, "<pre><code class=\"language-nosuchlang\">a&lt;b\n</code></pre>");
    let html = markdown_to_html("```rust\nlet x = 1;\n```\n", &[], &catalog);
    assert_eq!(
        html,
        "<div class=\"remark-highlight\"><pre class=\"language-rust\"><code class=\"language-rust\"><span><span>let</span> x <span class=\"token keyword\">=</span> <span class=\"token number\">1</span><span class=\"token punctuation\">;</span>\n</span></code></pre></div>"
    );
    let html = markdown_to_html("| a | b |\n|---|---|\n| 1 | 2 |\n", &[], &catalog);
    assert_eq!(
        html,
        "<div class=\"table-wrapper\"><table><thead><th>a</th><th>b</th></thead><tbody><tr><td>1</td><td>2</td></tr></tbody></table></div>"
    );
    let html = markdown_to_html("> quoted\n", &[], &catalog);
    assert_eq!(html, "<blockquote><p class=\"quote-line\">quoted</p>\n</blockquote>");
    let html = markdown_to_html("![a \"b\"](pic.png)\n", &[], &catalog);
    assert_eq!(html, "<p><img src=\"pic.png\" alt=\"a &quot;b&quot;\"></p>\n");
}

#[test]
fn slug_lowercases_and_keeps_unicode_letters() {
    assert_eq!(slugify("Über Größe 42"), "über-größe-42");
    assert_eq!(slugify("a_b"), "a-b");
}

#[test]
fn every_heading_level_gets_an_id() {
    assert_eq!(
        add_heading_ids("<h1>A</h1>\n<h6>B c</h6>\n<h3 id=\"x\">D</h3>"),
        "<h1 id=\"a\">A</h1>\n<h6 id=\"b-c\">B c</h6>\n<h3 id=\"x\">D</h3>"
    );
}

#[test]
fn entities_are_decoded_once() {
    assert_eq!(decode_entities("a &amp; b &lt;c&gt; &quot;d&quot; &apos;e&apos;"), "a & b <c> \"d\" 'e'");
    assert_eq!(decode_entities("x&nbsp;y"), "x\u{a0}y");
    assert_eq!(decode_entities("&amp;lt;"), "&lt;");
    assert_eq!(decode_entities("&#65;&#x42;&#X63;&#0100;"), "ABcd");
    assert_eq!(decode_entities("&#x1F600;"), "\u{1F600}");
}

#[test]
fn broken_references_stay() {
    assert_eq!(decode_entities("&amp &#; &#x; &#12 &#xD800; &#1114112; &copy;"), "&amp &#; &#x; &#12 &#xD800; &#1114112; &copy;");
    assert_eq!(decode_entities("&#99999999999999999999;"), "&#99999999999999999999;");
}

#[test]
fn headings_are_read_in_document_order() {
    let html = "<h2 id=\"tom-amp-jerry\">Tom &amp; <em>Jerry</em></h2>\n<p>x</p><h3>Plain</h3><h7>no</h7><h1 class=\"a\">no</h1>";
    let list = extract_headings(html);
    assert_eq!(list.len(), 2);
    assert_eq!(list[0].level, 2);
    assert_eq!(list[0].text, "Tom & Jerry");
    assert_eq!(list[0].id, "tom-amp-jerry");
    assert_eq!(list[1].level, 3);
    assert_eq!(list[1].text, "Plain");
    assert_eq!(list[1].id, "plain");
}

#[test]
fn heading_ids_are_read_as_they_were_given() {
    let html = add_heading_ids("<h1>One &amp; two</h1><h4><code>x</code> y</h4>");
    assert_eq!(html, "<h1 id=\"one-amp-two\">One &amp; two</h1><h4 id=\"x-y\"><code>x</code> y</h4>");
    let list = extract_headings(&html);
    assert_eq!(list.len(), 2);
    assert_eq!(list[0].id, "one-amp-two");
    assert_eq!(list[1].id, "x-y");
    assert_eq!(list[1].text, "x y");
}

#[test]
fn hashtags_may_touch_and_keep_their_white_space() {
    let tags = vec!["a".to_string(), "b-c".to_string()];
    assert_eq!(
        convert_hashtags_to_links("x<p>#a#b-c \n</p>y", &tags),
        "x<p class=\"post-hashtags\"><a href=\"/index.html#a\">#a</a><a href=\"/index.html#b-c\">#b-c</a> \n</p>y"
    );
    assert_eq!(convert_hashtags_to_links("<p> #a</p>", &tags), "<p> #a</p>");
    assert_eq!(convert_hashtags_to_links("<p>#a", &tags), "<p>#a");
    assert_eq!(convert_hashtags_to_links("<p class=\"x\">#a</p>", &tags), "<p class=\"x\">#a</p>");
}

#[test]
fn headings_with_the_same_text_get_the_same_id() {
    assert_eq!(
        add_heading_ids("<h2>Notes</h2><p>a</p><h3>Notes</h3>"),
        "<h2 id=\"notes\">Notes</h2><p>a</p><h3 id=\"notes\">Notes</h3>"
    );
}

#[test]
fn slug_does_not_depend_on_markup() {
    assert_eq!(
        add_heading_ids("<h2><em>Hello</em>, World!</h2>"),
        "<h2 id=\"hello-world\"><em>Hello</em>, World!</h2>"
    );
    assert_eq!(
        add_heading_ids("<h2>Hello, <a href=\"w\"><code>World</code></a>!</h2>"),
        "<h2 id=\"hello-world\">Hello, <a href=\"w\"><code>World</code></a>!</h2>"
    );
    assert_eq!(slugify("Hello, World!"), slugify(&strip_html_tags("<em>Hello</em>, World!")));
}

use static_blog::markdown::{markdown_events, markdown_to_html, render_document, render_marked};
use static_blog::render::{render_code_block, render_image, RenderEvent, Renderer};
use static_blog::syntaxes::SyntaxCatalog;

fn text(t: &str) -> RenderEvent {
    RenderEvent::Text(t.to_string())
}

fn render(events: &[RenderEvent]) -> String {
    let marks = vec![None; events.len()];
    render_marked(&events.to_vec(), &marks, &[])
}

#[test]
fn code_block_with_mark_is_wrapped_in_envelope() {
    let html = render_code_block(
        &Some("rust".to_string()),
        "ignored",
        &Some("<span class=\"source rust\"><span class=\"keyword\">fn</span></span>".to_string()),
    );
    assert_eq!(
        html,
        "<div class=\"remark-highlight\"><pre class=\"language-rust\"><code class=\"language-rust\"><span><span class=\"token keyword\">fn</span></span></code></pre></div>"
    );
}

#[test]
fn code_block_without_definition_is_plain() {
    let html = render_code_block(&Some("zz".to_string()), "a < b && \"c\"", &None);
    assert_eq!(
        html,
        "<pre><code class=\"language-zz\">a &lt; b &amp;&amp; &quot;c&quot;</code></pre>"
    );
}

#[test]
fn code_block_without_language_is_text() {
    let html = render_code_block(&None, "it's", &Some("unused".to_string()));
    assert_eq!(
        html,
        "<div class=\"remark-highlight\"><pre class=\"language-text\"><code class=\"language-text\">it&#39;s</code></pre></div>"
    );
}

#[test]
fn code_envelope_opens_and_closes_the_same_tags() {
    for (lang, mark) in [
        (Some("rust".to_string()), Some("x".to_string())),
        (Some("rust".to_string()), None),
        (None, None),
    ] {
        let html = render_code_block(&lang, "code", &mark);
        for tag in ["div", "pre", "code"] {
            let opened = html.matches(&format!("<{}", tag)).count();
            let closed = html.matches(&format!("</{}>", tag)).count();
            assert_eq!(opened, closed);
        }
        let class = format!("language-{}", lang.unwrap_or("text".to_string()));
        assert!(html.contains(&format!("<code class=\"{}\">", class)));
        if html.contains("<pre class=") {
            assert!(html.contains(&format!("<pre class=\"{}\">", class)));
        }
    }
}

#[test]
fn image_is_self_contained() {
    assert_eq!(render_image("a.png", "x<y"), "<img src=\"a.png\" alt=\"x&lt;y\">");
}

#[test]
fn text_in_code_block_is_gathered_until_the_end() {
    let events = vec![
        RenderEvent::CodeBlockStart(None),
        text("a<"),
        text("b\n"),
        RenderEvent::CodeBlockEnd,
        text("<after>"),
    ];
    assert_eq!(
        render(&events),
        "<div class=\"remark-highlight\"><pre class=\"language-text\"><code class=\"language-text\">a&lt;b\n</code></pre></div>&lt;after&gt;"
    );
}

#[test]
fn fence_without_info_declares_no_language() {
    let events = vec![RenderEvent::CodeBlockStart(Some(String::new())), text("x"), RenderEvent::CodeBlockEnd];
    assert_eq!(
        render(&events),
        "<div class=\"remark-highlight\"><pre class=\"language-text\"><code class=\"language-text\">x</code></pre></div>"
    );
}

#[test]
fn unfinished_code_block_writes_nothing() {
    let events = vec![text("x"), RenderEvent::CodeBlockStart(None), text("lost")];
    assert_eq!(render(&events), "x");
    assert_eq!(render(&[RenderEvent::CodeBlockEnd, RenderEvent::ImageEnd]), "");
}

#[test]
fn table_opens_body_at_first_row_after_head() {
    let events = vec![
        RenderEvent::TableStart,
        RenderEvent::TableHeadStart,
        RenderEvent::TableCellStart,
        text("h"),
        RenderEvent::TableCellEnd,
        RenderEvent::TableHeadEnd,
        RenderEvent::TableRowStart,
        RenderEvent::TableCellStart,
        RenderEvent::Code("c&d".to_string()),
        RenderEvent::TableCellEnd,
        RenderEvent::TableRowEnd,
        RenderEvent::TableRowStart,
        RenderEvent::TableRowEnd,
        RenderEvent::TableEnd,
        RenderEvent::TableCellStart,
    ];
    assert_eq!(
        render(&events),
        "<div class=\"table-wrapper\"><table><thead><th>h</th></thead><tbody><tr><td><code>c&amp;d</code></td></tr><tr></tr></tbody></table></div><td>"
    );
}

#[test]
fn table_without_rows_has_no_body() {
    let events = vec![
        RenderEvent::TableStart,
        RenderEvent::TableHeadStart,
        RenderEvent::TableHeadEnd,
        RenderEvent::TableEnd,
    ];
    assert_eq!(
        render(&events),
        "<div class=\"table-wrapper\"><table><thead></thead></table></div>"
    );
    assert_eq!(
        render(&[RenderEvent::TableRowStart, RenderEvent::TableEnd]),
        "<tr></table></div>"
    );
}

#[test]
fn image_in_table_keeps_the_table() {
    let events = vec![
        RenderEvent::TableStart,
        RenderEvent::TableHeadStart,
        RenderEvent::TableCellStart,
        RenderEvent::ImageStart("u".to_string()),
        text("al"),
        text("t"),
        RenderEvent::ImageEnd,
        RenderEvent::TableCellEnd,
        RenderEvent::TableHeadEnd,
        RenderEvent::TableRowStart,
        RenderEvent::TableRowEnd,
        RenderEvent::TableEnd,
    ];
    assert_eq!(
        render(&events),
        "<div class=\"table-wrapper\"><table><thead><th><img src=\"u\" alt=\"alt\"></th></thead><tbody><tr></tr></tbody></table></div>"
    );
}

#[test]
fn paragraph_in_block_quote_is_a_quote_line() {
    let events = vec![
        RenderEvent::ParagraphStart,
        RenderEvent::Other("</p>\n".to_string()),
        RenderEvent::BlockquoteStart,
        RenderEvent::ParagraphStart,
        text("q"),
        RenderEvent::Other("</p>\n".to_string()),
        RenderEvent::BlockquoteEnd,
        RenderEvent::ParagraphStart,
    ];
    assert_eq!(
        render(&events),
        "<p></p>\n<blockquote><p class=\"quote-line\">q</p>\n</blockquote><p>"
    );
}

#[test]
fn renderer_takes_events_one_by_one() {
    let renderer = Renderer::new();
    let renderer = renderer.feed(&RenderEvent::CodeBlockStart(Some("x".to_string())), &None);
    let renderer = renderer.feed(&text("1 < 2"), &None);
    let pending = renderer.pending_code(&RenderEvent::CodeBlockEnd);
    assert_eq!(pending, Some(("x".to_string(), "1 < 2".to_string())));
    assert_eq!(renderer.pending_code(&text("t")), None);
    let renderer = renderer.feed(&RenderEvent::CodeBlockEnd, &Some("<b>".to_string()));
    assert_eq!(renderer.pending_code(&RenderEvent::CodeBlockEnd), None);
    assert_eq!(
        renderer.finish(),
        "<div class=\"remark-highlight\"><pre class=\"language-x\"><code class=\"language-x\"><b></code></pre></div>"
    );
}

#[test]
fn document_gets_heading_ids_and_hashtag_links() {
    let events = vec![
        RenderEvent::Other("<h2>".to_string()),
        text("A b"),
        RenderEvent::Other("</h2>\n".to_string()),
        RenderEvent::ParagraphStart,
        text("#t"),
        RenderEvent::Other("</p>\n".to_string()),
    ];
    let marks = vec![None; events.len()];
    assert_eq!(
        render_marked(&events, &marks, &["t".to_string()]),
        "<h2 id=\"a-b\">A b</h2>\n<p class=\"post-hashtags\"><a href=\"/index.html#t\">#t</a></p>\n"
    );
}

#[test]
fn event_without_mark_has_none() {
    let events = vec![
        RenderEvent::CodeBlockStart(Some("x".to_string())),
        text("a"),
        RenderEvent::CodeBlockEnd,
    ];
    assert_eq!(
        render_marked(&events, &vec![], &[]),
        "<pre><code class=\"language-x\">a</code></pre>"
    );
    let marks = vec![None, None, Some("<i>".to_string()), Some("extra".to_string())];
    assert_eq!(
        render_marked(&events, &marks, &[]),
        "<div class=\"remark-highlight\"><pre class=\"language-x\"><code class=\"language-x\"><i></code></pre></div>"
    );
}

#[test]
fn markdown_is_parsed_into_render_events() {
    let events = markdown_events("para `c`\n\n    indented\n\n```py\nx\n```\n\n```\n```\n");
    let shown: Vec<String> = events.iter().map(|e| format!("{:?}", e)).collect();
    assert_eq!(
        shown,
        vec![
            "ParagraphStart",
            "Text(\"para \")",
            "Code(\"c\")",
            "Other(\"</p>\\n\")",
            "CodeBlockStart(None)",
            "Text(\"indented\\n\")",
            "CodeBlockEnd",
            "CodeBlockStart(Some(\"py\"))",
            "Text(\"x\\n\")",
            "CodeBlockEnd",
            "CodeBlockStart(Some(\"\"))",
            "CodeBlockEnd",
        ]
    );
}

#[test]
fn indented_code_block_is_closed() {
    let catalog = SyntaxCatalog::new(None);
    assert_eq!(
        markdown_to_html("    a & b\n", &[], &catalog),
        "<div class=\"remark-highlight\"><pre class=\"language-text\"><code class=\"language-text\">a &amp; b\n</code></pre></div>"
    );
}

#[test]
fn catalog_decides_between_envelope_and_plain_block() {
    let catalog = SyntaxCatalog::new(None);
    assert!(catalog.find_syntax("rs").is_some());
    assert!(catalog.find_syntax("Rust").is_some());
    assert!(catalog.find_syntax("no-such-language").is_none());
    assert_eq!(catalog.highlight("no-such-language", "x"), None);
    assert_eq!(
        catalog.highlight("json", "1\n2"),
        Some(
            "<span class=\"source json\"><span class=\"constant numeric json\">1</span>\n<span class=\"constant numeric json\">2</span>\n</span>"
                .to_string()
        )
    );
    let events = vec![
        RenderEvent::CodeBlockStart(Some("json".to_string())),
        text("1"),
        RenderEvent::CodeBlockEnd,
    ];
    assert_eq!(
        render_document(&events, &[], &catalog),
        "<div class=\"remark-highlight\"><pre class=\"language-json\"><code class=\"language-json\"><span><span class=\"token number\">1</span>\n</span></code></pre></div>"
    );
}

#[test]
fn emphasis_links_and_lists_pass_through() {
    let catalog = SyntaxCatalog::new(None);
    assert_eq!(
        markdown_to_html("*a* [b](c) ~~d~~\n\n- [x] e\n", &[], &catalog),
        "<p><em>a</em> <a href=\"c\">b</a> <del>d</del></p>\n<ul>\n<li><input disabled=\"\" type=\"checkbox\" checked=\"\"/>\ne</li>\n</ul>\n"
    );
}

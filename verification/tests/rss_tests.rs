use static_blog::dates::{format_date, format_feed_date};
use static_blog::post::Post;
use static_blog::rss::{
    clean_content_for_rss, cut_div_content, escape_xml, extract_content_from_html, generate_rss,
    replace_literal,
};

#[test]
fn xml_special_characters_are_escaped() {
    assert_eq!(escape_xml("a & b < c > d \"e\" 'f'"), "a &amp; b &lt; c &gt; d &quot;e&quot; &#39;f&#39;");
    assert_eq!(escape_xml("&amp;"), "&amp;amp;");
    assert_eq!(escape_xml("plain ✓"), "plain ✓");
    assert_eq!(escape_xml(""), "");
}

#[test]
fn content_is_cut_at_the_matching_closing_tag() {
    assert_eq!(cut_div_content("a<div class=\"x\">b<div>c</div></div>d</div>e</div>"), "a<div class=\"x\">b<div>c</div></div>d");
    assert_eq!(cut_div_content("</div>"), "");
    assert_eq!(cut_div_content("never closed <div>x</div>"), "");
    assert_eq!(cut_div_content("<divx></div>y</div>"), "<divx>");
}

#[test]
fn content_is_found_by_its_class() {
    let page = "<html><div class=\"x\"><div id=\"m\" class=\"markdown-content\" style=\"p\"><p>a</p><div class=\"i\"><div>z</div></div>tail</div><footer></footer></div></html>";
    assert_eq!(extract_content_from_html(page), "<p>a</p><div class=\"i\"><div>z</div></div>tail");
    assert_eq!(extract_content_from_html("<div class=markdown-content>x</div>"), "x");
    assert_eq!(extract_content_from_html("<div class='markdown-content'>x</div>"), "x");
    assert_eq!(extract_content_from_html("<div data-class=\"markdown-content\">x</div>"), "x");
    assert_eq!(extract_content_from_html("<div xclass=\"markdown-content\">x</div>"), "");
    assert_eq!(extract_content_from_html("<p class=\"markdown-content\">x</p>"), "");
    assert_eq!(extract_content_from_html(""), "");
}

#[test]
fn highlighting_is_taken_out_of_content() {
    assert_eq!(
        clean_content_for_rss("<div class=\"remark-highlight\"><pre class=\"language-rust\"><code class=\"language-rust\"><span><span class=\"token keyword\">fn</span> x</span></code></pre></div><p><span id=\"k\">y</span></p>"),
        "<pre><code><span>fn x</code></pre><p><span id=\"k\">y</p>"
    );
    assert_eq!(clean_content_for_rss("<p>plain</p>"), "<p>plain</p>");
}

#[test]
fn literal_is_replaced_everywhere() {
    assert_eq!(replace_literal("aaa-a", "aa", "b"), "ba-a");
    assert_eq!(replace_literal("x", "y", "z"), "x");
}

#[test]
fn dates_are_written_out() {
    assert_eq!(format_date("2024-01-05"), "January 5, 2024");
    assert_eq!(format_date("2023-12-31"), "December 31, 2023");
    assert_eq!(format_date("2024-02-30"), "2024-02-30");
    assert_eq!(format_date("yesterday"), "yesterday");
    assert_eq!(format_date(""), "");
    assert_eq!(format_feed_date("2024-01-05"), "Fri, 05 Jan 2024 00:00:00 GMT");
    assert_eq!(format_feed_date("soon"), "soon");
}

#[test]
fn feed_has_one_item_per_post() {
    let posts = vec![
        Post {
            id: "first".to_string(),
            title: "A & B".to_string(),
            date: "2024-01-05".to_string(),
            tags: vec!["x".to_string(), "y<z".to_string()],
            content_html: "unused".to_string(),
        },
        Post {
            id: "second".to_string(),
            title: "C".to_string(),
            date: "undated".to_string(),
            tags: vec![],
            content_html: "unused".to_string(),
        },
    ];
    let pages = vec![
        "<div class=\"markdown-content\"><p><span class=\"token string\">s</span></p></div>".to_string(),
        String::new(),
    ];
    let feed = generate_rss(&posts, &pages, "Mon, 1 Jan 2024 10:00:00 +0000");
    let expected = concat_all(&[
        "<?xml version=\"1.0\" encoding=\"UTF-8\"?>\n",
        "<rss version=\"2.0\" xmlns:atom=\"http://www.w3.org/2005/Atom\" xmlns:content=\"http://purl.org/rss/1.0/modules/content/\">\n",
        "  <channel>\n",
        "    <title>Sean&#39;s Blog</title>\n",
        "    <description>Another place for thought infusion</description>\n",
        "    <link>https://seanpedersen.github.io</link>\n",
        "    <atom:link href=\"https://seanpedersen.github.io/rss.xml\" rel=\"self\" type=\"application/rss+xml\" />\n",
        "    <language>en</language>\n",
        "    <pubDate>Mon, 1 Jan 2024 10:00:00 +0000</pubDate>\n",
        "    <lastBuildDate>Mon, 1 Jan 2024 10:00:00 +0000</lastBuildDate>\n",
        "    <generator>Custom RSS Generator</generator>\n",
        "    <managingEditor>Sean Pedersen</managingEditor>\n",
        "    <webMaster>Sean Pedersen</webMaster>\n",
        "    <ttl>60</ttl>\n",
        "    <item>\n",
        "      <title>A &amp; B</title>\n",
        "      <link>https://seanpedersen.github.io/posts/first</link>\n",
        "      <guid isPermaLink=\"true\">https://seanpedersen.github.io/posts/first</guid>\n",
        "      <pubDate>Fri, 05 Jan 2024 00:00:00 GMT</pubDate>\n",
        "      <author>Sean Pedersen</author>\n",
        "      <category>x</category>\n",
        "      <category>y&lt;z</category>\n",
        "      <content:encoded><![CDATA[<p>s</p>]]></content:encoded>\n",
        "    </item>\n",
        "    <item>\n",
        "      <title>C</title>\n",
        "      <link>https://seanpedersen.github.io/posts/second</link>\n",
        "      <guid isPermaLink=\"true\">https://seanpedersen.github.io/posts/second</guid>\n",
        "      <pubDate>undated</pubDate>\n",
        "      <author>Sean Pedersen</author>\n",
        "      <content:encoded><![CDATA[]]></content:encoded>\n",
        "    </item>\n",
        "  </channel>\n",
        "</rss>",
    ]);
    assert_eq!(feed, expected);
}

fn concat_all(parts: &[&str]) -> String {
    parts.concat()
}

#[test]
fn post_without_page_gets_an_empty_item() {
    let posts = vec![Post {
        id: "p".to_string(),
        title: "T".to_string(),
        date: "2024-01-05".to_string(),
        tags: vec![],
        content_html: String::new(),
    }];
    let feed = generate_rss(&posts, &[], "now");
    assert!(feed.contains("<title>T</title>"));
    assert!(feed.contains("<content:encoded><![CDATA[]]></content:encoded>"));
}

#[test]
fn empty_literal_is_found_nowhere() {
    assert_eq!(replace_literal("abc", "", "x"), "abc");
}

#[test]
fn feed_without_posts_is_head_and_tail() {
    let feed = generate_rss(&[], &[], "now");
    assert!(feed.starts_with("<?xml version=\"1.0\" encoding=\"UTF-8\"?>\n<rss "));
    assert!(feed.contains("<pubDate>now</pubDate>\n    <lastBuildDate>now</lastBuildDate>"));
    assert!(feed.ends_with("    <ttl>60</ttl>\n  </channel>\n</rss>"));
    assert!(!feed.contains("<item>"));
}

use static_blog::page::{generate_index_page, generate_post_page, inline_css_placeholder};
use static_blog::post::{Post, PostSummary};

fn summary(id: &str, date: &str, tags: &[&str]) -> PostSummary {
    PostSummary {
        id: id.to_string(),
        title: format!("About {}", id),
        date: date.to_string(),
        tags: tags.iter().map(|t| t.to_string()).collect(),
    }
}

#[test]
fn post_page_is_prepared_from_the_post() {
    let post = Post {
        id: "my-post".to_string(),
        title: "He said \"Hi\", twice!".to_string(),
        date: "2024-03-09".to_string(),
        tags: vec!["rust".to_string(), "web".to_string()],
        content_html: "<h2 id=\"first\">First</h2>\n<p>Some <em>text</em> &amp; more</p>\n<pre><code>x</code></pre><h3>Second</h3>".to_string(),
    };
    let related = vec![summary("a", "2024-01-05", &["rust"]), summary("b", "not a date", &[])];
    let page = generate_post_page(&post, &related).unwrap();
    assert_eq!(page.post_title, "He said \"Hi\", twice!");
    assert_eq!(page.post_id, "my-post");
    assert_eq!(page.excerpt, "First\nSome text &amp; more\nxSecond");
    assert_eq!(page.keywords, "rust, web");
    assert!(page.has_toc);
    assert!(page.has_code_blocks);
    assert_eq!(page.headings.len(), 2);
    assert_eq!(page.headings[0].level, 2);
    assert_eq!(page.headings[0].text, "First");
    assert_eq!(page.headings[0].id, "first");
    assert_eq!(page.headings[1].level, 3);
    assert_eq!(page.headings[1].id, "second");
    assert_eq!(page.title_id, "he-said-hi-twice");
    assert_eq!(page.formatted_date, "March 9, 2024");
    assert_eq!(page.content_html, post.content_html);
    assert_eq!(page.related_posts.len(), 2);
    assert_eq!(page.related_posts[0].id, "a");
    assert_eq!(page.related_posts[0].title, "About a");
    assert_eq!(page.related_posts[0].formatted_date, "January 5, 2024");
    assert_eq!(page.related_posts[1].formatted_date, "not a date");
    assert_eq!(page.post_title_json, "\"He said \\\"Hi\\\", twice!\"");
    assert_eq!(page.title_id_json, "\"he-said-hi-twice\"");
}

#[test]
fn excerpt_is_cut_after_160_characters() {
    let long: String = "é".repeat(200);
    let post = Post {
        id: "p".to_string(),
        title: "T".to_string(),
        date: String::new(),
        tags: vec![],
        content_html: format!("<p>{}</p>", long),
    };
    let page = generate_post_page(&post, &[]).unwrap();
    assert_eq!(page.excerpt.chars().count(), 160);
    assert_eq!(page.excerpt, "é".repeat(160));
    assert_eq!(page.keywords, "");
    assert!(!page.has_toc);
    assert!(!page.has_code_blocks);
    assert!(page.related_posts.is_empty());
    assert_eq!(page.formatted_date, "");
}

#[test]
fn index_page_lists_posts_with_their_tags_as_json() {
    let posts = vec![summary("b", "2024-01-05", &["x", "y\"z"]), summary("a", "", &[])];
    let tags = vec!["x".to_string(), "y\"z".to_string()];
    let page = generate_index_page(&posts, &tags, 2024);
    assert_eq!(page.year, 2024);
    assert_eq!(page.tags, tags);
    assert_eq!(page.posts.len(), 2);
    assert_eq!(page.posts[0].id, "b");
    assert_eq!(page.posts[0].title, "About b");
    assert_eq!(page.posts[0].tags, vec!["x", "y\"z"]);
    assert_eq!(page.posts[0].tags_json, "[\"x\",\"y\\\"z\"]");
    assert_eq!(page.posts[1].id, "a");
    assert_eq!(page.posts[1].tags_json, "[]");
}

#[test]
fn placeholder_names_the_style_sheet() {
    assert_eq!(inline_css_placeholder("/styles/global.css"), "<!-- INLINE_CSS:/styles/global.css -->");
}

use static_blog::post::{
    extract_all_tags, extract_tags, extract_title, get_related_posts, newest_first,
    parse_frontmatter, read_post, remove_first_h1, summaries, Post, PostMetadata,
};
use static_blog::syntaxes::SyntaxCatalog;

fn post(id: &str, tags: &[&str]) -> Post {
    Post {
        id: id.to_string(),
        title: format!("Title of {}", id),
        date: "2024-01-02".to_string(),
        tags: tags.iter().map(|t| t.to_string()).collect(),
        content_html: String::new(),
    }
}

fn ids(posts: &[static_blog::post::PostSummary]) -> Vec<String> {
    posts.iter().map(|p| p.id.clone()).collect()
}

#[test]
fn title_is_the_first_title_line() {
    assert_eq!(extract_title("intro\n#  One  \t\n# Two\n"), "One");
    assert_eq!(extract_title("## Not\n#Neither\n"), "");
    assert_eq!(extract_title(" # Indented\n"), "");
    assert_eq!(extract_title("# Windows\r\nx"), "Windows");
    assert_eq!(extract_title("# "), "");
}

#[test]
fn only_the_first_title_line_is_removed() {
    assert_eq!(remove_first_h1("# One\ntext\n# Two\n"), "text\n# Two");
    assert_eq!(remove_first_h1("a\r\n\n# T\nb"), "a\n\nb");
    assert_eq!(remove_first_h1("no title\n"), "no title");
    assert_eq!(remove_first_h1(""), "");
}

#[test]
fn second_title_stays_in_the_body() {
    let catalog = SyntaxCatalog::new(None);
    let content = "# One\n\ntext\n\n# Two\n\nmore\n";
    let post = read_post("p", content, &PostMetadata::empty(), &catalog).unwrap();
    assert_eq!(post.title, "One");
    assert_eq!(post.content_html, "<p>text</p>\n<h1 id=\"two\">Two</h1>\n<p>more</p>\n");
}

#[test]
fn tags_come_from_the_last_line_that_is_not_blank() {
    assert_eq!(extract_tags("# T\n#x\ntext #a, #b-c_1 #é # #\n \t\n\n"), vec!["a", "b-c_1"]);
    assert_eq!(extract_tags("#a\nno tags here\n"), Vec::<String>::new());
    assert_eq!(extract_tags(""), Vec::<String>::new());
    assert_eq!(extract_tags("\n  \n"), Vec::<String>::new());
    assert_eq!(extract_tags("#a#a"), vec!["a", "a"]);
}

#[test]
fn frontmatter_is_split_from_the_markdown() {
    assert_eq!(
        parse_frontmatter("---\ndate: 2024-01-02\n---\n# T\nbody\n"),
        (Some("date: 2024-01-02".to_string()), "# T\nbody\n".to_string())
    );
    assert_eq!(
        parse_frontmatter("---  \n\na: 1\nb: 2\n---\t\n\nrest"),
        (Some("a: 1\nb: 2".to_string()), "rest".to_string())
    );
}

#[test]
fn file_without_frontmatter_is_markdown_as_a_whole() {
    assert_eq!(parse_frontmatter("# T\nbody"), (None, "# T\nbody".to_string()));
    assert_eq!(
        parse_frontmatter("# T\n---\na\n---\n"),
        (None, "# T\n---\na\n---\n".to_string())
    );
    assert_eq!(parse_frontmatter("---\nunclosed\n"), (None, "---\nunclosed\n".to_string()));
    assert_eq!(parse_frontmatter(""), (None, String::new()));
}

#[test]
fn post_is_built_from_its_source() {
    let catalog = SyntaxCatalog::new(None);
    let content = "---\ndate: 2024-01-02\n---\n# My *Post*\n\nBody\n\n#rust #web\n";
    let metadata = PostMetadata { date: "2024-01-02".to_string() };
    let post = read_post("my-post", content, &metadata, &catalog).unwrap();
    assert_eq!(post.id, "my-post");
    assert_eq!(post.title, "My *Post*");
    assert_eq!(post.date, "2024-01-02");
    assert_eq!(post.tags, vec!["rust", "web"]);
    assert_eq!(
        post.content_html,
        "<p>Body</p>\n<p class=\"post-hashtags\"><a href=\"/index.html#rust\">#rust</a> <a href=\"/index.html#web\">#web</a></p>\n"
    );
}

#[test]
fn source_without_frontmatter_is_all_markdown() {
    let catalog = SyntaxCatalog::new(None);
    let post = read_post("p", "# T\n\nx\n", &PostMetadata::empty(), &catalog).unwrap();
    assert_eq!(post.title, "T");
    assert_eq!(post.date, "");
    assert_eq!(post.tags, Vec::<String>::new());
    assert_eq!(post.content_html, "<p>x</p>\n");
}

#[test]
fn source_without_title_gives_no_post() {
    let catalog = SyntaxCatalog::new(None);
    assert!(read_post("p", "text only\n", &PostMetadata::empty(), &catalog).is_none());
    assert!(read_post("p", "---\ndate: x\n---\n## h2\n", &PostMetadata::empty(), &catalog)
        .is_none());
    assert!(read_post("p", "#   \n", &PostMetadata::empty(), &catalog).is_none());
}

#[test]
fn tag_set_is_sorted_and_without_repeats() {
    let posts = vec![post("1", &["web", "Rust", "a"]), post("2", &[]), post("3", &["rust", "web", "ab"])];
    assert_eq!(extract_all_tags(&posts), vec!["Rust", "a", "ab", "rust", "web"]);
    assert_eq!(extract_all_tags(&[]), Vec::<String>::new());
}

#[test]
fn tag_set_does_not_depend_on_the_order_of_posts() {
    let one = vec![post("1", &["b", "a"]), post("2", &["c", "b"])];
    let other = vec![post("2", &["b", "c"]), post("3", &["a"]), post("1", &["a", "b", "a"])];
    assert_eq!(extract_all_tags(&one), extract_all_tags(&other));
    assert_eq!(extract_all_tags(&one), vec!["a", "b", "c"]);
}

#[test]
fn related_posts_are_sampled_from_the_first_ten() {
    let mut posts = vec![post("current", &["t", "u"])];
    for n in 0..12 {
        posts.push(post(&format!("c{}", n), &["x", "t"]));
    }
    let related = get_related_posts(&posts, "current", &["t".to_string(), "u".to_string()], 3);
    assert_eq!(ids(&related), vec!["c0", "c1", "c6"]);
    assert_eq!(related[2].title, "Title of c6");
    assert_eq!(related[2].date, "2024-01-02");
    assert_eq!(related[2].tags, vec!["x", "t"]);
}

#[test]
fn related_posts_share_the_first_tag_only() {
    let posts = vec![
        post("a", &["t"]),
        post("b", &["u", "t"]),
        post("c", &["u"]),
        post("me", &["t"]),
        post("d", &["T"]),
    ];
    let tags = vec!["t".to_string(), "u".to_string()];
    assert_eq!(ids(&get_related_posts(&posts, "me", &tags, 3)), vec!["a", "b"]);
    assert_eq!(ids(&get_related_posts(&posts, "me", &[], 3)), Vec::<String>::new());
    assert_eq!(ids(&get_related_posts(&posts, "me", &["none".to_string()], 3)), Vec::<String>::new());
}

#[test]
fn related_posts_up_to_the_limit_are_all_returned() {
    let mut posts = Vec::new();
    for n in 0..5 {
        posts.push(post(&format!("c{}", n), &["t"]));
    }
    let tags = vec!["t".to_string()];
    assert_eq!(ids(&get_related_posts(&posts, "x", &tags, 5)), vec!["c0", "c1", "c2", "c3", "c4"]);
    assert_eq!(ids(&get_related_posts(&posts, "x", &tags, 4)), vec!["c0", "c1", "c3"]);
    assert_eq!(ids(&get_related_posts(&posts, "x", &tags, 3)), vec!["c0", "c1", "c3"]);
    assert_eq!(ids(&get_related_posts(&posts[..4], "x", &tags, 3)), vec!["c0", "c1", "c3"]);
    assert_eq!(ids(&get_related_posts(&posts[..3], "x", &tags, 2)), vec!["c0", "c1", "c2"]);
    assert_eq!(ids(&get_related_posts(&posts[..2], "x", &tags, 1)), vec!["c0", "c1"]);
    assert_eq!(ids(&get_related_posts(&posts[..1], "x", &tags, 0)), vec!["c0"]);
}

#[test]
fn summaries_keep_the_order_of_posts() {
    let posts = vec![post("b", &["t"]), post("a", &[])];
    let list = summaries(&posts);
    assert_eq!(ids(&list), vec!["b", "a"]);
    assert_eq!(list[0].tags, vec!["t"]);
    assert_eq!(list[1].title, "Title of a");
}

#[test]
fn posts_are_put_newest_first() {
    let dated = |id: &str, date: &str| {
        let mut p = post(id, &[]);
        p.date = date.to_string();
        p
    };
    let posts = vec![
        dated("a", "2023-05-01"),
        dated("b", "2024-01-02"),
        dated("c", ""),
        dated("d", "2024-01-02"),
        dated("e", "2024-11-30"),
        dated("f", "2023-05-01"),
    ];
    let sorted = newest_first(posts.clone());
    let order: Vec<String> = sorted.iter().map(|p| p.id.clone()).collect();
    assert_eq!(order, vec!["e", "b", "d", "a", "f", "c"]);
    let mut expected = posts;
    expected.sort_by(|a, b| b.date.cmp(&a.date));
    let expected: Vec<String> = expected.iter().map(|p| p.id.clone()).collect();
    assert_eq!(order, expected);
    assert!(newest_first(Vec::new()).is_empty());
}

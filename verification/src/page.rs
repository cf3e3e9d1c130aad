//! What the templates of the post pages and of the index page are filled
//! with.

use crate::dates::{date_on_page, format_date};
use crate::markup::{
    extract_headings, heading_views, headings_of, slug_of, slugify, strip_html_tags, without_tags,
    Heading,
};
use crate::post::{Post, PostModel, PostSummary, SummaryModel};
use crate::text::{
    all_to_chars, contains_str, contains_text, copy_strings, from_chars, join, joined, push_range,
    push_str, string_views, to_chars,
};
use vstd::prelude::*;

verus! {

/// `serde_json::Error`: why the encoder failed. The library asks it for its
/// message only.
#[verifier::external_type_specification]
#[verifier::external_body]
pub struct ExJsonError(serde_json::Error);

/// The JSON form of a text: the text as a JSON string. There is none where
/// the encoder fails.
pub uninterp spec fn json_of_text(text: Seq<char>) -> Option<Seq<char>>;

/// The JSON form of a list of texts: a JSON array of strings. There is none
/// where the encoder fails.
pub uninterp spec fn json_of_list(list: Seq<Seq<char>>) -> Option<Seq<char>>;

/// `serde_json::to_string` on a text.
#[verifier::external_body]
fn json_text(text: &str) -> (out: Result<String, serde_json::Error>)
    ensures
        match out {
            Ok(json) => json_of_text(text@) == Some(json@),
            Err(_) => json_of_text(text@) is None,
        },
{
    serde_json::to_string(text)
}

/// `serde_json::to_string` on a list of texts.
#[verifier::external_body]
fn json_list(list: &Vec<String>) -> (out: Result<String, serde_json::Error>)
    ensures
        match out {
            Ok(json) => json_of_list(string_views(list@)) == Some(json@),
            Err(_) => json_of_list(string_views(list@)) is None,
        },
{
    serde_json::to_string(list)
}

/// The message that an error of the JSON encoder holds, as its `Display`
/// writes it.
pub uninterp spec fn json_error_text(error: serde_json::Error) -> Seq<char>;

/// `ToString::to_string` on an error of the JSON encoder: the message that
/// its `Display` writes.
#[verifier::external_body]
fn json_error_message(error: &serde_json::Error) -> (text: String)
    ensures
        text@ == json_error_text(*error),
{
    error.to_string()
}

/// Why a page could not be prepared.
#[derive(Debug)]
pub enum PageError {
    /// A text could not be written as JSON; the encoder's message.
    Json(String),
}

impl PageError {
    /// The message of the error.
    pub fn message(&self) -> (text: String)
        ensures
            match self {
                PageError::Json(m) => text@ == "JSON error: "@ + m@,
            },
    {
        match self {
            PageError::Json(m) => {
                let mut out: Vec<char> = Vec::new();
                push_str(&mut out, "JSON error: ");
                push_str(&mut out, m.as_str());
                from_chars(&out)
            },
        }
    }
}

/// A related post, as a post page lists it.
#[derive(Debug, Clone)]
pub struct RelatedEntry {
    pub id: String,
    pub title: String,
    pub formatted_date: String,
}

/// A related post as a value.
pub struct RelatedModel {
    pub id: Seq<char>,
    pub title: Seq<char>,
    pub formatted_date: Seq<char>,
}

impl View for RelatedEntry {
    type V = RelatedModel;

    open spec fn view(&self) -> RelatedModel {
        RelatedModel { id: self.id@, title: self.title@, formatted_date: self.formatted_date@ }
    }
}

/// The entry of a related post.
pub open spec fn related_entry(summary: SummaryModel) -> RelatedModel {
    RelatedModel {
        id: summary.id,
        title: summary.title,
        formatted_date: date_on_page(summary.date),
    }
}

/// What the template of a post page is filled with.
#[derive(Debug, Clone)]
pub struct PostPage {
    pub post_title: String,
    pub post_id: String,
    pub excerpt: String,
    pub keywords: String,
    pub has_toc: bool,
    pub headings: Vec<Heading>,
    pub has_code_blocks: bool,
    pub title_id: String,
    pub formatted_date: String,
    pub content_html: String,
    pub related_posts: Vec<RelatedEntry>,
    pub post_title_json: String,
    pub title_id_json: String,
}

/// The start of a post's text that is shown where the post is linked: the
/// first 160 characters of the HTML without its tags.
pub open spec fn excerpt_of(content_html: Seq<char>) -> Seq<char> {
    let text = without_tags(content_html);
    if text.len() > 160 {
        text.take(160)
    } else {
        text
    }
}

/// The entries of a list, as values.
pub open spec fn related_views(list: Seq<RelatedEntry>) -> Seq<RelatedModel> {
    Seq::new(list.len(), |k: int| list[k]@)
}

/// The entries of the related posts.
pub open spec fn related_entries(related: Seq<PostSummary>) -> Seq<RelatedModel> {
    Seq::new(related.len(), |k: int| related_entry(related[k]@))
}

/// `page` is what the template of the page of `post` is filled with.
pub open spec fn is_page_of(page: PostPage, post: PostModel, related: Seq<PostSummary>) -> bool {
    &&& page.post_title@ == post.title
    &&& page.post_id@ == post.id
    &&& page.excerpt@ == excerpt_of(post.content_html)
    &&& page.keywords@ == joined(post.tags, ", "@)
    &&& heading_views(page.headings@) == headings_of(post.content_html)
    &&& page.has_toc == (headings_of(post.content_html).len() > 0)
    &&& page.has_code_blocks == contains_text(post.content_html, "<pre"@)
    &&& page.title_id@ == slug_of(post.title)
    &&& page.formatted_date@ == date_on_page(post.date)
    &&& page.content_html@ == post.content_html
    &&& related_views(page.related_posts@) == related_entries(related)
    &&& json_of_text(post.title) == Some(page.post_title_json@)
    &&& json_of_text(slug_of(post.title)) == Some(page.title_id_json@)
}

/// The library's error for an error of the JSON encoder: it carries the
/// encoder's message.
fn page_error(error: &serde_json::Error) -> (e: PageError)
    ensures
        match e {
            PageError::Json(message) => message@ == json_error_text(*error),
        },
{
    PageError::Json(json_error_message(error))
}

/// Prepares the page of a post: the excerpt, the keywords, the headings for
/// the table of contents, the dates as the page shows them, and the entries
/// of the related posts. Fails where the title or its slug cannot be written
/// as JSON.
pub fn generate_post_page(post: &Post, related: &[PostSummary]) -> (out: Result<
    PostPage,
    PageError,
>)
    ensures
        out is Ok <==> json_of_text(post@.title) is Some && json_of_text(slug_of(post@.title))
            is Some,
        match out {
            Ok(page) => is_page_of(page, post@, related@),
            Err(_) => true,
        },
{
    let has_code_blocks = contains_str(&to_chars(post.content_html.as_str()), "<pre");
    let text = to_chars(strip_html_tags(post.content_html.as_str()).as_str());
    let mut excerpt: Vec<char> = Vec::new();
    if text.len() > 160 {
        push_range(&mut excerpt, &text, 0, 160);
    } else {
        push_range(&mut excerpt, &text, 0, text.len());
        assert(excerpt@ == text@);
    }
    let title_id = slugify(post.title.as_str());
    let headings = extract_headings(post.content_html.as_str());
    let has_toc = headings.len() > 0;
    let keywords = from_chars(&join(&all_to_chars(post.tags.as_slice()), ", "));
    let mut related_posts: Vec<RelatedEntry> = Vec::new();
    let mut k: usize = 0;
    while k < related.len()
        invariant
            k <= related.len(),
            related_posts.len() == k,
            forall|m: int|
                0 <= m < k ==> (#[trigger] related_posts@[m])@ == related_entry(related@[m]@),
        decreases related.len() - k,
    {
        let entry = RelatedEntry {
            id: related[k].id.clone(),
            title: related[k].title.clone(),
            formatted_date: format_date(related[k].date.as_str()),
        };
        related_posts.push(entry);
        k += 1;
    }
    assert(related_views(related_posts@) =~= related_entries(related@));
    let post_title_json = match json_text(post.title.as_str()) {
        Ok(json) => json,
        Err(e) => {
            return Err(page_error(&e));
        },
    };
    let title_id_json = match json_text(title_id.as_str()) {
        Ok(json) => json,
        Err(e) => {
            return Err(page_error(&e));
        },
    };
    Ok(
        PostPage {
            post_title: post.title.clone(),
            post_id: post.id.clone(),
            excerpt: from_chars(&excerpt),
            keywords,
            has_toc,
            headings,
            has_code_blocks,
            title_id,
            formatted_date: format_date(post.date.as_str()),
            content_html: post.content_html.clone(),
            related_posts,
            post_title_json,
            title_id_json,
        },
    )
}

/// A post, as the index page lists it.
#[derive(Debug, Clone)]
pub struct IndexEntry {
    pub id: String,
    pub title: String,
    pub tags: Vec<String>,
    /// The tags as a JSON array; empty where they cannot be written as JSON.
    pub tags_json: String,
}

/// What the template of the index page is filled with.
#[derive(Debug, Clone)]
pub struct IndexPage {
    pub tags: Vec<String>,
    pub posts: Vec<IndexEntry>,
    pub year: i32,
}

/// The tags of a post as the index page holds them for its scripts.
pub open spec fn tags_json_of(tags: Seq<Seq<char>>) -> Seq<char> {
    match json_of_list(tags) {
        Some(json) => json,
        None => Seq::empty(),
    }
}

/// `entry` is the index entry of the post with the given summary.
pub open spec fn is_entry_of(entry: IndexEntry, summary: SummaryModel) -> bool {
    &&& entry.id@ == summary.id
    &&& entry.title@ == summary.title
    &&& string_views(entry.tags@) == summary.tags
    &&& entry.tags_json@ == tags_json_of(summary.tags)
}

/// Hands out the JSON text, or an empty text where the encoder failed.
pub fn json_or_empty(encoded: Result<String, serde_json::Error>) -> (out: String)
    ensures
        match encoded {
            Ok(json) => out@ == json@,
            Err(_) => out@.len() == 0,
        },
{
    match encoded {
        Ok(json) => json,
        Err(_) => String::new(),
    }
}

/// Prepares the index page: the tags of the site, the posts in the order
/// given, each with its tags as JSON, and the year of the build.
pub fn generate_index_page(posts: &[PostSummary], tags: &[String], year: i32) -> (page:
    IndexPage)
    ensures
        page.year == year,
        string_views(page.tags@) == string_views(tags@),
        page.posts.len() == posts.len(),
        forall|k: int| 0 <= k < posts.len() ==> is_entry_of(#[trigger] page.posts@[k], posts@[k]@),
{
    let mut entries: Vec<IndexEntry> = Vec::new();
    let mut k: usize = 0;
    while k < posts.len()
        invariant
            k <= posts.len(),
            entries.len() == k,
            forall|m: int| 0 <= m < k ==> is_entry_of(#[trigger] entries@[m], posts@[m]@),
        decreases posts.len() - k,
    {
        let post = &posts[k];
        let tags_json = json_or_empty(json_list(&post.tags));
        assert(tags_json@ =~= tags_json_of(string_views(post.tags@)));
        let entry = IndexEntry {
            id: post.id.clone(),
            title: post.title.clone(),
            tags: copy_strings(post.tags.as_slice()),
            tags_json,
        };
        entries.push(entry);
        k += 1;
    }
    IndexPage { tags: copy_strings(tags), posts: entries, year }
}

/// The placeholder that a template leaves where a style sheet is to be put
/// into the page.
pub open spec fn css_placeholder(path: Seq<char>) -> Seq<char> {
    "<!-- INLINE_CSS:"@ + path + " -->"@
}

/// Writes the placeholder for the style sheet at `path`.
pub fn inline_css_placeholder(path: &str) -> (out: String)
    ensures
        out@ == css_placeholder(path@),
{
    let mut out: Vec<char> = Vec::new();
    push_str(&mut out, "<!-- INLINE_CSS:");
    push_str(&mut out, path);
    push_str(&mut out, " -->");
    from_chars(&out)
}

} // verus!

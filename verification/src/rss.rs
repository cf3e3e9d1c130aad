//! The feed of a site: one item per post, with the post's content taken from
//! its finished page.

use crate::dates::{date_in_feed, format_feed_date};
use crate::patterns::{regex_replaced, regex_rest, replace_all, rest_after};
use crate::post::{post_views, Post, PostModel};
use crate::render::escaped;
use crate::rewrite::{rewrite, rewritten, Rule};
use crate::text::{
    from_chars, occurs_at, or_text, push_all, push_range, push_str, string_views, to_chars, vec_at,
};
use vstd::prelude::*;

verus! {

/// Escapes a text for XML: each of `&`, `<`, `>`, `"` and `'` is replaced by
/// its escape.
pub fn escape_xml(s: &str) -> (out: String)
    ensures
        out@ == escaped(s@),
{
    let chars = to_chars(s);
    let mut out: Vec<char> = Vec::new();
    let mut i: usize = 0;
    while i < chars.len()
        invariant
            i <= chars.len(),
            out@ == escaped(chars@.take(i as int)),
        decreases chars.len() - i,
    {
        proof {
            assert(chars@.take(i + 1).drop_last() == chars@.take(i as int));
        }
        let c = chars[i];
        if c == '&' {
            push_str(&mut out, "&amp;");
        } else if c == '<' {
            push_str(&mut out, "&lt;");
        } else if c == '>' {
            push_str(&mut out, "&gt;");
        } else if c == '"' {
            push_str(&mut out, "&quot;");
        } else if c == '\'' {
            push_str(&mut out, "&#39;");
        } else {
            out.push(c);
        }
        i += 1;
    }
    assert(chars@.take(chars.len() as int) == chars@);
    from_chars(&out)
}

/// Matches a literal text that is not empty and puts another in its place.
pub struct Literals<'a> {
    pub from: &'a str,
    pub to: &'a str,
}

impl<'a> Rule for Literals<'a> {
    open spec fn match_end(&self, s: Seq<char>, i: int) -> Option<int> {
        if self.from@.len() > 0 && occurs_at(s, i, self.from@) {
            Some(i + self.from@.len())
        } else {
            None
        }
    }

    open spec fn replacement(&self, s: Seq<char>, i: int, e: int) -> Seq<char> {
        self.to@
    }

    fn find(&self, s: &Vec<char>, i: usize) -> (r: Option<usize>) {
        let from = to_chars(self.from);
        if from.len() > 0 && vec_at(s, i, &from) {
            Some(i + from.len())
        } else {
            None
        }
    }

    fn emit(&self, s: &Vec<char>, i: usize, e: usize, out: &mut Vec<char>) {
        push_str(out, self.to);
    }
}

/// The regular expression that finds the opening tag of the element that
/// holds a page's content: a `div` with the class `markdown-content`.
pub open spec fn content_div_pattern() -> Seq<char> {
    "<div[^>]*\\bclass=[\"']?markdown-content[\"']?[^>]*>"@
}

/// An opening tag with attributes to follow: `<div `.
pub open spec fn div_open_spaced() -> Seq<char> {
    seq!['<', 'd', 'i', 'v', ' ']
}

/// An opening tag without attributes: `<div>`.
pub open spec fn div_open_bare() -> Seq<char> {
    seq!['<', 'd', 'i', 'v', '>']
}

/// A closing tag: `</div>`.
pub open spec fn div_closing() -> Seq<char> {
    seq!['<', '/', 'd', 'i', 'v', '>']
}

/// Where the `div` element ends whose content starts before `pos` with
/// `depth` elements open at `pos`: the index of the closing tag that closes
/// the outermost of them. Opening tags are `<div ` and `<div>`.
pub open spec fn div_close(s: Seq<char>, pos: int, depth: nat) -> Option<int>
    decreases s.len() - pos,
{
    if pos < 0 || pos >= s.len() || depth == 0 {
        None
    } else if occurs_at(s, pos, div_open_spaced()) {
        div_close(s, pos + 5, depth + 1)
    } else if occurs_at(s, pos, div_open_bare()) {
        div_close(s, pos + 4, depth + 1)
    } else if occurs_at(s, pos, div_closing()) {
        if depth == 1 {
            Some(pos)
        } else {
            div_close(s, pos + 6, (depth - 1) as nat)
        }
    } else {
        div_close(s, pos + 1, depth)
    }
}

/// The content of a `div` element, given the text behind its opening tag:
/// everything up to the closing tag that belongs to it, and nothing where
/// that tag is missing.
pub open spec fn div_content(rest: Seq<char>) -> Seq<char> {
    match div_close(rest, 0, 1) {
        Some(k) => rest.subrange(0, k),
        None => Seq::empty(),
    }
}

/// Cuts the content of a `div` element out of the text behind its opening
/// tag.
pub fn cut_div_content(rest: &str) -> (out: String)
    ensures
        out@ == div_content(rest@),
{
    let s = to_chars(rest);
    let open_spaced = to_chars("<div ");
    let open_bare = to_chars("<div>");
    let close = to_chars("</div>");
    proof {
        reveal_strlit("<div ");
        reveal_strlit("<div>");
        reveal_strlit("</div>");
    }
    let mut pos: usize = 0;
    let mut depth: usize = 1;
    while pos < s.len()
        invariant
            1 <= depth <= pos + 1,
            s@ == rest@,
            open_spaced@ == div_open_spaced(),
            open_bare@ == div_open_bare(),
            close@ == div_closing(),
            div_close(s@, 0, 1) == div_close(s@, pos as int, depth as nat),
        decreases s.len() - pos,
    {
        if vec_at(&s, pos, &open_spaced) {
            depth += 1;
            pos += 5;
        } else if vec_at(&s, pos, &open_bare) {
            depth += 1;
            pos += 4;
        } else if vec_at(&s, pos, &close) {
            if depth == 1 {
                let mut out: Vec<char> = Vec::new();
                push_range(&mut out, &s, 0, pos);
                return from_chars(&out);
            }
            depth -= 1;
            pos += 6;
        } else {
            pos += 1;
        }
    }
    String::new()
}

/// The content of a page: what its `div` element with the class
/// `markdown-content` holds, and nothing where the page has no such element.
pub open spec fn page_content(html: Seq<char>) -> Seq<char> {
    match regex_rest(content_div_pattern(), html) {
        Some(rest) => div_content(rest),
        None => Seq::empty(),
    }
}

/// Cuts the content of a post out of its page.
pub fn extract_content_from_html(html: &str) -> (out: String)
    ensures
        out@ == page_content(html@),
{
    match rest_after("<div[^>]*\\bclass=[\"']?markdown-content[\"']?[^>]*>", html) {
        Some(rest) => cut_div_content(rest.as_str()),
        None => String::new(),
    }
}

/// The regular expression that finds the opening tag of a highlighted span.
pub open spec fn token_span_pattern() -> Seq<char> {
    "<span[^>]*class=\"token[^\"]*\"[^>]*>"@
}

/// The regular expression that finds the opening tags of a highlight
/// envelope.
pub open spec fn envelope_pattern() -> Seq<char> {
    "<div class=\"remark-highlight\"><pre class=\"language-[^\"]*\"><code class=\"language-[^\"]*\">"@
}

/// What a replacement by a regular expression gives, or the text itself
/// where the expression cannot be used.
pub open spec fn replaced_or_same(found: Option<Seq<char>>, text: Seq<char>) -> Seq<char> {
    match found {
        Some(t) => t,
        None => text,
    }
}

/// Content without highlighting: `without_spans` is the content with the
/// opening tags of highlighted spans taken out, and `plain_blocks` gives,
/// for a text, that text with the opening tags of each highlight envelope
/// replaced by `<pre><code>`. The closing tags of spans go, and the closing
/// tags of an envelope become `</code></pre>`.
pub open spec fn cleaned(html: Seq<char>) -> Seq<char> {
    let a = replaced_or_same(regex_replaced(token_span_pattern(), html, ""@), html);
    let b = rewritten(&Literals { from: "</span>", to: "" }, a);
    let c = replaced_or_same(regex_replaced(envelope_pattern(), b, "<pre><code>"@), b);
    rewritten(&Literals { from: "</code></pre></div>", to: "</code></pre>" }, c)
}

/// Replaces every occurrence of the literal `from` in `text` by `to`. An
/// empty `from` occurs nowhere.
pub fn replace_literal(text: &str, from: &'static str, to: &'static str) -> (out: String)
    ensures
        out@ == rewritten(&Literals { from, to }, text@),
{
    from_chars(&rewrite(&Literals { from, to }, &to_chars(text)))
}

/// Takes the highlighting out of the content of a post: spans go, and
/// highlight envelopes become plain code blocks.
pub fn clean_content_for_rss(html: &str) -> (out: String)
    ensures
        out@ == cleaned(html@),
{
    let a = or_text(replace_all("<span[^>]*class=\"token[^\"]*\"[^>]*>", html, ""), html);
    let b = replace_literal(a.as_str(), "</span>", "");
    let c = or_text(
        replace_all(
            "<div class=\"remark-highlight\"><pre class=\"language-[^\"]*\"><code class=\"language-[^\"]*\">",
            b.as_str(),
            "<pre><code>",
        ),
        b.as_str(),
    );
    replace_literal(c.as_str(), "</code></pre></div>", "</code></pre>")
}

/// The head of the feed. `now` is the time of the build.
pub open spec fn feed_head(now: Seq<char>) -> Seq<char> {
    "<?xml version=\"1.0\" encoding=\"UTF-8\"?>\n<rss version=\"2.0\" xmlns:atom=\"http://www.w3.org/2005/Atom\" xmlns:content=\"http://purl.org/rss/1.0/modules/content/\">\n  <channel>\n    <title>"@
        + escaped("Sean's Blog"@)
        + "</title>\n    <description>Another place for thought infusion</description>\n    <link>https://seanpedersen.github.io</link>\n    <atom:link href=\"https://seanpedersen.github.io/rss.xml\" rel=\"self\" type=\"application/rss+xml\" />\n    <language>en</language>\n    <pubDate>"@
        + now + "</pubDate>\n    <lastBuildDate>"@ + now
        + "</lastBuildDate>\n    <generator>Custom RSS Generator</generator>\n    <managingEditor>Sean Pedersen</managingEditor>\n    <webMaster>Sean Pedersen</webMaster>\n    <ttl>60</ttl>\n"@
}

/// The address of a post.
pub open spec fn post_url(id: Seq<char>) -> Seq<char> {
    "https://seanpedersen.github.io/posts/"@ + id
}

/// The category elements of the first `n` tags.
pub open spec fn feed_categories(tags: Seq<Seq<char>>, n: int) -> Seq<char>
    decreases n,
{
    if n <= 0 || n > tags.len() {
        Seq::empty()
    } else {
        feed_categories(tags, n - 1) + "      <category>"@ + escaped(tags[n - 1])
            + "</category>\n"@
    }
}

/// The item of a post. `page` is the post's finished page.
pub open spec fn feed_item(post: PostModel, page: Seq<char>) -> Seq<char> {
    "    <item>\n      <title>"@ + escaped(post.title) + "</title>\n      <link>"@ + post_url(
        post.id,
    ) + "</link>\n      <guid isPermaLink=\"true\">"@ + post_url(post.id)
        + "</guid>\n      <pubDate>"@ + date_in_feed(post.date)
        + "</pubDate>\n      <author>Sean Pedersen</author>\n"@ + feed_categories(
        post.tags,
        post.tags.len() as int,
    ) + "      <content:encoded><![CDATA["@ + cleaned(page_content(page))
        + "]]></content:encoded>\n    </item>\n"@
}

/// The page of the post with the number `k`, or an empty page where the
/// list has none for it.
pub open spec fn page_at(pages: Seq<Seq<char>>, k: int) -> Seq<char> {
    if 0 <= k < pages.len() {
        pages[k]
    } else {
        Seq::empty()
    }
}

/// The items of the first `n` posts.
pub open spec fn feed_items(posts: Seq<PostModel>, pages: Seq<Seq<char>>, n: int) -> Seq<char>
    decreases n,
{
    if n <= 0 || n > posts.len() {
        Seq::empty()
    } else {
        feed_items(posts, pages, n - 1) + feed_item(posts[n - 1], page_at(pages, n - 1))
    }
}

/// The feed: head, one item per post, and the closing tags.
pub open spec fn feed(posts: Seq<PostModel>, pages: Seq<Seq<char>>, now: Seq<char>) -> Seq<char> {
    feed_head(now) + feed_items(posts, pages, posts.len() as int) + "  </channel>\n</rss>"@
}

fn push_item(out: &mut Vec<char>, post: &Post, page: &str)
    ensures
        final(out)@ == old(out)@ + feed_item(post@, page@),
{
    let title = escape_xml(post.title.as_str());
    let date = format_feed_date(post.date.as_str());
    let content = clean_content_for_rss(extract_content_from_html(page).as_str());
    let mut item: Vec<char> = Vec::new();
    push_str(&mut item, "    <item>\n      <title>");
    push_str(&mut item, title.as_str());
    push_str(&mut item, "</title>\n      <link>");
    push_str(&mut item, "https://seanpedersen.github.io/posts/");
    push_str(&mut item, post.id.as_str());
    push_str(&mut item, "</link>\n      <guid isPermaLink=\"true\">");
    push_str(&mut item, "https://seanpedersen.github.io/posts/");
    push_str(&mut item, post.id.as_str());
    push_str(&mut item, "</guid>\n      <pubDate>");
    push_str(&mut item, date.as_str());
    push_str(&mut item, "</pubDate>\n      <author>Sean Pedersen</author>\n");
    let ghost head = item@;
    let ghost tags = string_views(post.tags@);
    let mut k: usize = 0;
    while k < post.tags.len()
        invariant
            k <= post.tags.len(),
            tags == string_views(post.tags@),
            item@ == head + feed_categories(tags, k as int),
        decreases post.tags.len() - k,
    {
        let tag = escape_xml(post.tags[k].as_str());
        push_str(&mut item, "      <category>");
        push_str(&mut item, tag.as_str());
        push_str(&mut item, "</category>\n");
        k += 1;
    }
    push_str(&mut item, "      <content:encoded><![CDATA[");
    push_str(&mut item, content.as_str());
    push_str(&mut item, "]]></content:encoded>\n    </item>\n");
    push_all(out, &item);
}

/// Writes the feed of a site. `pages[i]` is the finished page of `posts[i]`;
/// a post without a page gets an item without content. `now` is the time of
/// the build, as the feed is to show it.
pub fn generate_rss(posts: &[Post], pages: &[String], now: &str) -> (out: String)
    ensures
        out@ == feed(post_views(posts@), string_views(pages@), now@),
{
    let title = escape_xml("Sean's Blog");
    let mut out: Vec<char> = Vec::new();
    push_str(
        &mut out,
        "<?xml version=\"1.0\" encoding=\"UTF-8\"?>\n<rss version=\"2.0\" xmlns:atom=\"http://www.w3.org/2005/Atom\" xmlns:content=\"http://purl.org/rss/1.0/modules/content/\">\n  <channel>\n    <title>",
    );
    push_str(&mut out, title.as_str());
    push_str(
        &mut out,
        "</title>\n    <description>Another place for thought infusion</description>\n    <link>https://seanpedersen.github.io</link>\n    <atom:link href=\"https://seanpedersen.github.io/rss.xml\" rel=\"self\" type=\"application/rss+xml\" />\n    <language>en</language>\n    <pubDate>",
    );
    push_str(&mut out, now);
    push_str(&mut out, "</pubDate>\n    <lastBuildDate>");
    push_str(&mut out, now);
    push_str(
        &mut out,
        "</lastBuildDate>\n    <generator>Custom RSS Generator</generator>\n    <managingEditor>Sean Pedersen</managingEditor>\n    <webMaster>Sean Pedersen</webMaster>\n    <ttl>60</ttl>\n",
    );
    let ghost all = post_views(posts@);
    let ghost texts = string_views(pages@);
    let mut n: usize = 0;
    while n < posts.len()
        invariant
            n <= posts.len(),
            all == post_views(posts@),
            texts == string_views(pages@),
            out@ == feed_head(now@) + feed_items(all, texts, n as int),
        decreases posts.len() - n,
    {
        if n < pages.len() {
            push_item(&mut out, &posts[n], pages[n].as_str());
        } else {
            push_item(&mut out, &posts[n], "");
            assert(""@ =~= Seq::<char>::empty()) by {
                reveal_strlit("");
            }
        }
        n += 1;
    }
    push_str(&mut out, "  </channel>\n</rss>");
    from_chars(&out)
}

} // verus!

//! Posts: what a source file says about its post, the tags of a site, and
//! the posts related to a post.

use crate::hashtags::HashtagAnchors;
use crate::lexical::{
    ascending, before, comes_before, insert_ascending, lemma_ascending_unique,
    lemma_before_irreflexive, lemma_before_transitive,
};
use crate::markdown::{markdown_to_html, page_html, parsed_events};
use crate::patterns::{captures, regex_groups};
use crate::rewrite::Rule;
use crate::syntaxes::SyntaxCatalog;
use crate::text::{
    all_from_chars, copy_strings, filled, from_chars, is_filled, join, joined, lines, listed,
    occurs_at, opt_view, push_range, same_chars, split_lines, string_views, to_chars, trim, trimmed,
    vec_at, vec_views,
};
use vstd::prelude::*;

verus! {

/// What the metadata block of a source file says.
#[derive(Debug, Clone)]
pub struct PostMetadata {
    pub date: String,
}

/// A post.
#[derive(Debug, Clone)]
pub struct Post {
    pub id: String,
    pub title: String,
    pub date: String,
    pub tags: Vec<String>,
    pub content_html: String,
}

/// What listings show of a post.
#[derive(Debug, Clone)]
pub struct PostSummary {
    pub id: String,
    pub title: String,
    pub date: String,
    pub tags: Vec<String>,
}

/// A post as a value.
pub struct PostModel {
    pub id: Seq<char>,
    pub title: Seq<char>,
    pub date: Seq<char>,
    pub tags: Seq<Seq<char>>,
    pub content_html: Seq<char>,
}

/// A summary as a value.
pub struct SummaryModel {
    pub id: Seq<char>,
    pub title: Seq<char>,
    pub date: Seq<char>,
    pub tags: Seq<Seq<char>>,
}

impl View for Post {
    type V = PostModel;

    open spec fn view(&self) -> PostModel {
        PostModel {
            id: self.id@,
            title: self.title@,
            date: self.date@,
            tags: string_views(self.tags@),
            content_html: self.content_html@,
        }
    }
}

impl View for PostSummary {
    type V = SummaryModel;

    open spec fn view(&self) -> SummaryModel {
        SummaryModel {
            id: self.id@,
            title: self.title@,
            date: self.date@,
            tags: string_views(self.tags@),
        }
    }
}

/// The posts of a list, as values.
pub open spec fn post_views(posts: Seq<Post>) -> Seq<PostModel> {
    Seq::new(posts.len(), |i: int| posts[i]@)
}

/// The summary of a post.
pub open spec fn summary_of(post: PostModel) -> SummaryModel {
    SummaryModel { id: post.id, title: post.title, date: post.date, tags: post.tags }
}

impl PostMetadata {
    /// The metadata of a post whose source file says nothing: no date.
    pub fn empty() -> (m: PostMetadata)
        ensures
            m.date@.len() == 0,
    {
        PostMetadata { date: String::new() }
    }
}

impl Post {
    /// The summary of the post.
    pub fn summary(&self) -> (s: PostSummary)
        ensures
            s@ == summary_of(self@),
    {
        PostSummary {
            id: self.id.clone(),
            title: self.title.clone(),
            date: self.date.clone(),
            tags: copy_strings(self.tags.as_slice()),
        }
    }
}

/// The regular expression that splits a source file into its metadata block
/// and its markdown: the block stands between two lines of three hyphens at
/// the start of the file.
pub open spec fn frontmatter_pattern() -> Seq<char> {
    "(?s)^---\\s*\\n(.*?)\\n---\\s*\\n(.*)$"@
}

/// The metadata block of a source file and the markdown behind it, where the
/// file has such a block.
pub open spec fn frontmatter_of(content: Seq<char>) -> Option<(Seq<char>, Seq<char>)> {
    match regex_groups(frontmatter_pattern(), content) {
        Some(groups) => if groups.len() == 3 && groups[1] is Some && groups[2] is Some {
            Some((groups[1]->0, groups[2]->0))
        } else {
            None
        },
        None => None,
    }
}

/// The markdown of a source file: what follows the metadata block, or the
/// whole file where it has no such block.
pub open spec fn markdown_part(content: Seq<char>) -> Seq<char> {
    match frontmatter_of(content) {
        Some((_, markdown)) => markdown,
        None => content,
    }
}

/// Picks the metadata block and the markdown out of the groups of a match of
/// the frontmatter pattern.
pub fn frontmatter_from_groups(groups: Option<Vec<Option<String>>>) -> (parts: Option<
    (String, String),
>)
    ensures
        match parts {
            Some((block, markdown)) => groups is Some && groups->0.len() == 3 && groups->0[1]
                == Some(block) && groups->0[2] == Some(markdown),
            None => !(groups is Some && groups->0.len() == 3 && groups->0[1] is Some
                && groups->0[2] is Some),
        },
{
    match groups {
        Some(mut found) => {
            if found.len() != 3 {
                return None;
            }
            let markdown = found.pop();
            let block = found.pop();
            match (block, markdown) {
                (Some(Some(b)), Some(Some(m))) => Some((b, m)),
                _ => None,
            }
        },
        None => None,
    }
}

/// The metadata block of a source file, where it has one.
pub open spec fn metadata_block(content: Seq<char>) -> Option<Seq<char>> {
    match frontmatter_of(content) {
        Some((block, _)) => Some(block),
        None => None,
    }
}

/// Splits a source file into its metadata block and its markdown. A file
/// that does not start with a metadata block has none, and is markdown as a
/// whole.
pub fn parse_frontmatter(content: &str) -> (parts: (Option<String>, String))
    ensures
        opt_view(parts.0) == metadata_block(content@),
        parts.1@ == markdown_part(content@),
{
    let groups = captures("(?s)^---\\s*\\n(.*?)\\n---\\s*\\n(.*)$", content);
    match frontmatter_from_groups(groups) {
        Some((block, markdown)) => (Some(block), markdown),
        None => (None, content.to_owned()),
    }
}

/// A line that holds a title: it starts with `# `.
pub open spec fn is_title_line(line: Seq<char>) -> bool {
    occurs_at(line, 0, "# "@)
}

/// The index of the first title line at or after `from`, or the number of
/// lines.
pub open spec fn title_index(ls: Seq<Seq<char>>, from: int) -> int
    decreases ls.len() - from,
{
    if from < 0 || from >= ls.len() {
        ls.len() as int
    } else if is_title_line(ls[from]) {
        from
    } else {
        title_index(ls, from + 1)
    }
}

/// The first title line lies among the lines, if there is one.
pub proof fn lemma_title_index(ls: Seq<Seq<char>>, from: int)
    requires
        0 <= from <= ls.len(),
    ensures
        from <= title_index(ls, from) <= ls.len(),
        title_index(ls, from) < ls.len() ==> is_title_line(ls[title_index(ls, from)]),
    decreases ls.len() - from,
{
    if from < ls.len() && !is_title_line(ls[from]) {
        lemma_title_index(ls, from + 1);
    }
}

/// The title of a markdown text: what the first title line holds behind its
/// `# `, without white space around it; empty where no line is a title line.
pub open spec fn title_of(markdown: Seq<char>) -> Seq<char> {
    let ls = lines(markdown);
    let k = title_index(ls, 0);
    if 0 <= k < ls.len() {
        trimmed(ls[k].subrange("# "@.len() as int, ls[k].len() as int))
    } else {
        Seq::empty()
    }
}

/// The markdown text without its first title line: the other lines, joined
/// by line feeds.
pub open spec fn without_title(markdown: Seq<char>) -> Seq<char> {
    let ls = lines(markdown);
    let k = title_index(ls, 0);
    if 0 <= k < ls.len() {
        joined(ls.remove(k), "\n"@)
    } else {
        joined(ls, "\n"@)
    }
}

fn find_title_line(all: &Vec<Vec<char>>) -> (k: usize)
    ensures
        k == title_index(vec_views(all@), 0),
        k <= all.len(),
{
    let mark = to_chars("# ");
    let ghost ls = vec_views(all@);
    let mut k: usize = 0;
    while k < all.len() && !vec_at(&all[k], 0, &mark)
        invariant
            k <= all.len(),
            mark@ == "# "@,
            ls == vec_views(all@),
            title_index(ls, 0) == title_index(ls, k as int),
        decreases all.len() - k,
    {
        k += 1;
    }
    k
}

/// Reads the title of a markdown text.
pub fn extract_title(markdown: &str) -> (title: String)
    ensures
        title@ == title_of(markdown@),
{
    let all = split_lines(&to_chars(markdown));
    let k = find_title_line(&all);
    if k < all.len() {
        let mark = to_chars("# ");
        proof {
            lemma_title_index(vec_views(all@), 0);
        }
        let mut rest: Vec<char> = Vec::new();
        push_range(&mut rest, &all[k], mark.len(), all[k].len());
        from_chars(&trim(&rest))
    } else {
        String::new()
    }
}

/// Removes the first title line from a markdown text.
pub fn remove_first_h1(markdown: &str) -> (out: String)
    ensures
        out@ == without_title(markdown@),
{
    let mut all = split_lines(&to_chars(markdown));
    let k = find_title_line(&all);
    let ghost ls = vec_views(all@);
    if k < all.len() {
        all.remove(k);
        assert(vec_views(all@) =~= ls.remove(k as int));
    }
    from_chars(&join(&all, "\n"))
}

/// The index of the last line before `n` that holds a character other than
/// white space, or -1.
pub open spec fn last_filled(ls: Seq<Seq<char>>, n: int) -> int
    decreases n,
{
    if n <= 0 || n > ls.len() {
        -1
    } else if is_filled(ls[n - 1]) {
        n - 1
    } else {
        last_filled(ls, n - 1)
    }
}

/// The hashtags in `line[i..]`, without their `#`, in order: each is the run
/// of word characters behind a `#`, where that run is not empty.
pub open spec fn hashtags_from(line: Seq<char>, i: int) -> Seq<Seq<char>>
    decreases line.len() - i,
{
    if i < 0 || i >= line.len() {
        Seq::empty()
    } else {
        match HashtagAnchors.match_end(line, i) {
            Some(e) => if i < e <= line.len() {
                seq![line.subrange(i + 1, e)] + hashtags_from(line, e)
            } else {
                hashtags_from(line, i + 1)
            },
            None => hashtags_from(line, i + 1),
        }
    }
}

/// The tags of a source file: the hashtags of its last line that is not
/// blank.
pub open spec fn tags_of(content: Seq<char>) -> Seq<Seq<char>> {
    let ls = lines(content);
    let k = last_filled(ls, ls.len() as int);
    if 0 <= k < ls.len() {
        hashtags_from(ls[k], 0)
    } else {
        Seq::empty()
    }
}

fn hashtags_in(line: &Vec<char>) -> (tags: Vec<Vec<char>>)
    ensures
        vec_views(tags@) == hashtags_from(line@, 0),
{
    let mut tags: Vec<Vec<char>> = Vec::new();
    let mut i: usize = 0;
    while i < line.len()
        invariant
            i <= line.len(),
            vec_views(tags@) + hashtags_from(line@, i as int) == hashtags_from(line@, 0),
        decreases line.len() - i,
    {
        match HashtagAnchors.find(line, i) {
            Some(e) => {
                let mut tag: Vec<char> = Vec::new();
                push_range(&mut tag, line, i + 1, e);
                tags.push(tag);
                i = e;
            },
            None => {
                i += 1;
            },
        }
    }
    tags
}

/// Reads the tags of a source file.
pub fn extract_tags(content: &str) -> (tags: Vec<String>)
    ensures
        string_views(tags@) == tags_of(content@),
{
    let all = split_lines(&to_chars(content));
    let ghost ls = vec_views(all@);
    let mut n: usize = all.len();
    while n > 0 && !filled(&all[n - 1])
        invariant
            n <= all.len(),
            ls == vec_views(all@),
            last_filled(ls, all.len() as int) == last_filled(ls, n as int),
        decreases n,
    {
        n -= 1;
    }
    if n > 0 {
        all_from_chars(&hashtags_in(&all[n - 1]))
    } else {
        let none: Vec<String> = Vec::new();
        none
    }
}

/// The markdown of a source file that becomes the post's HTML: the markdown
/// without its title line.
pub open spec fn body_of(content: Seq<char>) -> Seq<char> {
    without_title(markdown_part(content))
}

/// Builds the post of a source file. `id` is the post's id, `content` the
/// file's text and `metadata` what is known of the post besides. Returns
/// nothing where the file's markdown has no title. The title line is not
/// part of the post's HTML.
pub fn read_post(id: &str, content: &str, metadata: &PostMetadata, catalog: &SyntaxCatalog) -> (post:
    Option<Post>)
    ensures
        post is None <==> title_of(markdown_part(content@)).len() == 0,
        match post {
            Some(p) => {
                &&& p.id@ == id@
                &&& p.date@ == metadata.date@
                &&& p.title@ == title_of(markdown_part(content@))
                &&& string_views(p.tags@) == tags_of(content@)
                &&& p.content_html@ == page_html(
                    catalog,
                    parsed_events(body_of(content@)),
                    tags_of(content@),
                )
            },
            None => true,
        },
{
    let (_, markdown) = parse_frontmatter(content);
    let title = extract_title(markdown.as_str());
    if title.as_str().unicode_len() == 0 {
        return None;
    }
    let tags = extract_tags(content);
    let body = remove_first_h1(markdown.as_str());
    let content_html = markdown_to_html(body.as_str(), tags.as_slice(), catalog);
    Some(Post { id: id.to_owned(), title, date: metadata.date.clone(), tags, content_html })
}

/// One of the posts has the tag `t`.
pub open spec fn tagged(posts: Seq<PostModel>, t: Seq<char>) -> bool {
    exists|p: int| 0 <= p < posts.len() && listed(#[trigger] posts[p].tags, t)
}

/// `tags` is the tag set of the posts: every tag of a post once, in
/// dictionary order.
pub open spec fn is_tag_set(posts: Seq<PostModel>, tags: Seq<Seq<char>>) -> bool {
    &&& ascending(tags)
    &&& forall|t: Seq<char>| listed(tags, t) <==> tagged(posts, t)
}

/// Collects the tags of all posts: each tag once, in dictionary order.
pub fn extract_all_tags(posts: &[Post]) -> (tags: Vec<String>)
    ensures
        is_tag_set(post_views(posts@), string_views(tags@)),
{
    let mut found: Vec<Vec<char>> = Vec::new();
    let ghost all = post_views(posts@);
    let mut p: usize = 0;
    while p < posts.len()
        invariant
            p <= posts.len(),
            all == post_views(posts@),
            ascending(vec_views(found@)),
            forall|t: Seq<char>| #[trigger]
                listed(vec_views(found@), t) <==> tagged(all.take(p as int), t),
        decreases posts.len() - p,
    {
        let post = &posts[p];
        let ghost own = string_views(post.tags@);
        let ghost at_post = vec_views(found@);
        let mut k: usize = 0;
        while k < post.tags.len()
            invariant
                k <= post.tags.len(),
                own == string_views(post.tags@),
                ascending(vec_views(found@)),
                forall|t: Seq<char>| #[trigger]
                    listed(vec_views(found@), t) <==> (listed(at_post, t) || listed(
                        own.take(k as int),
                        t,
                    )),
            decreases post.tags.len() - k,
        {
            let tag = to_chars(post.tags[k].as_str());
            insert_ascending(&mut found, tag);
            proof {
                let now = own.take(k + 1);
                assert forall|t: Seq<char>| #[trigger]
                    listed(vec_views(found@), t) <==> (listed(at_post, t) || listed(now, t)) by {
                    if t == tag@ {
                        assert(now[k as int] == t);
                    }
                }
            }
            k += 1;
        }
        proof {
            assert(own.take(k as int) == own);
            let after = all.take(p + 1);
            assert forall|t: Seq<char>| #[trigger]
                listed(vec_views(found@), t) <==> tagged(after, t) by {
                if listed(own, t) {
                    assert(after[p as int].tags == own);
                }
            }
        }
        p += 1;
    }
    assert(all.take(p as int) == all);
    all_from_chars(&found)
}

/// The tag set of a site depends on which tags its posts have and on nothing
/// else: two lists of posts with the same tags, in whatever order and
/// however often, have the same tag set.
pub proof fn lemma_tag_set_by_tags_alone(
    a: Seq<PostModel>,
    b: Seq<PostModel>,
    tags_a: Seq<Seq<char>>,
    tags_b: Seq<Seq<char>>,
)
    requires
        is_tag_set(a, tags_a),
        is_tag_set(b, tags_b),
        forall|t: Seq<char>| tagged(a, t) <==> tagged(b, t),
    ensures
        tags_a == tags_b,
{
    lemma_ascending_unique(tags_a, tags_b);
}

/// A post is a candidate for the related posts of another: it is not that
/// post and has the tag.
pub open spec fn is_candidate(post: PostModel, current_id: Seq<char>, tag: Seq<char>) -> bool {
    post.id != current_id && listed(post.tags, tag)
}

/// The indices of the candidates among the posts, in order.
pub open spec fn candidates(posts: Seq<PostModel>, current_id: Seq<char>, tag: Seq<char>) -> Seq<
    int,
>
    decreases posts.len(),
{
    if posts.len() == 0 {
        Seq::empty()
    } else if is_candidate(posts.last(), current_id, tag) {
        candidates(posts.drop_last(), current_id, tag).push(posts.len() - 1)
    } else {
        candidates(posts.drop_last(), current_id, tag)
    }
}

/// At most the first ten of a list.
pub open spec fn capped(list: Seq<int>) -> Seq<int> {
    if list.len() > 10 {
        list.take(10)
    } else {
        list
    }
}

/// The sample that is shown of a list of candidates: all of them where they
/// are no more than `limit`; else the first two and, of those that remain,
/// the one in the middle (at half their number, rounded down).
pub open spec fn sampled(list: Seq<int>, limit: int) -> Seq<int> {
    if list.len() <= limit || list.len() <= 2 {
        list
    } else {
        seq![list[0], list[1], list[2 + (list.len() - 2) / 2]]
    }
}

/// The indices of the posts related to a post with the given id and tags:
/// none where it has no tag; else a sample of the first ten other posts that
/// have its first tag.
pub open spec fn related_indices(
    posts: Seq<PostModel>,
    current_id: Seq<char>,
    tags: Seq<Seq<char>>,
    limit: int,
) -> Seq<int> {
    if tags.len() == 0 {
        Seq::empty()
    } else {
        sampled(capped(candidates(posts, current_id, tags[0])), limit)
    }
}

/// Candidates are indices of posts that are candidates, in ascending order.
pub proof fn lemma_candidates(posts: Seq<PostModel>, current_id: Seq<char>, tag: Seq<char>)
    ensures
        forall|k: int|
            0 <= k < candidates(posts, current_id, tag).len() ==> {
                let p = #[trigger] candidates(posts, current_id, tag)[k];
                0 <= p < posts.len() && is_candidate(posts[p], current_id, tag)
            },
        forall|j: int, k: int|
            0 <= j < k < candidates(posts, current_id, tag).len() ==> candidates(
                posts,
                current_id,
                tag,
            )[j] < candidates(posts, current_id, tag)[k],
    decreases posts.len(),
{
    if posts.len() > 0 {
        lemma_candidates(posts.drop_last(), current_id, tag);
        let rest = candidates(posts.drop_last(), current_id, tag);
        let all = candidates(posts, current_id, tag);
        assert forall|k: int| 0 <= k < all.len() implies {
            let p = #[trigger] all[k];
            0 <= p < posts.len() && is_candidate(posts[p], current_id, tag)
        } by {
        }
    }
}

/// The posts related to a post are other posts that have its first tag, in
/// the order of the collection.
pub proof fn lemma_related_are_other_posts_with_the_tag(
    posts: Seq<PostModel>,
    current_id: Seq<char>,
    tags: Seq<Seq<char>>,
    limit: int,
)
    ensures
        forall|k: int|
            0 <= k < related_indices(posts, current_id, tags, limit).len() ==> {
                let p = #[trigger] related_indices(posts, current_id, tags, limit)[k];
                0 <= p < posts.len() && posts[p].id != current_id && listed(posts[p].tags, tags[0])
            },
        forall|j: int, k: int|
            0 <= j < k < related_indices(posts, current_id, tags, limit).len()
                ==> related_indices(posts, current_id, tags, limit)[j] < related_indices(
                posts,
                current_id,
                tags,
                limit,
            )[k],
{
    if tags.len() > 0 {
        lemma_candidates(posts, current_id, tags[0]);
    }
}

/// A sample holds at most three posts, or at most `limit`.
pub proof fn lemma_sample_size(list: Seq<int>, limit: int)
    ensures
        sampled(list, limit).len() <= 3 || sampled(list, limit).len() <= limit,
        limit >= 3 ==> sampled(list, limit).len() <= limit,
{
}

fn text_equal(a: &str, b: &str) -> (r: bool)
    ensures
        r == (a@ == b@),
{
    same_chars(&to_chars(a), &to_chars(b))
}

fn has_tag(tags: &Vec<String>, tag: &str) -> (r: bool)
    ensures
        r == listed(string_views(tags@), tag@),
{
    let mut k: usize = 0;
    while k < tags.len()
        invariant
            k <= tags.len(),
            forall|m: int| 0 <= m < k ==> string_views(tags@)[m] != tag@,
        decreases tags.len() - k,
    {
        if text_equal(tags[k].as_str(), tag) {
            assert(string_views(tags@)[k as int] == tag@);
            return true;
        }
        k += 1;
    }
    false
}

/// The views of the posts at the given indices.
pub open spec fn summaries_at(posts: Seq<PostModel>, indices: Seq<int>) -> Seq<SummaryModel> {
    Seq::new(indices.len(), |k: int| summary_of(posts[indices[k]]))
}

/// The summaries of a list, as values.
pub open spec fn summary_views(list: Seq<PostSummary>) -> Seq<SummaryModel> {
    Seq::new(list.len(), |k: int| list[k]@)
}

/// Picks the posts related to the post with the id `current_id` and the tags
/// `tags`: other posts that have its first tag.
pub fn get_related_posts(all_posts: &[Post], current_id: &str, tags: &[String], limit: usize) -> (
    related: Vec<PostSummary>
)
    ensures
        summary_views(related@) == summaries_at(
            post_views(all_posts@),
            related_indices(
                post_views(all_posts@),
                current_id@,
                string_views(tags@),
                limit as int,
            ),
        ),
        related.len() <= 3 || related.len() <= limit,
{
    let mut related: Vec<PostSummary> = Vec::new();
    if tags.len() == 0 {
        return related;
    }
    let first_tag = &tags[0];
    let ghost posts = post_views(all_posts@);
    let ghost tag = first_tag@;
    let mut found: Vec<usize> = Vec::new();
    let mut p: usize = 0;
    while p < all_posts.len()
        invariant
            p <= all_posts.len(),
            posts == post_views(all_posts@),
            tag == first_tag@,
            found.len() <= 10,
            found@.map_values(|i: usize| i as int) == capped(
                candidates(posts.take(p as int), current_id@, tag),
            ),
        decreases all_posts.len() - p,
    {
        let post = &all_posts[p];
        proof {
            assert(posts.take(p + 1).drop_last() == posts.take(p as int));
        }
        let ghost before = found@.map_values(|i: usize| i as int);
        if !text_equal(post.id.as_str(), current_id) && has_tag(&post.tags, first_tag.as_str()) {
            if found.len() < 10 {
                found.push(p);
                assert(found@.map_values(|i: usize| i as int) =~= before.push(p as int));
            }
        }
        p += 1;
    }
    assert(posts.take(p as int) == posts);
    let ghost list = found@.map_values(|i: usize| i as int);
    proof {
        lemma_candidates(posts, current_id@, tag);
        assert forall|k: int| 0 <= k < found.len() implies found@[k] < all_posts.len() by {
            assert(list[k] == found@[k] as int);
        }
    }
    let n = found.len();
    if n <= limit || n <= 2 {
        let mut k: usize = 0;
        while k < n
            invariant
                k <= n,
                n == found.len(),
                related.len() == k,
                posts == post_views(all_posts@),
                forall|m: int| 0 <= m < found.len() ==> found@[m] < all_posts.len(),
                forall|m: int| 0 <= m < k ==> (#[trigger] related@[m])@ == summary_of(
                    posts[found@[m] as int],
                ),
            decreases n - k,
        {
            related.push(all_posts[found[k]].summary());
            k += 1;
        }
    } else {
        let middle = 2 + (n - 2) / 2;
        related.push(all_posts[found[0]].summary());
        related.push(all_posts[found[1]].summary());
        related.push(all_posts[found[middle]].summary());
    }
    related
}

/// The summaries of the posts, in order.
pub fn summaries(posts: &[Post]) -> (list: Vec<PostSummary>)
    ensures
        list.len() == posts.len(),
        forall|k: int| 0 <= k < posts.len() ==> (#[trigger] list@[k])@ == summary_of(posts@[k]@),
{
    let mut list: Vec<PostSummary> = Vec::new();
    let mut k: usize = 0;
    while k < posts.len()
        invariant
            k <= posts.len(),
            list.len() == k,
            forall|m: int| 0 <= m < k ==> (#[trigger] list@[m])@ == summary_of(posts@[m]@),
        decreases posts.len() - k,
    {
        list.push(posts[k].summary());
        k += 1;
    }
    list
}

/// No post of the list is older than one behind it: the dates do not ascend.
pub open spec fn newest_come_first(posts: Seq<Post>) -> bool {
    forall|i: int, j: int|
        0 <= i < j < posts.len() ==> !before(#[trigger] posts[i].date@, #[trigger] posts[j].date@)
}

fn is_older(a: &Post, b: &Post) -> (r: bool)
    ensures
        r == before(a.date@, b.date@),
{
    comes_before(&to_chars(a.date.as_str()), &to_chars(b.date.as_str()))
}

/// Puts the posts in the order of their dates, the newest first. The dates
/// are compared as texts, in dictionary order.
pub fn newest_first(posts: Vec<Post>) -> (out: Vec<Post>)
    ensures
        out@.to_multiset() == posts@.to_multiset(),
        newest_come_first(out@),
{
    broadcast use vstd::seq_lib::group_to_multiset_ensures;

    let ghost all = posts@;
    let mut rest = posts;
    let mut out: Vec<Post> = Vec::new();
    while rest.len() > 0
        invariant
            out@.to_multiset().add(rest@.to_multiset()) =~= all.to_multiset(),
            newest_come_first(out@),
        decreases rest.len(),
    {
        let ghost rest_before = rest@;
        let ghost out_before = out@;
        let post = rest.remove(0);
        let mut p: usize = 0;
        while p < out.len() && !is_older(&out[p], &post)
            invariant
                p <= out.len(),
                out@ == out_before,
                forall|k: int| 0 <= k < p ==> !before(#[trigger] out@[k].date@, post.date@),
            decreases out.len() - p,
        {
            p += 1;
        }
        out.insert(p, post);
        proof {
            assert(rest@ == rest_before.remove(0));
            assert(post == rest_before[0]);
            assert(out@ == out_before.insert(p as int, post));
            let m = out@.to_multiset();
            let r = rest_before.to_multiset();
            out@.to_multiset_ensures();
            rest_before.to_multiset_ensures();
            assert(out@[p as int] == post);
            assert(out@.contains(post));
            assert(rest_before.contains(post));
            assert(m.count(post) > 0 && r.count(post) > 0);
            assert(out@.remove(p as int) =~= out_before);
            assert(out_before.to_multiset() == m.remove(post));
            assert(rest@.to_multiset() == r.remove(post));
            assert(m.add(r.remove(post)) =~= m.remove(post).add(r));
            assert forall|i: int, j: int| 0 <= i < j < out@.len() implies !before(
                #[trigger] out@[i].date@,
                #[trigger] out@[j].date@,
            ) by {
                if j == p {
                    assert(out@[i] == out_before[i]);
                } else if i == p {
                    assert(out@[j] == out_before[j - 1]);
                    let older = out_before[p as int].date@;
                    assert(before(older, post.date@));
                    if before(post.date@, out@[j].date@) {
                        lemma_before_transitive(older, post.date@, out@[j].date@);
                        if j - 1 == p {
                            lemma_before_irreflexive(older);
                        } else {
                            assert(!before(out_before[p as int].date@, out_before[j - 1].date@));
                        }
                    }
                } else {
                    let i0 = if i < p { i } else { i - 1 };
                    let j0 = if j < p { j } else { j - 1 };
                    assert(out@[i] == out_before[i0] && out@[j] == out_before[j0]);
                    assert(!before(out_before[i0].date@, out_before[j0].date@));
                }
            }
        }
    }
    assert(rest@.to_multiset() =~= vstd::multiset::Multiset::<Post>::empty());
    out
}

} // verus!

//! Hashtag paragraphs: a paragraph that holds nothing but hashtags of the
//! post's own tags becomes a row of links to the index page.

use crate::rewrite::{rewrite, rewritten, rewritten_from, Rule};
use crate::text::{
    all_to_chars, from_chars, is_listed, is_word_char, lemma_run_end, listed, occurs_at, push_all,
    push_range, push_str, run_end, skip_run, string_views, to_chars, unicode_space, vec_at,
    vec_views, CharClass,
};
use vstd::prelude::*;

verus! {

/// Matches a `#` and the run of word characters after it, if that run is not
/// empty, and wraps it in a link to the tag's anchor on the index page. The
/// link shows the hashtag as it was written.
pub struct HashtagAnchors;

impl Rule for HashtagAnchors {
    open spec fn match_end(&self, s: Seq<char>, i: int) -> Option<int> {
        let e = run_end(s, i + 1, CharClass::Word);
        if 0 <= i < s.len() && s[i] == '#' && i + 1 < e {
            Some(e)
        } else {
            None
        }
    }

    open spec fn replacement(&self, s: Seq<char>, i: int, e: int) -> Seq<char> {
        let tag = s.subrange(i + 1, e);
        "<a href=\"/index.html#"@ + tag + "\">#"@ + tag + "</a>"@
    }

    fn find(&self, s: &Vec<char>, i: usize) -> (r: Option<usize>) {
        if s[i] != '#' {
            return None;
        }
        let e = skip_run(s, i + 1, CharClass::Word);
        if i + 1 < e {
            Some(e)
        } else {
            None
        }
    }

    fn emit(&self, s: &Vec<char>, i: usize, e: usize, out: &mut Vec<char>) {
        push_str(out, "<a href=\"/index.html#");
        push_range(out, s, i + 1, e);
        push_str(out, "\">#");
        push_range(out, s, i + 1, e);
        push_str(out, "</a>");
    }
}

/// The text with every hashtag turned into a link.
pub open spec fn with_anchors(text: Seq<char>) -> Seq<char> {
    rewritten(&HashtagAnchors, text)
}

/// Where a row of hashtags that starts at `pos` ends: each hashtag is a `#`
/// and a run of word characters that is one of `tags`, white space may follow
/// each, and right after the last stands `</p>`. The result is the index of
/// that `</p>`; there is none where the text from `pos` on is not such a row.
pub open spec fn row_end(s: Seq<char>, pos: int, tags: Seq<Seq<char>>) -> Option<int>
    decreases s.len() - pos,
{
    let w = run_end(s, pos + 1, CharClass::Word);
    let next = run_end(s, w, CharClass::Space);
    if pos < 0 || pos >= s.len() || s[pos] != '#' {
        None
    } else if !(pos + 1 < w) || !listed(tags, s.subrange(pos + 1, w)) {
        None
    } else if occurs_at(s, next, "</p>"@) {
        Some(next)
    } else if next <= pos || next > s.len() {
        None
    } else {
        row_end(s, next, tags)
    }
}

/// A row of hashtags ends after its start and inside the text.
pub proof fn lemma_row_end(s: Seq<char>, pos: int, tags: Seq<Seq<char>>)
    requires
        0 <= pos <= s.len(),
    ensures
        row_end(s, pos, tags) is Some ==> pos < row_end(s, pos, tags)->0 <= s.len(),
    decreases s.len() - pos,
{
    if pos < s.len() {
        lemma_run_end(s, pos + 1, CharClass::Word);
        let w = run_end(s, pos + 1, CharClass::Word);
        lemma_run_end(s, w, CharClass::Space);
        let next = run_end(s, w, CharClass::Space);
        if s[pos] == '#' && pos + 1 < w && listed(tags, s.subrange(pos + 1, w)) && !occurs_at(
            s,
            next,
            "</p>"@,
        ) {
            lemma_row_end(s, next, tags);
        }
    }
}

/// Where the paragraph that starts at `i` ends (exclusive), if it has a bare
/// opening tag and its whole content is a row of hashtags of `tags`.
pub open spec fn paragraph_end(s: Seq<char>, i: int, tags: Seq<Seq<char>>) -> Option<int> {
    let row = row_end(s, i + "<p>"@.len(), tags);
    if occurs_at(s, i, "<p>"@) && row is Some {
        Some(row->0 + "</p>"@.len())
    } else {
        None
    }
}

/// The paragraph `s[i..e]`, marked as a row of hashtags, each of them a link.
pub open spec fn linked_paragraph(s: Seq<char>, i: int, e: int) -> Seq<char> {
    "<p class=\"post-hashtags\">"@ + with_anchors(
        s.subrange(i + "<p>"@.len(), e - "</p>"@.len()),
    ) + "</p>"@
}

/// What `s[i..]` becomes when every paragraph that is a row of hashtags of
/// `tags` is turned into a row of links, and all else stays.
pub open spec fn linked_from(s: Seq<char>, i: int, tags: Seq<Seq<char>>) -> Seq<char>
    decreases s.len() - i,
{
    if i < 0 || i >= s.len() {
        Seq::empty()
    } else {
        match paragraph_end(s, i, tags) {
            Some(e) => if i < e <= s.len() {
                linked_paragraph(s, i, e) + linked_from(s, e, tags)
            } else {
                seq![s[i]] + linked_from(s, i + 1, tags)
            },
            None => seq![s[i]] + linked_from(s, i + 1, tags),
        }
    }
}

/// The markup with every paragraph that is a row of hashtags of `tags`
/// turned into a row of links.
pub open spec fn with_hashtag_links(html: Seq<char>, tags: Seq<Seq<char>>) -> Seq<char> {
    linked_from(html, 0, tags)
}

/// The rule behind `with_hashtag_links`, for a given list of tags.
pub struct HashtagParagraphs {
    pub tags: Vec<Vec<char>>,
}

impl Rule for HashtagParagraphs {
    open spec fn match_end(&self, s: Seq<char>, i: int) -> Option<int> {
        paragraph_end(s, i, vec_views(self.tags@))
    }

    open spec fn replacement(&self, s: Seq<char>, i: int, e: int) -> Seq<char> {
        linked_paragraph(s, i, e)
    }

    fn find(&self, s: &Vec<char>, i: usize) -> (r: Option<usize>) {
        let open = to_chars("<p>");
        let close = to_chars("</p>");
        if !vec_at(s, i, &open) {
            return None;
        }
        let ghost tags = vec_views(self.tags@);
        let ghost start = i + open.len();
        let mut pos: usize = i + open.len();
        loop
            invariant
                i <= pos <= s.len(),
                close@ == "</p>"@,
                start == i + "<p>"@.len(),
                occurs_at(s@, i as int, "<p>"@),
                tags == vec_views(self.tags@),
                row_end(s@, start as int, tags) == row_end(s@, pos as int, tags),
            decreases s.len() - pos,
        {
            if pos >= s.len() || s[pos] != '#' {
                return None;
            }
            let w = skip_run(s, pos + 1, CharClass::Word);
            if !(pos + 1 < w) {
                return None;
            }
            let mut word: Vec<char> = Vec::new();
            push_range(&mut word, s, pos + 1, w);
            if !is_listed(&self.tags, &word) {
                return None;
            }
            let next = skip_run(s, w, CharClass::Space);
            if vec_at(s, next, &close) {
                return Some(next + close.len());
            }
            pos = next;
        }
    }

    fn emit(&self, s: &Vec<char>, i: usize, e: usize, out: &mut Vec<char>) {
        let open = to_chars("<p>");
        let close = to_chars("</p>");
        proof {
            lemma_row_end(s@, i + open.len(), vec_views(self.tags@));
        }
        let mut row: Vec<char> = Vec::new();
        push_range(&mut row, s, i + open.len(), e - close.len());
        let links = rewrite(&HashtagAnchors, &row);
        push_str(out, "<p class=\"post-hashtags\">");
        push_all(out, &links);
        push_str(out, "</p>");
    }
}

/// Rewriting by the rule is `linked_from` with the rule's tags.
proof fn lemma_rule_is_linked(rule: &HashtagParagraphs, s: Seq<char>, i: int)
    requires
        0 <= i <= s.len(),
    ensures
        rewritten_from(rule, s, i) == linked_from(s, i, vec_views(rule.tags@)),
    decreases s.len() - i,
{
    if i < s.len() {
        match paragraph_end(s, i, vec_views(rule.tags@)) {
            Some(e) => {
                if i < e <= s.len() {
                    lemma_rule_is_linked(rule, s, e);
                } else {
                    lemma_rule_is_linked(rule, s, i + 1);
                }
            },
            None => {
                lemma_rule_is_linked(rule, s, i + 1);
            },
        }
    }
}

/// Turns every paragraph that is a row of hashtags of `tags` into a row of
/// links to the tags' anchors on the index page. Other paragraphs stay as
/// they are. A hashtag is a `#` and a run of ASCII letters, digits, `_` and
/// `-`, so a tag that holds anything else names no hashtag.
pub fn convert_hashtags_to_links(html: &str, tags: &[String]) -> (out: String)
    ensures
        out@ == with_hashtag_links(html@, string_views(tags@)),
{
    let s = to_chars(html);
    let rule = HashtagParagraphs { tags: all_to_chars(tags) };
    let out = rewrite(&rule, &s);
    proof {
        lemma_rule_is_linked(&rule, s@, 0);
    }
    from_chars(&out)
}

/// A row of hashtags holds nothing but hashtags and white space: each of its
/// characters is a `#`, a word character or white space.
pub proof fn lemma_row_holds_only_hashtags(s: Seq<char>, pos: int, tags: Seq<Seq<char>>)
    requires
        0 <= pos <= s.len(),
        row_end(s, pos, tags) is Some,
    ensures
        forall|j: int|
            pos <= j < row_end(s, pos, tags)->0 ==> (#[trigger] s[j]) == '#' || is_word_char(s[j])
                || unicode_space(s[j]),
    decreases s.len() - pos,
{
    lemma_run_end(s, pos + 1, CharClass::Word);
    let w = run_end(s, pos + 1, CharClass::Word);
    lemma_run_end(s, w, CharClass::Space);
    let next = run_end(s, w, CharClass::Space);
    if !occurs_at(s, next, "</p>"@) {
        lemma_row_holds_only_hashtags(s, next, tags);
    }
}

/// A paragraph that is turned into a row of links held nothing but hashtags
/// and white space; so a paragraph with anything else in it is not one.
pub proof fn lemma_linked_paragraph_was_a_row(s: Seq<char>, i: int, tags: Seq<Seq<char>>)
    requires
        0 <= i,
        paragraph_end(s, i, tags) is Some,
    ensures
        forall|j: int|
            i + "<p>"@.len() <= j < paragraph_end(s, i, tags)->0 - "</p>"@.len() ==> (
            #[trigger] s[j]) == '#' || is_word_char(s[j]) || unicode_space(s[j]),
{
    lemma_row_holds_only_hashtags(s, i + "<p>"@.len(), tags);
}

/// Markup without a paragraph that is a row of hashtags of `tags` stays as
/// it is.
pub proof fn lemma_without_rows_unchanged(s: Seq<char>, i: int, tags: Seq<Seq<char>>)
    requires
        0 <= i <= s.len(),
        forall|j: int| i <= j < s.len() ==> paragraph_end(s, j, tags) is None,
    ensures
        linked_from(s, i, tags) == s.subrange(i, s.len() as int),
    decreases s.len() - i,
{
    if i < s.len() {
        lemma_without_rows_unchanged(s, i + 1, tags);
    }
}

/// Without tags, no paragraph is a row of hashtags, and markup stays as it
/// is.
pub proof fn lemma_no_tags_no_links(html: Seq<char>)
    ensures
        with_hashtag_links(html, Seq::empty()) == html,
{
    let none = Seq::<Seq<char>>::empty();
    lemma_without_rows_unchanged(html, 0, none);
}

} // verus!

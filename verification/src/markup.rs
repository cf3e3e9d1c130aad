//! Passes over rendered HTML: stripping tags, slugs, and heading ids.

use crate::rewrite::{rewrite, rewritten, Rule};
use crate::text::{
    from_chars, is_scalar_value, join, joined, occurs_at, push_all, push_range, push_str, run_end,
    skip_run, split_words, to_chars, unicode_lower, vec_at, words, CharClass,
};
use vstd::prelude::*;

verus! {

/// Matches a `<`, everything up to the next `>`, and that `>`; puts nothing
/// in its place. A `<` that no `>` follows is ordinary text.
pub struct TagStripper;

impl Rule for TagStripper {
    open spec fn match_end(&self, s: Seq<char>, i: int) -> Option<int> {
        let close = run_end(s, i + 1, CharClass::Except('>'));
        if 0 <= i < s.len() && s[i] == '<' && close < s.len() {
            Some(close + 1)
        } else {
            None
        }
    }

    open spec fn replacement(&self, s: Seq<char>, i: int, e: int) -> Seq<char> {
        Seq::empty()
    }

    fn find(&self, s: &Vec<char>, i: usize) -> (r: Option<usize>) {
        if s[i] != '<' {
            return None;
        }
        let close = skip_run(s, i + 1, CharClass::Except('>'));
        if close < s.len() {
            Some(close + 1)
        } else {
            None
        }
    }

    fn emit(&self, s: &Vec<char>, i: usize, e: usize, out: &mut Vec<char>) {
    }
}

/// The text with every tag taken out.
pub open spec fn without_tags(html: Seq<char>) -> Seq<char> {
    rewritten(&TagStripper, html)
}

/// The slug of a text: its lowercase form's runs of letters and numbers,
/// joined by single hyphens.
pub open spec fn slug_of(text: Seq<char>) -> Seq<char> {
    joined(words(unicode_lower(text), CharClass::Alnum), "-"@)
}

/// The id of a heading with the given inner markup: the slug of its visible
/// text.
pub open spec fn heading_id(content: Seq<char>) -> Seq<char> {
    slug_of(without_tags(content))
}

/// Removes every tag from `html`.
pub fn strip_html_tags(html: &str) -> (text: String)
    ensures
        text@ == without_tags(html@),
{
    let s = to_chars(html);
    let out = rewrite(&TagStripper, &s);
    from_chars(&out)
}

/// Computes the slug of `text`.
pub fn slugify(text: &str) -> (slug: String)
    ensures
        slug@ == slug_of(text@),
{
    let lower = text.to_lowercase();
    let chars = to_chars(lower.as_str());
    let parts = split_words(&chars, CharClass::Alnum);
    let out = join(&parts, "-");
    from_chars(&out)
}

/// Computes the id of a heading from its inner markup.
fn heading_id_chars(content: &Vec<char>) -> (id: Vec<char>)
    ensures
        id@ == heading_id(content@),
{
    let plain = rewrite(&TagStripper, content);
    let plain_text = from_chars(&plain);
    let slug = slugify(plain_text.as_str());
    to_chars(slug.as_str())
}

/// A heading level digit, `1` to `6`.
pub open spec fn is_level(c: char) -> bool {
    '1' <= c && c <= '6'
}

/// A bare opening heading tag `<hN>` stands at `i`.
pub open spec fn bare_opening_at(s: Seq<char>, i: int) -> bool {
    &&& 0 <= i
    &&& i + 3 < s.len()
    &&& s[i] == '<'
    &&& s[i + 1] == 'h'
    &&& is_level(s[i + 2])
    &&& s[i + 3] == '>'
}

/// A closing heading tag `</hN>`, of any level, stands at `k`.
pub open spec fn closing_at(s: Seq<char>, k: int) -> bool {
    &&& 0 <= k
    &&& k + 4 < s.len()
    &&& s[k] == '<'
    &&& s[k + 1] == '/'
    &&& s[k + 2] == 'h'
    &&& is_level(s[k + 3])
    &&& s[k + 4] == '>'
}

/// Where the heading content that starts at `from` stops: at the first
/// closing heading tag, at the first line break, or at the end of the text,
/// whichever comes first.
pub open spec fn content_end(s: Seq<char>, from: int) -> int
    decreases s.len() - from,
{
    if from < 0 || from >= s.len() {
        from
    } else if s[from] == '\n' || closing_at(s, from) {
        from
    } else {
        content_end(s, from + 1)
    }
}

fn level_char(c: char) -> (r: bool)
    ensures
        r == is_level(c),
{
    '1' <= c && c <= '6'
}

fn is_bare_opening(s: &Vec<char>, i: usize) -> (r: bool)
    ensures
        r == bare_opening_at(s@, i as int),
{
    i < s.len() && s.len() - i > 3 && s[i] == '<' && s[i + 1] == 'h' && level_char(s[i + 2])
        && s[i + 3] == '>'
}

fn is_closing(s: &Vec<char>, k: usize) -> (r: bool)
    ensures
        r == closing_at(s@, k as int),
{
    k < s.len() && s.len() - k > 4 && s[k] == '<' && s[k + 1] == '/' && s[k + 2] == 'h'
        && level_char(s[k + 3]) && s[k + 4] == '>'
}

fn find_content_end(s: &Vec<char>, from: usize) -> (k: usize)
    requires
        from <= s.len(),
    ensures
        k == content_end(s@, from as int),
        from <= k <= s.len(),
{
    let mut k: usize = from;
    while k < s.len() && !(s[k] == '\n' || is_closing(s, k))
        invariant
            from <= k <= s.len(),
            content_end(s@, from as int) == content_end(s@, k as int),
        decreases s.len() - k,
    {
        k += 1;
    }
    k
}

/// Matches a heading element whose opening tag is bare, `<hN>…</hM>` on one
/// line, and gives the opening tag the id of the content. The closing tag
/// takes the level of the opening one.
pub struct HeadingIds;

impl Rule for HeadingIds {
    open spec fn match_end(&self, s: Seq<char>, i: int) -> Option<int> {
        let k = content_end(s, i + 4);
        if bare_opening_at(s, i) && closing_at(s, k) {
            Some(k + 5)
        } else {
            None
        }
    }

    open spec fn replacement(&self, s: Seq<char>, i: int, e: int) -> Seq<char> {
        let content = s.subrange(i + 4, e - 5);
        "<h"@ + seq![s[i + 2]] + " id=\""@ + heading_id(content) + "\">"@ + content + "</h"@
            + seq![s[i + 2]] + ">"@
    }

    fn find(&self, s: &Vec<char>, i: usize) -> (r: Option<usize>) {
        if !is_bare_opening(s, i) {
            return None;
        }
        let k = find_content_end(s, i + 4);
        if is_closing(s, k) {
            Some(k + 5)
        } else {
            None
        }
    }

    fn emit(&self, s: &Vec<char>, i: usize, e: usize, out: &mut Vec<char>) {
        let mut content: Vec<char> = Vec::new();
        push_range(&mut content, s, i + 4, e - 5);
        let id = heading_id_chars(&content);
        push_str(out, "<h");
        out.push(s[i + 2]);
        push_str(out, " id=\"");
        push_all(out, &id);
        push_str(out, "\">");
        push_all(out, &content);
        push_str(out, "</h");
        out.push(s[i + 2]);
        push_str(out, ">");
    }
}

/// The markup with an id on every heading that had a bare opening tag.
pub open spec fn with_heading_ids(html: Seq<char>) -> Seq<char> {
    rewritten(&HeadingIds, html)
}

/// Gives every heading with a bare opening tag an id made from its text.
pub fn add_heading_ids(html: &str) -> (out: String)
    ensures
        out@ == with_heading_ids(html@),
{
    let s = to_chars(html);
    let out = rewrite(&HeadingIds, &s);
    from_chars(&out)
}

/// The id of a heading depends on its visible text alone: two contents that
/// read the same once their tags are gone get the same id.
pub proof fn lemma_heading_id_by_text(a: Seq<char>, b: Seq<char>)
    requires
        without_tags(a) == without_tags(b),
    ensures
        heading_id(a) == heading_id(b),
{
}

/// The number that a digit stands for, in any base up to sixteen.
pub open spec fn digit_value(c: char) -> int {
    if '0' <= c && c <= '9' {
        c as int - 48
    } else if 'a' <= c && c <= 'f' {
        c as int - 87
    } else if 'A' <= c && c <= 'F' {
        c as int - 55
    } else {
        0
    }
}

/// The number that a row of digits stands for in the given base.
pub open spec fn digits_value(digits: Seq<char>, base: int) -> int
    decreases digits.len(),
{
    if digits.len() == 0 {
        0
    } else {
        digits_value(digits.drop_last(), base) * base + digit_value(digits.last())
    }
}

/// A row of digits stands for no smaller a number than any of its starts.
pub proof fn lemma_digits_grow(digits: Seq<char>, k: int, base: int)
    requires
        0 <= k <= digits.len(),
        base >= 1,
    ensures
        0 <= digits_value(digits.take(k), base) <= digits_value(digits, base),
    decreases digits.len() - k,
{
    lemma_digits_nonnegative(digits.take(k), base);
    if k < digits.len() {
        lemma_digits_grow(digits, k + 1, base);
        assert(digits.take(k + 1).drop_last() == digits.take(k));
        let v = digits_value(digits.take(k), base);
        assert(v * base >= v) by (nonlinear_arith)
            requires
                v >= 0,
                base >= 1,
        ;
    } else {
        assert(digits.take(k) == digits);
    }
}

/// A row of digits stands for a number that is not negative.
pub proof fn lemma_digits_nonnegative(digits: Seq<char>, base: int)
    requires
        base >= 1,
    ensures
        digits_value(digits, base) >= 0,
    decreases digits.len(),
{
    if digits.len() > 0 {
        lemma_digits_nonnegative(digits.drop_last(), base);
    }
}

/// Where the named character reference that starts at `i` ends: one of
/// `&amp;`, `&lt;`, `&gt;`, `&quot;`, `&apos;` and `&nbsp;`.
pub open spec fn named_reference_end(s: Seq<char>, i: int) -> Option<int> {
    if occurs_at(s, i, "&amp;"@) {
        Some(i + "&amp;"@.len())
    } else if occurs_at(s, i, "&lt;"@) {
        Some(i + "&lt;"@.len())
    } else if occurs_at(s, i, "&gt;"@) {
        Some(i + "&gt;"@.len())
    } else if occurs_at(s, i, "&quot;"@) {
        Some(i + "&quot;"@.len())
    } else if occurs_at(s, i, "&apos;"@) {
        Some(i + "&apos;"@.len())
    } else if occurs_at(s, i, "&nbsp;"@) {
        Some(i + "&nbsp;"@.len())
    } else {
        None
    }
}

/// The character that the named reference at `i` stands for.
pub open spec fn named_reference_char(s: Seq<char>, i: int) -> char {
    if occurs_at(s, i, "&amp;"@) {
        '&'
    } else if occurs_at(s, i, "&lt;"@) {
        '<'
    } else if occurs_at(s, i, "&gt;"@) {
        '>'
    } else if occurs_at(s, i, "&quot;"@) {
        '"'
    } else if occurs_at(s, i, "&apos;"@) {
        '\''
    } else {
        '\u{a0}'
    }
}

/// Whether the numeric reference that starts at `i` is written in base
/// sixteen: `&#x` or `&#X`.
pub open spec fn is_hex_reference(s: Seq<char>, i: int) -> bool {
    i + 2 < s.len() && (s[i + 2] == 'x' || s[i + 2] == 'X')
}

/// Where the digits of the numeric reference that starts at `i` begin.
pub open spec fn reference_digits_start(s: Seq<char>, i: int) -> int {
    if is_hex_reference(s, i) {
        i + 3
    } else {
        i + 2
    }
}

/// Where the digits of the numeric reference that starts at `i` end.
pub open spec fn reference_digits_end(s: Seq<char>, i: int) -> int {
    run_end(
        s,
        reference_digits_start(s, i),
        if is_hex_reference(s, i) {
            CharClass::HexDigit
        } else {
            CharClass::Digit
        },
    )
}

/// The number that the numeric reference at `i` gives.
pub open spec fn reference_value(s: Seq<char>, i: int) -> int {
    digits_value(
        s.subrange(reference_digits_start(s, i), reference_digits_end(s, i)),
        if is_hex_reference(s, i) {
            16
        } else {
            10
        },
    )
}

/// Where the numeric character reference that starts at `i` ends: `&#`, or
/// `&#x` for base sixteen, at least one digit, and `;`, where the number is
/// that of a character.
pub open spec fn numeric_reference_end(s: Seq<char>, i: int) -> Option<int> {
    let a = reference_digits_start(s, i);
    let e = reference_digits_end(s, i);
    if 0 <= i && i + 1 < s.len() && s[i] == '&' && s[i + 1] == '#' && a < e && e < s.len() && s[e]
        == ';' && is_scalar_value(reference_value(s, i)) {
        Some(e + 1)
    } else {
        None
    }
}

/// Matches a character reference, named or numeric, and puts the character
/// in its place.
pub struct References;

impl Rule for References {
    open spec fn match_end(&self, s: Seq<char>, i: int) -> Option<int> {
        if named_reference_end(s, i) is Some {
            named_reference_end(s, i)
        } else {
            numeric_reference_end(s, i)
        }
    }

    open spec fn replacement(&self, s: Seq<char>, i: int, e: int) -> Seq<char> {
        if named_reference_end(s, i) is Some {
            seq![named_reference_char(s, i)]
        } else {
            seq![reference_value(s, i) as char]
        }
    }

    fn find(&self, s: &Vec<char>, i: usize) -> (r: Option<usize>) {
        match find_named_reference(s, i) {
            Some((e, _)) => Some(e),
            None => match find_numeric_reference(s, i) {
                Some((e, _)) => Some(e),
                None => None,
            },
        }
    }

    fn emit(&self, s: &Vec<char>, i: usize, e: usize, out: &mut Vec<char>) {
        match find_named_reference(s, i) {
            Some((_, c)) => {
                out.push(c);
            },
            None => match find_numeric_reference(s, i) {
                Some((_, c)) => {
                    out.push(c);
                },
                None => {},
            },
        }
    }
}

fn find_named_reference(s: &Vec<char>, i: usize) -> (r: Option<(usize, char)>)
    requires
        i < s.len(),
    ensures
        match r {
            Some((e, c)) => named_reference_end(s@, i as int) == Some(e as int) && i < e
                <= s.len() && c == named_reference_char(s@, i as int),
            None => named_reference_end(s@, i as int) is None,
        },
{
    let amp = to_chars("&amp;");
    let lt = to_chars("&lt;");
    let gt = to_chars("&gt;");
    let quot = to_chars("&quot;");
    let apos = to_chars("&apos;");
    let nbsp = to_chars("&nbsp;");
    proof {
        reveal_strlit("&amp;");
        reveal_strlit("&lt;");
        reveal_strlit("&gt;");
        reveal_strlit("&quot;");
        reveal_strlit("&apos;");
        reveal_strlit("&nbsp;");
    }
    if vec_at(s, i, &amp) {
        Some((i + amp.len(), '&'))
    } else if vec_at(s, i, &lt) {
        Some((i + lt.len(), '<'))
    } else if vec_at(s, i, &gt) {
        Some((i + gt.len(), '>'))
    } else if vec_at(s, i, &quot) {
        Some((i + quot.len(), '"'))
    } else if vec_at(s, i, &apos) {
        Some((i + apos.len(), '\''))
    } else if vec_at(s, i, &nbsp) {
        Some((i + nbsp.len(), '\u{a0}'))
    } else {
        None
    }
}

fn digit_of(c: char) -> (v: u32)
    ensures
        v == digit_value(c),
        0 <= v <= 15,
{
    if '0' <= c && c <= '9' {
        c as u32 - 48
    } else if 'a' <= c && c <= 'f' {
        c as u32 - 87
    } else if 'A' <= c && c <= 'F' {
        c as u32 - 55
    } else {
        0
    }
}

fn find_numeric_reference(s: &Vec<char>, i: usize) -> (r: Option<(usize, char)>)
    requires
        i < s.len(),
    ensures
        match r {
            Some((e, c)) => numeric_reference_end(s@, i as int) == Some(e as int) && i < e
                <= s.len() && c == reference_value(s@, i as int) as char,
            None => numeric_reference_end(s@, i as int) is None,
        },
{
    if s.len() - i < 2 || s[i] != '&' || s[i + 1] != '#' {
        return None;
    }
    let hex = s.len() - i > 2 && (s[i + 2] == 'x' || s[i + 2] == 'X');
    let start = if hex {
        i + 3
    } else {
        i + 2
    };
    let base: u32 = if hex {
        16
    } else {
        10
    };
    let class = if hex {
        CharClass::HexDigit
    } else {
        CharClass::Digit
    };
    let e = skip_run(s, start, class);
    if !(start < e && e < s.len() && s[e] == ';') {
        return None;
    }
    let ghost digits = s@.subrange(start as int, e as int);
    let mut value: u32 = 0;
    let mut k: usize = start;
    while k < e
        invariant
            start <= k <= e <= s.len(),
            base == 10 || base == 16,
            digits == s@.subrange(start as int, e as int),
            value <= 0x10FFFF,
            value == digits_value(digits.take(k - start), base as int),
            reference_value(s@, i as int) == digits_value(digits, base as int),
        decreases e - k,
    {
        proof {
            assert(digits.take(k - start + 1).drop_last() == digits.take(k - start));
        }
        let next = value * base + digit_of(s[k]);
        if next > 0x10FFFF {
            proof {
                lemma_digits_grow(digits, k - start + 1, base as int);
            }
            return None;
        }
        value = next;
        k += 1;
    }
    assert(digits.take(e - start) == digits);
    match char::from_u32(value) {
        Some(c) => Some((e + 1, c)),
        None => None,
    }
}

/// The text with every character reference replaced by its character.
pub open spec fn decoded(text: Seq<char>) -> Seq<char> {
    rewritten(&References, text)
}

/// Replaces the character references in `text` by their characters.
pub fn decode_entities(text: &str) -> (out: String)
    ensures
        out@ == decoded(text@),
{
    from_chars(&rewrite(&References, &to_chars(text)))
}

/// A heading of a post.
#[derive(Debug, Clone)]
pub struct Heading {
    /// The level, 1 to 6.
    pub level: u8,
    /// The visible text.
    pub text: String,
    /// The id that links point to.
    pub id: String,
}

/// A heading as a value.
pub struct HeadingModel {
    pub level: int,
    pub text: Seq<char>,
    pub id: Seq<char>,
}

impl View for Heading {
    type V = HeadingModel;

    open spec fn view(&self) -> HeadingModel {
        HeadingModel { level: self.level as int, text: self.text@, id: self.id@ }
    }
}

/// The headings of a list, as values.
pub open spec fn heading_views(list: Seq<Heading>) -> Seq<HeadingModel> {
    Seq::new(list.len(), |k: int| list[k]@)
}

/// Where the content of the heading whose opening tag starts at `i` begins.
/// The opening tag is bare, `<hN>`, or holds an id and nothing else,
/// `<hN id="…">`.
pub open spec fn opening_end(s: Seq<char>, i: int) -> Option<int> {
    let q = run_end(s, i + 3 + " id=\""@.len(), CharClass::Except('"'));
    if !(0 <= i && i + 3 < s.len() && s[i] == '<' && s[i + 1] == 'h' && is_level(s[i + 2])) {
        None
    } else if s[i + 3] == '>' {
        Some(i + 4)
    } else if occurs_at(s, i + 3, " id=\""@) && 0 <= q && q + 1 < s.len() && s[q + 1] == '>' {
        Some(q + 2)
    } else {
        None
    }
}

/// The heading of the given level digit and inner markup: its text is the
/// markup without tags and with character references decoded, its id is the
/// id that the markup gets when ids are given to headings.
pub open spec fn heading_of(level: char, content: Seq<char>) -> HeadingModel {
    HeadingModel {
        level: level as int - 48,
        text: decoded(without_tags(content)),
        id: heading_id(content),
    }
}

/// The headings in `s[i..]`, in order. A heading is an opening tag, the
/// content up to the first closing heading tag on the same line, and that
/// tag.
pub open spec fn headings_from(s: Seq<char>, i: int) -> Seq<HeadingModel>
    decreases s.len() - i,
{
    if i < 0 || i >= s.len() {
        Seq::empty()
    } else {
        match opening_end(s, i) {
            Some(c) => {
                let k = content_end(s, c);
                if i < c <= k && closing_at(s, k) {
                    seq![heading_of(s[i + 2], s.subrange(c, k))] + headings_from(s, k + 5)
                } else {
                    headings_from(s, i + 1)
                }
            },
            None => headings_from(s, i + 1),
        }
    }
}

/// The headings of a post's HTML, in order.
pub open spec fn headings_of(html: Seq<char>) -> Seq<HeadingModel> {
    headings_from(html, 0)
}

fn find_opening_end(s: &Vec<char>, i: usize) -> (r: Option<usize>)
    requires
        i < s.len(),
    ensures
        match r {
            Some(c) => opening_end(s@, i as int) == Some(c as int) && i < c <= s.len(),
            None => opening_end(s@, i as int) is None,
        },
{
    if !(s.len() - i > 3 && s[i] == '<' && s[i + 1] == 'h' && level_char(s[i + 2])) {
        return None;
    }
    if s[i + 3] == '>' {
        return Some(i + 4);
    }
    let attribute = to_chars(" id=\"");
    if !vec_at(s, i + 3, &attribute) {
        return None;
    }
    let q = skip_run(s, i + 3 + attribute.len(), CharClass::Except('"'));
    if q < s.len() && s.len() - q > 1 && s[q + 1] == '>' {
        Some(q + 2)
    } else {
        None
    }
}

/// Reads the headings of a post's HTML, in order.
pub fn extract_headings(html: &str) -> (list: Vec<Heading>)
    ensures
        heading_views(list@) == headings_of(html@),
        forall|k: int| 0 <= k < list.len() ==> 1 <= (#[trigger] list@[k]).level <= 6,
{
    let s = to_chars(html);
    let mut list: Vec<Heading> = Vec::new();
    let mut i: usize = 0;
    while i < s.len()
        invariant
            i <= s.len(),
            heading_views(list@) + headings_from(s@, i as int) == headings_of(s@),
            forall|k: int| 0 <= k < list.len() ==> 1 <= (#[trigger] list@[k]).level <= 6,
        decreases s.len() - i,
    {
        let mut next = i + 1;
        match find_opening_end(&s, i) {
            Some(c) => {
                let k = find_content_end(&s, c);
                if is_closing(&s, k) {
                    let mut content: Vec<char> = Vec::new();
                    push_range(&mut content, &s, c, k);
                    let plain = rewrite(&TagStripper, &content);
                    let text = from_chars(&rewrite(&References, &plain));
                    let id = from_chars(&heading_id_chars(&content));
                    let level = (s[i + 2] as u32 - 48) as u8;
                    let heading = Heading { level, text, id };
                    list.push(heading);
                    next = k + 5;
                }
            },
            None => {},
        }
        i = next;
    }
    list
}

} // verus!

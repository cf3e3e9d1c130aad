//! Character sequences: the model every pass of the pipeline is stated over,
//! and the small executable operations on `Vec<char>` that the passes share.

use vstd::prelude::*;

verus! {

/// Whether `c` is an ASCII character.
pub open spec fn is_ascii_char(c: char) -> bool {
    c <= '\u{7f}'
}

/// Whether every character of `s` is an ASCII character.
pub open spec fn is_ascii_text(s: Seq<char>) -> bool {
    forall|i: int| 0 <= i < s.len() ==> is_ascii_char(#[trigger] s[i])
}

/// The ASCII white space: the space, and the characters from the tab to the
/// carriage return.
pub open spec fn is_ascii_space(c: char) -> bool {
    c == ' ' || ('\t' <= c && c <= '\r')
}

/// The ASCII letters and digits.
pub open spec fn is_ascii_alnum(c: char) -> bool {
    ('0' <= c && c <= '9') || ('a' <= c && c <= 'z') || ('A' <= c && c <= 'Z')
}

/// The lowercase form of an ASCII character: a capital letter becomes its
/// small letter, every other character stays.
pub open spec fn ascii_lower_char(c: char) -> char {
    if 'A' <= c && c <= 'Z' {
        ((c as u8) + 32) as char
    } else {
        c
    }
}

/// Whether a character beyond ASCII has the Unicode `White_Space` property.
pub uninterp spec fn wide_space(c: char) -> bool;

/// Whether a character beyond ASCII is alphabetic or numeric in the Unicode
/// sense.
pub uninterp spec fn wide_alnum(c: char) -> bool;

/// The lowercase form, as Unicode defines it, of a text that holds a
/// character beyond ASCII.
pub uninterp spec fn wide_lower(s: Seq<char>) -> Seq<char>;

/// Whether `c` has the Unicode `White_Space` property.
pub open spec fn unicode_space(c: char) -> bool {
    if is_ascii_char(c) {
        is_ascii_space(c)
    } else {
        wide_space(c)
    }
}

/// Whether `c` is alphabetic or numeric in the Unicode sense.
pub open spec fn unicode_alnum(c: char) -> bool {
    if is_ascii_char(c) {
        is_ascii_alnum(c)
    } else {
        wide_alnum(c)
    }
}

/// The lowercase form of a text, as Unicode defines it.
pub open spec fn unicode_lower(s: Seq<char>) -> Seq<char> {
    if is_ascii_text(s) {
        Seq::new(s.len(), |i: int| ascii_lower_char(s[i]))
    } else {
        wide_lower(s)
    }
}

/// `char::is_whitespace` decides the `White_Space` property. Among the ASCII
/// characters the space and the characters from the tab to the carriage
/// return have it; beyond ASCII it is left to the standard library's Unicode
/// tables.
pub assume_specification[ char::is_whitespace ](c: char) -> (b: bool)
    ensures
        b == unicode_space(c),
        !is_ascii_char(c) ==> b == wide_space(c),
;

/// `char::is_alphanumeric` decides the `Alphabetic` property and the numeric
/// general categories. Among the ASCII characters the letters and the digits
/// are alphanumeric; beyond ASCII the tables are the standard library's.
pub assume_specification[ char::is_alphanumeric ](c: char) -> (b: bool)
    ensures
        b == unicode_alnum(c),
        !is_ascii_char(c) ==> b == wide_alnum(c),
;

/// `str::to_lowercase` returns the lowercase equivalent of the whole text; it
/// depends on nothing but the text. In a text of ASCII characters each
/// capital letter becomes its small letter and nothing else changes.
pub assume_specification[ str::to_lowercase ](s: &str) -> (t: String)
    ensures
        t@ == unicode_lower(s@),
        !is_ascii_text(s@) ==> t@ == wide_lower(s@),
;

/// `char::from_u32` gives the character with the given number, which exists
/// exactly for the Unicode scalar values: the numbers up to `0x10FFFF` that
/// are no surrogates.
pub assume_specification[ char::from_u32 ](i: u32) -> (c: Option<char>)
    ensures
        c is Some <==> is_scalar_value(i as int),
        c is Some ==> c->0 as int == i as int,
;

/// `String::push` appends one character.
pub assume_specification[ String::push ](s: &mut String, c: char)
    ensures
        final(s)@ == old(s)@.push(c),
;

/// `v` is the number of a character.
pub open spec fn is_scalar_value(v: int) -> bool {
    (0 <= v <= 0xD7FF) || (0xE000 <= v <= 0x10FFFF)
}

/// `pat` stands in `s` at index `i`.
pub open spec fn occurs_at(s: Seq<char>, i: int, pat: Seq<char>) -> bool {
    &&& 0 <= i
    &&& i + pat.len() <= s.len()
    &&& s.subrange(i, i + pat.len()) == pat
}

/// A class of characters that a scanner can walk over.
#[derive(Clone, Copy, Debug)]
pub enum CharClass {
    /// Unicode white space.
    Space,
    /// Everything but Unicode white space.
    NonSpace,
    /// Unicode letters and numbers.
    Alnum,
    /// ASCII letters, ASCII digits, `_` and `-`.
    Word,
    /// Every character but the given one.
    Except(char),
    /// Every character but the two quotes `"` and `'`.
    ExceptQuotes,
    /// ASCII digits.
    Digit,
    /// ASCII hexadecimal digits, in either case.
    HexDigit,
}

/// An ASCII letter or `_`: what a class name starts with.
pub open spec fn is_word_start(c: char) -> bool {
    ('a' <= c && c <= 'z') || ('A' <= c && c <= 'Z') || c == '_'
}

/// An ASCII digit.
pub open spec fn is_digit(c: char) -> bool {
    '0' <= c && c <= '9'
}

/// An ASCII letter, an ASCII digit, `_` or `-`: what tags and class names are
/// made of.
pub open spec fn is_word_char(c: char) -> bool {
    is_word_start(c) || is_digit(c) || c == '-'
}

/// An ASCII hexadecimal digit, in either case.
pub open spec fn is_hex_digit(c: char) -> bool {
    is_digit(c) || ('a' <= c && c <= 'f') || ('A' <= c && c <= 'F')
}

/// Membership of `c` in the class `k`.
pub open spec fn in_class(k: CharClass, c: char) -> bool {
    match k {
        CharClass::Space => unicode_space(c),
        CharClass::NonSpace => !unicode_space(c),
        CharClass::Alnum => unicode_alnum(c),
        CharClass::Word => is_word_char(c),
        CharClass::Except(x) => c != x,
        CharClass::ExceptQuotes => c != '"' && c != '\'',
        CharClass::Digit => is_digit(c),
        CharClass::HexDigit => is_hex_digit(c),
    }
}

/// The end of the longest run of characters of class `k` that starts at
/// `from`: the first index at or after `from` whose character is outside the
/// class, or the length of `s`.
pub open spec fn run_end(s: Seq<char>, from: int, k: CharClass) -> int
    decreases s.len() - from,
{
    if from < 0 || from >= s.len() {
        from
    } else if in_class(k, s[from]) {
        run_end(s, from + 1, k)
    } else {
        from
    }
}

/// The end of the longest stretch of characters outside the class `k` that
/// starts at `from`: the first index at or after `from` whose character is in
/// the class, or the length of `s`.
pub open spec fn gap_end(s: Seq<char>, from: int, k: CharClass) -> int
    decreases s.len() - from,
{
    if from < 0 || from >= s.len() {
        from
    } else if !in_class(k, s[from]) {
        gap_end(s, from + 1, k)
    } else {
        from
    }
}

/// The maximal runs of characters of class `k` in `s[i..]`, in order.
pub open spec fn words_from(s: Seq<char>, i: int, k: CharClass) -> Seq<Seq<char>>
    decreases s.len() - i,
{
    let a = gap_end(s, i, k);
    let b = run_end(s, a, k);
    if i < 0 || a >= s.len() || b <= i || b > s.len() {
        Seq::empty()
    } else {
        seq![s.subrange(a, b)] + words_from(s, b, k)
    }
}

/// The maximal runs of characters of class `k` in `s`, in order.
pub open spec fn words(s: Seq<char>, k: CharClass) -> Seq<Seq<char>> {
    words_from(s, 0, k)
}

/// The parts, with `sep` between each two neighbours.
pub open spec fn joined(parts: Seq<Seq<char>>, sep: Seq<char>) -> Seq<char>
    decreases parts.len(),
{
    if parts.len() == 0 {
        Seq::empty()
    } else if parts.len() == 1 {
        parts[0]
    } else {
        joined(parts.drop_last(), sep) + sep + parts.last()
    }
}

/// `pat` stands somewhere in `s`.
pub open spec fn contains_text(s: Seq<char>, pat: Seq<char>) -> bool {
    exists|i: int| occurs_at(s, i, pat)
}

/// `line` without its last character, if that is a carriage return.
pub open spec fn without_cr(line: Seq<char>) -> Seq<char> {
    if line.len() > 0 && line.last() == '\r' {
        line.drop_last()
    } else {
        line
    }
}

/// The lines of `s[i..]`. A line ends at a line feed, which is not part of
/// it, nor is a carriage return just before that line feed. The text after
/// the last line feed is a line of its own unless it is empty, and keeps a
/// carriage return at its end.
pub open spec fn lines_from(s: Seq<char>, i: int) -> Seq<Seq<char>>
    decreases s.len() - i,
{
    let e = run_end(s, i, CharClass::Except('\n'));
    if i < 0 || i >= s.len() || e < i || e > s.len() {
        Seq::empty()
    } else if e < s.len() {
        seq![without_cr(s.subrange(i, e))] + lines_from(s, e + 1)
    } else {
        seq![s.subrange(i, e)]
    }
}

/// The lines of `s`.
pub open spec fn lines(s: Seq<char>) -> Seq<Seq<char>> {
    lines_from(s, 0)
}

/// Where the white space at the end of `t` starts: the length of `t` without
/// its trailing white space.
pub open spec fn trailing_space_start(t: Seq<char>) -> int
    decreases t.len(),
{
    if t.len() == 0 {
        0
    } else if unicode_space(t.last()) {
        trailing_space_start(t.drop_last())
    } else {
        t.len() as int
    }
}

/// `t` without the white space at its start and at its end.
pub open spec fn trimmed(t: Seq<char>) -> Seq<char> {
    let b = trailing_space_start(t);
    let a = run_end(t.take(b), 0, CharClass::Space);
    t.subrange(a, b)
}

/// `t` holds a character that is not white space.
pub open spec fn is_filled(t: Seq<char>) -> bool {
    run_end(t, 0, CharClass::Space) < t.len()
}

/// `t` is one of `list`.
pub open spec fn listed(list: Seq<Seq<char>>, t: Seq<char>) -> bool {
    exists|n: int| 0 <= n < list.len() && list[n] == t
}

/// A gap ends between its start and the end of the text, at a character of
/// the class if it ends inside the text.
pub proof fn lemma_gap_end(s: Seq<char>, from: int, k: CharClass)
    requires
        0 <= from <= s.len(),
    ensures
        from <= gap_end(s, from, k) <= s.len(),
        forall|j: int| from <= j < gap_end(s, from, k) ==> !in_class(k, #[trigger] s[j]),
        gap_end(s, from, k) < s.len() ==> in_class(k, s[gap_end(s, from, k)]),
    decreases s.len() - from,
{
    if from < s.len() && !in_class(k, s[from]) {
        lemma_gap_end(s, from + 1, k);
    }
}

/// The first index at or after `from` where `pat` stands in `s`, or the
/// length of `s` if it stands nowhere from there on.
pub open spec fn find_from(s: Seq<char>, from: int, pat: Seq<char>) -> int
    decreases s.len() - from,
{
    if from < 0 || from >= s.len() {
        s.len() as int
    } else if occurs_at(s, from, pat) {
        from
    } else {
        find_from(s, from + 1, pat)
    }
}

/// A run ends between its start and the end of the text, holds only
/// characters of its class, and stops at a character outside the class.
pub proof fn lemma_run_end(s: Seq<char>, from: int, k: CharClass)
    requires
        0 <= from <= s.len(),
    ensures
        from <= run_end(s, from, k) <= s.len(),
        forall|j: int| from <= j < run_end(s, from, k) ==> in_class(k, #[trigger] s[j]),
        run_end(s, from, k) < s.len() ==> !in_class(k, s[run_end(s, from, k)]),
    decreases s.len() - from,
{
    if from < s.len() && in_class(k, s[from]) {
        lemma_run_end(s, from + 1, k);
    }
}

/// `find_from` returns the first occurrence at or after `from`, if any.
pub proof fn lemma_find_from(s: Seq<char>, from: int, pat: Seq<char>)
    requires
        0 <= from <= s.len(),
    ensures
        from <= find_from(s, from, pat) <= s.len(),
        find_from(s, from, pat) < s.len() ==> occurs_at(s, find_from(s, from, pat), pat),
        forall|j: int| from <= j < find_from(s, from, pat) ==> !occurs_at(s, j, pat),
    decreases s.len() - from,
{
    if from < s.len() && !occurs_at(s, from, pat) {
        lemma_find_from(s, from + 1, pat);
    }
}

/// The views of a vector of strings, in order.
pub open spec fn string_views(v: Seq<String>) -> Seq<Seq<char>> {
    Seq::new(v.len(), |i: int| v[i]@)
}

/// The view of a text that may be missing.
pub open spec fn opt_view(t: Option<String>) -> Option<Seq<char>> {
    match t {
        Some(s) => Some(s@),
        None => None,
    }
}

/// The views of a vector of texts that may be missing, in order.
pub open spec fn opt_views(v: Seq<Option<String>>) -> Seq<Option<Seq<char>>> {
    Seq::new(v.len(), |i: int| opt_view(v[i]))
}

/// The views of a vector of character vectors, in order.
pub open spec fn vec_views(v: Seq<Vec<char>>) -> Seq<Seq<char>> {
    Seq::new(v.len(), |i: int| v[i]@)
}

/// The characters of `s`, in order.
pub fn to_chars(s: &str) -> (v: Vec<char>)
    ensures
        v@ == s@,
{
    let mut v: Vec<char> = Vec::new();
    for c in it: s.chars()
        invariant
            v@ == it.seq().take(it.index()),
    {
        v.push(c);
    }
    v
}

/// The string made of the characters of `v`.
pub fn from_chars(v: &Vec<char>) -> (s: String)
    ensures
        s@ == v@,
{
    let mut s = String::new();
    let mut i: usize = 0;
    while i < v.len()
        invariant
            i <= v.len(),
            s@ == v@.take(i as int),
        decreases v.len() - i,
    {
        s.push(v[i]);
        i += 1;
    }
    s
}

/// Appends the characters of `t` to `out`.
pub fn push_str(out: &mut Vec<char>, t: &str)
    ensures
        final(out)@ == old(out)@ + t@,
{
    let ghost before = out@;
    for c in it: t.chars()
        invariant
            out@ == before + it.seq().take(it.index()),
    {
        out.push(c);
    }
}

/// Appends `s[from..to]` to `out`.
pub fn push_range(out: &mut Vec<char>, s: &Vec<char>, from: usize, to: usize)
    requires
        from <= to <= s.len(),
    ensures
        final(out)@ == old(out)@ + s@.subrange(from as int, to as int),
{
    let ghost before = out@;
    let mut k: usize = from;
    while k < to
        invariant
            from <= k <= to <= s.len(),
            out@ == before + s@.subrange(from as int, k as int),
        decreases to - k,
    {
        out.push(s[k]);
        k += 1;
    }
}

/// Appends all of `s` to `out`.
pub fn push_all(out: &mut Vec<char>, s: &Vec<char>)
    ensures
        final(out)@ == old(out)@ + s@,
{
    push_range(out, s, 0, s.len());
}

/// Tells whether two character vectors hold the same text.
pub fn same_chars(a: &Vec<char>, b: &Vec<char>) -> (r: bool)
    ensures
        r == (a@ == b@),
{
    if a.len() != b.len() {
        return false;
    }
    let mut k: usize = 0;
    while k < a.len()
        invariant
            k <= a.len(),
            a.len() == b.len(),
            a@.take(k as int) == b@.take(k as int),
        decreases a.len() - k,
    {
        if a[k] != b[k] {
            return false;
        }
        k += 1;
    }
    assert(a@.take(a.len() as int) == a@);
    assert(b@.take(b.len() as int) == b@);
    true
}

/// Tells whether `pat` stands in `s` at index `i`.
pub fn vec_at(s: &Vec<char>, i: usize, pat: &Vec<char>) -> (r: bool)
    ensures
        r == occurs_at(s@, i as int, pat@),
{
    if i > s.len() || pat.len() > s.len() - i {
        return false;
    }
    let mut k: usize = 0;
    while k < pat.len()
        invariant
            k <= pat.len(),
            i + pat.len() <= s.len(),
            s@.subrange(i as int, i + k) == pat@.take(k as int),
        decreases pat.len() - k,
    {
        if s[i + k] != pat[k] {
            return false;
        }
        k += 1;
    }
    assert(pat@.take(pat.len() as int) == pat@);
    true
}

/// Tells whether `c` is an ASCII letter or `_`.
pub fn word_start(c: char) -> (r: bool)
    ensures
        r == is_word_start(c),
{
    ('a' <= c && c <= 'z') || ('A' <= c && c <= 'Z') || c == '_'
}

/// Tells whether `c` is an ASCII letter, an ASCII digit, `_` or `-`.
pub fn word_char(c: char) -> (r: bool)
    ensures
        r == is_word_char(c),
{
    word_start(c) || ('0' <= c && c <= '9') || c == '-'
}

/// Tells whether `c` belongs to the class `k`.
pub fn class_has(k: CharClass, c: char) -> (r: bool)
    ensures
        r == in_class(k, c),
{
    match k {
        CharClass::Space => c.is_whitespace(),
        CharClass::NonSpace => !c.is_whitespace(),
        CharClass::Alnum => c.is_alphanumeric(),
        CharClass::Word => word_char(c),
        CharClass::Except(x) => c != x,
        CharClass::ExceptQuotes => c != '"' && c != '\'',
        CharClass::Digit => '0' <= c && c <= '9',
        CharClass::HexDigit => ('0' <= c && c <= '9') || ('a' <= c && c <= 'f') || ('A' <= c && c
            <= 'F'),
    }
}

/// Walks over the run of class `k` that starts at `from`.
pub fn skip_run(s: &Vec<char>, from: usize, k: CharClass) -> (e: usize)
    requires
        from <= s.len(),
    ensures
        e == run_end(s@, from as int, k),
        from <= e <= s.len(),
{
    let mut e: usize = from;
    while e < s.len() && class_has(k, s[e])
        invariant
            from <= e <= s.len(),
            run_end(s@, from as int, k) == run_end(s@, e as int, k),
        decreases s.len() - e,
    {
        e += 1;
    }
    e
}

/// Finds the first place at or after `from` where the literal `pat` stands.
pub fn find_str(s: &Vec<char>, from: usize, pat: &str) -> (e: usize)
    requires
        from <= s.len(),
    ensures
        e == find_from(s@, from as int, pat@),
        from <= e <= s.len(),
{
    let p = to_chars(pat);
    let mut e: usize = from;
    while e < s.len() && !vec_at(s, e, &p)
        invariant
            from <= e <= s.len(),
            p@ == pat@,
            find_from(s@, from as int, pat@) == find_from(s@, e as int, pat@),
        decreases s.len() - e,
    {
        e += 1;
    }
    e
}

/// Walks over the characters outside the class `k` that start at `from`.
pub fn skip_gap(s: &Vec<char>, from: usize, k: CharClass) -> (e: usize)
    requires
        from <= s.len(),
    ensures
        e == gap_end(s@, from as int, k),
        from <= e <= s.len(),
{
    let mut e: usize = from;
    while e < s.len() && !class_has(k, s[e])
        invariant
            from <= e <= s.len(),
            gap_end(s@, from as int, k) == gap_end(s@, e as int, k),
        decreases s.len() - e,
    {
        e += 1;
    }
    e
}

/// Splits `s` into its maximal runs of characters of class `k`.
pub fn split_words(s: &Vec<char>, k: CharClass) -> (out: Vec<Vec<char>>)
    ensures
        vec_views(out@) == words(s@, k),
{
    let mut out: Vec<Vec<char>> = Vec::new();
    let mut i: usize = 0;
    loop
        invariant
            i <= s.len(),
            vec_views(out@) + words_from(s@, i as int, k) == words(s@, k),
        ensures
            vec_views(out@) == words(s@, k),
        decreases s.len() - i,
    {
        let a = skip_gap(s, i, k);
        if a >= s.len() {
            break;
        }
        let b = skip_run(s, a, k);
        proof {
            lemma_gap_end(s@, i as int, k);
            lemma_run_end(s@, a + 1, k);
        }
        let mut word: Vec<char> = Vec::new();
        push_range(&mut word, s, a, b);
        out.push(word);
        i = b;
    }
    out
}

/// Joins the parts with the literal `sep` between them.
pub fn join(parts: &Vec<Vec<char>>, sep: &str) -> (out: Vec<char>)
    ensures
        out@ == joined(vec_views(parts@), sep@),
{
    let mut out: Vec<char> = Vec::new();
    let mut n: usize = 0;
    let ghost all = vec_views(parts@);
    while n < parts.len()
        invariant
            n <= parts.len(),
            all == vec_views(parts@),
            out@ == joined(all.take(n as int), sep@),
        decreases parts.len() - n,
    {
        proof {
            assert(all.take(n + 1).drop_last() == all.take(n as int));
        }
        if n > 0 {
            push_str(&mut out, sep);
        }
        push_all(&mut out, &parts[n]);
        n += 1;
    }
    assert(all.take(parts.len() as int) == all);
    out
}

/// Tells whether `pat` stands somewhere in `s`.
pub fn contains_chars(s: &Vec<char>, pat: &Vec<char>) -> (r: bool)
    ensures
        r == contains_text(s@, pat@),
{
    let mut i: usize = 0;
    while i < s.len()
        invariant
            i <= s.len(),
            forall|j: int| 0 <= j < i ==> !occurs_at(s@, j, pat@),
        decreases s.len() - i,
    {
        if vec_at(s, i, pat) {
            return true;
        }
        i += 1;
    }
    vec_at(s, i, pat)
}

/// Tells whether the literal `pat` stands somewhere in `s`.
pub fn contains_str(s: &Vec<char>, pat: &str) -> (r: bool)
    ensures
        r == contains_text(s@, pat@),
{
    let p = to_chars(pat);
    contains_chars(s, &p)
}

/// Splits `s` into its lines.
pub fn split_lines(s: &Vec<char>) -> (out: Vec<Vec<char>>)
    ensures
        vec_views(out@) == lines(s@),
{
    let mut out: Vec<Vec<char>> = Vec::new();
    let mut i: usize = 0;
    while i < s.len()
        invariant
            i <= s.len(),
            vec_views(out@) + lines_from(s@, i as int) == lines(s@),
        decreases s.len() - i,
    {
        let e = skip_run(s, i, CharClass::Except('\n'));
        let mut line: Vec<char> = Vec::new();
        if e < s.len() {
            if e > i && s[e - 1] == '\r' {
                push_range(&mut line, s, i, e - 1);
                assert(s@.subrange(i as int, e as int).drop_last() == s@.subrange(
                    i as int,
                    e - 1,
                ));
            } else {
                push_range(&mut line, s, i, e);
            }
            out.push(line);
            i = e + 1;
        } else {
            push_range(&mut line, s, i, e);
            out.push(line);
            i = e;
        }
    }
    out
}

/// Tells whether `t` is one of `list`.
pub fn is_listed(list: &Vec<Vec<char>>, t: &Vec<char>) -> (r: bool)
    ensures
        r == listed(vec_views(list@), t@),
{
    let mut n: usize = 0;
    while n < list.len()
        invariant
            n <= list.len(),
            forall|m: int| 0 <= m < n ==> vec_views(list@)[m] != t@,
        decreases list.len() - n,
    {
        if same_chars(&list[n], t) {
            assert(vec_views(list@)[n as int] == t@);
            return true;
        }
        n += 1;
    }
    false
}

/// The characters of each string of `list`.
pub fn all_to_chars(list: &[String]) -> (out: Vec<Vec<char>>)
    ensures
        vec_views(out@) == string_views(list@),
{
    let mut out: Vec<Vec<char>> = Vec::new();
    let mut n: usize = 0;
    while n < list.len()
        invariant
            n <= list.len(),
            out.len() == n,
            forall|m: int| 0 <= m < n ==> out@[m]@ == list@[m]@,
        decreases list.len() - n,
    {
        let v = to_chars(list[n].as_str());
        out.push(v);
        n += 1;
    }
    out
}

/// `t` without the white space at its start and at its end.
pub fn trim(t: &Vec<char>) -> (out: Vec<char>)
    ensures
        out@ == trimmed(t@),
{
    let mut b: usize = t.len();
    assert(t@.take(t.len() as int) == t@);
    while b > 0 && class_has(CharClass::Space, t[b - 1])
        invariant
            b <= t.len(),
            trailing_space_start(t@) == trailing_space_start(t@.take(b as int)),
        decreases b,
    {
        assert(t@.take(b as int).drop_last() == t@.take(b - 1));
        b -= 1;
    }
    let mut head: Vec<char> = Vec::new();
    push_range(&mut head, t, 0, b);
    let a = skip_run(&head, 0, CharClass::Space);
    let mut out: Vec<char> = Vec::new();
    push_range(&mut out, t, a, b);
    out
}

/// Tells whether `t` holds a character that is not white space.
pub fn filled(t: &Vec<char>) -> (r: bool)
    ensures
        r == is_filled(t@),
{
    skip_run(t, 0, CharClass::Space) < t.len()
}

/// Copies a list of strings.
pub fn copy_strings(list: &[String]) -> (out: Vec<String>)
    ensures
        string_views(out@) == string_views(list@),
{
    let mut out: Vec<String> = Vec::new();
    let mut n: usize = 0;
    while n < list.len()
        invariant
            n <= list.len(),
            out.len() == n,
            forall|m: int| 0 <= m < n ==> out@[m]@ == list@[m]@,
        decreases list.len() - n,
    {
        out.push(list[n].clone());
        n += 1;
    }
    out
}

/// The strings of a list of character vectors.
pub fn all_from_chars(list: &Vec<Vec<char>>) -> (out: Vec<String>)
    ensures
        string_views(out@) == vec_views(list@),
{
    let mut out: Vec<String> = Vec::new();
    let mut n: usize = 0;
    while n < list.len()
        invariant
            n <= list.len(),
            out.len() == n,
            forall|m: int| 0 <= m < n ==> out@[m]@ == list@[m]@,
        decreases list.len() - n,
    {
        out.push(from_chars(&list[n]));
        n += 1;
    }
    out
}

/// Hands out `found`, or a copy of `text` where there is none.
pub fn or_text(found: Option<String>, text: &str) -> (out: String)
    ensures
        out@ == match found {
            Some(t) => t@,
            None => text@,
        },
{
    match found {
        Some(t) => t,
        None => text.to_owned(),
    }
}

} // verus!

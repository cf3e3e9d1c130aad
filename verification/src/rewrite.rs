//! Rewriting a text by a rule: every match of the rule, found from left to
//! right without overlap, gives way to its replacement; the characters
//! between the matches stay.

use vstd::prelude::*;

verus! {

/// A rule that recognises a stretch of text at a given place and says what
/// stands there afterwards.
pub trait Rule {
    /// Where the match that starts at `i` ends (exclusive), if `s` has one
    /// there.
    spec fn match_end(&self, s: Seq<char>, i: int) -> Option<int>;

    /// What replaces the match `s[i..e]`.
    spec fn replacement(&self, s: Seq<char>, i: int, e: int) -> Seq<char>;

    /// Looks for a match that starts at `i`.
    fn find(&self, s: &Vec<char>, i: usize) -> (r: Option<usize>)
        requires
            i < s.len(),
        ensures
            r is Some ==> i < r->0 <= s.len(),
            r is Some ==> self.match_end(s@, i as int) == Some(r->0 as int),
            r is None ==> !(self.match_end(s@, i as int) is Some && i < self.match_end(
                s@,
                i as int,
            )->0 <= s.len()),
    ;

    /// Appends the replacement of the match `s[i..e]` to `out`.
    fn emit(&self, s: &Vec<char>, i: usize, e: usize, out: &mut Vec<char>)
        requires
            i < e <= s.len(),
            self.match_end(s@, i as int) == Some(e as int),
        ensures
            final(out)@ == old(out)@ + self.replacement(s@, i as int, e as int),
    ;
}

/// The rule has a usable match at `i`: one that is not empty and ends inside
/// the text.
pub open spec fn applies<R: Rule>(rule: &R, s: Seq<char>, i: int) -> bool {
    match rule.match_end(s, i) {
        Some(e) => i < e <= s.len(),
        None => false,
    }
}

/// The text that `s[i..]` becomes under the rule.
pub open spec fn rewritten_from<R: Rule>(rule: &R, s: Seq<char>, i: int) -> Seq<char>
    decreases s.len() - i,
{
    if i < 0 || i >= s.len() {
        Seq::empty()
    } else if applies(rule, s, i) {
        let e = rule.match_end(s, i)->0;
        rule.replacement(s, i, e) + rewritten_from(rule, s, e)
    } else {
        seq![s[i]] + rewritten_from(rule, s, i + 1)
    }
}

/// The text that `s` becomes under the rule.
pub open spec fn rewritten<R: Rule>(rule: &R, s: Seq<char>) -> Seq<char> {
    rewritten_from(rule, s, 0)
}

/// Rewrites `s` by the rule.
pub fn rewrite<R: Rule>(rule: &R, s: &Vec<char>) -> (out: Vec<char>)
    ensures
        out@ == rewritten(rule, s@),
{
    let mut out: Vec<char> = Vec::new();
    let mut i: usize = 0;
    while i < s.len()
        invariant
            i <= s.len(),
            out@ + rewritten_from(rule, s@, i as int) == rewritten(rule, s@),
        decreases s.len() - i,
    {
        match rule.find(s, i) {
            Some(e) => {
                rule.emit(s, i, e, &mut out);
                i = e;
            },
            None => {
                out.push(s[i]);
                i += 1;
            },
        }
    }
    out
}

} // verus!

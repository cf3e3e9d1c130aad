//! Syntax highlighting of code blocks: the scope classes that the tokenizer
//! writes are mapped onto a small fixed vocabulary of presentation classes.

use crate::rewrite::{rewrite, rewritten, Rule};
use crate::text::{
    contains_chars, contains_text, from_chars, occurs_at, push_range, push_str, run_end, skip_run,
    to_chars, vec_at, vec_views, CharClass,
};
use vstd::prelude::*;

verus! {

/// One of the nine presentation classes.
#[derive(Clone, Copy, Debug, PartialEq, Eq, Structural)]
pub enum Bucket {
    Keyword,
    Text,
    Comment,
    Number,
    Function,
    Operator,
    Punctuation,
    Builtin,
    Variable,
}

/// The class name of a bucket, as the style sheet knows it.
pub open spec fn label_of(b: Bucket) -> Seq<char> {
    match b {
        Bucket::Keyword => "keyword"@,
        Bucket::Text => "string"@,
        Bucket::Comment => "comment"@,
        Bucket::Number => "number"@,
        Bucket::Function => "function"@,
        Bucket::Operator => "operator"@,
        Bucket::Punctuation => "punctuation"@,
        Bucket::Builtin => "builtin"@,
        Bucket::Variable => "variable"@,
    }
}

impl Bucket {
    /// The class name of the bucket.
    pub fn label(&self) -> (name: &'static str)
        ensures
            name@ == label_of(*self),
    {
        match self {
            Bucket::Keyword => "keyword",
            Bucket::Text => "string",
            Bucket::Comment => "comment",
            Bucket::Number => "number",
            Bucket::Function => "function",
            Bucket::Operator => "operator",
            Bucket::Punctuation => "punctuation",
            Bucket::Builtin => "builtin",
            Bucket::Variable => "variable",
        }
    }
}

/// The policy, in order of priority: a scope string that contains every
/// needle of an entry falls into that entry's bucket, and the first such
/// entry decides.
pub open spec fn scope_rules() -> Seq<(Seq<Seq<char>>, Bucket)> {
    seq![
        (seq!["keyword"@], Bucket::Keyword),
        (seq!["string"@], Bucket::Text),
        (seq!["comment"@], Bucket::Comment),
        (seq!["constant"@, "numeric"@], Bucket::Number),
        (seq!["function"@], Bucket::Function),
        (seq!["support function"@], Bucket::Function),
        (seq!["operator"@], Bucket::Operator),
        (seq!["punctuation"@], Bucket::Punctuation),
        (seq!["support"@], Bucket::Builtin),
        (seq!["builtin"@], Bucket::Builtin),
        (seq!["variable"@], Bucket::Variable),
    ]
}

/// The scope string contains every needle.
pub open spec fn holds_all(needles: Seq<Seq<char>>, scope: Seq<char>) -> bool {
    forall|n: int| 0 <= n < needles.len() ==> contains_text(scope, #[trigger] needles[n])
}

/// The bucket of the first entry at or after `from` whose needles the scope
/// string all contains.
pub open spec fn first_bucket(
    rules: Seq<(Seq<Seq<char>>, Bucket)>,
    scope: Seq<char>,
    from: int,
) -> Option<Bucket>
    decreases rules.len() - from,
{
    if from < 0 || from >= rules.len() {
        None
    } else if holds_all(rules[from].0, scope) {
        Some(rules[from].1)
    } else {
        first_bucket(rules, scope, from + 1)
    }
}

/// The bucket of a scope string, if it has one.
pub open spec fn bucket_of(scope: Seq<char>) -> Option<Bucket> {
    first_bucket(scope_rules(), scope, 0)
}

/// The scope string contains one of the needles of the policy.
pub open spec fn recognised(scope: Seq<char>) -> bool {
    exists|r: int, n: int|
        0 <= r < scope_rules().len() && 0 <= n < scope_rules()[r].0.len() && contains_text(
            scope,
            #[trigger] scope_rules()[r].0[n],
        )
}

/// The opening tag that a span of the given scope string gets: one with the
/// bucket's class, or a bare one where the scope string has no bucket.
pub open spec fn span_tag(scope: Seq<char>) -> Seq<char> {
    match bucket_of(scope) {
        Some(b) => "<span class=\"token "@ + label_of(b) + "\">"@,
        None => "<span>"@,
    }
}

/// An entry of the policy.
pub struct ScopeRule {
    pub needles: Vec<Vec<char>>,
    pub bucket: Bucket,
}

/// The entries as the policy states them.
pub open spec fn rules_view(rules: Seq<ScopeRule>) -> Seq<(Seq<Seq<char>>, Bucket)> {
    Seq::new(rules.len(), |r: int| (vec_views(rules[r].needles@), rules[r].bucket))
}

fn entry(first: &str, second: Option<&str>, bucket: Bucket) -> (rule: ScopeRule)
    ensures
        rule.bucket == bucket,
        vec_views(rule.needles@) == match second {
            Some(s) => seq![first@, s@],
            None => seq![first@],
        },
{
    let mut needles: Vec<Vec<char>> = Vec::new();
    needles.push(to_chars(first));
    if let Some(s) = second {
        needles.push(to_chars(s));
    }
    ScopeRule { needles, bucket }
}

/// Builds the policy.
pub fn policy() -> (rules: Vec<ScopeRule>)
    ensures
        rules_view(rules@) == scope_rules(),
{
    let mut rules: Vec<ScopeRule> = Vec::new();
    rules.push(entry("keyword", None, Bucket::Keyword));
    rules.push(entry("string", None, Bucket::Text));
    rules.push(entry("comment", None, Bucket::Comment));
    rules.push(entry("constant", Some("numeric"), Bucket::Number));
    rules.push(entry("function", None, Bucket::Function));
    rules.push(entry("support function", None, Bucket::Function));
    rules.push(entry("operator", None, Bucket::Operator));
    rules.push(entry("punctuation", None, Bucket::Punctuation));
    rules.push(entry("support", None, Bucket::Builtin));
    rules.push(entry("builtin", None, Bucket::Builtin));
    rules.push(entry("variable", None, Bucket::Variable));
    rules
}

fn contains_all(needles: &Vec<Vec<char>>, scope: &Vec<char>) -> (r: bool)
    ensures
        r == holds_all(vec_views(needles@), scope@),
{
    let mut n: usize = 0;
    while n < needles.len()
        invariant
            n <= needles.len(),
            forall|m: int| 0 <= m < n ==> contains_text(scope@, #[trigger] vec_views(needles@)[m]),
        decreases needles.len() - n,
    {
        if !contains_chars(scope, &needles[n]) {
            assert(vec_views(needles@)[n as int] == needles@[n as int]@);
            return false;
        }
        n += 1;
    }
    true
}

/// Finds the bucket of a scope string.
pub fn classify(scope: &Vec<char>) -> (b: Option<Bucket>)
    ensures
        b == bucket_of(scope@),
{
    let rules = policy();
    let mut r: usize = 0;
    while r < rules.len()
        invariant
            r <= rules.len(),
            rules_view(rules@) == scope_rules(),
            first_bucket(scope_rules(), scope@, 0) == first_bucket(scope_rules(), scope@, r as int),
        decreases rules.len() - r,
    {
        if contains_all(&rules[r].needles, scope) {
            return Some(rules[r].bucket);
        }
        r += 1;
    }
    None
}

/// Finds the bucket of a scope string.
pub fn classify_scope(scope: &str) -> (b: Option<Bucket>)
    ensures
        b == bucket_of(scope@),
{
    let s = to_chars(scope);
    classify(&s)
}

/// Matches an opening span tag with a class attribute that is not empty,
/// `<span class="…">`, and puts the tag of the scope's bucket in its place.
pub struct SpanClasses;

impl Rule for SpanClasses {
    open spec fn match_end(&self, s: Seq<char>, i: int) -> Option<int> {
        let start = i + "<span class=\""@.len();
        let q = run_end(s, start, CharClass::Except('"'));
        if occurs_at(s, i, "<span class=\""@) && start < q && q + 1 < s.len() && s[q + 1] == '>' {
            Some(q + 2)
        } else {
            None
        }
    }

    open spec fn replacement(&self, s: Seq<char>, i: int, e: int) -> Seq<char> {
        span_tag(s.subrange(i + "<span class=\""@.len(), e - 2))
    }

    fn find(&self, s: &Vec<char>, i: usize) -> (r: Option<usize>) {
        let open = to_chars("<span class=\"");
        if !vec_at(s, i, &open) {
            return None;
        }
        let start = i + open.len();
        let q = skip_run(s, start, CharClass::Except('"'));
        if start < q && q < s.len() && s.len() - q > 1 && s[q + 1] == '>' {
            Some(q + 2)
        } else {
            None
        }
    }

    fn emit(&self, s: &Vec<char>, i: usize, e: usize, out: &mut Vec<char>) {
        let open = to_chars("<span class=\"");
        let mut scope: Vec<char> = Vec::new();
        push_range(&mut scope, s, i + open.len(), e - 2);
        match classify(&scope) {
            Some(b) => {
                push_str(out, "<span class=\"token ");
                push_str(out, b.label());
                push_str(out, "\">");
            },
            None => {
                push_str(out, "<span>");
            },
        }
    }
}

/// The markup with every classed span given the class of its bucket.
pub open spec fn with_prism_classes(html: Seq<char>) -> Seq<char> {
    rewritten(&SpanClasses, html)
}

/// Maps the scope classes of every span in `html` onto the presentation
/// classes.
pub fn convert_syntect_classes_to_prism(html: &str) -> (out: String)
    ensures
        out@ == with_prism_classes(html@),
{
    let s = to_chars(html);
    let out = rewrite(&SpanClasses, &s);
    from_chars(&out)
}

/// A scope string that contains none of the policy's needles has no bucket,
/// and its span is written as a bare `<span>`.
pub proof fn lemma_unrecognised_scope_is_bare(scope: Seq<char>)
    requires
        !recognised(scope),
    ensures
        bucket_of(scope) is None,
        span_tag(scope) == "<span>"@,
{
    let rules = scope_rules();
    assert forall|r: int| 0 <= r < rules.len() implies !holds_all(
        #[trigger] rules[r].0,
        scope,
    ) by {
        if holds_all(rules[r].0, scope) {
            assert(contains_text(scope, scope_rules()[r].0[0]));
        }
    }
    lemma_no_rule_no_bucket(rules, scope, 0);
}

/// Where no entry from `from` on holds, there is no bucket.
proof fn lemma_no_rule_no_bucket(rules: Seq<(Seq<Seq<char>>, Bucket)>, scope: Seq<char>, from: int)
    requires
        0 <= from,
        forall|r: int| from <= r < rules.len() ==> !holds_all(#[trigger] rules[r].0, scope),
    ensures
        first_bucket(rules, scope, from) is None,
    decreases rules.len() - from,
{
    if from < rules.len() {
        lemma_no_rule_no_bucket(rules, scope, from + 1);
    }
}

} // verus!

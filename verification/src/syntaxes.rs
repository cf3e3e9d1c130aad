//! The syntax definitions that code blocks are highlighted with: a built-in
//! set, and an optional custom set that takes precedence.

use crate::text::{from_chars, lines, opt_view, push_all, split_lines, to_chars, vec_views};
use syntect::html::{ClassStyle, ClassedHTMLGenerator};
use syntect::parsing::SyntaxSet;
use vstd::prelude::*;

verus! {

/// `syntect::parsing::SyntaxSet`: a set of syntax definitions. The library
/// looks definitions up in it and hands it to the tokenizer.
#[verifier::external_type_specification]
#[verifier::external_body]
pub struct ExSyntaxSet(SyntaxSet);

/// `syntect::html::ClassedHTMLGenerator`: the tokenizer at work on one code
/// block, with the markup that it has written so far.
#[verifier::external_type_specification]
#[verifier::external_body]
pub struct ExClassedHTMLGenerator<'a>(ClassedHTMLGenerator<'a>);

/// What a tokenizer is at work on: the set and the token that it was started
/// with, and the lines that it has been fed, in order.
pub struct TokenizerJob {
    pub set: SyntaxSet,
    pub token: Seq<char>,
    pub fed: Seq<Seq<char>>,
}

/// The language tokens under which a syntax set holds a definition: the file
/// extensions and the names of its syntaxes, in any letter case.
pub uninterp spec fn known_tokens(set: SyntaxSet) -> Set<Seq<char>>;

/// What a generator was started with and has been fed.
pub uninterp spec fn generator_job(generator: ClassedHTMLGenerator<'_>) -> TokenizerJob;

/// The markup that the tokenizer writes for the lines `fed`, each of which
/// ends in a line feed, with the definition that `set` holds for `token`:
/// one span for each scope, with the scope's names as its classes, and the
/// code inside escaped. A line that the tokenizer cannot take adds nothing.
pub uninterp spec fn tokenizer_markup(set: SyntaxSet, token: Seq<char>, fed: Seq<Seq<char>>) -> Seq<
    char,
>;

/// `SyntaxSet::load_defaults_newlines`: the syntax set that ships with the
/// tokenizer, for lines that end in a line feed.
#[verifier::external_body]
fn builtin_set() -> SyntaxSet {
    SyntaxSet::load_defaults_newlines()
}

/// `SyntaxSet::find_syntax_by_token`, which looks a token up among the file
/// extensions of the set's syntaxes and then among their names, and
/// `ClassedHTMLGenerator::new_with_class_style` on what it finds, in the same
/// set and with scope classes written apart by spaces: a generator that has
/// seen no line yet, exactly for the tokens that the set knows.
#[verifier::external_body]
fn start_for_token<'a>(set: &'a SyntaxSet, token: &str) -> (started: Option<
    ClassedHTMLGenerator<'a>,
>)
    ensures
        started is Some <==> known_tokens(*set).contains(token@),
        started is Some ==> generator_job(started->0) == (TokenizerJob {
            set: *set,
            token: token@,
            fed: Seq::empty(),
        }),
{
    match set.find_syntax_by_token(token) {
        Some(syntax) => Some(
            ClassedHTMLGenerator::new_with_class_style(syntax, set, ClassStyle::Spaced),
        ),
        None => None,
    }
}

/// `ClassedHTMLGenerator::parse_html_for_line_which_includes_newline`:
/// tokenizes one line, which ends in a line feed, and adds its spans to the
/// generator's buffer. Tells whether the line was taken; either way the
/// generator has been fed the line.
#[verifier::external_body]
fn feed_line(generator: &mut ClassedHTMLGenerator<'_>, line: &str) -> (taken: bool)
    requires
        line@.len() > 0,
        line@.last() == '\n',
    ensures
        generator_job(*final(generator)) == (TokenizerJob {
            set: generator_job(*old(generator)).set,
            token: generator_job(*old(generator)).token,
            fed: generator_job(*old(generator)).fed.push(line@),
        }),
{
    generator.parse_html_for_line_which_includes_newline(line).is_ok()
}

/// `ClassedHTMLGenerator::finalize`: closes the spans that are still open
/// and hands the buffer out: the markup for what the generator was fed.
#[verifier::external_body]
fn finish_generator(generator: ClassedHTMLGenerator<'_>) -> (markup: String)
    ensures
        markup@ == tokenizer_markup(
            generator_job(generator).set,
            generator_job(generator).token,
            generator_job(generator).fed,
        ),
{
    generator.finalize()
}

/// The lines, each with a line feed behind it.
pub open spec fn with_feeds(lines: Seq<Seq<char>>) -> Seq<Seq<char>> {
    Seq::new(lines.len(), |i: int| lines[i].push('\n'))
}

/// The syntax sets that a build highlights with.
pub struct SyntaxCatalog {
    /// Definitions of the site's own, looked up first.
    pub custom: Option<SyntaxSet>,
    /// The definitions that ship with the tokenizer.
    pub builtin: SyntaxSet,
}

impl SyntaxCatalog {
    /// A definition for `lang` is at hand, in the custom set or in the
    /// built-in one.
    pub open spec fn knows(&self, lang: Seq<char>) -> bool {
        (self.custom is Some && known_tokens(self.custom->0).contains(lang)) || known_tokens(
            self.builtin,
        ).contains(lang)
    }

    /// The set that answers for `lang`: the custom one where it knows the
    /// language, else the built-in one.
    pub open spec fn home_of(&self, lang: Seq<char>) -> SyntaxSet {
        if self.custom is Some && known_tokens(self.custom->0).contains(lang) {
            self.custom->0
        } else {
            self.builtin
        }
    }

    /// The tokenizer's markup for `code` as the language `lang`: the code is
    /// fed line by line, each line with a line feed behind it, to the
    /// definition that the answering set holds for `lang`. There is none
    /// where no definition of `lang` is at hand.
    pub open spec fn marked(&self, lang: Seq<char>, code: Seq<char>) -> Option<Seq<char>> {
        if self.knows(lang) {
            Some(tokenizer_markup(self.home_of(lang), lang, with_feeds(lines(code))))
        } else {
            None
        }
    }

    /// A catalog of the built-in definitions and, if given, custom ones.
    pub fn new(custom: Option<SyntaxSet>) -> (catalog: SyntaxCatalog)
        ensures
            catalog.custom == custom,
    {
        SyntaxCatalog { custom, builtin: builtin_set() }
    }

    /// Starts the tokenizer for `lang` in the set that answers for it.
    fn start<'a>(&'a self, lang: &str) -> (started: Option<ClassedHTMLGenerator<'a>>)
        ensures
            started is Some <==> self.knows(lang@),
            started is Some ==> generator_job(started->0) == (TokenizerJob {
                set: self.home_of(lang@),
                token: lang@,
                fed: Seq::empty(),
            }),
    {
        if let Some(set) = &self.custom {
            if let Some(generator) = start_for_token(set, lang) {
                return Some(generator);
            }
        }
        start_for_token(&self.builtin, lang)
    }

    /// Looks for a definition of `lang`, in the custom set first. Returns the
    /// set that holds it.
    pub fn find_syntax<'a>(&'a self, lang: &str) -> (found: Option<&'a SyntaxSet>)
        ensures
            found is Some <==> self.knows(lang@),
            found is Some ==> *found->0 == self.home_of(lang@),
    {
        if let Some(set) = &self.custom {
            if start_for_token(set, lang).is_some() {
                return Some(set);
            }
        }
        if start_for_token(&self.builtin, lang).is_some() {
            Some(&self.builtin)
        } else {
            None
        }
    }

    /// Tokenizes `code` line by line as the language `lang`, if a definition
    /// of it is at hand, and returns the tokenizer's markup.
    pub fn highlight(&self, lang: &str, code: &str) -> (markup: Option<String>)
        ensures
            opt_view(markup) == self.marked(lang@, code@),
    {
        match self.start(lang) {
            None => None,
            Some(started) => {
                let mut generator = started;
                let all = split_lines(&to_chars(code));
                let ghost fed = with_feeds(lines(code@));
                let mut n: usize = 0;
                assert(fed.take(0) =~= Seq::<Seq<char>>::empty());
                while n < all.len()
                    invariant
                        n <= all.len(),
                        vec_views(all@) == lines(code@),
                        fed == with_feeds(lines(code@)),
                        generator_job(generator) == (TokenizerJob {
                            set: self.home_of(lang@),
                            token: lang@,
                            fed: fed.take(n as int),
                        }),
                    decreases all.len() - n,
                {
                    let mut line: Vec<char> = Vec::new();
                    push_all(&mut line, &all[n]);
                    line.push('\n');
                    let text = from_chars(&line);
                    proof {
                        assert(vec_views(all@)[n as int] == all@[n as int]@);
                        assert(fed.take(n + 1) =~= fed.take(n as int).push(text@));
                    }
                    let _ = feed_line(&mut generator, text.as_str());
                    n += 1;
                }
                assert(fed.take(n as int) =~= fed);
                Some(finish_generator(generator))
            },
        }
    }
}

} // verus!

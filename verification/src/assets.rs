//! The assets of a site: style sheets that are put into pages, and scripts
//! that are made small.

use crate::rewrite::{rewrite, rewritten, Rule};
use crate::rss::{replace_literal, Literals};
use crate::text::{
    from_chars, occurs_at, opt_views, push_range, push_str, run_end, same_chars, skip_run,
    string_views, to_chars, vec_at, CharClass,
};
use lightningcss::stylesheet::{ParserOptions, PrinterOptions, StyleSheet};
use vstd::prelude::*;

verus! {

/// What is done with a file of the site, by its extension.
#[derive(Clone, Copy, Debug, PartialEq, Eq, Structural)]
pub enum AssetKind {
    StyleSheet,
    Script,
    Page,
    Image,
    Other,
}

/// The kind of a file with the given extension.
pub open spec fn kind_of(extension: Seq<char>) -> AssetKind {
    if extension == "css"@ {
        AssetKind::StyleSheet
    } else if extension == "js"@ {
        AssetKind::Script
    } else if extension == "html"@ {
        AssetKind::Page
    } else if extension == "png"@ || extension == "jpg"@ || extension == "jpeg"@ || extension
        == "webp"@ {
        AssetKind::Image
    } else {
        AssetKind::Other
    }
}

fn is_text(a: &Vec<char>, b: &str) -> (r: bool)
    ensures
        r == (a@ == b@),
{
    same_chars(a, &to_chars(b))
}

/// Tells the kind of a file from its extension.
pub fn classify_extension(extension: &str) -> (kind: AssetKind)
    ensures
        kind == kind_of(extension@),
{
    let e = to_chars(extension);
    if is_text(&e, "css") {
        AssetKind::StyleSheet
    } else if is_text(&e, "js") {
        AssetKind::Script
    } else if is_text(&e, "html") {
        AssetKind::Page
    } else if is_text(&e, "png") || is_text(&e, "jpg") || is_text(&e, "jpeg") || is_text(
        &e,
        "webp",
    ) {
        AssetKind::Image
    } else {
        AssetKind::Other
    }
}

/// Matches `:global(…)` around a selector that is not empty and leaves the
/// selector.
pub struct GlobalWrappers;

impl Rule for GlobalWrappers {
    open spec fn match_end(&self, s: Seq<char>, i: int) -> Option<int> {
        let start = i + ":global("@.len();
        let close = run_end(s, start, CharClass::Except(')'));
        if occurs_at(s, i, ":global("@) && start < close && close < s.len() {
            Some(close + 1)
        } else {
            None
        }
    }

    open spec fn replacement(&self, s: Seq<char>, i: int, e: int) -> Seq<char> {
        s.subrange(i + ":global("@.len(), e - 1)
    }

    fn find(&self, s: &Vec<char>, i: usize) -> (r: Option<usize>) {
        let open = to_chars(":global(");
        if !vec_at(s, i, &open) {
            return None;
        }
        let start = i + open.len();
        let close = skip_run(s, start, CharClass::Except(')'));
        if start < close && close < s.len() {
            Some(close + 1)
        } else {
            None
        }
    }

    fn emit(&self, s: &Vec<char>, i: usize, e: usize, out: &mut Vec<char>) {
        let open = to_chars(":global(");
        push_range(out, s, i + open.len(), e - 1);
    }
}

/// A style sheet without its `:global(…)` wrappers.
pub open spec fn without_global_wrappers(css: Seq<char>) -> Seq<char> {
    rewritten(&GlobalWrappers, css)
}

/// Takes the `:global(…)` wrappers out of a style sheet.
pub fn strip_global_wrappers(css: &str) -> (out: String)
    ensures
        out@ == without_global_wrappers(css@),
{
    from_chars(&rewrite(&GlobalWrappers, &to_chars(css)))
}

/// The style sheet of a page: the global styles, the layout styles without
/// their `:global(…)` wrappers, and the utility styles.
pub open spec fn combined_styles(global: Seq<char>, utils: Seq<char>, layout: Seq<char>) -> Seq<
    char,
> {
    global + without_global_wrappers(layout) + utils
}

/// Puts the style sheets of a page together.
pub fn combine_styles(global: &str, utils: &str, layout: &str) -> (out: String)
    ensures
        out@ == combined_styles(global@, utils@, layout@),
{
    let mut out: Vec<char> = Vec::new();
    push_str(&mut out, global);
    push_str(&mut out, strip_global_wrappers(layout).as_str());
    push_str(&mut out, utils);
    from_chars(&out)
}

/// Why an asset could not be made small.
#[derive(Debug)]
pub enum AssetError {
    /// The style sheet could not be read or written; the minifier's report.
    StyleSheet(String),
    /// The script could not be read; the minifier's report.
    Script(String),
}

impl AssetError {
    /// The message of the error.
    pub fn message(&self) -> (text: String)
        ensures
            match self {
                AssetError::StyleSheet(report) => text@ == "CSS error: "@ + report@,
                AssetError::Script(report) => text@ == "JS minify error: "@ + report@,
            },
    {
        let mut out: Vec<char> = Vec::new();
        match self {
            AssetError::StyleSheet(report) => {
                push_str(&mut out, "CSS error: ");
                push_str(&mut out, report.as_str());
            },
            AssetError::Script(report) => {
                push_str(&mut out, "JS minify error: ");
                push_str(&mut out, report.as_str());
            },
        }
        from_chars(&out)
    }
}

/// What the minifier makes of a style sheet: the style sheet in its short
/// form, or the report of the step that failed, parsing or printing. The
/// minifier reads the rules in their order and prints them in that order, so
/// the result depends on the text alone.
pub uninterp spec fn css_minified(css: Seq<char>) -> Result<Seq<char>, Seq<char>>;

/// The view of a minifier's result.
pub open spec fn outcome_view(out: Result<String, String>) -> Result<Seq<char>, Seq<char>> {
    match out {
        Ok(short) => Ok(short@),
        Err(report) => Err(report@),
    }
}

/// What the library hands out for a style sheet: the short form, or an error
/// of the kind `StyleSheet` with the minifier's report.
pub open spec fn is_sheet_result(out: Result<String, AssetError>, css: Seq<char>) -> bool {
    match out {
        Ok(text) => css_minified(css) == Ok::<Seq<char>, Seq<char>>(text@),
        Err(AssetError::StyleSheet(report)) => css_minified(css) == Err::<Seq<char>, Seq<char>>(
            report@,
        ),
        Err(AssetError::Script(_)) => false,
    }
}

/// `StyleSheet::parse` with the default options and `StyleSheet::to_css`
/// with minification switched on: the style sheet in its short form, or the
/// report of the step that failed, as its `Debug` writes it.
#[verifier::external_body]
fn minify_sheet(css: &str) -> (out: Result<String, String>)
    ensures
        outcome_view(out) == css_minified(css@),
{
    let sheet = match StyleSheet::parse(css, ParserOptions::default()) {
        Ok(sheet) => sheet,
        Err(e) => return Err(format!("{:?}", e)),
    };
    match sheet.to_css(PrinterOptions { minify: true, ..Default::default() }) {
        Ok(printed) => Ok(printed.code),
        Err(e) => Err(format!("{:?}", e)),
    }
}

/// `String::from_utf8`: the text that the bytes encode, where they are valid
/// UTF-8.
#[verifier::external_body]
fn text_of_bytes(bytes: Vec<u8>) -> (text: Option<String>)
    ensures
        text is Some <==> vstd::utf8::valid_utf8(bytes@),
        text is Some ==> text->0@ == vstd::utf8::decode_utf8(bytes@),
{
    String::from_utf8(bytes).ok()
}

/// The result of a minifier for a style sheet, as the library reports it.
pub fn sheet_outcome(minified: Result<String, String>) -> (out: Result<String, AssetError>)
    ensures
        match (minified, out) {
            (Ok(short), Ok(text)) => text@ == short@,
            (Err(report), Err(AssetError::StyleSheet(r))) => r@ == report@,
            _ => false,
        },
{
    match minified {
        Ok(short) => Ok(short),
        Err(report) => Err(AssetError::StyleSheet(report)),
    }
}

/// Puts the style sheets of a page together and makes the result small: the
/// result is what the minifier makes of the combined style sheet. Fails
/// where the minifier cannot read or write it.
pub fn inline_styles(global: &str, utils: &str, layout: &str) -> (out: Result<String, AssetError>)
    ensures
        is_sheet_result(out, combined_styles(global@, utils@, layout@)),
{
    let combined = combine_styles(global, utils, layout);
    sheet_outcome(minify_sheet(combined.as_str()))
}

/// Makes a style sheet small: the result is what the minifier makes of it.
/// Fails where the minifier cannot read or write it.
pub fn minify_css_source(css: &str) -> (out: Result<String, AssetError>)
    ensures
        is_sheet_result(out, css@),
{
    sheet_outcome(minify_sheet(css))
}

/// A minified script with the line feeds in the arguments of `split` written
/// as the script had them: the minifier doubles the backslash of `\n` in
/// ``split(`\n`)``, `split('\n')` and `split("\n")`.
pub open spec fn splits_mended(js: Seq<char>) -> Seq<char> {
    let a = rewritten(&Literals { from: "split(`\\\\n`)", to: "split(`\\n`)" }, js);
    let b = rewritten(&Literals { from: "split('\\\\n')", to: "split('\\n')" }, a);
    rewritten(&Literals { from: "split(\"\\\\n\")", to: "split(\"\\n\")" }, b)
}

/// Mends the line feeds in the arguments of `split` in a minified script.
pub fn mend_splits(js: &str) -> (out: String)
    ensures
        out@ == splits_mended(js@),
{
    let a = replace_literal(js, "split(`\\\\n`)", "split(`\\n`)");
    let b = replace_literal(a.as_str(), "split('\\\\n')", "split('\\n')");
    replace_literal(b.as_str(), "split(\"\\\\n\")", "split(\"\\n\")")
}

/// The text of a minified script: the text that the minifier's bytes encode,
/// or the script as it was where they encode none; in both cases with its
/// `split` arguments mended.
pub open spec fn script_text(js: Seq<char>, bytes: Seq<u8>) -> Seq<char> {
    if vstd::utf8::valid_utf8(bytes) {
        splits_mended(vstd::utf8::decode_utf8(bytes))
    } else {
        splits_mended(js)
    }
}

/// Turns the bytes that the minifier wrote for the script `js` into the
/// script's new text.
pub fn finish_script(js: &str, bytes: Vec<u8>) -> (out: String)
    ensures
        out@ == script_text(js@, bytes@),
{
    match text_of_bytes(bytes) {
        Some(text) => mend_splits(text.as_str()),
        None => mend_splits(js),
    }
}

/// What the library hands out for a script, given what the minifier made
/// of it: the script's new text for the bytes that the minifier wrote, or an
/// error of the kind `Script` with the minifier's report.
pub fn script_outcome(js: &str, minified: Result<Vec<u8>, String>) -> (out: Result<
    String,
    AssetError,
>)
    ensures
        match (minified, out) {
            (Ok(bytes), Ok(text)) => text@ == script_text(js@, bytes@),
            (Err(report), Err(AssetError::Script(r))) => r@ == report@,
            _ => false,
        },
{
    match minified {
        Ok(bytes) => Ok(finish_script(js, bytes)),
        Err(report) => Err(AssetError::Script(report)),
    }
}

/// Where the placeholder for a style sheet that starts at `i` ends. The
/// placeholder is `<!-- INLINE_CSS:`, a path that starts with `/`, ends in
/// `.css` and has something in between, and ` -->`.
pub open spec fn placeholder_end(s: Seq<char>, i: int) -> Option<int> {
    let p = i + "<!-- INLINE_CSS:"@.len();
    let g = run_end(s, p + 1, CharClass::Except('>'));
    if occurs_at(s, i, "<!-- INLINE_CSS:"@) && 0 <= p < s.len() && s[p] == '/' && g < s.len()
        && p + 1 < g - ".css --"@.len() && occurs_at(s, g - ".css --"@.len(), ".css --"@) {
        Some(g + 1)
    } else {
        None
    }
}

/// The path of the placeholder `s[i..e]`.
pub open spec fn placeholder_path(s: Seq<char>, i: int, e: int) -> Seq<char> {
    s.subrange(i + "<!-- INLINE_CSS:"@.len(), e - " -->"@.len())
}

/// The paths of the placeholders in `s[i..]`, in order.
pub open spec fn placeholder_paths(s: Seq<char>, i: int) -> Seq<Seq<char>>
    decreases s.len() - i,
{
    if i < 0 || i >= s.len() {
        Seq::empty()
    } else {
        match placeholder_end(s, i) {
            Some(e) => if i < e <= s.len() {
                seq![placeholder_path(s, i, e)] + placeholder_paths(s, e)
            } else {
                placeholder_paths(s, i + 1)
            },
            None => placeholder_paths(s, i + 1),
        }
    }
}

/// What `s[i..]` becomes when its placeholders give way to style sheets:
/// the `n`-th placeholder of the page, counted from `k` on, becomes a
/// `style` element with the `n`-th sheet, and stays where that sheet is
/// missing.
pub open spec fn sheets_inlined(s: Seq<char>, i: int, sheets: Seq<Option<Seq<char>>>, k: int) -> Seq<
    char,
>
    decreases s.len() - i,
{
    if i < 0 || i >= s.len() {
        Seq::empty()
    } else {
        match placeholder_end(s, i) {
            Some(e) => if i < e <= s.len() {
                (if 0 <= k < sheets.len() && sheets[k] is Some {
                    "<style>"@ + sheets[k]->0 + "</style>"@
                } else {
                    s.subrange(i, e)
                }) + sheets_inlined(s, e, sheets, k + 1)
            } else {
                seq![s[i]] + sheets_inlined(s, i + 1, sheets, k)
            },
            None => seq![s[i]] + sheets_inlined(s, i + 1, sheets, k),
        }
    }
}

fn find_placeholder(s: &Vec<char>, i: usize) -> (r: Option<usize>)
    requires
        i < s.len(),
    ensures
        match r {
            Some(e) => placeholder_end(s@, i as int) == Some(e as int) && i
                + "<!-- INLINE_CSS:"@.len() + " -->"@.len() < e <= s.len(),
            None => placeholder_end(s@, i as int) is None,
        },
{
    let open = to_chars("<!-- INLINE_CSS:");
    let tail = to_chars(".css --");
    proof {
        reveal_strlit(".css --");
        reveal_strlit(" -->");
    }
    if !vec_at(s, i, &open) {
        return None;
    }
    let p = i + open.len();
    if p >= s.len() || s[p] != '/' {
        return None;
    }
    let g = skip_run(s, p + 1, CharClass::Except('>'));
    if g < s.len() && g >= tail.len() && p + 1 < g - tail.len() && vec_at(s, g - tail.len(), &tail) {
        Some(g + 1)
    } else {
        None
    }
}

/// Lists the paths of the style sheets that a page has placeholders for, in
/// order.
pub fn css_paths(html: &str) -> (paths: Vec<String>)
    ensures
        string_views(paths@) == placeholder_paths(html@, 0),
{
    let s = to_chars(html);
    let open = to_chars("<!-- INLINE_CSS:");
    let close = to_chars(" -->");
    let mut paths: Vec<String> = Vec::new();
    let mut i: usize = 0;
    while i < s.len()
        invariant
            i <= s.len(),
            open@ == "<!-- INLINE_CSS:"@,
            close@ == " -->"@,
            string_views(paths@) + placeholder_paths(s@, i as int) == placeholder_paths(s@, 0),
        decreases s.len() - i,
    {
        match find_placeholder(&s, i) {
            Some(e) => {
                let mut path: Vec<char> = Vec::new();
                push_range(&mut path, &s, i + open.len(), e - close.len());
                paths.push(from_chars(&path));
                i = e;
            },
            None => {
                i += 1;
            },
        }
    }
    paths
}

/// Puts style sheets into a page in place of its placeholders. `sheets[n]`
/// is the style sheet for the `n`-th placeholder of the page; a placeholder
/// whose sheet is missing stays.
pub fn inline_css_in_html(html: &str, sheets: &[Option<String>]) -> (out: String)
    ensures
        out@ == sheets_inlined(html@, 0, opt_views(sheets@), 0),
{
    let s = to_chars(html);
    let ghost all = opt_views(sheets@);
    let mut out: Vec<char> = Vec::new();
    let mut i: usize = 0;
    let mut k: usize = 0;
    while i < s.len()
        invariant
            i <= s.len(),
            k <= i,
            all == opt_views(sheets@),
            out@ + sheets_inlined(s@, i as int, all, k as int) == sheets_inlined(s@, 0, all, 0),
        decreases s.len() - i,
    {
        match find_placeholder(&s, i) {
            Some(e) => {
                let mut used = false;
                if k < sheets.len() {
                    if let Some(css) = &sheets[k] {
                        push_str(&mut out, "<style>");
                        push_str(&mut out, css.as_str());
                        push_str(&mut out, "</style>");
                        used = true;
                    }
                }
                if !used {
                    push_range(&mut out, &s, i, e);
                }
                i = e;
                k += 1;
            },
            None => {
                out.push(s[i]);
                i += 1;
            },
        }
    }
    from_chars(&out)
}

} // verus!

//! The renderer: a single pass over a stream of markdown events that writes
//! HTML, with states of its own for code blocks, tables and images.

use crate::highlight::{with_prism_classes, SpanClasses};
use crate::rewrite::rewrite;
use crate::syntaxes::SyntaxCatalog;
use crate::text::{from_chars, opt_view, push_all, push_str, to_chars};
use vstd::prelude::*;

verus! {

/// What a character becomes when it is written into HTML text or into a
/// quoted attribute.
pub open spec fn escape_of(c: char) -> Seq<char> {
    if c == '&' {
        "&amp;"@
    } else if c == '<' {
        "&lt;"@
    } else if c == '>' {
        "&gt;"@
    } else if c == '"' {
        "&quot;"@
    } else if c == '\'' {
        "&#39;"@
    } else {
        seq![c]
    }
}

/// The text with each of `&`, `<`, `>`, `"` and `'` replaced by its escape.
pub open spec fn escaped(s: Seq<char>) -> Seq<char>
    decreases s.len(),
{
    if s.len() == 0 {
        Seq::empty()
    } else {
        escaped(s.drop_last()) + escape_of(s.last())
    }
}

/// Escaped text holds no character that could open or close a tag or end a
/// quoted attribute.
pub proof fn lemma_escaped_has_no_markup(s: Seq<char>)
    ensures
        forall|j: int|
            0 <= j < escaped(s).len() ==> {
                let c = #[trigger] escaped(s)[j];
                c != '<' && c != '>' && c != '"' && c != '\''
            },
    decreases s.len(),
{
    reveal_strlit("&amp;");
    reveal_strlit("&lt;");
    reveal_strlit("&gt;");
    reveal_strlit("&quot;");
    reveal_strlit("&#39;");
    if s.len() > 0 {
        lemma_escaped_has_no_markup(s.drop_last());
        let head = escaped(s.drop_last());
        assert forall|j: int| 0 <= j < escaped(s).len() implies {
            let c = #[trigger] escaped(s)[j];
            c != '<' && c != '>' && c != '"' && c != '\''
        } by {
        }
    }
}

/// `pulldown_cmark_escape::escape_html`, writing into a fresh string: each of
/// the five special characters is replaced by its escape sequence, every
/// other character is copied.
#[verifier::external_body]
fn escape_html(text: &str) -> (out: String)
    ensures
        out@ == escaped(text@),
{
    let mut out = String::new();
    let _ = pulldown_cmark_escape::escape_html(&mut out, text);
    out
}

/// An event of a markdown document, as far as the renderer tells events
/// apart.
#[derive(Clone, Debug)]
pub enum RenderEvent {
    /// A code block starts; the info string of its fence, if it has a fence.
    CodeBlockStart(Option<String>),
    CodeBlockEnd,
    /// Literal text.
    Text(String),
    /// An inline code span.
    Code(String),
    TableStart,
    TableEnd,
    TableHeadStart,
    TableHeadEnd,
    TableRowStart,
    TableRowEnd,
    TableCellStart,
    TableCellEnd,
    BlockquoteStart,
    BlockquoteEnd,
    ParagraphStart,
    /// An image starts; its destination.
    ImageStart(String),
    ImageEnd,
    /// Any other event, with the markup that it stands for by itself.
    Other(String),
}

/// An event with its texts as character sequences.
pub enum EventModel {
    CodeBlockStart(Option<Seq<char>>),
    CodeBlockEnd,
    Text(Seq<char>),
    Code(Seq<char>),
    TableStart,
    TableEnd,
    TableHeadStart,
    TableHeadEnd,
    TableRowStart,
    TableRowEnd,
    TableCellStart,
    TableCellEnd,
    BlockquoteStart,
    BlockquoteEnd,
    ParagraphStart,
    ImageStart(Seq<char>),
    ImageEnd,
    Other(Seq<char>),
}

impl View for RenderEvent {
    type V = EventModel;

    open spec fn view(&self) -> EventModel {
        match self {
            RenderEvent::CodeBlockStart(lang) => EventModel::CodeBlockStart(
                match lang {
                    Some(l) => Some(l@),
                    None => None,
                },
            ),
            RenderEvent::CodeBlockEnd => EventModel::CodeBlockEnd,
            RenderEvent::Text(t) => EventModel::Text(t@),
            RenderEvent::Code(t) => EventModel::Code(t@),
            RenderEvent::TableStart => EventModel::TableStart,
            RenderEvent::TableEnd => EventModel::TableEnd,
            RenderEvent::TableHeadStart => EventModel::TableHeadStart,
            RenderEvent::TableHeadEnd => EventModel::TableHeadEnd,
            RenderEvent::TableRowStart => EventModel::TableRowStart,
            RenderEvent::TableRowEnd => EventModel::TableRowEnd,
            RenderEvent::TableCellStart => EventModel::TableCellStart,
            RenderEvent::TableCellEnd => EventModel::TableCellEnd,
            RenderEvent::BlockquoteStart => EventModel::BlockquoteStart,
            RenderEvent::BlockquoteEnd => EventModel::BlockquoteEnd,
            RenderEvent::ParagraphStart => EventModel::ParagraphStart,
            RenderEvent::ImageStart(url) => EventModel::ImageStart(url@),
            RenderEvent::ImageEnd => EventModel::ImageEnd,
            RenderEvent::Other(markup) => EventModel::Other(markup@),
        }
    }
}

/// The events of a vector, as models.
pub open spec fn event_views(events: Seq<RenderEvent>) -> Seq<EventModel> {
    Seq::new(events.len(), |i: int| events[i]@)
}

/// Where in a table the renderer is.
#[derive(Clone, Copy, Debug)]
pub struct TableFlags {
    /// Inside the head section.
    pub in_head: bool,
    /// The body section has been opened.
    pub body_open: bool,
}

/// The construct that the renderer is inside of, with what it has gathered.
pub enum ModeModel {
    Idle,
    CodeBlock { lang: Option<Seq<char>>, code: Seq<char> },
    Table(TableFlags),
    /// An image; `table` is the table around it, if there is one.
    Image { url: Seq<char>, alt: Seq<char>, table: Option<TableFlags> },
}

/// The renderer's state as a value: the construct it is in, whether it is in
/// a block quote, and the HTML written so far.
pub struct RenderModel {
    pub mode: ModeModel,
    pub in_quote: bool,
    pub html: Seq<char>,
}

/// The markup of a finished code block. `mark` is the tokenizer's markup for
/// the code, or `None` where no syntax definition was found.
///
/// A block with a language and a definition is wrapped in the highlight
/// envelope and holds the tokenizer's spans with presentation classes. A
/// block with a language and no definition is a plain `pre`/`code` pair with
/// the escaped code. A block without a language is wrapped in the envelope
/// under the language `text` and holds the escaped code.
pub open spec fn code_block_html(
    lang: Option<Seq<char>>,
    code: Seq<char>,
    mark: Option<Seq<char>>,
) -> Seq<char> {
    match lang {
        Some(l) => match mark {
            Some(raw) => "<div class=\"remark-highlight\"><pre class=\"language-"@ + l
                + "\"><code class=\"language-"@ + l + "\">"@ + with_prism_classes(raw)
                + "</code></pre></div>"@,
            None => "<pre><code class=\"language-"@ + l + "\">"@ + escaped(code)
                + "</code></pre>"@,
        },
        None =>
            "<div class=\"remark-highlight\"><pre class=\"language-text\"><code class=\"language-text\">"@
                + escaped(code) + "</code></pre></div>"@,
    }
}

/// The markup of a finished image.
pub open spec fn image_html(url: Seq<char>, alt: Seq<char>) -> Seq<char> {
    "<img src=\""@ + url + "\" alt=\""@ + escaped(alt) + "\">"@
}

/// Whether the renderer is in the head section of a table.
pub open spec fn in_table_head(mode: ModeModel) -> bool {
    match mode {
        ModeModel::Table(t) => t.in_head,
        _ => false,
    }
}

/// Whether a table row that starts now is the first of the body section.
pub open spec fn opens_body(mode: ModeModel) -> bool {
    match mode {
        ModeModel::Table(t) => !t.in_head && !t.body_open,
        _ => false,
    }
}

/// Whether the renderer is in a table whose body section is open.
pub open spec fn body_is_open(mode: ModeModel) -> bool {
    match mode {
        ModeModel::Table(t) => t.body_open,
        _ => false,
    }
}

/// The HTML that an event adds, in a given state.
pub open spec fn emitted(st: RenderModel, ev: EventModel, mark: Option<Seq<char>>) -> Seq<char> {
    match ev {
        EventModel::CodeBlockStart(_) => Seq::empty(),
        EventModel::CodeBlockEnd => match st.mode {
            ModeModel::CodeBlock { lang, code } => code_block_html(lang, code, mark),
            _ => Seq::empty(),
        },
        EventModel::Text(t) => match st.mode {
            ModeModel::CodeBlock { .. } => Seq::empty(),
            ModeModel::Image { .. } => Seq::empty(),
            _ => escaped(t),
        },
        EventModel::Code(t) => "<code>"@ + escaped(t) + "</code>"@,
        EventModel::TableStart => "<div class=\"table-wrapper\"><table>"@,
        EventModel::TableEnd => if body_is_open(st.mode) {
            "</tbody>"@ + "</table></div>"@
        } else {
            "</table></div>"@
        },
        EventModel::TableHeadStart => "<thead>"@,
        EventModel::TableHeadEnd => "</thead>"@,
        EventModel::TableRowStart => if opens_body(st.mode) {
            "<tbody>"@ + "<tr>"@
        } else {
            "<tr>"@
        },
        EventModel::TableRowEnd => "</tr>"@,
        EventModel::TableCellStart => if in_table_head(st.mode) {
            "<th>"@
        } else {
            "<td>"@
        },
        EventModel::TableCellEnd => if in_table_head(st.mode) {
            "</th>"@
        } else {
            "</td>"@
        },
        EventModel::BlockquoteStart => "<blockquote>"@,
        EventModel::BlockquoteEnd => "</blockquote>"@,
        EventModel::ParagraphStart => if st.in_quote {
            "<p class=\"quote-line\">"@
        } else {
            "<p>"@
        },
        EventModel::ImageStart(_) => Seq::empty(),
        EventModel::ImageEnd => match st.mode {
            ModeModel::Image { url, alt, table } => image_html(url, alt),
            _ => Seq::empty(),
        },
        EventModel::Other(markup) => markup,
    }
}

/// The language that a code block declares: the info string of its fence,
/// unless the block has no fence or the info string is empty.
pub open spec fn declared_language(info: Option<Seq<char>>) -> Option<Seq<char>> {
    match info {
        Some(text) => if text.len() > 0 {
            Some(text)
        } else {
            None
        },
        None => None,
    }
}

/// The construct that the renderer is in after an event.
pub open spec fn next_mode(mode: ModeModel, ev: EventModel) -> ModeModel {
    match ev {
        EventModel::CodeBlockStart(info) => ModeModel::CodeBlock {
            lang: declared_language(info),
            code: Seq::empty(),
        },
        EventModel::CodeBlockEnd => match mode {
            ModeModel::CodeBlock { .. } => ModeModel::Idle,
            _ => mode,
        },
        EventModel::Text(t) => match mode {
            ModeModel::CodeBlock { lang, code } => ModeModel::CodeBlock { lang, code: code + t },
            ModeModel::Image { url, alt, table } => ModeModel::Image { url, alt: alt + t, table },
            _ => mode,
        },
        EventModel::TableStart => ModeModel::Table(TableFlags { in_head: false, body_open: false }),
        EventModel::TableEnd => match mode {
            ModeModel::Table(_) => ModeModel::Idle,
            _ => mode,
        },
        EventModel::TableHeadStart => match mode {
            ModeModel::Table(t) => ModeModel::Table(
                TableFlags { in_head: true, body_open: t.body_open },
            ),
            _ => mode,
        },
        EventModel::TableHeadEnd => match mode {
            ModeModel::Table(t) => ModeModel::Table(
                TableFlags { in_head: false, body_open: t.body_open },
            ),
            _ => mode,
        },
        EventModel::TableRowStart => match mode {
            ModeModel::Table(t) => ModeModel::Table(
                TableFlags { in_head: t.in_head, body_open: t.body_open || !t.in_head },
            ),
            _ => mode,
        },
        EventModel::ImageStart(url) => ModeModel::Image {
            url,
            alt: Seq::empty(),
            table: match mode {
                ModeModel::Table(t) => Some(t),
                _ => None,
            },
        },
        EventModel::ImageEnd => match mode {
            ModeModel::Image { url, alt, table } => match table {
                Some(t) => ModeModel::Table(t),
                None => ModeModel::Idle,
            },
            _ => mode,
        },
        _ => mode,
    }
}

/// Whether the renderer is in a block quote after an event.
pub open spec fn next_quote(in_quote: bool, ev: EventModel) -> bool {
    match ev {
        EventModel::BlockquoteStart => true,
        EventModel::BlockquoteEnd => false,
        _ => in_quote,
    }
}

/// The state after an event.
pub open spec fn advance(st: RenderModel, ev: EventModel, mark: Option<Seq<char>>) -> RenderModel {
    RenderModel {
        mode: next_mode(st.mode, ev),
        in_quote: next_quote(st.in_quote, ev),
        html: st.html + emitted(st, ev, mark),
    }
}

/// The state before the first event.
pub open spec fn initial() -> RenderModel {
    RenderModel { mode: ModeModel::Idle, in_quote: false, html: Seq::empty() }
}

/// The code block that an event closes: its language and its code, where the
/// block declared a language. For such an event the tokenizer is asked.
pub open spec fn wants_mark(st: RenderModel, ev: EventModel) -> Option<(Seq<char>, Seq<char>)> {
    match ev {
        EventModel::CodeBlockEnd => match st.mode {
            ModeModel::CodeBlock { lang, code } => match lang {
                Some(l) => Some((l, code)),
                None => None,
            },
            _ => None,
        },
        _ => None,
    }
}

/// The state after a run of events; `marks[i]` is the tokenizer's markup for
/// the code block that event `i` closes, if it has any.
pub open spec fn run(events: Seq<EventModel>, marks: Seq<Option<Seq<char>>>) -> RenderModel
    decreases events.len(),
{
    if events.len() == 0 || marks.len() != events.len() {
        initial()
    } else {
        advance(run(events.drop_last(), marks.drop_last()), events.last(), marks.last())
    }
}

/// The HTML of a run of events.
pub open spec fn rendered(events: Seq<EventModel>, marks: Seq<Option<Seq<char>>>) -> Seq<char> {
    run(events, marks).html
}

/// The tokenizer's markup that an event is rendered with: that of the code
/// block that the event closes, where the block declared a language that the
/// catalog knows, and none for every other event.
pub open spec fn mark_for(catalog: &SyntaxCatalog, st: RenderModel, ev: EventModel) -> Option<
    Seq<char>,
> {
    match wants_mark(st, ev) {
        Some((lang, code)) => catalog.marked(lang, code),
        None => None,
    }
}

/// The state after a run of events, each code block highlighted by the
/// catalog.
pub open spec fn run_with(catalog: &SyntaxCatalog, events: Seq<EventModel>) -> RenderModel
    decreases events.len(),
{
    if events.len() == 0 {
        initial()
    } else {
        let before = run_with(catalog, events.drop_last());
        advance(before, events.last(), mark_for(catalog, before, events.last()))
    }
}

/// The HTML of a run of events, each code block highlighted by the catalog.
pub open spec fn rendered_with(catalog: &SyntaxCatalog, events: Seq<EventModel>) -> Seq<char> {
    run_with(catalog, events).html
}

/// An element that wraps a code block: its name and its class, if it has
/// one.
pub struct Layer {
    pub name: Seq<char>,
    pub class: Option<Seq<char>>,
}

/// The opening tag of a layer.
pub open spec fn opening_tag(layer: Layer) -> Seq<char> {
    match layer.class {
        Some(class) => "<"@ + layer.name + " class=\""@ + class + "\">"@,
        None => "<"@ + layer.name + ">"@,
    }
}

/// The closing tag of a layer.
pub open spec fn closing_tag(layer: Layer) -> Seq<char> {
    "</"@ + layer.name + ">"@
}

/// The opening tags of the layers, from the outermost to the innermost.
pub open spec fn opened(layers: Seq<Layer>) -> Seq<char>
    decreases layers.len(),
{
    if layers.len() == 0 {
        Seq::empty()
    } else {
        opened(layers.drop_last()) + opening_tag(layers.last())
    }
}

/// The closing tags of the layers, from the innermost to the outermost.
pub open spec fn closed(layers: Seq<Layer>) -> Seq<char>
    decreases layers.len(),
{
    if layers.len() == 0 {
        Seq::empty()
    } else {
        closing_tag(layers.last()) + closed(layers.drop_last())
    }
}

/// The class that names the language of a code block.
pub open spec fn language_class(lang: Option<Seq<char>>) -> Seq<char> {
    match lang {
        Some(l) => "language-"@ + l,
        None => "language-text"@,
    }
}

/// The layers around a code block: a highlighted block and a block without
/// a language have the highlight envelope, a `div`, a `pre` and a `code`,
/// with the language's class on the last two; a block with a language that
/// has no definition has a bare `pre` and a `code` with the language's
/// class.
pub open spec fn code_layers(lang: Option<Seq<char>>, mark: Option<Seq<char>>) -> Seq<Layer> {
    if lang is Some && mark is None {
        seq![
            Layer { name: "pre"@, class: None },
            Layer { name: "code"@, class: Some(language_class(lang)) },
        ]
    } else {
        seq![
            Layer { name: "div"@, class: Some("remark-highlight"@) },
            Layer { name: "pre"@, class: Some(language_class(lang)) },
            Layer { name: "code"@, class: Some(language_class(lang)) },
        ]
    }
}

/// What stands inside the layers of a code block: the tokenizer's spans with
/// presentation classes, or the escaped code.
pub open spec fn code_body(lang: Option<Seq<char>>, code: Seq<char>, mark: Option<Seq<char>>) -> Seq<
    char,
> {
    if lang is Some && mark is Some {
        with_prism_classes(mark->0)
    } else {
        escaped(code)
    }
}

/// Every code block is well formed: it is the opening tags of its layers,
/// its body, and the closing tags of the same layers in reverse, so each tag
/// that is opened is closed. The innermost layer is a `code` with the class
/// of the block's language inside a `pre`, and where the `pre` has a class,
/// it is that same class.
pub proof fn lemma_code_block_well_formed(
    lang: Option<Seq<char>>,
    code: Seq<char>,
    mark: Option<Seq<char>>,
)
    ensures
        code_block_html(lang, code, mark) == opened(code_layers(lang, mark)) + code_body(
            lang,
            code,
            mark,
        ) + closed(code_layers(lang, mark)),
        code_layers(lang, mark).len() >= 2,
        code_layers(lang, mark).last().name == "code"@,
        code_layers(lang, mark).last().class == Some(language_class(lang)),
        code_layers(lang, mark)[code_layers(lang, mark).len() - 2].name == "pre"@,
        code_layers(lang, mark)[code_layers(lang, mark).len() - 2].class is Some ==> code_layers(
            lang,
            mark,
        )[code_layers(lang, mark).len() - 2].class == code_layers(lang, mark).last().class,
{
    reveal_strlit("<");
    reveal_strlit(">");
    reveal_strlit("</");
    reveal_strlit("\">");
    reveal_strlit(" class=\"");
    reveal_strlit("div");
    reveal_strlit("pre");
    reveal_strlit("code");
    reveal_strlit("remark-highlight");
    reveal_strlit("language-");
    reveal_strlit("language-text");
    reveal_strlit("<div class=\"remark-highlight\"><pre class=\"language-");
    reveal_strlit("\"><code class=\"language-");
    reveal_strlit("</code></pre></div>");
    reveal_strlit("<pre><code class=\"language-");
    reveal_strlit("</code></pre>");
    reveal_strlit(
        "<div class=\"remark-highlight\"><pre class=\"language-text\"><code class=\"language-text\">",
    );
    reveal_with_fuel(opened, 4);
    reveal_with_fuel(closed, 4);
}

/// Every code block of a document is well formed: where event `i` of a run
/// closes a code block, what the document gains by it is the opening tags of
/// the block's layers, its body, and the closing tags of the same layers in
/// reverse, with the class of the block's language on the `code` layer and,
/// where the `pre` layer has a class, on that too.
pub proof fn lemma_code_blocks_of_a_run_are_well_formed(
    catalog: &SyntaxCatalog,
    events: Seq<EventModel>,
    i: int,
)
    requires
        0 <= i < events.len(),
        events[i] is CodeBlockEnd,
        run_with(catalog, events.take(i)).mode is CodeBlock,
    ensures
        ({
            let before = run_with(catalog, events.take(i));
            let lang = before.mode->CodeBlock_lang;
            let code = before.mode->CodeBlock_code;
            let mark = mark_for(catalog, before, events[i]);
            let layers = code_layers(lang, mark);
            &&& run_with(catalog, events.take(i + 1)).html == before.html + (opened(layers)
                + code_body(lang, code, mark) + closed(layers))
            &&& layers.last().name == "code"@
            &&& layers.last().class == Some(language_class(lang))
            &&& layers[layers.len() - 2].name == "pre"@
            &&& layers[layers.len() - 2].class is Some ==> layers[layers.len() - 2].class
                == layers.last().class
        }),
{
    let before = run_with(catalog, events.take(i));
    let mark = mark_for(catalog, before, events[i]);
    assert(events.take(i + 1).drop_last() == events.take(i));
    assert(events.take(i + 1).last() == events[i]);
    lemma_code_block_well_formed(before.mode->CodeBlock_lang, before.mode->CodeBlock_code, mark);
}

/// The construct that the renderer is inside of.
pub enum Mode {
    Idle,
    CodeBlock { lang: Option<String>, code: Vec<char> },
    Table(TableFlags),
    Image { url: String, alt: Vec<char>, table: Option<TableFlags> },
}

impl View for Mode {
    type V = ModeModel;

    open spec fn view(&self) -> ModeModel {
        match self {
            Mode::Idle => ModeModel::Idle,
            Mode::CodeBlock { lang, code } => ModeModel::CodeBlock {
                lang: match lang {
                    Some(l) => Some(l@),
                    None => None,
                },
                code: code@,
            },
            Mode::Table(t) => ModeModel::Table(*t),
            Mode::Image { url, alt, table } => ModeModel::Image {
                url: url@,
                alt: alt@,
                table: *table,
            },
        }
    }
}

/// The renderer.
pub struct Renderer {
    pub mode: Mode,
    pub in_quote: bool,
    pub html: Vec<char>,
}

impl View for Renderer {
    type V = RenderModel;

    open spec fn view(&self) -> RenderModel {
        RenderModel { mode: self.mode@, in_quote: self.in_quote, html: self.html@ }
    }
}

/// Writes the markup of a finished code block.
pub fn render_code_block(lang: &Option<String>, code: &str, mark: &Option<String>) -> (out: String)
    ensures
        out@ == code_block_html(opt_view(*lang), code@, opt_view(*mark)),
{
    let mut out: Vec<char> = Vec::new();
    match lang {
        Some(l) => match mark {
            Some(raw) => {
                let spans = rewrite(&SpanClasses, &to_chars(raw.as_str()));
                push_str(&mut out, "<div class=\"remark-highlight\"><pre class=\"language-");
                push_str(&mut out, l.as_str());
                push_str(&mut out, "\"><code class=\"language-");
                push_str(&mut out, l.as_str());
                push_str(&mut out, "\">");
                push_all(&mut out, &spans);
                push_str(&mut out, "</code></pre></div>");
            },
            None => {
                let text = escape_html(code);
                push_str(&mut out, "<pre><code class=\"language-");
                push_str(&mut out, l.as_str());
                push_str(&mut out, "\">");
                push_str(&mut out, text.as_str());
                push_str(&mut out, "</code></pre>");
            },
        },
        None => {
            let text = escape_html(code);
            push_str(
                &mut out,
                "<div class=\"remark-highlight\"><pre class=\"language-text\"><code class=\"language-text\">",
            );
            push_str(&mut out, text.as_str());
            push_str(&mut out, "</code></pre></div>");
        },
    }
    from_chars(&out)
}

/// Writes the markup of a finished image.
pub fn render_image(url: &str, alt: &str) -> (out: String)
    ensures
        out@ == image_html(url@, alt@),
{
    let mut out: Vec<char> = Vec::new();
    let text = escape_html(alt);
    push_str(&mut out, "<img src=\"");
    push_str(&mut out, url);
    push_str(&mut out, "\" alt=\"");
    push_str(&mut out, text.as_str());
    push_str(&mut out, "\">");
    from_chars(&out)
}

impl Renderer {
    /// A renderer that has seen no event.
    pub fn new() -> (r: Renderer)
        ensures
            r@ == initial(),
    {
        Renderer { mode: Mode::Idle, in_quote: false, html: Vec::new() }
    }

    /// The code block that `event` closes, if the block declared a language:
    /// that language and the code.
    pub fn pending_code(&self, event: &RenderEvent) -> (w: Option<(String, String)>)
        ensures
            match w {
                Some((lang, code)) => wants_mark(self@, event@) == Some((lang@, code@)),
                None => wants_mark(self@, event@) is None,
            },
    {
        match event {
            RenderEvent::CodeBlockEnd => match &self.mode {
                Mode::CodeBlock { lang, code } => match lang {
                    Some(l) => Some((l.clone(), from_chars(code))),
                    None => None,
                },
                _ => None,
            },
            _ => None,
        }
    }

    /// Takes one event. `mark` is the tokenizer's markup for the code block
    /// that the event closes; it is read for no other event.
    pub fn feed(self, event: &RenderEvent, mark: &Option<String>) -> (next: Renderer)
        ensures
            next@ == advance(self@, event@, opt_view(*mark)),
    {
        let Renderer { mode, in_quote, html } = self;
        let mut html = html;
        let ghost old_html = html@;
        let mode_after: Mode;
        let mut quote_after = in_quote;
        match event {
            RenderEvent::CodeBlockStart(info) => {
                let lang = match info {
                    Some(text) => if text.as_str().is_empty() {
                        None
                    } else {
                        Some(text.clone())
                    },
                    None => None,
                };
                mode_after = Mode::CodeBlock { lang, code: Vec::new() };
            },
            RenderEvent::CodeBlockEnd => match mode {
                Mode::CodeBlock { lang, code } => {
                    let text = from_chars(&code);
                    let block = render_code_block(&lang, text.as_str(), mark);
                    push_str(&mut html, block.as_str());
                    mode_after = Mode::Idle;
                },
                other => {
                    mode_after = other;
                },
            },
            RenderEvent::Text(t) => match mode {
                Mode::CodeBlock { lang, code } => {
                    let mut code = code;
                    push_str(&mut code, t.as_str());
                    mode_after = Mode::CodeBlock { lang, code };
                },
                Mode::Image { url, alt, table } => {
                    let mut alt = alt;
                    push_str(&mut alt, t.as_str());
                    mode_after = Mode::Image { url, alt, table };
                },
                other => {
                    let text = escape_html(t.as_str());
                    push_str(&mut html, text.as_str());
                    mode_after = other;
                },
            },
            RenderEvent::Code(t) => {
                let text = escape_html(t.as_str());
                push_str(&mut html, "<code>");
                push_str(&mut html, text.as_str());
                push_str(&mut html, "</code>");
                assert(html@ == old_html + ("<code>"@ + escaped(t@) + "</code>"@));
                mode_after = mode;
            },
            RenderEvent::TableStart => {
                push_str(&mut html, "<div class=\"table-wrapper\"><table>");
                mode_after = Mode::Table(TableFlags { in_head: false, body_open: false });
            },
            RenderEvent::TableEnd => match mode {
                Mode::Table(t) => {
                    if t.body_open {
                        push_str(&mut html, "</tbody>");
                    }
                    push_str(&mut html, "</table></div>");
                    assert(t.body_open ==> html@ == old_html + ("</tbody>"@ + "</table></div>"@));
                    mode_after = Mode::Idle;
                },
                other => {
                    push_str(&mut html, "</table></div>");
                    mode_after = other;
                },
            },
            RenderEvent::TableHeadStart => {
                push_str(&mut html, "<thead>");
                mode_after = match mode {
                    Mode::Table(t) => Mode::Table(
                        TableFlags { in_head: true, body_open: t.body_open },
                    ),
                    other => other,
                };
            },
            RenderEvent::TableHeadEnd => {
                push_str(&mut html, "</thead>");
                mode_after = match mode {
                    Mode::Table(t) => Mode::Table(
                        TableFlags { in_head: false, body_open: t.body_open },
                    ),
                    other => other,
                };
            },
            RenderEvent::TableRowStart => match mode {
                Mode::Table(t) => {
                    if !t.in_head && !t.body_open {
                        push_str(&mut html, "<tbody>");
                    }
                    push_str(&mut html, "<tr>");
                    assert(!t.in_head && !t.body_open ==> html@ == old_html + ("<tbody>"@
                        + "<tr>"@));
                    mode_after = Mode::Table(
                        TableFlags { in_head: t.in_head, body_open: t.body_open || !t.in_head },
                    );
                },
                other => {
                    push_str(&mut html, "<tr>");
                    mode_after = other;
                },
            },
            RenderEvent::TableRowEnd => {
                push_str(&mut html, "</tr>");
                mode_after = mode;
            },
            RenderEvent::TableCellStart => {
                let head = match &mode {
                    Mode::Table(t) => t.in_head,
                    _ => false,
                };
                if head {
                    push_str(&mut html, "<th>");
                } else {
                    push_str(&mut html, "<td>");
                }
                mode_after = mode;
            },
            RenderEvent::TableCellEnd => {
                let head = match &mode {
                    Mode::Table(t) => t.in_head,
                    _ => false,
                };
                if head {
                    push_str(&mut html, "</th>");
                } else {
                    push_str(&mut html, "</td>");
                }
                mode_after = mode;
            },
            RenderEvent::BlockquoteStart => {
                push_str(&mut html, "<blockquote>");
                quote_after = true;
                mode_after = mode;
            },
            RenderEvent::BlockquoteEnd => {
                push_str(&mut html, "</blockquote>");
                quote_after = false;
                mode_after = mode;
            },
            RenderEvent::ParagraphStart => {
                if in_quote {
                    push_str(&mut html, "<p class=\"quote-line\">");
                } else {
                    push_str(&mut html, "<p>");
                }
                mode_after = mode;
            },
            RenderEvent::ImageStart(url) => {
                let table = match &mode {
                    Mode::Table(t) => Some(*t),
                    _ => None,
                };
                mode_after = Mode::Image { url: url.clone(), alt: Vec::new(), table };
            },
            RenderEvent::ImageEnd => match mode {
                Mode::Image { url, alt, table } => {
                    let text = from_chars(&alt);
                    let image = render_image(url.as_str(), text.as_str());
                    push_str(&mut html, image.as_str());
                    mode_after = match table {
                        Some(t) => Mode::Table(t),
                        None => Mode::Idle,
                    };
                },
                other => {
                    mode_after = other;
                },
            },
            RenderEvent::Other(markup) => {
                push_str(&mut html, markup.as_str());
                mode_after = mode;
            },
        }
        let next = Renderer { mode: mode_after, in_quote: quote_after, html };
        next
    }

    /// The HTML written so far.
    pub fn finish(self) -> (html: String)
        ensures
            html@ == self@.html,
    {
        from_chars(&self.html)
    }
}

/// Renders a run of events, asking the catalog for the markup of each code
/// block that declares a language.
pub fn render_events(events: &Vec<RenderEvent>, catalog: &SyntaxCatalog) -> (html: String)
    ensures
        html@ == rendered_with(catalog, event_views(events@)),
{
    let mut renderer = Renderer::new();
    let ghost all = event_views(events@);
    let mut n: usize = 0;
    while n < events.len()
        invariant
            n <= events.len(),
            all == event_views(events@),
            renderer@ == run_with(catalog, all.take(n as int)),
        decreases events.len() - n,
    {
        let mark = match renderer.pending_code(&events[n]) {
            Some((lang, code)) => catalog.highlight(lang.as_str(), code.as_str()),
            None => None,
        };
        renderer = renderer.feed(&events[n], &mark);
        proof {
            assert(all.take(n + 1).drop_last() == all.take(n as int));
            assert(all.take(n + 1).last() == events@[n as int]@);
        }
        n += 1;
    }
    assert(all.take(n as int) == all);
    renderer.finish()
}

} // verus!

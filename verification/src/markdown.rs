//! From markdown text to the post's HTML: the parser's events are rendered,
//! headings get their ids, and hashtag paragraphs become links.

use crate::hashtags::{convert_hashtags_to_links, with_hashtag_links};
use crate::markup::{add_heading_ids, with_heading_ids};
use crate::render::{
    event_views, render_events, rendered, rendered_with, run, EventModel, RenderEvent, Renderer,
};
use crate::syntaxes::SyntaxCatalog;
use crate::text::{opt_views, string_views};
use pulldown_cmark::{CodeBlockKind, Options, Parser, Tag, TagEnd};
use vstd::prelude::*;

verus! {

/// `pulldown_cmark::Event`: an event as the parser hands it out. The library
/// asks the functions below what it is and turns it into an event of its
/// own.
#[verifier::external_type_specification]
#[verifier::external_body]
pub struct ExParserEvent<'a>(pulldown_cmark::Event<'a>);

/// What a parser event is to the renderer. A text, an inline code span, and
/// the start and the end of a code block, a table, a table head, a table row,
/// a table cell, a block quote and an image are the renderer's event of that
/// kind; so is the start of a paragraph. A code block's start carries the
/// info string of its fence, if it has a fence, and an image's start carries
/// its destination. Every other event is an `Other` with the markup that the
/// parser's own writer gives it by itself.
pub uninterp spec fn event_model(event: pulldown_cmark::Event<'_>) -> EventModel;

/// The events that the parser reads from a markdown text, with tables,
/// strikethrough and task lists switched on, each as the renderer's event.
pub uninterp spec fn parsed_events(markdown: Seq<char>) -> Seq<EventModel>;

/// The parser events of a list, each as the renderer's event.
pub open spec fn event_models(events: Seq<pulldown_cmark::Event<'_>>) -> Seq<EventModel> {
    Seq::new(events.len(), |i: int| event_model(events[i]))
}

/// The renderer's event carries a text of the document: it is a text or an
/// inline code span.
pub open spec fn is_leaf(ev: EventModel) -> bool {
    ev is Text || ev is Code
}

/// The renderer's event starts a construct other than a code block.
pub open spec fn is_start(ev: EventModel) -> bool {
    ev is TableStart || ev is TableHeadStart || ev is TableRowStart || ev is TableCellStart
        || ev is BlockquoteStart || ev is ParagraphStart || ev is ImageStart
}

/// The renderer's event ends a construct.
pub open spec fn is_end(ev: EventModel) -> bool {
    ev is CodeBlockEnd || ev is TableEnd || ev is TableHeadEnd || ev is TableRowEnd
        || ev is TableCellEnd || ev is BlockquoteEnd || ev is ImageEnd
}

/// `Parser::new_ext` with tables, strikethrough and task lists switched on,
/// run to its end: the events of the document, in order.
#[verifier::external_body]
fn parse_events<'a>(markdown: &'a str) -> (events: Vec<pulldown_cmark::Event<'a>>)
    ensures
        event_models(events@) == parsed_events(markdown@),
{
    let mut options = Options::empty();
    options.insert(Options::ENABLE_TABLES);
    options.insert(Options::ENABLE_STRIKETHROUGH);
    options.insert(Options::ENABLE_TASKLISTS);
    Parser::new_ext(markdown, options).collect()
}

/// The renderer's event for a parser event of the variant `Text` or `Code`,
/// and nothing for another.
#[verifier::external_body]
fn leaf_event(event: &pulldown_cmark::Event<'_>) -> (out: Option<RenderEvent>)
    ensures
        match out {
            Some(ev) => ev@ == event_model(*event),
            None => !is_leaf(event_model(*event)),
        },
{
    match event {
        pulldown_cmark::Event::Text(t) => Some(RenderEvent::Text(t.to_string())),
        pulldown_cmark::Event::Code(t) => Some(RenderEvent::Code(t.to_string())),
        _ => None,
    }
}

/// The renderer's event for a parser event that starts a code block, with
/// the info string of the fence of a fenced one, and nothing for another.
#[verifier::external_body]
fn code_start_event(event: &pulldown_cmark::Event<'_>) -> (out: Option<RenderEvent>)
    ensures
        match out {
            Some(ev) => ev@ == event_model(*event),
            None => !(event_model(*event) is CodeBlockStart),
        },
{
    match event {
        pulldown_cmark::Event::Start(Tag::CodeBlock(kind)) => match kind {
            CodeBlockKind::Fenced(info) => Some(RenderEvent::CodeBlockStart(Some(info.to_string()))),
            CodeBlockKind::Indented => Some(RenderEvent::CodeBlockStart(None)),
        },
        _ => None,
    }
}

/// The renderer's event for a parser event that starts a table, a table
/// head, row or cell, a block quote, a paragraph or an image, and nothing
/// for another.
#[verifier::external_body]
fn start_event(event: &pulldown_cmark::Event<'_>) -> (out: Option<RenderEvent>)
    ensures
        match out {
            Some(ev) => ev@ == event_model(*event),
            None => !is_start(event_model(*event)),
        },
{
    match event {
        pulldown_cmark::Event::Start(tag) => match tag {
            Tag::Table(_) => Some(RenderEvent::TableStart),
            Tag::TableHead => Some(RenderEvent::TableHeadStart),
            Tag::TableRow => Some(RenderEvent::TableRowStart),
            Tag::TableCell => Some(RenderEvent::TableCellStart),
            Tag::BlockQuote(_) => Some(RenderEvent::BlockquoteStart),
            Tag::Paragraph => Some(RenderEvent::ParagraphStart),
            Tag::Image { dest_url, .. } => Some(RenderEvent::ImageStart(dest_url.to_string())),
            _ => None,
        },
        _ => None,
    }
}

/// The renderer's event for a parser event that ends a code block, a table,
/// a table head, row or cell, a block quote or an image, and nothing for
/// another.
#[verifier::external_body]
fn end_event(event: &pulldown_cmark::Event<'_>) -> (out: Option<RenderEvent>)
    ensures
        match out {
            Some(ev) => ev@ == event_model(*event),
            None => !is_end(event_model(*event)),
        },
{
    match event {
        pulldown_cmark::Event::End(tag) => match tag {
            TagEnd::CodeBlock => Some(RenderEvent::CodeBlockEnd),
            TagEnd::Table => Some(RenderEvent::TableEnd),
            TagEnd::TableHead => Some(RenderEvent::TableHeadEnd),
            TagEnd::TableRow => Some(RenderEvent::TableRowEnd),
            TagEnd::TableCell => Some(RenderEvent::TableCellEnd),
            TagEnd::BlockQuote(_) => Some(RenderEvent::BlockquoteEnd),
            TagEnd::Image => Some(RenderEvent::ImageEnd),
            _ => None,
        },
        _ => None,
    }
}

/// `pulldown_cmark::html::push_html` on the one event, into a fresh string:
/// the markup that the parser's own writer gives the event by itself. It is
/// what an event carries that is an `Other` to the renderer.
#[verifier::external_body]
fn default_markup(event: &pulldown_cmark::Event<'_>) -> (markup: String)
    ensures
        event_model(*event) is Other ==> event_model(*event) == EventModel::Other(markup@),
{
    let mut out = String::new();
    pulldown_cmark::html::push_html(&mut out, std::iter::once(event.clone()));
    out
}

/// The renderer's event for a parser event.
fn convert_event(event: &pulldown_cmark::Event<'_>) -> (out: RenderEvent)
    ensures
        out@ == event_model(*event),
{
    if let Some(ev) = leaf_event(event) {
        return ev;
    }
    if let Some(ev) = code_start_event(event) {
        return ev;
    }
    if let Some(ev) = start_event(event) {
        return ev;
    }
    if let Some(ev) = end_event(event) {
        return ev;
    }
    RenderEvent::Other(default_markup(event))
}

/// Parses a markdown text into the renderer's events.
pub fn markdown_events(markdown: &str) -> (events: Vec<RenderEvent>)
    ensures
        event_views(events@) == parsed_events(markdown@),
{
    let parsed = parse_events(markdown);
    let mut events: Vec<RenderEvent> = Vec::new();
    let mut n: usize = 0;
    while n < parsed.len()
        invariant
            n <= parsed.len(),
            events.len() == n,
            forall|i: int| 0 <= i < n ==> (#[trigger] events@[i])@ == event_model(parsed@[i]),
        decreases parsed.len() - n,
    {
        events.push(convert_event(&parsed[n]));
        n += 1;
    }
    events
}

/// The HTML of a post: the rendered events, with ids on the headings and
/// with links in the hashtag paragraphs.
pub open spec fn document_html(
    events: Seq<EventModel>,
    marks: Seq<Option<Seq<char>>>,
    tags: Seq<Seq<char>>,
) -> Seq<char> {
    with_hashtag_links(with_heading_ids(rendered(events, marks)), tags)
}

/// The mark of the event with the number `k`, or none where the list has
/// none for it.
pub open spec fn mark_at(marks: Seq<Option<Seq<char>>>, k: int) -> Option<Seq<char>> {
    if 0 <= k < marks.len() {
        marks[k]
    } else {
        None
    }
}

/// The marks for the first `n` events.
pub open spec fn marks_for(marks: Seq<Option<Seq<char>>>, n: nat) -> Seq<Option<Seq<char>>> {
    Seq::new(n, |k: int| mark_at(marks, k))
}

/// Renders a run of events into a post's HTML, with the tokenizer's markup
/// for the code blocks given: `marks[i]` belongs to the code block that
/// event `i` closes. An event without a mark is taken to have none.
pub fn render_marked(events: &Vec<RenderEvent>, marks: &Vec<Option<String>>, tags: &[String]) -> (html:
    String)
    ensures
        html@ == document_html(
            event_views(events@),
            marks_for(opt_views(marks@), events.len() as nat),
            string_views(tags@),
        ),
{
    let mut renderer = Renderer::new();
    let ghost all = event_views(events@);
    let ghost ms = marks_for(opt_views(marks@), events.len() as nat);
    let none: Option<String> = None;
    let mut n: usize = 0;
    while n < events.len()
        invariant
            n <= events.len(),
            none is None,
            all == event_views(events@),
            ms == marks_for(opt_views(marks@), events.len() as nat),
            renderer@ == run(all.take(n as int), ms.take(n as int)),
        decreases events.len() - n,
    {
        if n < marks.len() {
            renderer = renderer.feed(&events[n], &marks[n]);
        } else {
            renderer = renderer.feed(&events[n], &none);
        }
        proof {
            assert(all.take(n + 1).drop_last() == all.take(n as int));
            assert(ms.take(n + 1).drop_last() == ms.take(n as int));
        }
        n += 1;
    }
    assert(all.take(n as int) == all);
    assert(ms.take(n as int) == ms);
    let raw = renderer.finish();
    let with_ids = add_heading_ids(raw.as_str());
    convert_hashtags_to_links(with_ids.as_str(), tags)
}

/// The HTML of a post, each code block highlighted by the catalog: the
/// rendered events, with ids on the headings and with links in the hashtag
/// paragraphs.
pub open spec fn page_html(catalog: &SyntaxCatalog, events: Seq<EventModel>, tags: Seq<Seq<char>>) -> Seq<
    char,
> {
    with_hashtag_links(with_heading_ids(rendered_with(catalog, events)), tags)
}

/// Renders a run of events into a post's HTML, asking the catalog for the
/// markup of each code block that declares a language.
pub fn render_document(events: &Vec<RenderEvent>, tags: &[String], catalog: &SyntaxCatalog) -> (html:
    String)
    ensures
        html@ == page_html(catalog, event_views(events@), string_views(tags@)),
{
    let raw = render_events(events, catalog);
    let with_ids = add_heading_ids(raw.as_str());
    convert_hashtags_to_links(with_ids.as_str(), tags)
}

/// Renders a markdown text into a post's HTML: the document of the events
/// that the parser reads from the text, each code block highlighted by the
/// catalog. `tags` are the post's tags.
pub fn markdown_to_html(markdown: &str, tags: &[String], catalog: &SyntaxCatalog) -> (html:
    String)
    ensures
        html@ == page_html(catalog, parsed_events(markdown@), string_views(tags@)),
{
    let events = markdown_events(markdown);
    render_document(&events, tags, catalog)
}

} // verus!

//! A static blog, from markdown posts to pages and a feed.
//!
//! The heart of the library is the renderer: it takes the events of a
//! markdown document one by one and writes HTML, with states of its own for
//! code blocks, tables and images ([`render`], [`markdown`]). Passes over the
//! finished HTML give headings their ids and turn paragraphs of hashtags into
//! links ([`markup`], [`hashtags`]); code blocks are highlighted with a
//! tokenizer whose scope classes are mapped onto a small vocabulary
//! ([`syntaxes`], [`highlight`]).
//!
//! Around it stand the posts of a site with their tags and related posts
//! ([`post`]), what the page templates are filled with ([`page`], [`dates`]),
//! the feed ([`rss`]), and the assets: style sheets that are put into pages,
//! scripts that are made small, and class names that are shortened
//! ([`assets`], [`class_minifier`]).
//!
//! Every pass is stated over sequences of characters ([`text`]); most are
//! rewrites of a text by a rule ([`rewrite`]). The few patterns that need a
//! regular expression are in [`patterns`], and [`lexical`] holds the
//! dictionary order of texts.

pub mod assets;
pub mod class_minifier;
pub mod dates;
pub mod hashtags;
pub mod highlight;
pub mod lexical;
pub mod markdown;
pub mod markup;
pub mod page;
pub mod patterns;
pub mod post;
pub mod render;
pub mod rewrite;
pub mod rss;
pub mod syntaxes;
pub mod text;

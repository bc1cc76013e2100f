//! The boundary to the external highlighting engine.
//!
//! A [`Lang`] is a language descriptor: the caller-chosen integer identifier
//! that keys the configuration cache, plus everything the engine needs to
//! build a configuration for that language — its grammar and its query
//! strings.  The engine types themselves are opaque here; the few calls the
//! renderer makes go through the trusted wrappers below, and everything the
//! engine hands back is consumed by verified code that holds for every
//! possible event stream.

use vstd::prelude::*;
use crate::events::HighlightEvent;
use tree_sitter_highlight::HighlightEvent as TsEvent;

verus! {

#[verifier::external_type_specification]
#[verifier::external_body]
pub struct ExLanguage(tree_sitter::Language);

#[verifier::external_type_specification]
#[verifier::external_body]
pub struct ExQueryError(tree_sitter::QueryError);

#[verifier::external_type_specification]
#[verifier::external_body]
pub struct ExHighlightError(tree_sitter_highlight::Error);

#[verifier::external_type_specification]
#[verifier::external_body]
pub struct ExHighlightConfiguration(tree_sitter_highlight::HighlightConfiguration);

/// A language descriptor: the cache key `id`, the language's name, its
/// grammar, and the three query strings the engine builds a configuration
/// from.  The identifier is a small integer chosen by the caller's language
/// registry; two descriptors meaning the same language must carry the same
/// identifier.
pub struct Lang {
    pub id: usize,
    pub name: String,
    pub language: tree_sitter::Language,
    pub highlights_query: String,
    pub injections_query: String,
    pub locals_query: String,
}

/// Relies on tree_sitter_highlight::HighlightConfiguration::new: builds the
/// engine configuration for one language from its grammar and queries, and
/// fails with a query error when the descriptor is malformed.
#[verifier::external_body]
pub(crate) fn build_config(lang: &Lang) -> Result<
    tree_sitter_highlight::HighlightConfiguration,
    tree_sitter::QueryError,
> {
    tree_sitter_highlight::HighlightConfiguration::new(
        lang.language.clone(),
        lang.name.as_str(),
        lang.highlights_query.as_str(),
        lang.injections_query.as_str(),
        lang.locals_query.as_str(),
    )
}

/// Relies on tree_sitter_highlight::HighlightConfiguration::configure:
/// binds the engine's attribute assignment to the given ordered name list,
/// so that the event stream's indices point into that list.
#[verifier::external_body]
pub(crate) fn configure_config(config: &mut tree_sitter_highlight::HighlightConfiguration, names: &Vec<&str>)
{
    config.configure(names.as_slice());
}

/// Relies on tree_sitter_highlight::Highlighter::highlight: produces the
/// ordered event stream for `source` under `config`.  Each engine event is
/// carried over as a plain value, variant by variant.  Nothing is promised
/// of the stream itself — the serializer is verified for every possible
/// sequence of events.
#[verifier::external_body]
pub(crate) fn run_highlight(
    config: &tree_sitter_highlight::HighlightConfiguration,
    source: &[u8],
) -> Result<Vec<HighlightEvent>, tree_sitter_highlight::Error> {
    let mut hl = tree_sitter_highlight::Highlighter::new();
    let iter = hl.highlight(config, source, None, None, |_: &str| None)?;
    let mut out = Vec::new();
    for ev in iter {
        out.push(match ev? {
            TsEvent::Source { start, end } => HighlightEvent::Source { start, end },
            TsEvent::HighlightStart(h) => HighlightEvent::HighlightStart { index: h.0 },
            TsEvent::HighlightEnd => HighlightEvent::HighlightEnd,
        });
    }
    Ok(out)
}

} // verus!

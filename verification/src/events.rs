//! The highlight event stream: the plain-value form of what the external
//! engine produces for one source document.  `Source` spans carry byte
//! ranges into the rendered source; `HighlightStart` opens a span tagged
//! with an attribute index; `HighlightEnd` closes the innermost open span.

use vstd::prelude::*;

verus! {

/// One step of a highlighted document.
#[derive(Clone, Copy, PartialEq, Eq, Structural, Debug)]
pub enum HighlightEvent {
    /// The source bytes `start..end` belong to the document, under the
    /// currently open highlights.
    Source { start: usize, end: usize },
    /// A region tagged with catalog attribute `index` begins.
    HighlightStart { index: usize },
    /// The innermost open region ends.
    HighlightEnd,
}

} // verus!

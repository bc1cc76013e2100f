//! The Theme Model: a fully parsed color theme, consumed as validated input.
//!
//! A theme holds a global foreground and background color, an optional named
//! color palette, and one optional [`Style`] per Attribute Catalog entry.
//! Catalog entries without a style receive no decoration when rendering; that
//! is the deliberate fail-open policy, not an error.

use vstd::prelude::*;
use crate::catalog::ATTRIBUTE_COUNT;

verus! {

/// The resolved style of one catalog entry: a CSS color value plus weight
/// and slant flags.
pub struct Style {
    pub color: String,
    pub is_bold: bool,
    pub is_italic: bool,
}

/// A fully parsed color theme.  `styles` has exactly one slot per Attribute
/// Catalog entry, in catalog order, so every styled attribute index is a
/// valid index into the catalog by construction.
pub struct Theme {
    pub foreground: String,
    pub background: String,
    pub palette: Vec<(String, String)>,
    pub styles: Vec<Option<Style>>,
}

impl Style {
    pub fn new(color: String, is_bold: bool, is_italic: bool) -> (r: Style)
        ensures
            r.color == color,
            r.is_bold == is_bold,
            r.is_italic == is_italic,
    {
        Style { color, is_bold, is_italic }
    }
}

impl Theme {
    /// A theme is well formed when it styles exactly the catalog's index
    /// space: one (possibly empty) slot per catalog entry.
    pub open spec fn wf(self) -> bool {
        self.styles@.len() == ATTRIBUTE_COUNT
    }

    /// Whether catalog entry `i` is styled by this theme.
    pub open spec fn styled(self, i: int) -> bool {
        0 <= i < self.styles@.len() && self.styles@[i] is Some
    }

    /// A theme with the given global colors, an empty palette and no styled
    /// attributes.
    pub fn new(foreground: String, background: String) -> (r: Theme)
        ensures
            r.wf(),
            r.foreground == foreground,
            r.background == background,
            r.palette@ == Seq::<(String, String)>::empty(),
            forall|i: int| !r.styled(i),
    {
        let mut styles: Vec<Option<Style>> = Vec::new();
        let mut i: usize = 0;
        while i < ATTRIBUTE_COUNT
            invariant
                i <= ATTRIBUTE_COUNT,
                styles@.len() == i,
                forall|j: int| 0 <= j < i ==> styles@[j] is None,
            decreases ATTRIBUTE_COUNT - i,
        {
            styles.push(None);
            i = i + 1;
        }
        Theme { foreground, background, palette: Vec::new(), styles }
    }

    /// Style catalog entry `index` with `style`; the other entries and the
    /// global colors are unchanged.
    pub fn set_style(&mut self, index: usize, style: Style)
        requires
            old(self).wf(),
            index < ATTRIBUTE_COUNT,
        ensures
            final(self).wf(),
            final(self).styles@ == old(self).styles@.update(index as int, Some(style)),
            final(self).foreground == old(self).foreground,
            final(self).background == old(self).background,
            final(self).palette == old(self).palette,
    {
        self.styles.set(index, Some(style));
    }

    /// Append the palette entry `(name, color)`; everything else is
    /// unchanged.
    pub fn add_palette_entry(&mut self, name: String, color: String)
        ensures
            final(self).wf() == old(self).wf(),
            final(self).palette@ == old(self).palette@.push((name, color)),
            final(self).foreground == old(self).foreground,
            final(self).background == old(self).background,
            final(self).styles == old(self).styles,
    {
        self.palette.push((name, color));
    }
}

} // verus!

//! The Style Resolver's decoration lookup: for each styled catalog entry it
//! derives, once per theme, the HTML attribute fragment that rendering will
//! put on the wrapping element — either a class reference derived from the
//! catalog name, or an inline style carrying the theme's color.  Entries the
//! theme leaves unstyled get no decoration at all (fail-open).

use vstd::prelude::*;
use crate::catalog::{attribute_name, catalog_name, ATTRIBUTE_COUNT};
use crate::theme::Theme;

verus! {

/// How a decoration refers to its style: by a stable, theme-independent CSS
/// class (served by the stylesheet of [`crate::stylesheet`]), or by an
/// inline `style` attribute carrying the color directly (bold and italic
/// flags are ignored in this mode).
#[derive(Clone, Copy, PartialEq, Eq, Structural)]
pub enum DecorationMode {
    CssClasses,
    InlineStyles,
}

/// The catalog name at `i` with every `.` separator replaced by `_`.
pub open spec fn underscored(s: Seq<char>) -> Seq<char> {
    s.map_values(|c: char| if c == '.' { '_' } else { c })
}

/// The class-mode decoration of catalog entry `i`: a `class` attribute
/// naming `tsc-` plus the underscored catalog name.
pub open spec fn class_attr_chars(i: int) -> Seq<char> {
    "class=\"tsc-"@ + underscored(attribute_name(i)) + "\""@
}

/// The inline-mode decoration for a style with color `color`.
pub open spec fn inline_attr_chars(color: Seq<char>) -> Seq<char> {
    "style=\"color: "@ + color + "\""@
}

/// The color the theme gives to catalog entry `i` (empty if unstyled).
pub open spec fn style_color(theme: Theme, i: int) -> Seq<char> {
    match theme.styles@[i] {
        Some(st) => st.color@,
        None => Seq::empty(),
    }
}

/// The decoration the resolver owes for catalog entry `i` under `mode`:
/// none when the theme leaves `i` unstyled, otherwise the class or inline
/// fragment.
pub open spec fn decoration_spec(theme: Theme, mode: DecorationMode, i: int) -> Option<Seq<char>> {
    if theme.styled(i) {
        match mode {
            DecorationMode::CssClasses => Some(class_attr_chars(i)),
            DecorationMode::InlineStyles => Some(inline_attr_chars(style_color(theme, i))),
        }
    } else {
        None
    }
}

/// Replace every `.` in `s` by `_`.
pub fn underscore_dots(s: &str) -> (r: String)
    ensures
        r@ == underscored(s@),
{
    let n = s.unicode_len();
    let mut r = String::new();
    let mut i: usize = 0;
    while i < n
        invariant
            i <= n,
            n == s@.len(),
            r@ == underscored(s@.take(i as int)),
        decreases n - i,
    {
        if s.get_char(i) == '.' {
            r.append("_");
        } else {
            r.append(s.substring_char(i, i + 1));
        }
        proof {
            reveal_strlit("_");
            let k = i as int;
            assert("_"@ =~= seq!['_']);
            assert(s@.subrange(k, k + 1) =~= seq![s@[k]]);
            assert(underscored(s@.take(k + 1)) =~= underscored(s@.take(k)).push(
                if s@[k] == '.' { '_' } else { s@[k] },
            ));
        }
        i = i + 1;
    }
    proof {
        assert(s@.take(n as int) =~= s@);
    }
    r
}

/// Build the decoration lookup for `theme` under `mode`: one slot per
/// catalog entry, in catalog order.
pub fn build_decorations(theme: &Theme, mode: DecorationMode) -> (r: Vec<Option<String>>)
    requires
        theme.wf(),
    ensures
        r.deep_view().len() == ATTRIBUTE_COUNT,
        forall|i: int| 0 <= i < ATTRIBUTE_COUNT ==> r.deep_view()[i] == decoration_spec(*theme, mode, i),
{
    let mut r: Vec<Option<String>> = Vec::new();
    let mut i: usize = 0;
    while i < ATTRIBUTE_COUNT
        invariant
            theme.wf(),
            i <= ATTRIBUTE_COUNT,
            r.deep_view().len() == i,
            forall|j: int| 0 <= j < i ==> r.deep_view()[j] == decoration_spec(*theme, mode, j),
        decreases ATTRIBUTE_COUNT - i,
    {
        match &theme.styles[i] {
            Some(st) => {
                let mut a: String;
                match mode {
                    DecorationMode::CssClasses => {
                        a = String::from_str("class=\"tsc-");
                        let und = underscore_dots(catalog_name(i));
                        a.append(und.as_str());
                        a.append("\"");
                    },
                    DecorationMode::InlineStyles => {
                        a = String::from_str("style=\"color: ");
                        a.append(st.color.as_str());
                        a.append("\"");
                    },
                }
                r.push(Some(a));
            },
            None => {
                r.push(None);
            },
        }
        i = i + 1;
    }
    r
}

/// Every styled catalog entry gets a non-empty decoration, and the fragment
/// carries exactly the theme's color (inline mode) or the deterministic,
/// theme-independent underscored class name (class mode).
pub proof fn lemma_styled_decoration_nonempty(theme: Theme, mode: DecorationMode, i: int)
    requires
        theme.wf(),
        theme.styled(i),
    ensures
        decoration_spec(theme, mode, i) matches Some(a) && a.len() > 0
            && (mode == DecorationMode::InlineStyles ==> a.subrange(14, a.len() - 1)
                == style_color(theme, i))
            && (mode == DecorationMode::CssClasses ==> a.subrange(11, a.len() - 1)
                == underscored(attribute_name(i))),
{
    reveal_strlit("class=\"tsc-");
    reveal_strlit("style=\"color: ");
    reveal_strlit("\"");
    match mode {
        DecorationMode::CssClasses => {
            let a = class_attr_chars(i);
            assert(a.subrange(11, a.len() - 1) =~= underscored(attribute_name(i)));
        },
        DecorationMode::InlineStyles => {
            let a = inline_attr_chars(style_color(theme, i));
            assert(a.subrange(14, a.len() - 1) =~= style_color(theme, i));
        },
    }
}

/// Catalog entries absent from the theme's style mapping get no decoration
/// at all: lookup yields the empty fragment, never an error.
pub proof fn lemma_unstyled_decoration_empty(theme: Theme, mode: DecorationMode, i: int)
    requires
        theme.wf(),
        !theme.styled(i),
    ensures
        decoration_spec(theme, mode, i) is None,
{
}

} // verus!

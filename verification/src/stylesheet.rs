//! Stylesheet generation for class-mode rendering: one CSS custom property
//! per styled catalog entry and per palette entry, the global foreground and
//! background as two more custom properties, one rule per styled entry
//! applying its color (plus bold / italic where the theme flags them), and a
//! fixed structural rule making line content preserve whitespace.

use vstd::prelude::*;
use crate::catalog::{attribute_name, catalog_name, ATTRIBUTE_COUNT};
use crate::resolver::{underscored, underscore_dots};
use crate::theme::{Style, Theme};

verus! {

/// The custom-property declarations for the first `n` palette entries.
pub open spec fn palette_props(p: Seq<(String, String)>) -> Seq<char>
    decreases p.len(),
{
    if p.len() == 0 {
        Seq::empty()
    } else {
        palette_props(p.drop_last()) + "--"@ + p.last().0@ + ": "@ + p.last().1@ + "; "@
    }
}

/// The custom-property declaration owed for catalog entry `i`, empty when
/// the theme leaves `i` unstyled.
pub open spec fn style_prop(theme: Theme, i: int) -> Seq<char> {
    match theme.styles@[i] {
        Some(st) => "--tsc-"@ + underscored(attribute_name(i)) + ": "@ + st.color@ + "; "@,
        None => Seq::empty(),
    }
}

/// The custom-property declarations for the first `n` catalog entries.
pub open spec fn style_props(theme: Theme, n: int) -> Seq<char>
    decreases n,
{
    if n <= 0 {
        Seq::empty()
    } else {
        style_props(theme, n - 1) + style_prop(theme, n - 1)
    }
}

/// The class rule owed for catalog entry `i`, empty when the theme leaves
/// `i` unstyled.
pub open spec fn class_rule(theme: Theme, i: int) -> Seq<char> {
    match theme.styles@[i] {
        Some(st) => ".tsc-"@ + underscored(attribute_name(i)) + " { color: var(--tsc-"@
            + underscored(attribute_name(i)) + "); "@
            + (if st.is_bold { "font-weight: bold;"@ } else { Seq::<char>::empty() })
            + (if st.is_italic { "font-style: italic;"@ } else { Seq::<char>::empty() })
            + "}\n"@,
        None => Seq::empty(),
    }
}

/// The class rules for the first `n` catalog entries.
pub open spec fn class_rules(theme: Theme, n: int) -> Seq<char>
    decreases n,
{
    if n <= 0 {
        Seq::empty()
    } else {
        class_rules(theme, n - 1) + class_rule(theme, n - 1)
    }
}

/// The whole stylesheet for `theme`: a `:root` block holding the global
/// foreground and background, the palette and one custom property per
/// styled entry, then one rule per styled entry and the structural
/// `.tsc-line` rule.
pub open spec fn css_chars(theme: Theme) -> Seq<char> {
    ":root { --tsc-main-fg-color: "@ + theme.foreground@ + "; --tsc-main-bg-color: "@
        + theme.background@ + "; "@ + palette_props(theme.palette@)
        + style_props(theme, ATTRIBUTE_COUNT as int) + "}\n"@
        + class_rules(theme, ATTRIBUTE_COUNT as int)
        + ".tsc-line { word-wrap: normal; white-space: pre; }\n"@
}

/// Build the stylesheet for `theme`.
pub fn build_stylesheet(theme: &Theme) -> (r: String)
    requires
        theme.wf(),
    ensures
        r@ == css_chars(*theme),
{
    let mut root = String::from_str(":root { --tsc-main-fg-color: ");
    root.append(theme.foreground.as_str());
    root.append("; --tsc-main-bg-color: ");
    root.append(theme.background.as_str());
    root.append("; ");
    let ghost root_head = root@;

    let mut j: usize = 0;
    let palette_len = theme.palette.len();
    while j < palette_len
        invariant
            j <= palette_len,
            palette_len == theme.palette@.len(),
            root@ == root_head + palette_props(theme.palette@.take(j as int)),
        decreases palette_len - j,
    {
        root.append("--");
        root.append(theme.palette[j].0.as_str());
        root.append(": ");
        root.append(theme.palette[j].1.as_str());
        root.append("; ");
        proof {
            let k = j as int;
            let p = theme.palette@;
            assert(p.take(k + 1).drop_last() =~= p.take(k));
            assert(p.take(k + 1).last() == p[k]);
        }
        j = j + 1;
    }
    proof {
        assert(theme.palette@.take(palette_len as int) =~= theme.palette@);
    }

    let mut rules = String::new();
    let mut i: usize = 0;
    while i < ATTRIBUTE_COUNT
        invariant
            theme.wf(),
            i <= ATTRIBUTE_COUNT,
            root@ == root_head + palette_props(theme.palette@) + style_props(*theme, i as int),
            rules@ == class_rules(*theme, i as int),
        decreases ATTRIBUTE_COUNT - i,
    {
        match &theme.styles[i] {
            Some(st) => {
                let und = underscore_dots(catalog_name(i));
                root.append("--tsc-");
                root.append(und.as_str());
                root.append(": ");
                root.append(st.color.as_str());
                root.append("; ");

                rules.append(".tsc-");
                rules.append(und.as_str());
                rules.append(" { color: var(--tsc-");
                rules.append(und.as_str());
                rules.append("); ");
                if st.is_bold {
                    rules.append("font-weight: bold;");
                }
                if st.is_italic {
                    rules.append("font-style: italic;");
                }
                rules.append("}\n");
                proof {
                    let k = i as int;
                    assert(root@ =~= root_head + palette_props(theme.palette@)
                        + style_props(*theme, k + 1));
                    assert(rules@ =~= class_rules(*theme, k + 1));
                }
            },
            None => {
                proof {
                    let k = i as int;
                    assert(style_prop(*theme, k) =~= Seq::<char>::empty());
                    assert(class_rule(*theme, k) =~= Seq::<char>::empty());
                    assert(root@ =~= root_head + palette_props(theme.palette@)
                        + style_props(*theme, k + 1));
                    assert(rules@ =~= class_rules(*theme, k + 1));
                }
            },
        }
        i = i + 1;
    }

    root.append("}\n");
    let mut out = root;
    out.append(rules.as_str());
    out.append(".tsc-line { word-wrap: normal; white-space: pre; }\n");
    proof {
        assert(out@ =~= css_chars(*theme));
    }
    out
}

proof fn lemma_style_props_split(theme: Theme, i: int, n: int)
    requires
        0 <= i < n,
    ensures
        exists|a: Seq<char>, b: Seq<char>|
            style_props(theme, n) == a + #[trigger] style_prop(theme, i) + b,
    decreases n,
{
    if n == i + 1 {
        let a = style_props(theme, i);
        let b = Seq::<char>::empty();
        assert(style_props(theme, n) =~= a + style_prop(theme, i) + b);
    } else {
        lemma_style_props_split(theme, i, n - 1);
        let (a, b) = choose|a: Seq<char>, b: Seq<char>|
            style_props(theme, n - 1) == a + #[trigger] style_prop(theme, i) + b;
        assert(style_props(theme, n) =~= a + style_prop(theme, i) + (b + style_prop(
            theme,
            n - 1,
        )));
    }
}

proof fn lemma_class_rules_split(theme: Theme, i: int, n: int)
    requires
        0 <= i < n,
    ensures
        exists|a: Seq<char>, b: Seq<char>|
            class_rules(theme, n) == a + #[trigger] class_rule(theme, i) + b,
    decreases n,
{
    if n == i + 1 {
        let a = class_rules(theme, i);
        let b = Seq::<char>::empty();
        assert(class_rules(theme, n) =~= a + class_rule(theme, i) + b);
    } else {
        lemma_class_rules_split(theme, i, n - 1);
        let (a, b) = choose|a: Seq<char>, b: Seq<char>|
            class_rules(theme, n - 1) == a + #[trigger] class_rule(theme, i) + b;
        assert(class_rules(theme, n) =~= a + class_rule(theme, i) + (b + class_rule(
            theme,
            n - 1,
        )));
    }
}

/// The stylesheet serves every styled entry, as a law: it contains, as
/// contiguous fragments, the entry's custom property carrying exactly the
/// theme's color, and the rule for the underscored class — with
/// `font-weight: bold` when the style flags bold.
pub proof fn lemma_styled_entry_in_stylesheet(theme: Theme, i: int, st: Style)
    requires
        theme.wf(),
        0 <= i < ATTRIBUTE_COUNT,
        theme.styles@[i] == Some(st),
    ensures
        style_prop(theme, i) == "--tsc-"@ + underscored(attribute_name(i)) + ": "@ + st.color@
            + "; "@,
        st.is_bold ==> class_rule(theme, i) == ".tsc-"@ + underscored(attribute_name(i))
            + " { color: var(--tsc-"@ + underscored(attribute_name(i)) + "); "@
            + "font-weight: bold;"@
            + (if st.is_italic { "font-style: italic;"@ } else { Seq::<char>::empty() })
            + "}\n"@,
        exists|a: Seq<char>, b: Seq<char>|
            css_chars(theme) == a + #[trigger] style_prop(theme, i) + b,
        exists|a: Seq<char>, b: Seq<char>|
            css_chars(theme) == a + #[trigger] class_rule(theme, i) + b,
{
    lemma_style_props_split(theme, i, ATTRIBUTE_COUNT as int);
    let (pa, pb) = choose|a: Seq<char>, b: Seq<char>|
        style_props(theme, ATTRIBUTE_COUNT as int) == a + #[trigger] style_prop(theme, i) + b;
    let head = ":root { --tsc-main-fg-color: "@ + theme.foreground@ + "; --tsc-main-bg-color: "@
        + theme.background@ + "; "@ + palette_props(theme.palette@);
    let tail = "}\n"@ + class_rules(theme, ATTRIBUTE_COUNT as int)
        + ".tsc-line { word-wrap: normal; white-space: pre; }\n"@;
    assert(css_chars(theme) =~= (head + pa) + style_prop(theme, i) + (pb + tail));

    lemma_class_rules_split(theme, i, ATTRIBUTE_COUNT as int);
    let (ca, cb) = choose|a: Seq<char>, b: Seq<char>|
        class_rules(theme, ATTRIBUTE_COUNT as int) == a + #[trigger] class_rule(theme, i) + b;
    assert(css_chars(theme) =~= (head + style_props(theme, ATTRIBUTE_COUNT as int) + "}\n"@ + ca)
        + class_rule(theme, i) + (cb + ".tsc-line { word-wrap: normal; white-space: pre; }\n"@));
}

} // verus!

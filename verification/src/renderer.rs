//! The renderer: owns the theme, the decoration lookup built from it once
//! at construction, and the per-language configuration cache.  `render`
//! resolves (or builds) the cached configuration, asks the engine for the
//! event stream, and serializes it; `css` produces the matching stylesheet.

use vstd::prelude::*;
use vstd::utf8::{encode_utf8, valid_utf8};
use crate::cache::ConfigCache;
use crate::catalog::{catalog_names, ATTRIBUTE_COUNT};
use crate::engine::{build_config, configure_config, run_highlight, Lang};
use crate::events::HighlightEvent;
use crate::resolver::{build_decorations, decoration_spec, DecorationMode};
use crate::serializer::{decor_view, decoration_at, open_tag, render_table, table_bytes};
use crate::stylesheet::{build_stylesheet, css_chars};
use crate::theme::Theme;

verus! {

/// Why a `render` call failed.
#[derive(Clone, Copy, Debug, PartialEq, Eq, Structural)]
pub enum RenderError {
    /// The language's descriptor could not be configured against the
    /// Attribute Catalog; the cache is left without an entry, so a later
    /// call may retry.
    Configuration,
    /// The engine failed on the given source bytes; no partial output.
    Highlight,
    /// The serialized markup was not a valid string; no partial output.
    Serialization,
}

/// Relies on String::from_utf8: it succeeds exactly on valid UTF-8 input
/// and then returns the string holding those very bytes.
#[verifier::external_body]
fn bytes_to_string(v: Vec<u8>) -> (r: Option<String>)
    ensures
        r is Some <==> valid_utf8(v@),
        r matches Some(s) ==> encode_utf8(s@) == v@,
{
    String::from_utf8(v).ok()
}

/// HTML syntax highlighting renderer.
pub struct Renderer {
    pub theme: Theme,
    pub mode: DecorationMode,
    pub decorations: Vec<Option<String>>,
    pub configs: ConfigCache<tree_sitter_highlight::HighlightConfiguration>,
}

impl Renderer {
    /// The renderer's decoration table as plain sequences.
    pub open spec fn decor(self) -> Seq<Option<Seq<char>>> {
        decor_view(self.decorations@)
    }

    /// Well-formedness: the theme styles the catalog's index space and the
    /// decoration lookup is exactly what the Style Resolver owes the theme.
    pub open spec fn wf(self) -> bool {
        &&& self.theme.wf()
        &&& self.decor().len() == ATTRIBUTE_COUNT
        &&& forall|i: int|
            0 <= i < ATTRIBUTE_COUNT ==> self.decor()[i] == decoration_spec(
                self.theme,
                self.mode,
                i,
            )
    }

    /// Create a renderer based on `theme`, decorating spans with CSS
    /// classes (served by [`Renderer::css`]).
    pub fn new(theme: Theme) -> (r: Renderer)
        requires
            theme.wf(),
        ensures
            r.wf(),
            r.theme == theme,
            r.mode == DecorationMode::CssClasses,
            forall|j: usize| !r.configs.cached(j),
    {
        Renderer::with_mode(theme, DecorationMode::CssClasses)
    }

    /// Create a renderer based on `theme` with an explicit decoration mode.
    pub fn with_mode(theme: Theme, mode: DecorationMode) -> (r: Renderer)
        requires
            theme.wf(),
        ensures
            r.wf(),
            r.theme == theme,
            r.mode == mode,
            forall|j: usize| !r.configs.cached(j),
    {
        let decorations = build_decorations(&theme, mode);
        Renderer { theme, mode, decorations, configs: ConfigCache::new() }
    }

    /// The stylesheet matching this renderer's theme, for a `<style>` block
    /// or an external CSS file.
    pub fn css(&self) -> (r: String)
        requires
            self.wf(),
        ensures
            r@ == css_chars(self.theme),
    {
        build_stylesheet(&self.theme)
    }

    /// Serialize one event stream over `source` into the HTML table.  This
    /// is the whole of `render` once the engine has spoken: it succeeds
    /// exactly when the table's bytes form a valid string, and then returns
    /// exactly those bytes.
    pub fn render_events(&self, source: &[u8], events: &Vec<HighlightEvent>) -> (r: Result<
        String,
        RenderError,
    >)
        requires
            self.wf(),
        ensures
            r is Ok <==> valid_utf8(table_bytes(self.decor(), source@, events@)),
            r matches Ok(s) ==> encode_utf8(s@) == table_bytes(self.decor(), source@, events@),
            r is Err ==> r == Err::<String, RenderError>(RenderError::Serialization),
    {
        let bytes = render_table(&self.decorations, source, events);
        match bytes_to_string(bytes) {
            Some(s) => Ok(s),
            None => Err(RenderError::Serialization),
        }
    }

    /// Render `source` as an HTML table, one row per line, under `lang`'s
    /// grammar.  The language's configuration is built on first use and
    /// reused afterwards; a failed build reports `RenderError::Configuration` and
    /// leaves the cache untouched.  On success the output is the serialized
    /// table of the event stream the engine produced for this call.
    pub fn render(&mut self, lang: &Lang, source: &[u8]) -> (r: Result<String, RenderError>)
        requires
            old(self).wf(),
        ensures
            final(self).wf(),
            final(self).theme == old(self).theme,
            final(self).mode == old(self).mode,
            final(self).decorations == old(self).decorations,
            forall|j: usize|
                j != lang.id ==> final(self).configs.entry(j) == old(self).configs.entry(j),
            old(self).configs.cached(lang.id) ==> final(self).configs == old(self).configs,
            old(self).configs.cached(lang.id) ==> r != Err::<String, RenderError>(
                RenderError::Configuration,
            ),
            r == Err::<String, RenderError>(RenderError::Configuration) ==> final(self).configs
                == old(self).configs && !old(self).configs.cached(lang.id),
            r is Err && r != Err::<String, RenderError>(RenderError::Configuration)
                ==> final(self).configs.cached(lang.id),
            r matches Ok(s) ==> final(self).configs.cached(lang.id) && (exists|
                evs: Seq<HighlightEvent>,
            |
                encode_utf8(s@) == #[trigger] table_bytes(old(self).decor(), source@, evs)),
    {
        if self.configs.contains(lang.id) {
        } else {
            let mut cfg = match build_config(lang) {
                Ok(c) => c,
                Err(_) => {
                    return Err(RenderError::Configuration);
                },
            };
            let names = catalog_names();
            configure_config(&mut cfg, &names);
            self.configs.store(lang.id, cfg);
        }
        let cfg = match self.configs.lookup(lang.id) {
            Some(c) => c,
            None => {
                proof {
                    assert(false);
                }
                return Err(RenderError::Configuration);
            },
        };
        let events = match run_highlight(cfg, source) {
            Ok(e) => e,
            Err(_) => {
                return Err(RenderError::Highlight);
            },
        };
        let r = self.render_events(source, &events);
        proof {
            if r is Ok {
                let s = r->Ok_0;
                assert(encode_utf8(s@) == table_bytes(old(self).decor(), source@, events@));
            }
        }
        match r {
            Ok(s) => Ok(s),
            Err(_) => Err(RenderError::Serialization),
        }
    }
}

/// The rendering half of the fail-open policy: content tagged with an
/// attribute the theme leaves unstyled is wrapped in a bare `<span>`, with
/// no class or style attribute on the element.
pub proof fn lemma_unstyled_span_plain(r: Renderer, i: usize)
    requires
        r.wf(),
        !r.theme.styled(i as int),
    ensures
        open_tag(decoration_at(r.decor(), i)) == encode_utf8("<span>"@),
{
}

} // verus!

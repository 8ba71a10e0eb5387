//! The runtime-facing lookup facade over a resolved theme.

use vstd::prelude::*;
use crate::color::Color;
use crate::config::{
    default_themes, spec_is_default_themes, spec_lookup, spec_neutral_styles, Styles, Themes,
};
use crate::style::{spec_dimmed_style, spec_neutral_style, Style};

verus! {

/// What a [`Highlighter`] built without a theme falls back to: no theming at
/// all, or the built-in theme. An explicit, caller-selected choice.
#[derive(Clone, Copy, Debug, PartialEq, Eq, Structural)]
pub enum FallbackPolicy {
    NoTheme,
    BuiltIn,
}

/// Answers style queries by element name over an optional resolved theme,
/// falling back to the neutral style when the theme is absent or the name is
/// unknown. Stateless and read-only after construction.
pub struct Highlighter {
    pub highlight: Option<Themes>,
}

impl Default for Highlighter {
    /// A highlighter over the built-in theme.
    fn default() -> (r: Self)
        ensures
            r.highlight matches Some(t) && spec_is_default_themes(t),
    {
        Highlighter { highlight: Some(default_themes()) }
    }
}

impl Highlighter {
    /// Wraps a resolved theme; given none, falls back to the built-in theme.
    pub fn new(theme_config: Option<Themes>) -> (r: Self)
        ensures
            theme_config matches Some(t) ==> r.highlight == Some(t),
            theme_config is None ==> (r.highlight matches Some(t) && spec_is_default_themes(t)),
    {
        if theme_config.is_none() {
            Highlighter::default()
        } else {
            Self { highlight: theme_config }
        }
    }

    /// Wraps a resolved theme; given none, applies the caller-selected
    /// fallback policy: stay unthemed, or use the built-in theme.
    pub fn with_policy(theme_config: Option<Themes>, policy: FallbackPolicy) -> (r: Self)
        ensures
            theme_config matches Some(t) ==> r.highlight == Some(t),
            theme_config is None && policy == FallbackPolicy::BuiltIn ==> (r.highlight matches Some(
                t,
            ) && spec_is_default_themes(t)),
            theme_config is None && policy == FallbackPolicy::NoTheme ==> r.highlight is None,
    {
        match policy {
            FallbackPolicy::BuiltIn => Highlighter::new(theme_config),
            FallbackPolicy::NoTheme => Self { highlight: theme_config },
        }
    }

    /// The four-state entry for `key`: the held theme's entry where there is
    /// one, the all-neutral entry when the theme is absent or the name is
    /// unknown. Never fails.
    #[verifier::loop_isolation(false)]
    pub fn style(&self, key: &str) -> (r: Styles)
        ensures
            self.highlight is None ==> r == spec_neutral_styles(),
            self.highlight matches Some(t) ==> r == (match spec_lookup(t.entries@, key@) {
                Some(st) => st,
                None => spec_neutral_styles(),
            }),
    {
        match &self.highlight {
            None => Styles::default(),
            Some(t) => {
                let k = key.to_owned();
                proof {
                    assert(t.entries@.skip(0) =~= t.entries@);
                }
                let mut i: usize = 0;
                while i < t.entries.len()
                    invariant
                        i <= t.entries@.len(),
                        k@ == key@,
                        spec_lookup(t.entries@, key@) == spec_lookup(
                            t.entries@.skip(i as int),
                            key@,
                        ),
                    decreases t.entries@.len() - i,
                {
                    proof {
                        assert(t.entries@.skip(i as int)[0] == t.entries@[i as int]);
                    }
                    if t.entries[i].0 == k {
                        return t.entries[i].1;
                    }
                    proof {
                        assert(t.entries@.skip(i as int).drop_first() =~= t.entries@.skip(
                            (i + 1) as int,
                        ));
                    }
                    i += 1;
                }
                assert(t.entries@.skip(i as int).len() == 0);
                Styles::default()
            },
        }
    }

    /// The simpler, single-style query shape: the unfocused-state style of
    /// the entry for `key`, with the same fallback as [`Highlighter::style`]:
    /// the neutral style when the theme is absent or the name is unknown.
    pub fn base_style(&self, key: &str) -> (r: Style)
        ensures
            self.highlight is None ==> r == spec_neutral_style(),
            self.highlight matches Some(t) ==> r == (match spec_lookup(t.entries@, key@) {
                Some(st) => st.default,
                None => spec_neutral_style(),
            }),
    {
        self.style(key).default
    }

    /// The neutral style with only the `dimmed` modifier set: the fixed
    /// style for secondary, de-emphasized chrome, independent of theming.
    pub fn dimmed(&self) -> (r: Style)
        ensures
            r == spec_dimmed_style(),
    {
        Style { fg: Color::Default, bg: Color::Default, inverted: false, bold: false, dimmed: true }
    }

    /// The neutral style: the base render style when no element-specific
    /// override applies.
    pub fn default_style(&self) -> (r: Style)
        ensures
            r == spec_neutral_style(),
    {
        Style {
            fg: Color::Default,
            bg: Color::Default,
            inverted: false,
            bold: false,
            dimmed: false,
        }
    }
}

/// The dimmed chrome style differs from the neutral default style exactly in
/// the `dimmed` flag: colors and the other modifiers agree, `dimmed` is
/// opposite.
pub proof fn lemma_dimmed_differs_only_in_dimmed()
    ensures
        spec_dimmed_style().fg == spec_neutral_style().fg,
        spec_dimmed_style().bg == spec_neutral_style().bg,
        spec_dimmed_style().inverted == spec_neutral_style().inverted,
        spec_dimmed_style().bold == spec_neutral_style().bold,
        spec_dimmed_style().dimmed == !spec_neutral_style().dimmed,
{
}

} // verus!

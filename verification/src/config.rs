//! Theme configuration and its resolution.
//!
//! A raw theme maps element names to ordered lists of up to four optional
//! partial style records. Resolution fills every gap with the neutral style
//! and yields, per element name, one complete style for each of the four
//! display states.

use vstd::prelude::*;
use vstd::string::StringExecFns;
use crate::color::Color;
use crate::style::{spec_neutral_style, Style};

verus! {

/// A partial style record: every field may be independently absent, to be
/// defaulted during resolution.
#[derive(Clone, Copy, Debug)]
pub struct StyleConfig {
    pub fg: Option<Color>,
    pub bg: Option<Color>,
    pub inverted: Option<bool>,
    pub bold: Option<bool>,
    pub dimmed: Option<bool>,
}

/// The complete style a partial record denotes: each provided field is
/// taken, each absent one falls back to its neutral default.
pub open spec fn spec_style_from_config(cfg: StyleConfig) -> Style {
    Style {
        fg: if cfg.fg is Some {
            cfg.fg->0
        } else {
            Color::Default
        },
        bg: if cfg.bg is Some {
            cfg.bg->0
        } else {
            Color::Default
        },
        inverted: if cfg.inverted is Some {
            cfg.inverted->0
        } else {
            false
        },
        bold: if cfg.bold is Some {
            cfg.bold->0
        } else {
            false
        },
        dimmed: if cfg.dimmed is Some {
            cfg.dimmed->0
        } else {
            false
        },
    }
}

impl From<StyleConfig> for Style {
    /// Completes a partial style record, field by field.
    fn from(style_cfg: StyleConfig) -> (r: Self) {
        Style {
            fg: match style_cfg.fg {
                Some(c) => c,
                None => Color::Default,
            },
            bg: match style_cfg.bg {
                Some(c) => c,
                None => Color::Default,
            },
            inverted: match style_cfg.inverted {
                Some(b) => b,
                None => false,
            },
            bold: match style_cfg.bold {
                Some(b) => b,
                None => false,
            },
            dimmed: match style_cfg.dimmed {
                Some(b) => b,
                None => false,
            },
        }
    }
}

impl vstd::std_specs::convert::FromSpecImpl<StyleConfig> for Style {
    open spec fn obeys_from_spec() -> bool {
        true
    }

    open spec fn from_spec(v: StyleConfig) -> Self {
        spec_style_from_config(v)
    }
}

/// The style an optional partial record denotes: an absent record is the
/// neutral style.
pub open spec fn spec_cfg_to_style(c: Option<StyleConfig>) -> Style {
    match c {
        Some(cfg) => spec_style_from_config(cfg),
        None => spec_neutral_style(),
    }
}

/// Completes an optional partial style record; an absent record yields the
/// neutral style.
pub fn cfg_to_style(style_config: Option<StyleConfig>) -> (r: Style)
    ensures
        r == spec_cfg_to_style(style_config),
{
    match style_config {
        Some(cfg) => Style::from(cfg),
        None => Style::default(),
    }
}

/// One complete style per display state, in the fixed order: unfocused,
/// unfocused-and-matched, focused, focused-and-matched.
#[derive(Clone, Copy, Debug, PartialEq, Eq, Structural)]
pub struct Styles {
    pub default: Style,
    pub default_matched: Style,
    pub focused: Style,
    pub focused_matched: Style,
}

/// All four states neutral.
pub open spec fn spec_neutral_styles() -> Styles {
    Styles {
        default: spec_neutral_style(),
        default_matched: spec_neutral_style(),
        focused: spec_neutral_style(),
        focused_matched: spec_neutral_style(),
    }
}

impl Default for Styles {
    /// All four states neutral.
    fn default() -> (r: Self)
        ensures
            r == spec_neutral_styles(),
    {
        Styles {
            default: Style::default(),
            default_matched: Style::default(),
            focused: Style::default(),
            focused_matched: Style::default(),
        }
    }
}

/// The style an entry's list assigns to the display state at position `k`:
/// the `k`-th record if the list reaches it, the neutral style otherwise.
pub open spec fn spec_state_style(s: Seq<Option<StyleConfig>>, k: int) -> Style {
    if s.len() > k {
        spec_cfg_to_style(s[k])
    } else {
        spec_neutral_style()
    }
}

/// The complete four-state entry an ordered list of optional partial records
/// resolves to: positions 0 to 3 feed the four states in order, missing
/// positions stay neutral, positions beyond the fourth are ignored.
pub open spec fn spec_resolve_entry(s: Seq<Option<StyleConfig>>) -> Styles {
    Styles {
        default: spec_state_style(s, 0),
        default_matched: spec_state_style(s, 1),
        focused: spec_state_style(s, 2),
        focused_matched: spec_state_style(s, 3),
    }
}

/// The raw deserialized theme: element names, each with an ordered list of
/// optional partial style records. Key uniqueness is the container's
/// well-formedness condition.
pub struct ThemesConfig {
    pub entries: Vec<(String, Vec<Option<StyleConfig>>)>,
}

impl ThemesConfig {
    /// Element names are pairwise distinct.
    pub open spec fn wf(self) -> bool {
        forall|i: int, j: int|
            0 <= i < j < self.entries@.len() ==> self.entries@[i].0@ != self.entries@[j].0@
    }
}

/// A fully deserialized configuration document.
pub struct Config {
    pub themes: ThemesConfig,
}

/// A resolved theme: element names, each with all four display states
/// populated.
pub struct Themes {
    pub entries: Vec<(String, Styles)>,
}

/// The first entry of `s` named `k`, if any.
pub open spec fn spec_lookup(s: Seq<(String, Styles)>, k: Seq<char>) -> Option<Styles>
    decreases s.len(),
{
    if s.len() == 0 {
        None
    } else if s[0].0@ == k {
        Some(s[0].1)
    } else {
        spec_lookup(s.drop_first(), k)
    }
}

impl Themes {
    /// Element names are pairwise distinct.
    pub open spec fn wf(self) -> bool {
        forall|i: int, j: int|
            0 <= i < j < self.entries@.len() ==> self.entries@[i].0@ != self.entries@[j].0@
    }
}

/// Resolves one entry's ordered list of optional partial records into the
/// four display states.
#[verifier::loop_isolation(false)]
fn resolve_entry(specs: &Vec<Option<StyleConfig>>) -> (r: Styles)
    ensures
        r == spec_resolve_entry(specs@),
{
    let mut styles = Styles::default();
    let mut i: usize = 0;
    while i < specs.len()
        invariant
            i <= specs@.len(),
            styles == spec_resolve_entry(specs@.take(i as int)),
        decreases specs@.len() - i,
    {
        let style = cfg_to_style(specs[i]);
        match i {
            0 => styles.default = style,
            1 => styles.default_matched = style,
            2 => styles.focused = style,
            3 => styles.focused_matched = style,
            _ => {},
        }
        proof {
            let prev = specs@.take(i as int);
            let cur = specs@.take((i + 1) as int);
            assert(cur.drop_last() =~= prev);
            assert(cur.last() == specs@[i as int]);
        }
        i += 1;
    }
    proof {
        assert(specs@.take(specs@.len() as int) =~= specs@);
    }
    styles
}

/// Resolves a raw theme: every element name keeps its place, and its list of
/// partial records becomes a complete four-state entry, gaps filled with the
/// neutral style.
#[verifier::loop_isolation(false)]
pub fn themes_config_to_themes(value: ThemesConfig) -> (r: Themes)
    ensures
        r.entries@.len() == value.entries@.len(),
        forall|i: int|
            0 <= i < value.entries@.len() ==> r.entries@[i].0 == value.entries@[i].0
                && r.entries@[i].1 == spec_resolve_entry(value.entries@[i].1@),
        value.wf() ==> r.wf(),
{
    let mut entries: Vec<(String, Styles)> = Vec::new();
    let mut j: usize = 0;
    while j < value.entries.len()
        invariant
            j <= value.entries@.len(),
            entries@.len() == j,
            forall|i: int|
                0 <= i < j ==> entries@[i].0 == value.entries@[i].0 && entries@[i].1
                    == spec_resolve_entry(value.entries@[i].1@),
        decreases value.entries@.len() - j,
    {
        let name = value.entries[j].0.clone();
        let styles = resolve_entry(&value.entries[j].1);
        entries.push((name, styles));
        j += 1;
    }
    let r = Themes { entries };
    proof {
        if value.wf() {
            assert forall|i: int, k: int|
                0 <= i < k < r.entries@.len() implies r.entries@[i].0@ != r.entries@[k].0@ by {
                assert(r.entries@[i].0 == value.entries@[i].0);
                assert(r.entries@[k].0 == value.entries@[k].0);
            }
        }
    }
    r
}

/// The curated entry for labels: neutral when unfocused, strongly
/// highlighted when matched or focused.
pub open spec fn spec_label_styles() -> Styles {
    Styles {
        default: spec_neutral_style(),
        default_matched: (Style {
            fg: Color::Hex(0x000000),
            bg: Color::Hex(0xfff000),
            inverted: false,
            bold: true,
            dimmed: false,
        }),
        focused: (Style {
            fg: Color::Hex(0xff013f),
            bg: Color::Hex(0xffffff),
            inverted: true,
            bold: true,
            dimmed: false,
        }),
        focused_matched: (Style {
            fg: Color::Hex(0xfff000),
            bg: Color::Hex(0x000000),
            inverted: true,
            bold: true,
            dimmed: false,
        }),
    }
}

/// The curated entry for literal values: a distinguishing foreground when
/// unfocused, an inverted bold highlight when matched.
pub open spec fn spec_literal_styles(fg: Color) -> Styles {
    Styles {
        default: (Style {
            fg: fg,
            bg: Color::Default,
            inverted: false,
            bold: false,
            dimmed: false,
        }),
        default_matched: (Style {
            fg: Color::Default,
            bg: Color::Hex(0xfff000),
            inverted: true,
            bold: true,
            dimmed: false,
        }),
        focused: spec_neutral_style(),
        focused_matched: spec_neutral_style(),
    }
}

/// Exactly the built-in theme: the nine curated element entries, in order.
pub open spec fn spec_is_default_themes(t: Themes) -> bool {
    &&& t.entries@.len() == 9
    &&& t.entries@[0].0@ == "object_label"@ && t.entries@[0].1 == spec_label_styles()
    &&& t.entries@[1].0@ == "object_label_index"@ && t.entries@[1].1 == spec_label_styles()
    &&& t.entries@[2].0@ == "array_label"@ && t.entries@[2].1 == spec_neutral_styles()
    &&& t.entries@[3].0@ == "container_delimiter"@ && t.entries@[3].1 == spec_neutral_styles()
    &&& t.entries@[4].0@ == "container_preview"@ && t.entries@[4].1 == spec_neutral_styles()
    &&& t.entries@[5].0@ == "null"@ && t.entries@[5].1 == spec_literal_styles(
        Color::Hex(0xdddddd),
    )
    &&& t.entries@[6].0@ == "bool"@ && t.entries@[6].1 == spec_literal_styles(
        Color::Hex(0xf26100),
    )
    &&& t.entries@[7].0@ == "number"@ && t.entries@[7].1 == spec_literal_styles(
        Color::Hex(0xdc35ea),
    )
    &&& t.entries@[8].0@ == "string"@ && t.entries@[8].1 == spec_literal_styles(
        Color::Hex(0x9700),
    )
    &&& t.wf()
}

/// Builds one literal-value entry of the built-in theme.
fn literal_styles(fg: Color) -> (r: Styles)
    ensures
        r == spec_literal_styles(fg),
{
    Styles {
        default: Style { fg, bg: Color::Default, inverted: false, bold: false, dimmed: false },
        default_matched: Style {
            fg: Color::Default,
            bg: Color::Hex(0xfff000),
            inverted: true,
            bold: true,
            dimmed: false,
        },
        focused: Style::default(),
        focused_matched: Style::default(),
    }
}

/// Builds one label entry of the built-in theme.
fn label_styles() -> (r: Styles)
    ensures
        r == spec_label_styles(),
{
    Styles {
        default: Style::default(),
        default_matched: Style {
            fg: Color::Hex(0x000000),
            bg: Color::Hex(0xfff000),
            inverted: false,
            bold: true,
            dimmed: false,
        },
        focused: Style {
            fg: Color::Hex(0xff013f),
            bg: Color::Hex(0xffffff),
            inverted: true,
            bold: true,
            dimmed: false,
        },
        focused_matched: Style {
            fg: Color::Hex(0xfff000),
            bg: Color::Hex(0x000000),
            inverted: true,
            bold: true,
            dimmed: false,
        },
    }
}

/// The hardcoded built-in theme: curated entries for the common element
/// kinds, used when no user theme is supplied.
pub fn default_themes() -> (r: Themes)
    ensures
        spec_is_default_themes(r),
{
    let mut entries: Vec<(String, Styles)> = Vec::new();
    entries.push((String::from_str("object_label"), label_styles()));
    entries.push((String::from_str("object_label_index"), label_styles()));
    entries.push((String::from_str("array_label"), Styles::default()));
    entries.push((String::from_str("container_delimiter"), Styles::default()));
    entries.push((String::from_str("container_preview"), Styles::default()));
    entries.push((String::from_str("null"), literal_styles(Color::Hex(0xdddddd))));
    entries.push((String::from_str("bool"), literal_styles(Color::Hex(0xf26100))));
    entries.push((String::from_str("number"), literal_styles(Color::Hex(0xdc35ea))));
    entries.push((String::from_str("string"), literal_styles(Color::Hex(0x9700))));
    let r = Themes { entries };
    proof {
        reveal_strlit("object_label");
        reveal_strlit("object_label_index");
        reveal_strlit("array_label");
        reveal_strlit("container_delimiter");
        reveal_strlit("container_preview");
        reveal_strlit("null");
        reveal_strlit("bool");
        reveal_strlit("number");
        reveal_strlit("string");
        assert(r.entries@[0].0@ == "object_label"@);
        assert(r.entries@[1].0@ == "object_label_index"@);
        assert(r.entries@[2].0@ == "array_label"@);
        assert(r.entries@[3].0@ == "container_delimiter"@);
        assert(r.entries@[4].0@ == "container_preview"@);
        assert(r.entries@[5].0@ == "null"@);
        assert(r.entries@[6].0@ == "bool"@);
        assert(r.entries@[7].0@ == "number"@);
        assert(r.entries@[8].0@ == "string"@);
        assert(("object_label"@).len() == 12);
        assert(("object_label_index"@).len() == 18);
        assert(("array_label"@).len() == 11);
        assert(("container_delimiter"@).len() == 19);
        assert(("container_preview"@).len() == 17);
        assert(("null"@).len() == 4);
        assert(("bool"@).len() == 4);
        assert(("number"@).len() == 6);
        assert(("string"@).len() == 6);
        assert(("null"@)[0] != ("bool"@)[0]);
        assert(("number"@)[0] != ("string"@)[0]);
        assert(r.wf());
    }
    r
}

/// Holds of [`spec_resolve_entry`] directly: resolving an empty list yields
/// the all-neutral entry.
pub proof fn lemma_resolve_empty_entry()
    ensures
        spec_resolve_entry(Seq::<Option<StyleConfig>>::empty()) == spec_neutral_styles(),
{
}

/// A partial record providing every field of a style.
pub open spec fn spec_full_config(st: Style) -> StyleConfig {
    StyleConfig {
        fg: Some(st.fg),
        bg: Some(st.bg),
        inverted: Some(st.inverted),
        bold: Some(st.bold),
        dimmed: Some(st.dimmed),
    }
}

/// Resolution of already-complete data is the identity: a four-record list
/// whose records provide every field reproduces exactly the four styles it
/// was built from.
pub proof fn lemma_resolve_complete_identity(s: Styles)
    ensures
        spec_resolve_entry(
            seq![
                Some(spec_full_config(s.default)),
                Some(spec_full_config(s.default_matched)),
                Some(spec_full_config(s.focused)),
                Some(spec_full_config(s.focused_matched)),
            ],
        ) == s,
{
}

} // verus!

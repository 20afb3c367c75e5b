//! Colors, styles and the theme that supplies fallback styles.

use vstd::prelude::*;
use crate::value::{position, lemma_position_first, lemma_position_none};

verus! {

/// A terminal color.
#[derive(Debug, Clone, Copy, PartialEq, Eq)]
pub enum Color {
    Reset,
    Indexed(u8),
    Rgb(u8, u8, u8),
}

/// How a glyph is drawn: its foreground and background, where set.
#[derive(Debug, Clone, Copy, PartialEq, Eq)]
pub struct Style {
    pub fg: Option<Color>,
    pub bg: Option<Color>,
}

impl Style {
    /// The style that sets nothing.
    pub open spec fn plain() -> Style {
        Style { fg: None, bg: None }
    }

    /// This style with the foreground set to `color`.
    pub fn fg(self, color: Color) -> (styled: Style)
        ensures
            styled == (Style { fg: Some(color), bg: self.bg }),
    {
        Style { fg: Some(color), bg: self.bg }
    }
}

impl Default for Style {
    fn default() -> (style: Style)
        ensures
            style == Style::plain(),
    {
        Style { fg: None, bg: None }
    }
}

/// Where an icon's style comes from: written in the flavor document
/// (`Custom`), or supplied by the theme (`Default`). A `Default` style may be
/// refreshed when the theme changes; a `Custom` one is kept.
#[derive(Debug, Clone, Copy, PartialEq, Eq)]
pub enum IconStyle {
    Custom(Style),
    Default(Style),
}

impl IconStyle {
    /// The style itself, whatever its source.
    pub open spec fn style(self) -> Style {
        match self {
            IconStyle::Custom(style) => style,
            IconStyle::Default(style) => style,
        }
    }
}

impl Default for IconStyle {
    fn default() -> (icon_style: IconStyle)
        ensures
            icon_style == IconStyle::Default(Style::plain()),
    {
        IconStyle::Default(Style::default())
    }
}

impl From<IconStyle> for Style {
    fn from(icon_style: IconStyle) -> (style: Style) {
        match icon_style {
            IconStyle::Custom(style) => style,
            IconStyle::Default(style) => style,
        }
    }
}

impl vstd::std_specs::convert::FromSpecImpl<IconStyle> for Style {
    open spec fn obeys_from_spec() -> bool {
        true
    }

    open spec fn from_spec(icon_style: IconStyle) -> Style {
        icon_style.style()
    }
}

/// One style of a theme, under its scope name.
#[derive(Debug, Clone, PartialEq, Eq)]
pub struct ThemeEntry {
    pub scope: String,
    pub style: Style,
}

/// A theme: styles by scope name. Of two entries with one name the first
/// counts.
#[derive(Debug, Clone, PartialEq, Eq)]
pub struct Theme {
    pub styles: Vec<ThemeEntry>,
}

impl Theme {
    /// The scope names of the theme, in order.
    pub open spec fn scopes(self) -> Seq<Option<Seq<char>>> {
        Seq::new(self.styles@.len(), |i: int| Some(self.styles@[i].scope@))
    }

    /// The style under `scope`; the plain style where the theme has none.
    pub open spec fn style_of(self, scope: Seq<char>) -> Style {
        match position(self.scopes(), scope) {
            Some(i) => self.styles@[i].style,
            None => Style::plain(),
        }
    }

    /// The style under `scope`; the plain style where the theme has none.
    pub fn get(&self, scope: &str) -> (style: Style)
        ensures
            style == self.style_of(scope@),
    {
        let wanted = scope.to_owned();
        let ghost scopes = self.scopes();
        let mut i: usize = 0;
        while i < self.styles.len()
            invariant
                i <= self.styles.len(),
                wanted@ == scope@,
                scopes == self.scopes(),
                forall|j: int| 0 <= j < i ==> scopes[j] != Some(scope@),
            decreases self.styles.len() - i,
        {
            if self.styles[i].scope == wanted {
                proof {
                    lemma_position_first(scopes, scope@, i as int);
                }
                return self.styles[i].style;
            }
            i += 1;
        }
        proof {
            lemma_position_none(scopes, scope@);
        }
        Style::default()
    }
}

} // verus!

//! The typed icon flavor and its style rules.

use vstd::prelude::*;
use crate::paths::{lookup_key, path_lookup_key};
use crate::style::{Style, IconStyle, Theme};
use crate::value::{position, lemma_position_first, lemma_position_none};

verus! {

/// A glyph with its style, if it has one.
#[derive(Debug, Clone, Copy, PartialEq, Eq)]
pub struct Icon {
    pub icon_char: char,
    pub style: Option<IconStyle>,
}

/// The style of an icon after the theme offered `style`: a `Custom` style
/// stays, anything else gives way to the theme's.
pub open spec fn themed(current: Option<IconStyle>, style: Style) -> Option<IconStyle> {
    match current {
        Some(IconStyle::Custom(own)) => Some(IconStyle::Custom(own)),
        _ => Some(IconStyle::Default(style)),
    }
}

/// The style of every icon where colors cannot be shown.
pub open spec fn colorless() -> Option<IconStyle> {
    Some(IconStyle::Default(Style::plain()))
}

impl Icon {
    /// Takes the given style if the icon has none, or one that came from a
    /// theme before.
    pub fn with_default_style(&mut self, style: Style)
        ensures
            final(self).icon_char == old(self).icon_char,
            final(self).style == themed(old(self).style, style),
    {
        match self.style {
            Some(IconStyle::Custom(_)) => {},
            _ => {
                self.style = Some(IconStyle::Default(style));
            },
        }
    }

    /// This icon without color.
    pub open spec fn stripped(self) -> Icon {
        Icon { icon_char: self.icon_char, style: colorless() }
    }
}

/// The icons of the four diagnostic severities.
#[derive(Debug, Clone, Copy, PartialEq, Eq)]
pub struct Diagnostic {
    pub error: Icon,
    pub warning: Icon,
    pub info: Icon,
    pub hint: Icon,
}

/// One icon of a table, under its key.
#[derive(Debug, Clone, PartialEq, Eq)]
pub struct NamedIcon {
    pub key: String,
    pub icon: Icon,
}

/// The keys and icons of a table, in order.
pub open spec fn table_of(entries: Seq<NamedIcon>) -> Seq<(Seq<char>, Icon)> {
    Seq::new(entries.len(), |i: int| (entries[i].key@, entries[i].icon))
}

/// The keys of a table, in order.
pub open spec fn icon_keys(table: Seq<(Seq<char>, Icon)>) -> Seq<Option<Seq<char>>> {
    Seq::new(table.len(), |i: int| Some(table[i].0))
}

/// The icon under `key`: that of the first entry with this key.
pub open spec fn icon_at(table: Seq<(Seq<char>, Icon)>, key: Seq<char>) -> Option<Icon> {
    match position(icon_keys(table), key) {
        Some(i) => Some(table[i].1),
        None => None,
    }
}

/// Whether no key occurs twice in a table of icons.
pub open spec fn distinct_icon_keys(table: Seq<(Seq<char>, Icon)>) -> bool {
    forall|i: int, j: int| 0 <= i < j < table.len() ==> table[i].0 != table[j].0
}

/// A table with every icon stripped of color.
pub open spec fn stripped_table(table: Seq<(Seq<char>, Icon)>) -> Seq<(Seq<char>, Icon)> {
    Seq::new(table.len(), |i: int| (table[i].0, table[i].1.stripped()))
}

/// An optional table with every icon stripped of color.
pub open spec fn stripped_tables(table: Option<Seq<(Seq<char>, Icon)>>) -> Option<
    Seq<(Seq<char>, Icon)>,
> {
    match table {
        Some(t) => Some(stripped_table(t)),
        None => None,
    }
}

/// The model of an optional table.
pub open spec fn tables_of(entries: Option<Vec<NamedIcon>>) -> Option<Seq<(Seq<char>, Icon)>> {
    match entries {
        Some(v) => Some(table_of(v@)),
        None => None,
    }
}

/// Finds the icon under `key`.
fn find_icon<'a>(entries: &'a Vec<NamedIcon>, key: &str) -> (found: Option<&'a Icon>)
    ensures
        icon_at(table_of(entries@), key@) == match found {
            Some(icon) => Some(*icon),
            None => None::<Icon>,
        },
{
    let wanted = key.to_owned();
    let ghost keys = icon_keys(table_of(entries@));
    let mut i: usize = 0;
    while i < entries.len()
        invariant
            i <= entries.len(),
            wanted@ == key@,
            keys == icon_keys(table_of(entries@)),
            forall|j: int| 0 <= j < i ==> keys[j] != Some(key@),
        decreases entries.len() - i,
    {
        if entries[i].key == wanted {
            proof {
                lemma_position_first(keys, key@, i as int);
            }
            return Some(&entries[i].icon);
        }
        i += 1;
    }
    proof {
        lemma_position_none(keys, key@);
    }
    None
}

/// Strips the color of every icon of a table.
fn strip_table(entries: &Vec<NamedIcon>) -> (stripped: Vec<NamedIcon>)
    ensures
        table_of(stripped@) == stripped_table(table_of(entries@)),
{
    let mut out: Vec<NamedIcon> = Vec::new();
    let mut i: usize = 0;
    while i < entries.len()
        invariant
            i <= entries.len(),
            out@.len() == i,
            forall|j: int|
                0 <= j < i ==> out@[j].key@ == entries@[j].key@ && out@[j].icon
                    == entries@[j].icon.stripped(),
        decreases entries.len() - i,
    {
        let icon = Icon {
            icon_char: entries[i].icon.icon_char,
            style: Some(IconStyle::Default(Style::default())),
        };
        out.push(NamedIcon { key: entries[i].key.clone(), icon });
        i += 1;
    }
    assert(table_of(out@) =~= stripped_table(table_of(entries@)));
    out
}

/// Copies a table.
fn copy_table(entries: &Vec<NamedIcon>) -> (copy: Vec<NamedIcon>)
    ensures
        table_of(copy@) == table_of(entries@),
{
    let mut out: Vec<NamedIcon> = Vec::new();
    let mut i: usize = 0;
    while i < entries.len()
        invariant
            i <= entries.len(),
            out@.len() == i,
            forall|j: int|
                0 <= j < i ==> out@[j].key@ == entries@[j].key@ && out@[j].icon
                    == entries@[j].icon,
        decreases entries.len() - i,
    {
        out.push(NamedIcon { key: entries[i].key.clone(), icon: entries[i].icon });
        i += 1;
    }
    assert(table_of(out@) =~= table_of(entries@));
    out
}

/// A materialized icon flavor.
#[derive(Debug, Clone, PartialEq, Eq)]
pub struct Icons {
    pub name: String,
    pub mime_type: Option<Vec<NamedIcon>>,
    pub diagnostic: Diagnostic,
    pub symbol_kind: Option<Vec<NamedIcon>>,
}

/// The model of an [`Icons`].
pub struct IconsModel {
    pub name: Seq<char>,
    pub mime_type: Option<Seq<(Seq<char>, Icon)>>,
    pub diagnostic: Diagnostic,
    pub symbol_kind: Option<Seq<(Seq<char>, Icon)>>,
}

impl IconsModel {
    /// The flavor after the theme offered its styles to the diagnostic icons.
    pub open spec fn with_theme(self, theme: Theme) -> IconsModel {
        IconsModel {
            name: self.name,
            mime_type: self.mime_type,
            diagnostic: Diagnostic {
                error: Icon {
                    icon_char: self.diagnostic.error.icon_char,
                    style: themed(self.diagnostic.error.style, theme.style_of("error"@)),
                },
                warning: Icon {
                    icon_char: self.diagnostic.warning.icon_char,
                    style: themed(self.diagnostic.warning.style, theme.style_of("warning"@)),
                },
                info: Icon {
                    icon_char: self.diagnostic.info.icon_char,
                    style: themed(self.diagnostic.info.style, theme.style_of("info"@)),
                },
                hint: Icon {
                    icon_char: self.diagnostic.hint.icon_char,
                    style: themed(self.diagnostic.hint.style, theme.style_of("hint"@)),
                },
            },
            symbol_kind: self.symbol_kind,
        }
    }

    /// The flavor with every icon stripped of color.
    pub open spec fn without_color(self) -> IconsModel {
        IconsModel {
            name: self.name,
            mime_type: stripped_tables(self.mime_type),
            diagnostic: Diagnostic {
                error: self.diagnostic.error.stripped(),
                warning: self.diagnostic.warning.stripped(),
                info: self.diagnostic.info.stripped(),
                hint: self.diagnostic.hint.stripped(),
            },
            symbol_kind: stripped_tables(self.symbol_kind),
        }
    }

    /// The flavor under another name.
    pub open spec fn named(self, name: Seq<char>) -> IconsModel {
        IconsModel {
            name,
            mime_type: self.mime_type,
            diagnostic: self.diagnostic,
            symbol_kind: self.symbol_kind,
        }
    }

    /// The icon of a file type: the one under it in the file-type table.
    pub open spec fn filetype_icon(self, filetype: Seq<char>) -> Option<Icon> {
        match self.mime_type {
            Some(table) => icon_at(table, filetype),
            None => None,
        }
    }

    /// The `file` icon of the symbol kinds, if the flavor has one.
    pub open spec fn file_icon(self) -> Option<Icon> {
        match self.symbol_kind {
            Some(kinds) => icon_at(kinds, "file"@),
            None => None,
        }
    }

    /// The icon for a lookup key: the one under it in the file-type table;
    /// where that table does not hold the key, or is not there at all, the
    /// `file` icon of the symbol kinds. Without a key there is none.
    pub open spec fn key_icon(self, key: Option<Seq<char>>) -> Option<Icon> {
        match key {
            Some(k) => match self.filetype_icon(k) {
                Some(icon) => Some(icon),
                None => self.file_icon(),
            },
            None => None,
        }
    }

    /// Whether neither table of the flavor holds a key twice.
    pub open spec fn wf(self) -> bool {
        &&& self.mime_type matches Some(t) ==> distinct_icon_keys(t)
        &&& self.symbol_kind matches Some(t) ==> distinct_icon_keys(t)
    }

    /// Whether no icon of the flavor bears a style that a document set.
    pub open spec fn no_custom_style(self) -> bool {
        &&& !(self.diagnostic.error.style matches Some(IconStyle::Custom(_)))
        &&& !(self.diagnostic.warning.style matches Some(IconStyle::Custom(_)))
        &&& !(self.diagnostic.info.style matches Some(IconStyle::Custom(_)))
        &&& !(self.diagnostic.hint.style matches Some(IconStyle::Custom(_)))
        &&& self.mime_type matches Some(t) ==> forall|i: int|
            0 <= i < t.len() ==> !(#[trigger] t[i].1.style matches Some(IconStyle::Custom(_)))
        &&& self.symbol_kind matches Some(t) ==> forall|i: int|
            0 <= i < t.len() ==> !(#[trigger] t[i].1.style matches Some(IconStyle::Custom(_)))
    }
}

impl View for Icons {
    type V = IconsModel;

    open spec fn view(&self) -> IconsModel {
        IconsModel {
            name: self.name@,
            mime_type: tables_of(self.mime_type),
            diagnostic: self.diagnostic,
            symbol_kind: tables_of(self.symbol_kind),
        }
    }
}

impl Icons {
    /// The name of the flavor.
    pub fn name(&self) -> (name: &str)
        ensures
            name@ == self@.name,
    {
        self.name.as_str()
    }

    /// Offers the theme's styles to the four diagnostic icons. An icon whose
    /// style a document set keeps it; every other one takes the theme's style
    /// for its severity.
    pub fn set_diagnostic_icons_base_style(&mut self, theme: &Theme)
        ensures
            final(self)@ == old(self)@.with_theme(*theme),
    {
        self.diagnostic.error.with_default_style(theme.get("error"));
        self.diagnostic.info.with_default_style(theme.get("info"));
        self.diagnostic.hint.with_default_style(theme.get("hint"));
        self.diagnostic.warning.with_default_style(theme.get("warning"));
    }

    /// Gives every icon the colorless style.
    pub fn reset_styles(&mut self)
        ensures
            final(self)@ == old(self)@.without_color(),
    {
        let mime_type = match &self.mime_type {
            Some(entries) => Some(strip_table(entries)),
            None => None,
        };
        let symbol_kind = match &self.symbol_kind {
            Some(entries) => Some(strip_table(entries)),
            None => None,
        };
        self.mime_type = mime_type;
        self.symbol_kind = symbol_kind;
        self.diagnostic.error.style = Some(IconStyle::Default(Style::default()));
        self.diagnostic.warning.style = Some(IconStyle::Default(Style::default()));
        self.diagnostic.hint.style = Some(IconStyle::Default(Style::default()));
        self.diagnostic.info.style = Some(IconStyle::Default(Style::default()));
    }

    /// The icon of a file type, if the flavor has one.
    pub fn icon_from_filetype<'a>(&'a self, filetype: &str) -> (found: Option<&'a Icon>)
        ensures
            self@.filetype_icon(filetype@) == match found {
                Some(icon) => Some(*icon),
                None => None::<Icon>,
            },
    {
        match &self.mime_type {
            Some(entries) => find_icon(entries, filetype),
            None => None,
        }
    }

    /// The icon for a lookup key, with the `file` icon as fallback.
    pub fn icon_from_key<'a>(&'a self, key: Option<&str>) -> (found: Option<&'a Icon>)
        ensures
            self@.key_icon(
                match key {
                    Some(k) => Some(k@),
                    None => None,
                },
            ) == match found {
                Some(icon) => Some(*icon),
                None => None::<Icon>,
            },
    {
        match key {
            Some(k) => match self.icon_from_filetype(k) {
                Some(icon) => Some(icon),
                None => match &self.symbol_kind {
                    Some(kinds) => find_icon(kinds, "file"),
                    None => None,
                },
            },
            None => None,
        }
    }

    /// The icon for a file path: the one for its lookup key, which is the
    /// file's extension if it has one, else its file name.
    pub fn icon_from_path<'a>(&'a self, filepath: &str) -> (found: Option<&'a Icon>)
        ensures
            self@.key_icon(lookup_key(filepath@)) == match found {
                Some(icon) => Some(*icon),
                None => None::<Icon>,
            },
    {
        match path_lookup_key(filepath) {
            Some(key) => self.icon_from_key(Some(key.as_str())),
            None => self.icon_from_key(None),
        }
    }

    /// A copy of the flavor.
    pub fn duplicate(&self) -> (copy: Icons)
        ensures
            copy@ == self@,
    {
        Icons {
            name: self.name.clone(),
            mime_type: match &self.mime_type {
                Some(entries) => Some(copy_table(entries)),
                None => None,
            },
            diagnostic: self.diagnostic,
            symbol_kind: match &self.symbol_kind {
                Some(entries) => Some(copy_table(entries)),
                None => None,
            },
        }
    }
}

/// An icon whose style a document set keeps exactly that style when a theme
/// offers its own, whatever the theme.
pub proof fn law_custom_style_is_kept(own: Style, offered: Style)
    ensures
        themed(Some(IconStyle::Custom(own)), offered) == Some(IconStyle::Custom(own)),
{
}

/// An icon without a style, or with one that a theme gave, takes exactly the
/// style that the theme offers.
pub proof fn law_theme_style_is_taken(current: Option<IconStyle>, offered: Style)
    requires
        !(current matches Some(IconStyle::Custom(_))),
    ensures
        themed(current, offered) == Some(IconStyle::Default(offered)),
{
}

/// After the colors were stripped, no icon of the flavor bears a style that a
/// document set.
pub proof fn law_stripped_has_no_custom_style(flavor: IconsModel)
    ensures
        flavor.without_color().no_custom_style(),
{
}

/// Neither a theme's styles nor the stripping of colors changes the keys of
/// a flavor: tables that held no key twice hold none twice after.
pub proof fn law_styles_keep_keys_distinct(flavor: IconsModel, theme: Theme)
    requires
        flavor.wf(),
    ensures
        flavor.with_theme(theme).wf(),
        flavor.without_color().wf(),
{
}

/// A key that the file-type table does not hold, and any key where there is
/// no such table, gets the `file` icon of the symbol kinds.
pub proof fn law_file_icon_is_the_fallback(flavor: IconsModel, key: Seq<char>)
    requires
        flavor.filetype_icon(key) is None,
    ensures
        flavor.key_icon(Some(key)) == flavor.file_icon(),
        flavor.mime_type is None ==> flavor.filetype_icon(key) is None,
{
}

/// After a theme offered its styles, every diagnostic icon has a style.
pub proof fn law_themed_diagnostics_are_styled(flavor: IconsModel, theme: Theme)
    ensures
        flavor.with_theme(theme).diagnostic.error.style is Some,
        flavor.with_theme(theme).diagnostic.warning.style is Some,
        flavor.with_theme(theme).diagnostic.info.style is Some,
        flavor.with_theme(theme).diagnostic.hint.style is Some,
{
}

} // verus!

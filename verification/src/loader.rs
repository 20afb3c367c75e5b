//! The loader of icon flavors.

use vstd::prelude::*;
use crate::convert::{icons_from_value, icons_from_value_or, icons_of, icons_or};
use crate::flavor::{FlavorError, FlavorLoader, Step, StepModel, load_flavor, settle};
use crate::icons::{Icons, IconsModel, themed};
use crate::merge::{merge_docs, merge_toml_values, is_leaf, law_right_wins_at_path};
use crate::names::{texts, toml_names_in_dir, toml_stems, union_names, union_of};
use crate::paths::{join_path, path_join};
use crate::style::Theme;
use crate::value::{Node, Doc};

verus! {

/// The name of the built-in flavor.
pub open spec fn default_name() -> Seq<char> {
    "default"@
}

/// How many levels of a flavor document are merged member by member: the
/// tables of the document, their entries, and one table within an entry.
pub const FLAVOR_MERGE_DEPTH: usize = 3;

/// Loads icon flavors from a user directory and a default directory, with a
/// built-in flavor that needs no file.
pub struct Loader {
    user_dir: String,
    default_dir: String,
    default_doc: Node,
    default_icons: Icons,
}

/// A flavor as it is shown: with the theme's styles where colors can be shown,
/// stripped of color where they cannot.
pub open spec fn styled(flavor: IconsModel, theme: Theme, true_color: bool) -> IconsModel {
    if true_color {
        flavor.with_theme(theme)
    } else {
        flavor.without_color()
    }
}

impl Loader {
    /// The built-in document.
    pub closed spec fn builtin_doc(self) -> Doc {
        self.default_doc@
    }

    /// The built-in flavor.
    pub closed spec fn builtin_flavor(self) -> IconsModel {
        self.default_icons@
    }

    /// The built-in flavor is what the built-in document describes, under
    /// the name `default`.
    #[verifier::type_invariant]
    pub closed spec fn wf(self) -> bool {
        &&& icons_of(self.default_doc@) is Some
        &&& self.default_icons@ == icons_of(self.default_doc@)->0.named(default_name())
    }

    /// Creates a loader for the `icons` directories under the two given
    /// directories, with `default_doc` as the built-in document. There is no
    /// loader for a built-in document that does not describe a flavor.
    pub fn new(user_dir: &str, default_dir: &str, default_doc: Node) -> (loader: Option<Loader>)
        ensures
            loader is Some <==> icons_of(default_doc@) is Some,
            loader matches Some(l) ==> l.builtin_doc() == default_doc@ && l.builtin_flavor()
                == icons_of(default_doc@)->0.named(default_name()) && l.user_dir_text()
                == path_join(user_dir@, "icons"@) && l.default_dir_text() == path_join(
                default_dir@,
                "icons"@,
            ),
    {
        match icons_from_value(&default_doc) {
            Some(icons) => {
                let Icons { name: _, mime_type, diagnostic, symbol_kind } = icons;
                let default_icons = Icons {
                    name: "default".to_owned(),
                    mime_type,
                    diagnostic,
                    symbol_kind,
                };
                Some(
                    Loader {
                        user_dir: join_path(user_dir, "icons"),
                        default_dir: join_path(default_dir, "icons"),
                        default_doc,
                        default_icons,
                    },
                )
            },
            None => None,
        }
    }

    /// What loading `name` gives, `document` being what its resolution gave.
    ///
    /// The name `default` gives the built-in flavor, whatever `document` is.
    /// For any other name a failed resolution fails the load; else the flavor
    /// is what the document describes, or the built-in flavor where it
    /// describes none. Either way the flavor takes the theme's styles if
    /// colors can be shown and is stripped of color if not, and bears `name`.
    pub open spec fn loaded(
        self,
        name: Seq<char>,
        theme: Theme,
        true_color: bool,
        document: Result<Doc, FlavorError>,
    ) -> Result<IconsModel, FlavorError> {
        if name == default_name() {
            Ok(styled(self.builtin_flavor(), theme, true_color).named(name))
        } else {
            match document {
                Err(e) => Err(e),
                Ok(doc) => Ok(
                    styled(icons_or(doc, self.builtin_flavor()), theme, true_color).named(name),
                ),
            }
        }
    }

    /// The first step of loading `name`: none for `default`, which needs no
    /// file, else the start of the resolution of `name`.
    pub fn begin(&self, name: &str) -> (step: Option<Step>)
        ensures
            step is None <==> name@ == default_name(),
            step matches Some(s) ==> s.model() == (StepModel::Load {
                base: name@,
                pending: Seq::empty(),
                name: name@,
                only_default_dir: false,
            }),
    {
        if name.to_owned() == "default".to_owned() {
            None
        } else {
            Some(load_flavor(name, name, false))
        }
    }

    /// Loads the flavor `name` from the document that its resolution gave.
    ///
    /// The built-in flavor always loads. Every diagnostic icon of a loaded
    /// flavor has a style, and where colors cannot be shown no icon bears a
    /// style that a document set.
    pub fn load(
        &self,
        name: &str,
        theme: &Theme,
        true_color: bool,
        document: Result<Node, FlavorError>,
    ) -> (icons: Result<Icons, FlavorError>)
        ensures
            self.loaded(
                name@,
                *theme,
                true_color,
                match document {
                    Ok(v) => Ok(v@),
                    Err(e) => Err(e),
                },
            ) == match icons {
                Ok(flavor) => Ok::<IconsModel, FlavorError>(flavor@),
                Err(e) => Err(e),
            },
            name@ == default_name() ==> icons is Ok,
            icons matches Ok(flavor) ==> {
                &&& flavor@.name == name@
                &&& flavor@.diagnostic.error.style is Some
                &&& flavor@.diagnostic.warning.style is Some
                &&& flavor@.diagnostic.info.style is Some
                &&& flavor@.diagnostic.hint.style is Some
                &&& !true_color ==> flavor@.no_custom_style()
            },
    {
        let mut icons = if name.to_owned() == "default".to_owned() {
            self.default_icons.duplicate()
        } else {
            match document {
                Ok(value) => icons_from_value_or(&value, &self.default_icons),
                Err(e) => {
                    return Err(e);
                },
            }
        };
        // Without true color every style goes, the theme's too: nothing is
        // gained by setting them first.
        if !true_color {
            icons.reset_styles();
        } else {
            icons.set_diagnostic_icons_base_style(theme);
        }
        icons.name = name.to_owned();
        Ok(icons)
    }

    /// The names of the flavors that the files of the two directories
    /// offer, each once.
    pub fn names(&self, user_files: &Vec<String>, default_files: &Vec<String>) -> (names: Vec<
        String,
    >)
        ensures
            texts(names@) == union_of(
                toml_stems(texts(user_files@)),
                toml_stems(texts(default_files@)),
            ),
    {
        let user = toml_names_in_dir(user_files);
        let default = toml_names_in_dir(default_files);
        union_names(&user, &default)
    }

    /// The built-in flavor with the theme's styles. It is named `default`,
    /// and each of its diagnostic icons has a style.
    pub fn default(&self, theme: &Theme) -> (icons: Icons)
        ensures
            icons@ == self.builtin_flavor().with_theme(*theme),
            icons@.name == default_name(),
            icons@.diagnostic.error.style is Some,
            icons@.diagnostic.warning.style is Some,
            icons@.diagnostic.info.style is Some,
            icons@.diagnostic.hint.style is Some,
    {
        proof {
            use_type_invariant(self);
        }
        let mut icons = self.default_icons.duplicate();
        icons.set_diagnostic_icons_base_style(theme);
        icons
    }
}

impl FlavorLoader<Icons> for Loader {
    closed spec fn user_dir_text(&self) -> Seq<char> {
        self.user_dir@
    }

    closed spec fn default_dir_text(&self) -> Seq<char> {
        self.default_dir@
    }

    open spec fn merged(&self, parent: Doc, child: Doc) -> Doc {
        merge_docs(parent, child, 3)
    }

    open spec fn builtin(&self, name: Seq<char>) -> Option<Doc> {
        if name == default_name() {
            Some(self.builtin_doc())
        } else {
            None
        }
    }

    fn user_dir(&self) -> (dir: &str) {
        self.user_dir.as_str()
    }

    fn default_dir(&self) -> (dir: &str) {
        self.default_dir.as_str()
    }

    fn log_type_display(&self) -> (display: String)
        ensures
            display@ == "Icons"@,
    {
        "Icons".to_owned()
    }

    fn merge_flavors(&self, parent_flavor: Node, flavor: Node) -> (merged: Node) {
        merge_toml_values(parent_flavor, flavor, FLAVOR_MERGE_DEPTH)
    }

    fn default_data(&self, name: &str) -> (data: Option<Node>) {
        if name.to_owned() == "default".to_owned() {
            Some(self.default_doc.duplicate())
        } else {
            None
        }
    }
}

/// Where colors cannot be shown, no icon of a loaded flavor bears a style that
/// a document set, whatever the flavor, the theme and the documents.
pub proof fn law_no_color_without_true_color(
    loader: Loader,
    name: Seq<char>,
    theme: Theme,
    document: Result<Doc, FlavorError>,
)
    ensures
        loader.loaded(name, theme, false, document) matches Ok(flavor)
            ==> flavor.no_custom_style(),
{
}

/// The flavor that was asked for first wins over every ancestor: what its
/// document holds at a path of table keys, where that is neither a table nor
/// an array, the resolved document holds at that path, whatever the
/// documents read after it hold there.
pub proof fn law_requested_flavor_wins(
    loader: Loader,
    pending: Seq<Doc>,
    resolved: Doc,
    path: Seq<Seq<char>>,
    value: Doc,
)
    requires
        pending.len() > 0,
        pending[0].wf(),
        pending[0].at_path(path) == Some(value),
        is_leaf(value),
    ensures
        settle::<Icons, Loader>(loader, pending, resolved).at_path(path) == Some(value),
    decreases pending.len(),
{
    let next = loader.merged(resolved, pending.last());
    if pending.len() == 1 {
        law_right_wins_at_path(resolved, pending[0], 3, path, value);
        assert(settle::<Icons, Loader>(loader, pending.drop_last(), next) == next);
    } else {
        assert(pending.drop_last()[0] == pending[0]);
        law_requested_flavor_wins(loader, pending.drop_last(), next, path, value);
    }
}

/// Where colors can be shown, a diagnostic icon whose style a document set
/// keeps that style in the loaded flavor, and every other diagnostic icon
/// bears exactly the theme's style for its severity.
pub proof fn law_theme_fills_unset_diagnostics(flavor: IconsModel, theme: Theme)
    ensures
        ({
            let shown = styled(flavor, theme, true);
            &&& shown.diagnostic.error.style == themed(
                flavor.diagnostic.error.style,
                theme.style_of("error"@),
            )
            &&& shown.diagnostic.warning.style == themed(
                flavor.diagnostic.warning.style,
                theme.style_of("warning"@),
            )
            &&& shown.diagnostic.info.style == themed(
                flavor.diagnostic.info.style,
                theme.style_of("info"@),
            )
            &&& shown.diagnostic.hint.style == themed(
                flavor.diagnostic.hint.style,
                theme.style_of("hint"@),
            )
            &&& shown.mime_type == flavor.mime_type
            &&& shown.symbol_kind == flavor.symbol_kind
        }),
{
}

} // verus!

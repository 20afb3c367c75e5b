use icon_flavor::convert::{
    color_warnings, hex_string_to_rgb, icon_color_to_style, icon_from_value, icons_from_value,
    icons_from_value_or,
};
use icon_flavor::icons::{Diagnostic, Icon, Icons, NamedIcon};
use icon_flavor::parse::parse_document;
use icon_flavor::style::{Color, IconStyle, Style, Theme, ThemeEntry};

const FLAVOR: &str = r##"
name = "sample"

[diagnostic]
error = { icon = "E", color = "#ff0000" }
warning = { icon = "W" }
info = { icon = "I", color = "" }
hint = { icon = "H", color = "nonsense" }

[mime-type]
rs = { icon = "R", color = "#dea584" }
Makefile = { icon = "M" }

[symbol-kind]
file = { icon = "F" }
"##;

fn red() -> Style {
    Style { fg: Some(Color::Rgb(255, 0, 0)), bg: None }
}

fn sample_theme() -> Theme {
    Theme {
        styles: vec![
            ThemeEntry { scope: "error".to_string(), style: Style { fg: Some(Color::Indexed(1)), bg: None } },
            ThemeEntry { scope: "warning".to_string(), style: Style { fg: Some(Color::Indexed(3)), bg: None } },
            ThemeEntry { scope: "info".to_string(), style: Style { fg: Some(Color::Indexed(4)), bg: Some(Color::Reset) } },
            ThemeEntry { scope: "error".to_string(), style: Style { fg: Some(Color::Indexed(9)), bg: None } },
        ],
    }
}

fn sample_icons() -> Icons {
    icons_from_value(&parse_document(FLAVOR).unwrap()).unwrap()
}

fn plain_icon(c: char) -> Icon {
    Icon { icon_char: c, style: None }
}

#[test]
fn hex_literal_gives_its_color() {
    assert_eq!(hex_string_to_rgb("#ff0000"), Ok(Color::Rgb(255, 0, 0)));
    assert_eq!(hex_string_to_rgb("#000000"), Ok(Color::Rgb(0, 0, 0)));
    assert_eq!(hex_string_to_rgb("#FFaa09"), Ok(Color::Rgb(255, 170, 9)));
    assert_eq!(hex_string_to_rgb("#1a2B3c"), Ok(Color::Rgb(26, 43, 60)));
}

#[test]
fn malformed_hex_literal_gives_the_message() {
    assert_eq!(
        hex_string_to_rgb(""),
        Err("Icon color: malformed hexcode: ".to_string())
    );
    assert_eq!(
        hex_string_to_rgb("#ggg000"),
        Err("Icon color: malformed hexcode: #ggg000".to_string())
    );
    assert!(hex_string_to_rgb("#ff00").is_err());
    assert!(hex_string_to_rgb("ff0000f").is_err());
    assert!(hex_string_to_rgb("#ff0000ff").is_err());
    assert!(hex_string_to_rgb("#+f+f+f").is_err());
    assert!(hex_string_to_rgb("#ff00é0").is_err());
}

#[test]
fn color_literal_becomes_custom_style() {
    assert_eq!(icon_color_to_style("#ff0000"), Some(IconStyle::Custom(red())));
    assert_eq!(icon_color_to_style(""), None);
    assert_eq!(icon_color_to_style("red"), None);
}

#[test]
fn style_of_icon_style_is_its_style() {
    assert_eq!(Style::from(IconStyle::Custom(red())), red());
    assert_eq!(Style::from(IconStyle::Default(red())), red());
    assert_eq!(IconStyle::default(), IconStyle::Default(Style { fg: None, bg: None }));
    assert_eq!(Style::default(), Style { fg: None, bg: None });
}

#[test]
fn theme_get_takes_first_entry_or_plain() {
    let theme = sample_theme();
    assert_eq!(theme.get("error"), Style { fg: Some(Color::Indexed(1)), bg: None });
    assert_eq!(theme.get("info"), Style { fg: Some(Color::Indexed(4)), bg: Some(Color::Reset) });
    assert_eq!(theme.get("hint"), Style::default());
}

#[test]
fn custom_style_survives_theme() {
    let mut icon = Icon { icon_char: 'E', style: Some(IconStyle::Custom(red())) };
    icon.with_default_style(Style { fg: Some(Color::Indexed(7)), bg: None });
    assert_eq!(icon, Icon { icon_char: 'E', style: Some(IconStyle::Custom(red())) });
}

#[test]
fn missing_style_takes_theme_style() {
    let offered = Style { fg: Some(Color::Indexed(7)), bg: None };
    let mut icon = plain_icon('W');
    icon.with_default_style(offered);
    assert_eq!(icon, Icon { icon_char: 'W', style: Some(IconStyle::Default(offered)) });
    icon.with_default_style(red());
    assert_eq!(icon, Icon { icon_char: 'W', style: Some(IconStyle::Default(red())) });
}

#[test]
fn document_converts_to_icons() {
    let icons = sample_icons();
    assert_eq!(icons.name(), "sample");
    assert_eq!(
        icons.diagnostic,
        Diagnostic {
            error: Icon { icon_char: 'E', style: Some(IconStyle::Custom(red())) },
            warning: plain_icon('W'),
            info: plain_icon('I'),
            hint: plain_icon('H'),
        }
    );
    assert_eq!(
        icons.mime_type,
        Some(vec![
            NamedIcon { key: "Makefile".to_string(), icon: plain_icon('M') },
            NamedIcon {
                key: "rs".to_string(),
                icon: Icon {
                    icon_char: 'R',
                    style: Some(IconStyle::Custom(Style {
                        fg: Some(Color::Rgb(0xde, 0xa5, 0x84)),
                        bg: None
                    })),
                },
            },
        ])
    );
    assert_eq!(
        icons.symbol_kind,
        Some(vec![NamedIcon { key: "file".to_string(), icon: plain_icon('F') }])
    );
}

#[test]
fn inherits_key_is_passed_over() {
    let doc = parse_document(
        "inherits = \"default\"\n[diagnostic]\nerror = { icon = \"E\" }\nwarning = { icon = \"W\" }\ninfo = { icon = \"I\" }\nhint = { icon = \"H\" }\n",
    )
    .unwrap();
    let icons = icons_from_value(&doc).unwrap();
    assert_eq!(icons.name(), "");
    assert_eq!(icons.mime_type, None);
    assert_eq!(icons.symbol_kind, None);
    assert_eq!(icons.diagnostic.hint, plain_icon('H'));
}

#[test]
fn documents_outside_the_schema_are_refused() {
    let unknown_key = parse_document(&format!("{}\n[extra]\nx = 1\n", FLAVOR)).unwrap();
    assert_eq!(icons_from_value(&unknown_key), None);
    let missing_severity = parse_document(
        "[diagnostic]\nerror = { icon = \"E\" }\nwarning = { icon = \"W\" }\ninfo = { icon = \"I\" }\n",
    )
    .unwrap();
    assert_eq!(icons_from_value(&missing_severity), None);
    assert_eq!(icons_from_value(&parse_document("").unwrap()), None);
    let long_glyph = parse_document("icon = \"ab\"").unwrap();
    assert_eq!(icon_from_value(&long_glyph), None);
    let no_glyph = parse_document("color = \"#ff0000\"").unwrap();
    assert_eq!(icon_from_value(&no_glyph), None);
    let color_number = parse_document("icon = \"a\"\ncolor = 3").unwrap();
    assert_eq!(icon_from_value(&color_number), None);
    let extra_field = parse_document("icon = \"a\"\nbold = true").unwrap();
    assert_eq!(icon_from_value(&extra_field), None);
    let fine = parse_document("icon = \"a\"\ncolor = \"#ff0000\"").unwrap();
    assert_eq!(
        icon_from_value(&fine),
        Some(Icon { icon_char: 'a', style: Some(IconStyle::Custom(red())) })
    );
}

#[test]
fn fallback_stands_in_for_a_refused_document() {
    let fallback = sample_icons();
    let broken = parse_document("nothing = 1").unwrap();
    assert_eq!(icons_from_value_or(&broken, &fallback), fallback);
    let fine = parse_document(
        "[diagnostic]\nerror = { icon = \"e\" }\nwarning = { icon = \"w\" }\ninfo = { icon = \"i\" }\nhint = { icon = \"h\" }\n",
    )
    .unwrap();
    assert_eq!(icons_from_value_or(&fine, &fallback).diagnostic.error, plain_icon('e'));
}

#[test]
fn theme_styles_reach_only_unset_diagnostics() {
    let mut icons = sample_icons();
    let theme = sample_theme();
    icons.set_diagnostic_icons_base_style(&theme);
    assert_eq!(icons.diagnostic.error.style, Some(IconStyle::Custom(red())));
    assert_eq!(
        icons.diagnostic.warning.style,
        Some(IconStyle::Default(Style { fg: Some(Color::Indexed(3)), bg: None }))
    );
    assert_eq!(
        icons.diagnostic.info.style,
        Some(IconStyle::Default(Style { fg: Some(Color::Indexed(4)), bg: Some(Color::Reset) }))
    );
    assert_eq!(icons.diagnostic.hint.style, Some(IconStyle::Default(Style::default())));
    assert_eq!(icons.mime_type, sample_icons().mime_type);
    assert_eq!(icons.symbol_kind, sample_icons().symbol_kind);
}

#[test]
fn reset_styles_leaves_no_custom_style() {
    let mut icons = sample_icons();
    icons.reset_styles();
    let colorless = Some(IconStyle::Default(Style::default()));
    assert_eq!(icons.diagnostic.error, Icon { icon_char: 'E', style: colorless });
    assert_eq!(icons.diagnostic.warning, Icon { icon_char: 'W', style: colorless });
    assert_eq!(icons.diagnostic.info, Icon { icon_char: 'I', style: colorless });
    assert_eq!(icons.diagnostic.hint, Icon { icon_char: 'H', style: colorless });
    for entry in icons.mime_type.as_ref().unwrap() {
        assert_eq!(entry.icon.style, colorless);
    }
    for entry in icons.symbol_kind.as_ref().unwrap() {
        assert_eq!(entry.icon.style, colorless);
    }
    assert_eq!(icons.mime_type.as_ref().unwrap()[1].key, "rs");
    assert_eq!(icons.mime_type.as_ref().unwrap()[1].icon.icon_char, 'R');
    assert_eq!(icons.name(), "sample");
}

#[test]
fn icon_lookup_by_filetype() {
    let icons = sample_icons();
    assert_eq!(icons.icon_from_filetype("rs").map(|i| i.icon_char), Some('R'));
    assert_eq!(icons.icon_from_filetype("py"), None);
    let mut bare = sample_icons();
    bare.mime_type = None;
    assert_eq!(bare.icon_from_filetype("rs"), None);
}

#[test]
fn icon_lookup_by_key_falls_back_to_file() {
    let icons = sample_icons();
    assert_eq!(icons.icon_from_key(Some("rs")).map(|i| i.icon_char), Some('R'));
    assert_eq!(icons.icon_from_key(Some("py")).map(|i| i.icon_char), Some('F'));
    assert_eq!(icons.icon_from_key(None), None);
    let mut no_kinds = sample_icons();
    no_kinds.symbol_kind = None;
    assert_eq!(no_kinds.icon_from_key(Some("py")), None);
    let mut no_types = sample_icons();
    no_types.mime_type = None;
    assert_eq!(no_types.icon_from_key(Some("rs")).map(|i| i.icon_char), Some('F'));
    assert_eq!(no_types.icon_from_key(None), None);
    no_types.symbol_kind = None;
    assert_eq!(no_types.icon_from_key(Some("rs")), None);
}

#[test]
fn path_without_file_type_table_gets_the_file_icon() {
    let mut icons = sample_icons();
    icons.mime_type = None;
    assert_eq!(icons.icon_from_path("a.rs"), Some(&plain_icon('F')));
    assert_eq!(icons.icon_from_path("project/Makefile"), Some(&plain_icon('F')));
    assert_eq!(icons.icon_from_filetype("rs"), None);
    assert_eq!(icons.icon_from_path(".."), None);
}

#[test]
fn color_literals_without_color_give_messages() {
    let doc = parse_document(FLAVOR).unwrap();
    assert_eq!(
        color_warnings(&doc),
        vec![
            "Icon color: malformed hexcode: nonsense".to_string(),
            "Icon color: malformed hexcode: ".to_string(),
        ]
    );
    let more = parse_document(
        "[mime-type]\na = { icon = \"a\", color = \"#12345\" }\nb = { icon = \"b\", color = 3 }\n[symbol-kind]\nfile = { icon = \"f\", color = \"blue\" }\nfunc = { icon = \"g\", color = \"#00ff00\" }\n",
    )
    .unwrap();
    assert_eq!(
        color_warnings(&more),
        vec![
            "Icon color: malformed hexcode: #12345".to_string(),
            "Icon color: malformed hexcode: blue".to_string(),
        ]
    );
    assert_eq!(color_warnings(&parse_document("x = 1").unwrap()), Vec::<String>::new());
}

#[test]
fn icon_lookup_by_path() {
    let icons = sample_icons();
    assert_eq!(icons.icon_from_path("src/main.rs").map(|i| i.icon_char), Some('R'));
    assert_eq!(icons.icon_from_path("project/Makefile").map(|i| i.icon_char), Some('M'));
    assert_eq!(icons.icon_from_path("notes.txt").map(|i| i.icon_char), Some('F'));
    assert_eq!(icons.icon_from_path("/"), None);
    assert_eq!(icons.icon_from_path("rs").map(|i| i.icon_char), Some('R'));
}

#[test]
fn duplicate_flavor_is_equal() {
    let icons = sample_icons();
    assert_eq!(icons.duplicate(), icons);
}

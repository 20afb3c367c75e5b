//! From a merged document to the typed flavor: the strict schema of a flavor
//! document and the reading of color literals.

use vstd::prelude::*;
use vstd::string::StringExecFns;
use crate::icons::{Icon, Icons, IconsModel, Diagnostic, NamedIcon, table_of, distinct_icon_keys};
use crate::style::{Color, Style, IconStyle};
use crate::value::{Node, Entry, Doc, pairs_of, lemma_table_view, lemma_member_wf};
use crate::names::{texts, is_one_of};

verus! {

/// The value of a hexadecimal digit.
pub open spec fn hex_value(c: char) -> Option<u8> {
    if '0' <= c && c <= '9' {
        Some((c as u32 - 48) as u8)
    } else if 'a' <= c && c <= 'f' {
        Some((c as u32 - 87) as u8)
    } else if 'A' <= c && c <= 'F' {
        Some((c as u32 - 55) as u8)
    } else {
        None
    }
}

/// The byte that two hexadecimal digits write.
pub open spec fn hex_byte(high: char, low: char) -> Option<u8> {
    match (hex_value(high), hex_value(low)) {
        (Some(h), Some(l)) => Some((h * 16 + l) as u8),
        _ => None,
    }
}

/// The color that a literal writes: `#` and six hexadecimal digits, two each
/// for red, green and blue. Any other text writes none.
pub open spec fn hex_color(s: Seq<char>) -> Option<Color> {
    if s.len() == 7 && s[0] == '#' {
        match (hex_byte(s[1], s[2]), hex_byte(s[3], s[4]), hex_byte(s[5], s[6])) {
            (Some(r), Some(g), Some(b)) => Some(Color::Rgb(r, g, b)),
            _ => None,
        }
    } else {
        None
    }
}

/// The start of the message for a literal that writes no color.
pub open spec fn malformed_prefix() -> Seq<char> {
    "Icon color: malformed hexcode: "@
}

fn hex_digit(c: char) -> (value: Option<u8>)
    ensures
        value == hex_value(c),
        value matches Some(v) ==> v < 16,
{
    if '0' <= c && c <= '9' {
        Some((c as u32 - 48) as u8)
    } else if 'a' <= c && c <= 'f' {
        Some((c as u32 - 87) as u8)
    } else if 'A' <= c && c <= 'F' {
        Some((c as u32 - 55) as u8)
    } else {
        None
    }
}

fn hex_pair(high: char, low: char) -> (value: Option<u8>)
    ensures
        value == hex_byte(high, low),
{
    match (hex_digit(high), hex_digit(low)) {
        (Some(h), Some(l)) => Some(h * 16 + l),
        _ => None,
    }
}

/// Reads a `#RRGGBB` literal. Any other text gives the message that names it.
pub fn hex_string_to_rgb(s: &str) -> (color: Result<Color, String>)
    ensures
        match color {
            Ok(c) => hex_color(s@) == Some(c),
            Err(message) => hex_color(s@) is None && message@ == malformed_prefix() + s@,
        },
{
    if s.unicode_len() == 7 && s.get_char(0) == '#' {
        let red = hex_pair(s.get_char(1), s.get_char(2));
        let green = hex_pair(s.get_char(3), s.get_char(4));
        let blue = hex_pair(s.get_char(5), s.get_char(6));
        match (red, green, blue) {
            (Some(r), Some(g), Some(b)) => {
                return Ok(Color::Rgb(r, g, b));
            },
            _ => {},
        }
    }
    Err(String::from_str("Icon color: malformed hexcode: ").concat(s))
}

/// The style that a color literal gives an icon: the color as foreground,
/// marked as set by the document; none where the literal writes no color.
pub open spec fn style_of_literal(s: Seq<char>) -> Option<IconStyle> {
    match hex_color(s) {
        Some(c) => Some(IconStyle::Custom(Style { fg: Some(c), bg: None })),
        None => None,
    }
}

/// The style that a color literal gives an icon.
pub fn icon_color_to_style(s: &str) -> (style: Option<IconStyle>)
    ensures
        style == style_of_literal(s@),
{
    match hex_string_to_rgb(s) {
        Ok(c) => Some(IconStyle::Custom(Style::default().fg(c))),
        Err(_) => None,
    }
}

/// Whether every key of a table is one of `allowed`.
pub open spec fn known_keys(pairs: Seq<(Seq<char>, Doc)>, allowed: Seq<Seq<char>>) -> bool {
    forall|i: int| 0 <= i < pairs.len() ==> allowed.contains(#[trigger] pairs[i].0)
}

/// The keys of an icon entry.
pub open spec fn icon_fields() -> Seq<Seq<char>> {
    seq!["icon"@, "color"@]
}

/// The keys of the diagnostic table.
pub open spec fn severity_fields() -> Seq<Seq<char>> {
    seq!["error"@, "warning"@, "info"@, "hint"@]
}

/// The keys of a flavor document.
pub open spec fn flavor_fields() -> Seq<Seq<char>> {
    seq!["name"@, "inherits"@, "mime-type"@, "diagnostic"@, "symbol-kind"@]
}

/// The glyph of an icon entry: its `icon` must be a string of one character.
pub open spec fn glyph_of(member: Option<Doc>) -> Option<char> {
    match member {
        Some(Doc::String(s)) => if s.len() == 1 {
            Some(s[0])
        } else {
            None
        },
        _ => None,
    }
}

/// The style of an icon entry: none without a `color`, what the literal
/// gives with one. A `color` that is no string does not fit the schema.
pub open spec fn color_style_of(member: Option<Doc>) -> Option<Option<IconStyle>> {
    match member {
        None => Some(None),
        Some(Doc::String(s)) => Some(style_of_literal(s)),
        Some(_) => None,
    }
}

/// The icon that an entry describes, where it fits the schema.
pub open spec fn icon_of(d: Doc) -> Option<Icon> {
    match d {
        Doc::Table(pairs) => if known_keys(pairs, icon_fields()) {
            match (glyph_of(d.member("icon"@)), color_style_of(d.member("color"@))) {
                (Some(c), Some(style)) => Some(Icon { icon_char: c, style }),
                _ => None,
            }
        } else {
            None
        },
        _ => None,
    }
}

/// The icons that a table of entries describes, in its order, where every
/// entry fits the schema.
pub open spec fn icon_table_of(d: Doc) -> Option<Seq<(Seq<char>, Icon)>> {
    match d {
        Doc::Table(pairs) => if forall|i: int|
            0 <= i < pairs.len() ==> (#[trigger] icon_of(pairs[i].1)) is Some {
            Some(Seq::new(pairs.len(), |i: int| (pairs[i].0, icon_of(pairs[i].1)->0)))
        } else {
            None
        },
        _ => None,
    }
}

/// A table that may be left out.
pub open spec fn optional_table(member: Option<Doc>) -> Option<Option<Seq<(Seq<char>, Icon)>>> {
    match member {
        None => Some(None),
        Some(t) => match icon_table_of(t) {
            Some(table) => Some(Some(table)),
            None => None,
        },
    }
}

/// The icon under a key that must be there.
pub open spec fn member_icon(d: Doc, key: Seq<char>) -> Option<Icon> {
    match d.member(key) {
        Some(m) => icon_of(m),
        None => None,
    }
}

/// The diagnostic icons that a table describes: all four severities and
/// nothing else.
pub open spec fn diagnostic_of(d: Doc) -> Option<Diagnostic> {
    match d {
        Doc::Table(pairs) => if known_keys(pairs, severity_fields()) {
            match (
                member_icon(d, "error"@),
                member_icon(d, "warning"@),
                member_icon(d, "info"@),
                member_icon(d, "hint"@),
            ) {
                (Some(error), Some(warning), Some(info), Some(hint)) => Some(
                    Diagnostic { error, warning, info, hint },
                ),
                _ => None,
            }
        } else {
            None
        },
        _ => None,
    }
}

/// The name that a document gives itself: empty where it gives none.
pub open spec fn name_field(member: Option<Doc>) -> Option<Seq<char>> {
    match member {
        None => Some(Seq::empty()),
        Some(Doc::String(s)) => Some(s),
        Some(_) => None,
    }
}

/// The diagnostic table of a document, which must be there.
pub open spec fn member_diagnostic(d: Doc) -> Option<Diagnostic> {
    match d.member("diagnostic"@) {
        Some(m) => diagnostic_of(m),
        None => None,
    }
}

/// The flavor that a document describes, where it fits the schema: a table
/// with the diagnostic icons, optionally a name and the two icon tables, and
/// no other key but `inherits`, which is passed over.
pub open spec fn icons_of(d: Doc) -> Option<IconsModel> {
    match d {
        Doc::Table(pairs) => if known_keys(pairs, flavor_fields()) {
            match (
                name_field(d.member("name"@)),
                optional_table(d.member("mime-type"@)),
                member_diagnostic(d),
                optional_table(d.member("symbol-kind"@)),
            ) {
                (Some(name), Some(mime_type), Some(diagnostic), Some(symbol_kind)) => Some(
                    IconsModel { name, mime_type, diagnostic, symbol_kind },
                ),
                _ => None,
            }
        } else {
            None
        },
        _ => None,
    }
}

fn only_keys(entries: &Vec<Entry>, allowed: &Vec<String>) -> (all: bool)
    ensures
        all == known_keys(pairs_of(entries@), texts(allowed@)),
{
    let mut i: usize = 0;
    while i < entries.len()
        invariant
            i <= entries.len(),
            forall|j: int|
                0 <= j < i ==> texts(allowed@).contains(#[trigger] pairs_of(entries@)[j].0),
        decreases entries.len() - i,
    {
        if !is_one_of(&entries[i].key, allowed) {
            assert(pairs_of(entries@)[i as int].0 == entries@[i as int].key@);
            return false;
        }
        i += 1;
    }
    true
}

fn glyph_from(member: Option<&Node>) -> (glyph: Option<char>)
    ensures
        glyph == glyph_of(
            match member {
                Some(v) => Some(v@),
                None => None,
            },
        ),
{
    match member {
        Some(v) => match v.as_str() {
            Some(s) => if s.unicode_len() == 1 {
                Some(s.get_char(0))
            } else {
                None
            },
            None => None,
        },
        None => None,
    }
}

/// Reads one icon entry; `None` where it does not fit the schema.
pub fn icon_from_value(value: &Node) -> (icon: Option<Icon>)
    ensures
        icon == icon_of(value@),
{
    match value {
        Node::Table(entries) => {
            proof {
                lemma_table_view(*entries);
            }
            let mut allowed: Vec<String> = Vec::new();
            allowed.push("icon".to_owned());
            allowed.push("color".to_owned());
            assert(texts(allowed@) =~= icon_fields());
            if !only_keys(entries, &allowed) {
                return None;
            }
            let glyph = match glyph_from(value.get("icon")) {
                Some(c) => c,
                None => {
                    return None;
                },
            };
            match value.get("color") {
                None => Some(Icon { icon_char: glyph, style: None }),
                Some(color) => match color.as_str() {
                    Some(s) => Some(Icon { icon_char: glyph, style: icon_color_to_style(s) }),
                    None => None,
                },
            }
        },
        _ => None,
    }
}

/// Reads a table of icon entries; `None` where one does not fit the schema.
pub fn table_from_value(value: &Node) -> (table: Option<Vec<NamedIcon>>)
    ensures
        icon_table_of(value@) == match table {
            Some(t) => Some(table_of(t@)),
            None => None::<Seq<(Seq<char>, Icon)>>,
        },
        value@.wf() ==> (table matches Some(t) ==> distinct_icon_keys(table_of(t@))),
{
    proof {
        if value@.wf() && icon_table_of(value@) is Some {
            lemma_icon_table_keys(value@);
        }
    }
    match value {
        Node::Table(entries) => {
            proof {
                lemma_table_view(*entries);
            }
            let ghost pairs = pairs_of(entries@);
            let mut out: Vec<NamedIcon> = Vec::new();
            let mut i: usize = 0;
            while i < entries.len()
                invariant
                    i <= entries.len(),
                    out@.len() == i,
                    pairs == pairs_of(entries@),
                    value@ == Doc::Table(pairs),
                    forall|j: int|
                        0 <= j < i ==> (#[trigger] icon_of(pairs[j].1)) == Some(out@[j].icon)
                            && out@[j].key@ == pairs[j].0,
                decreases entries.len() - i,
            {
                match icon_from_value(&entries[i].value) {
                    Some(icon) => {
                        out.push(NamedIcon { key: entries[i].key.clone(), icon });
                    },
                    None => {
                        assert(pairs[i as int].1 == entries@[i as int].value@);
                        assert(icon_of(pairs[i as int].1) is None);
                        return None;
                    },
                }
                i += 1;
            }
            assert(icon_table_of(value@)->0 =~= table_of(out@));
            Some(out)
        },
        _ => None,
    }
}

fn icon_at_key(value: &Node, key: &str) -> (icon: Option<Icon>)
    ensures
        icon == member_icon(value@, key@),
{
    match value.get(key) {
        Some(m) => icon_from_value(m),
        None => None,
    }
}

/// Reads the diagnostic table; `None` where it does not fit the schema.
pub fn diagnostic_from_value(value: &Node) -> (diagnostic: Option<Diagnostic>)
    ensures
        diagnostic == diagnostic_of(value@),
{
    match value {
        Node::Table(entries) => {
            proof {
                lemma_table_view(*entries);
            }
            let mut allowed: Vec<String> = Vec::new();
            allowed.push("error".to_owned());
            allowed.push("warning".to_owned());
            allowed.push("info".to_owned());
            allowed.push("hint".to_owned());
            assert(texts(allowed@) =~= severity_fields());
            if !only_keys(entries, &allowed) {
                return None;
            }
            match (
                icon_at_key(value, "error"),
                icon_at_key(value, "warning"),
                icon_at_key(value, "info"),
                icon_at_key(value, "hint"),
            ) {
                (Some(error), Some(warning), Some(info), Some(hint)) => Some(
                    Diagnostic { error, warning, info, hint },
                ),
                _ => None,
            }
        },
        _ => None,
    }
}

fn optional_table_from(member: Option<&Node>) -> (table: Option<Option<Vec<NamedIcon>>>)
    ensures
        optional_table(
            match member {
                Some(v) => Some(v@),
                None => None,
            },
        ) == match table {
            Some(Some(t)) => Some(Some(table_of(t@))),
            Some(None) => Some(None),
            None => None::<Option<Seq<(Seq<char>, Icon)>>>,
        },
{
    match member {
        None => Some(None),
        Some(v) => match table_from_value(v) {
            Some(t) => Some(Some(t)),
            None => None,
        },
    }
}

/// Reads a flavor document; `None` where it does not fit the schema.
pub fn icons_from_value(value: &Node) -> (icons: Option<Icons>)
    ensures
        icons_of(value@) == match icons {
            Some(flavor) => Some(flavor@),
            None => None::<IconsModel>,
        },
        value@.wf() ==> (icons matches Some(flavor) ==> flavor@.wf()),
{
    proof {
        if value@.wf() && icons_of(value@) is Some {
            law_conversion_keeps_keys_distinct(value@);
        }
    }
    match value {
        Node::Table(entries) => {
            proof {
                lemma_table_view(*entries);
            }
            let mut allowed: Vec<String> = Vec::new();
            allowed.push("name".to_owned());
            allowed.push("inherits".to_owned());
            allowed.push("mime-type".to_owned());
            allowed.push("diagnostic".to_owned());
            allowed.push("symbol-kind".to_owned());
            assert(texts(allowed@) =~= flavor_fields());
            if !only_keys(entries, &allowed) {
                return None;
            }
            let name = match value.get("name") {
                None => String::new(),
                Some(v) => match v.as_str() {
                    Some(s) => s.to_owned(),
                    None => {
                        return None;
                    },
                },
            };
            let mime_type = match optional_table_from(value.get("mime-type")) {
                Some(t) => t,
                None => {
                    return None;
                },
            };
            let diagnostic = match value.get("diagnostic") {
                Some(d) => match diagnostic_from_value(d) {
                    Some(diagnostic) => diagnostic,
                    None => {
                        return None;
                    },
                },
                None => {
                    return None;
                },
            };
            let symbol_kind = match optional_table_from(value.get("symbol-kind")) {
                Some(t) => t,
                None => {
                    return None;
                },
            };
            Some(Icons { name, mime_type, diagnostic, symbol_kind })
        },
        _ => None,
    }
}

/// A table of icons has the keys of the table that describes it: where that
/// one holds no key twice, neither does the table of icons.
pub proof fn lemma_icon_table_keys(d: Doc)
    requires
        d.wf(),
        icon_table_of(d) is Some,
    ensures
        distinct_icon_keys(icon_table_of(d)->0),
{
    let table = icon_table_of(d)->0;
    let pairs = d->Table_0;
    assert forall|i: int, j: int| 0 <= i < j < table.len() implies table[i].0 != table[j].0 by {
        assert(table[i].0 == pairs[i].0);
        assert(table[j].0 == pairs[j].0);
    }
}

/// The flavor that a document without repeated keys describes holds no key
/// twice in either of its tables.
pub proof fn law_conversion_keeps_keys_distinct(d: Doc)
    requires
        d.wf(),
        icons_of(d) is Some,
    ensures
        icons_of(d)->0.wf(),
{
    lemma_member_wf(d, "mime-type"@);
    lemma_member_wf(d, "symbol-kind"@);
    match d.member("mime-type"@) {
        Some(t) => {
            lemma_icon_table_keys(t);
        },
        None => {},
    }
    match d.member("symbol-kind"@) {
        Some(t) => {
            lemma_icon_table_keys(t);
        },
        None => {},
    }
}

/// The message for a color literal that writes no color; nothing for one
/// that writes a color, and nothing where `color` is absent or no string.
pub open spec fn literal_messages(member: Option<Doc>) -> Seq<Seq<char>> {
    match member {
        Some(Doc::String(s)) => if hex_color(s) is None {
            seq![malformed_prefix() + s]
        } else {
            Seq::empty()
        },
        _ => Seq::empty(),
    }
}

/// The messages for the color literals of a run of icon entries, in order.
pub open spec fn pairs_messages(pairs: Seq<(Seq<char>, Doc)>) -> Seq<Seq<char>>
    decreases pairs.len(),
{
    if pairs.len() == 0 {
        Seq::empty()
    } else {
        pairs_messages(pairs.drop_last()) + literal_messages(pairs.last().1.member("color"@))
    }
}

/// The messages for the color literals of one table of a document.
pub open spec fn table_messages(member: Option<Doc>) -> Seq<Seq<char>> {
    match member {
        Some(Doc::Table(pairs)) => pairs_messages(pairs),
        _ => Seq::empty(),
    }
}

/// The messages for the color literals of a flavor document that write no
/// color: those of the file types, then of the diagnostics, then of the
/// symbol kinds, each table in its order.
pub open spec fn color_messages(d: Doc) -> Seq<Seq<char>> {
    table_messages(d.member("mime-type"@)) + table_messages(d.member("diagnostic"@))
        + table_messages(d.member("symbol-kind"@))
}

fn push_table_warnings(out: &mut Vec<String>, member: Option<&Node>)
    ensures
        texts(final(out)@) == texts(old(out)@) + table_messages(
            match member {
                Some(v) => Some(v@),
                None => None,
            },
        ),
{
    let ghost start = texts(out@);
    assert(start + Seq::<Seq<char>>::empty() =~= start);
    match member {
        Some(Node::Table(entries)) => {
            proof {
                lemma_table_view(*entries);
            }
            let ghost pairs = pairs_of(entries@);
            let mut i: usize = 0;
            assert(pairs.take(0) =~= Seq::empty());
            while i < entries.len()
                invariant
                    i <= entries.len(),
                    pairs == pairs_of(entries@),
                    texts(out@) == start + pairs_messages(pairs.take(i as int)),
                decreases entries.len() - i,
            {
                let ghost before = texts(out@);
                let ghost sofar = pairs_messages(pairs.take(i as int));
                proof {
                    let upto = pairs.take(i + 1);
                    assert(upto.drop_last() =~= pairs.take(i as int));
                    assert(upto.last().1 == entries@[i as int].value@);
                }
                let ghost added = literal_messages(entries@[i as int].value@.member("color"@));
                match entries[i].value.get("color") {
                    Some(color) => match color.as_str() {
                        Some(literal) => match hex_string_to_rgb(literal) {
                            Ok(_) => {},
                            Err(message) => {
                                out.push(message);
                                assert(texts(out@) =~= before + seq![message@]);
                            },
                        },
                        None => {},
                    },
                    None => {},
                }
                assert(texts(out@) =~= before + added);
                assert(start + (sofar + added) =~= (start + sofar) + added);
                i += 1;
            }
            assert(pairs.take(entries.len() as int) =~= pairs);
        },
        _ => {},
    }
}

/// The messages for the color literals of a flavor document that write no
/// color. Such a literal fails no load: the icon has no style of its own,
/// and the message is for the log.
pub fn color_warnings(value: &Node) -> (messages: Vec<String>)
    ensures
        texts(messages@) == color_messages(value@),
{
    let mut messages: Vec<String> = Vec::new();
    assert(texts(messages@) =~= Seq::empty());
    push_table_warnings(&mut messages, value.get("mime-type"));
    push_table_warnings(&mut messages, value.get("diagnostic"));
    push_table_warnings(&mut messages, value.get("symbol-kind"));
    assert(texts(messages@) =~= color_messages(value@));
    messages
}

/// The flavor that a document describes, or the fallback where the document
/// does not fit the schema.
pub open spec fn icons_or(d: Doc, fallback: IconsModel) -> IconsModel {
    match icons_of(d) {
        Some(flavor) => flavor,
        None => fallback,
    }
}

/// Reads a flavor document, and hands out a copy of `fallback` where the
/// document does not fit the schema.
pub fn icons_from_value_or(value: &Node, fallback: &Icons) -> (icons: Icons)
    ensures
        icons@ == icons_or(value@, fallback@),
{
    match icons_from_value(value) {
        Some(flavor) => flavor,
        None => fallback.duplicate(),
    }
}

} // verus!

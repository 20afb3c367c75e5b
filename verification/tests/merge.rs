use icon_flavor::merge::merge_toml_values;
use icon_flavor::parse::parse_document;
use icon_flavor::value::{Entry, Node};

const BASE_LANGUAGES: &str = r##"
[[language]]
name = "rust"
comment-token = "//"
indent = { tab-width = 4, unit = "    " }

[[language]]
name = "nix"
comment-token = "#"
indent = { tab-width = 2, unit = "  " }

[[language]]
name = "typescript"
language-server = { command = "typescript-language-server", args = ["--stdio"] }
"##;

fn text(s: &str) -> Node {
    Node::String(s.to_string())
}

fn table(pairs: Vec<(&str, Node)>) -> Node {
    Node::Table(
        pairs
            .into_iter()
            .map(|(key, value)| Entry { key: key.to_string(), value })
            .collect(),
    )
}

fn find_language<'a>(languages: &'a [Node], name: &str) -> &'a Node {
    languages
        .iter()
        .find(|v| v.get("name").unwrap().as_str().unwrap() == name)
        .unwrap()
}

#[test]
fn language_toml_map_merges() {
    const USER: &str = r#"
        [[language]]
        name = "nix"
        test = "bbb"
        indent = { tab-width = 4, unit = "    ", test = "aaa" }
        "#;

    let base = parse_document(BASE_LANGUAGES).expect("Couldn't parse built-in languages config");
    let user = parse_document(USER).unwrap();

    let merged = merge_toml_values(base, user, 3);
    let languages = merged.get("language").unwrap().as_array().unwrap();
    let nix = find_language(languages, "nix");
    let nix_indent = nix.get("indent").unwrap();

    assert_eq!(
        nix_indent.get("tab-width").unwrap().as_integer().unwrap(),
        4
    );
    assert_eq!(nix_indent.get("unit").unwrap().as_str().unwrap(), "    ");
    assert_eq!(nix.get("test").unwrap().as_str().unwrap(), "bbb");
    assert_eq!(nix_indent.get("test").unwrap().as_str().unwrap(), "aaa");
    assert_eq!(nix.get("comment-token").unwrap().as_str().unwrap(), "#");
}

#[test]
fn language_toml_nested_array_merges() {
    const USER: &str = r#"
        [[language]]
        name = "typescript"
        language-server = { command = "deno", args = ["lsp"] }
        "#;

    let base = parse_document(BASE_LANGUAGES).expect("Couldn't parse built-in languages config");
    let user = parse_document(USER).unwrap();

    let merged = merge_toml_values(base, user, 3);
    let languages = merged.get("language").unwrap().as_array().unwrap();
    let ts = find_language(languages, "typescript");
    assert_eq!(
        ts.get("language-server")
            .unwrap()
            .get("args")
            .unwrap()
            .as_array()
            .unwrap(),
        &vec![Node::String("lsp".into())]
    )
}

#[test]
fn merged_languages_keep_their_places() {
    let base = parse_document(BASE_LANGUAGES).unwrap();
    let user = parse_document("[[language]]\nname = \"nix\"\ntest = \"bbb\"\n").unwrap();
    let merged = merge_toml_values(base, user, 3);
    let languages = merged.get("language").unwrap().as_array().unwrap();
    let names: Vec<&str> = languages.iter().map(|l| l.name().unwrap()).collect();
    assert_eq!(names, vec!["rust", "nix", "typescript"]);
}

#[test]
fn table_merge_keeps_every_key() {
    let left = table(vec![
        ("a", Node::Integer(1)),
        ("both", table(vec![("x", Node::Integer(1)), ("y", Node::Integer(2))])),
    ]);
    let right = table(vec![
        ("both", table(vec![("y", Node::Integer(20)), ("z", Node::Integer(30))])),
        ("b", Node::Boolean(true)),
    ]);
    let merged = merge_toml_values(left, right, 2);
    assert_eq!(
        merged,
        table(vec![
            ("a", Node::Integer(1)),
            (
                "both",
                table(vec![
                    ("x", Node::Integer(1)),
                    ("y", Node::Integer(20)),
                    ("z", Node::Integer(30)),
                ])
            ),
            ("b", Node::Boolean(true)),
        ])
    );
}

#[test]
fn table_merge_below_depth_replaces() {
    let left = table(vec![("both", table(vec![("x", Node::Integer(1))]))]);
    let right = table(vec![("both", table(vec![("y", Node::Integer(2))]))]);
    let merged = merge_toml_values(left, right, 1);
    assert_eq!(
        merged,
        table(vec![("both", table(vec![("y", Node::Integer(2))]))])
    );
}

#[test]
fn depth_zero_gives_right_table() {
    let left = table(vec![("a", Node::Integer(1))]);
    let right = table(vec![("b", Node::Integer(2))]);
    assert_eq!(merge_toml_values(left, right.clone(), 0), right);
}

#[test]
fn depth_zero_gives_right_array() {
    let left = Node::Array(vec![table(vec![("name", text("a"))])]);
    let right = Node::Array(vec![table(vec![("name", text("b"))])]);
    assert_eq!(merge_toml_values(left, right.clone(), 0), right);
}

#[test]
fn named_array_merge_right_wins_per_field() {
    let left = Node::Array(vec![table(vec![("name", text("a")), ("x", Node::Integer(1))])]);
    let right = Node::Array(vec![table(vec![
        ("name", text("a")),
        ("x", Node::Integer(2)),
        ("y", Node::Integer(3)),
    ])]);
    let expected = Node::Array(vec![table(vec![
        ("name", text("a")),
        ("x", Node::Integer(2)),
        ("y", Node::Integer(3)),
    ])]);
    assert_eq!(merge_toml_values(left.clone(), right.clone(), 1), right);
    assert_eq!(merge_toml_values(left, right, 2), expected);
}

#[test]
fn unmatched_right_items_are_appended() {
    let left = Node::Array(vec![table(vec![("name", text("a"))])]);
    let right = Node::Array(vec![table(vec![("name", text("b"))])]);
    let expected = Node::Array(vec![
        table(vec![("name", text("a"))]),
        table(vec![("name", text("b"))]),
    ]);
    assert_eq!(merge_toml_values(left, right, 1), expected);
}

#[test]
fn items_without_name_are_appended() {
    let left = Node::Array(vec![Node::Integer(1), table(vec![("x", Node::Integer(1))])]);
    let right = Node::Array(vec![Node::Integer(1), table(vec![("x", Node::Integer(1))])]);
    let expected = Node::Array(vec![
        Node::Integer(1),
        table(vec![("x", Node::Integer(1))]),
        Node::Integer(1),
        table(vec![("x", Node::Integer(1))]),
    ]);
    assert_eq!(merge_toml_values(left, right, 3), expected);
}

#[test]
fn repeated_right_name_merges_onto_the_appended_item() {
    let left = Node::Array(vec![]);
    let right = Node::Array(vec![
        table(vec![("name", text("a")), ("x", Node::Integer(1))]),
        table(vec![("name", text("a")), ("y", Node::Integer(2))]),
    ]);
    let expected = Node::Array(vec![table(vec![
        ("name", text("a")),
        ("x", Node::Integer(1)),
        ("y", Node::Integer(2)),
    ])]);
    assert_eq!(merge_toml_values(left, right, 2), expected);
}

#[test]
fn mismatched_kinds_give_right() {
    let left = table(vec![("a", Node::Integer(1))]);
    let right = Node::Array(vec![Node::Integer(2)]);
    assert_eq!(merge_toml_values(left.clone(), right.clone(), 3), right);
    assert_eq!(merge_toml_values(right, left.clone(), 3), left);
    assert_eq!(
        merge_toml_values(Node::Integer(1), text("s"), 3),
        text("s")
    );
}

#[test]
fn parse_document_reads_every_kind() {
    let parsed = parse_document(
        "s = \"x\"\ni = -3\nb = true\nf = 1.5\nd = 1979-05-27\na = [1, 2]\n[t]\nk = \"v\"\n",
    )
    .unwrap();
    assert_eq!(parsed.get("s"), Some(&text("x")));
    assert_eq!(parsed.get("i"), Some(&Node::Integer(-3)));
    assert_eq!(parsed.get("b"), Some(&Node::Boolean(true)));
    assert_eq!(parsed.get("f"), Some(&Node::Float(1.5f64.to_bits())));
    assert_eq!(parsed.get("d"), Some(&Node::Datetime("1979-05-27".to_string())));
    assert_eq!(
        parsed.get("a"),
        Some(&Node::Array(vec![Node::Integer(1), Node::Integer(2)]))
    );
    assert_eq!(parsed.get("t"), Some(&table(vec![("k", text("v"))])));
    assert_eq!(parsed.get("missing"), None);
}

#[test]
fn parse_document_refuses_invalid_text() {
    assert_eq!(parse_document("a = "), None);
    assert_eq!(parse_document("[unclosed"), None);
    assert_eq!(parse_document(""), Some(Node::Table(vec![])));
}

#[test]
fn duplicate_is_equal() {
    let value = parse_document(BASE_LANGUAGES).unwrap();
    assert_eq!(value.duplicate(), value);
}

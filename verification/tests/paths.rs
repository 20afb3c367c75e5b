use icon_flavor::docs::{gen_typable_cmds, TypableCommand};
use icon_flavor::paths::{
    config_file, find_local_config_dirs, icons_config_file, lang_config_file, local_config_dirs,
    log_file, path_lookup_key, runtime_dir, Ancestor,
};

fn ancestor(path: &str, has_git: bool, has_helix_dir: bool) -> Ancestor {
    Ancestor { path: path.to_string(), has_git, has_helix_dir }
}

fn owned(names: &[&str]) -> Vec<String> {
    names.iter().map(|s| s.to_string()).collect()
}

#[test]
fn config_dirs_stop_at_the_repository() {
    let ancestors = vec![
        ancestor("/a/b/c", false, true),
        ancestor("/a/b", false, false),
        ancestor("/a", true, false),
        ancestor("/", false, true),
    ];
    assert_eq!(find_local_config_dirs(&ancestors), owned(&["/a/b/c", "/a"]));
    assert_eq!(local_config_dirs(&ancestors), owned(&["/a/b/c/.helix", "/a/.helix"]));
}

#[test]
fn config_dirs_without_repository() {
    let ancestors = vec![
        ancestor("/a/b", false, false),
        ancestor("/a", false, true),
        ancestor("/", false, true),
    ];
    assert_eq!(find_local_config_dirs(&ancestors), owned(&["/a", "/"]));
    assert_eq!(find_local_config_dirs(&Vec::new()), Vec::<String>::new());
}

#[test]
fn config_files_are_in_their_directories() {
    assert_eq!(config_file(None, "/cfg/helix"), "/cfg/helix/config.toml");
    assert_eq!(config_file(Some("/tmp/my.toml".to_string()), "/cfg/helix"), "/tmp/my.toml");
    assert_eq!(lang_config_file("/cfg/helix"), "/cfg/helix/languages.toml");
    assert_eq!(icons_config_file("/cfg/helix"), "/cfg/helix/icons.toml");
    assert_eq!(log_file("/cache/helix"), "/cache/helix/helix.log");
}

#[test]
fn runtime_dir_takes_first_candidate() {
    let s = |t: &str| Some(t.to_string());
    assert_eq!(runtime_dir(s("a"), s("b"), s("c"), s("d")), s("a"));
    assert_eq!(runtime_dir(None, s("b"), s("c"), s("d")), s("b"));
    assert_eq!(runtime_dir(None, None, s("c"), s("d")), s("c"));
    assert_eq!(runtime_dir(None, None, None, s("d")), s("d"));
    assert_eq!(runtime_dir(None, None, None, None), None);
}

#[test]
fn lookup_key_is_extension_or_file_name() {
    assert_eq!(path_lookup_key("src/main.rs"), Some("rs".to_string()));
    assert_eq!(path_lookup_key("a/b/Makefile"), Some("Makefile".to_string()));
    assert_eq!(path_lookup_key("a/.gitignore"), Some(".gitignore".to_string()));
    assert_eq!(path_lookup_key("archive.tar.gz"), Some("gz".to_string()));
    assert_eq!(path_lookup_key(".."), None);
}

#[test]
fn typable_commands_table() {
    let commands = vec![
        TypableCommand {
            name: "quit".to_string(),
            aliases: owned(&["q"]),
            doc: "Close the current view.".to_string(),
        },
        TypableCommand {
            name: "theme".to_string(),
            aliases: Vec::new(),
            doc: "Change the editor theme.".to_string(),
        },
        TypableCommand {
            name: "write".to_string(),
            aliases: owned(&["w", "wr"]),
            doc: "Write changes to disk.".to_string(),
        },
    ];
    assert_eq!(
        gen_typable_cmds(&commands),
        "| Name | Description |\n| ---  | ---         |\n| `:quit`, `:q` | Close the current view. |\n| `:theme` | Change the editor theme. |\n| `:write`, `:w`, `:wr` | Write changes to disk. |\n"
    );
    assert_eq!(
        gen_typable_cmds(&Vec::new()),
        "| Name | Description |\n| ---  | ---         |\n"
    );
}

//! Paths as text: the pieces of `std::path` that the library leans on, and
//! the choices among candidate directories.

use vstd::prelude::*;
use crate::names::texts;

verus! {

/// The text of the path that `std::path::Path::join` makes of two paths,
/// as the platform's path syntax has it.
pub uninterp spec fn path_join(base: Seq<char>, part: Seq<char>) -> Seq<char>;

/// The extension of a path, as `std::path::Path::extension` finds it.
pub uninterp spec fn path_extension(path: Seq<char>) -> Option<Seq<char>>;

/// The file name of a path, as `std::path::Path::file_name` finds it.
pub uninterp spec fn path_file_name(path: Seq<char>) -> Option<Seq<char>>;

/// Calls `std::path::Path::join` on the paths that the two texts write and
/// hands back the text of the joined path. Both being valid text, so is the
/// result.
#[verifier::external_body]
pub(crate) fn join_path(base: &str, part: &str) -> (joined: String)
    ensures
        joined@ == path_join(base@, part@),
{
    std::path::Path::new(base).join(part).to_string_lossy().into_owned()
}

/// Calls `std::path::Path::extension` on the path that the text writes.
#[verifier::external_body]
pub(crate) fn extension_of(path: &str) -> (extension: Option<String>)
    ensures
        path_extension(path@) == match extension {
            Some(e) => Some(e@),
            None => None::<Seq<char>>,
        },
{
    std::path::Path::new(path).extension().and_then(|e| e.to_str()).map(|e| e.to_owned())
}

/// Calls `std::path::Path::file_name` on the path that the text writes.
#[verifier::external_body]
pub(crate) fn file_name_of(path: &str) -> (file_name: Option<String>)
    ensures
        path_file_name(path@) == match file_name {
            Some(f) => Some(f@),
            None => None::<Seq<char>>,
        },
{
    std::path::Path::new(path).file_name().and_then(|e| e.to_str()).map(|e| e.to_owned())
}

/// The key under which a file's icon is looked up: the extension of its path
/// if it has one, else its file name.
pub open spec fn lookup_key(path: Seq<char>) -> Option<Seq<char>> {
    match path_extension(path) {
        Some(e) => Some(e),
        None => path_file_name(path),
    }
}

/// The key under which a file's icon is looked up.
pub fn path_lookup_key(path: &str) -> (key: Option<String>)
    ensures
        lookup_key(path@) == match key {
            Some(k) => Some(k@),
            None => None::<Seq<char>>,
        },
{
    match extension_of(path) {
        Some(extension) => Some(extension),
        None => file_name_of(path),
    }
}

/// What is known of one directory on the way from the working directory up
/// to the root.
#[derive(Debug, Clone, PartialEq, Eq)]
pub struct Ancestor {
    pub path: String,
    /// Whether it holds `.git`.
    pub has_git: bool,
    /// Whether it holds a directory `.helix`.
    pub has_helix_dir: bool,
}

/// The directories that may hold a local configuration, nearest first:
/// every ancestor with a `.helix` directory up to the first one with `.git`,
/// which is the last to be taken, with or without `.helix`.
pub open spec fn config_roots(ancestors: Seq<Ancestor>) -> Seq<Seq<char>>
    decreases ancestors.len(),
{
    if ancestors.len() == 0 {
        Seq::empty()
    } else if ancestors[0].has_git {
        seq![ancestors[0].path@]
    } else if ancestors[0].has_helix_dir {
        seq![ancestors[0].path@] + config_roots(ancestors.drop_first())
    } else {
        config_roots(ancestors.drop_first())
    }
}

/// The directories that may hold a local configuration, given the
/// ancestors of the working directory, nearest first.
pub fn find_local_config_dirs(ancestors: &Vec<Ancestor>) -> (directories: Vec<String>)
    ensures
        texts(directories@) == config_roots(ancestors@),
{
    let mut directories: Vec<String> = Vec::new();
    let mut i: usize = 0;
    assert(ancestors@.subrange(0, ancestors@.len() as int) =~= ancestors@);
    while i < ancestors.len()
        invariant
            i <= ancestors.len(),
            texts(directories@) + config_roots(
                ancestors@.subrange(i as int, ancestors@.len() as int),
            ) == config_roots(ancestors@),
        decreases ancestors.len() - i,
    {
        let ghost rest = ancestors@.subrange(i as int, ancestors@.len() as int);
        let ghost before = texts(directories@);
        proof {
            assert(rest.drop_first() =~= ancestors@.subrange(i + 1, ancestors@.len() as int));
            assert(rest[0] == ancestors@[i as int]);
        }
        if ancestors[i].has_git {
            directories.push(ancestors[i].path.clone());
            proof {
                assert(texts(directories@) =~= before + seq![ancestors@[i as int].path@]);
            }
            return directories;
        } else if ancestors[i].has_helix_dir {
            directories.push(ancestors[i].path.clone());
            proof {
                assert(texts(directories@) =~= before + seq![ancestors@[i as int].path@]);
                assert(before + (seq![ancestors@[i as int].path@] + config_roots(
                    rest.drop_first(),
                )) =~= (before + seq![ancestors@[i as int].path@]) + config_roots(
                    rest.drop_first(),
                ));
            }
        }
        i += 1;
    }
    proof {
        assert(texts(directories@) + Seq::<Seq<char>>::empty() =~= texts(
            directories@,
        ));
    }
    directories
}

/// The `.helix` directories of the given directories, in order.
pub open spec fn helix_dirs(roots: Seq<Seq<char>>) -> Seq<Seq<char>> {
    Seq::new(roots.len(), |i: int| path_join(roots[i], ".helix"@))
}

/// The local configuration directories: `.helix` in each directory that
/// [`find_local_config_dirs`] finds.
pub fn local_config_dirs(ancestors: &Vec<Ancestor>) -> (directories: Vec<String>)
    ensures
        texts(directories@) == helix_dirs(config_roots(ancestors@)),
{
    let roots = find_local_config_dirs(ancestors);
    let mut directories: Vec<String> = Vec::new();
    let mut i: usize = 0;
    while i < roots.len()
        invariant
            i <= roots.len(),
            directories@.len() == i,
            forall|j: int|
                0 <= j < i ==> directories@[j]@ == path_join(texts(roots@)[j], ".helix"@),
        decreases roots.len() - i,
    {
        directories.push(join_path(roots[i].as_str(), ".helix"));
        i += 1;
    }
    assert(texts(directories@) =~= helix_dirs(texts(roots@)));
    directories
}

/// The configuration file: the one that was specified, else `config.toml`
/// in the configuration directory.
pub fn config_file(specified: Option<String>, config_dir: &str) -> (file: String)
    ensures
        file@ == match specified {
            Some(path) => path@,
            None => path_join(config_dir@, "config.toml"@),
        },
{
    match specified {
        Some(path) => path,
        None => join_path(config_dir, "config.toml"),
    }
}

/// The language configuration file in the configuration directory.
pub fn lang_config_file(config_dir: &str) -> (file: String)
    ensures
        file@ == path_join(config_dir@, "languages.toml"@),
{
    join_path(config_dir, "languages.toml")
}

/// The log file in the cache directory.
pub fn log_file(cache_dir: &str) -> (file: String)
    ensures
        file@ == path_join(cache_dir@, "helix.log"@),
{
    join_path(cache_dir, "helix.log")
}

/// The icons configuration file in the configuration directory.
pub fn icons_config_file(config_dir: &str) -> (file: String)
    ensures
        file@ == path_join(config_dir@, "icons.toml"@),
{
    join_path(config_dir, "icons.toml")
}

/// The runtime directory: the first of the candidates that is there, in the
/// order of the parameters. `None` where none is.
pub fn runtime_dir(
    from_environment: Option<String>,
    from_manifest: Option<String>,
    in_config_dir: Option<String>,
    beside_executable: Option<String>,
) -> (dir: Option<String>)
    ensures
        dir == if from_environment is Some {
            from_environment
        } else if from_manifest is Some {
            from_manifest
        } else if in_config_dir is Some {
            in_config_dir
        } else {
            beside_executable
        },
{
    if from_environment.is_some() {
        from_environment
    } else if from_manifest.is_some() {
        from_manifest
    } else if in_config_dir.is_some() {
        in_config_dir
    } else {
        beside_executable
    }
}

} // verus!

//! Flavor names: the name that a file stands for, and the list of the names
//! that two directories offer.

use vstd::prelude::*;

verus! {

/// The texts of a run of strings.
pub open spec fn texts(names: Seq<String>) -> Seq<Seq<char>> {
    Seq::new(names.len(), |i: int| names[i]@)
}

/// Whether `key` is one of `allowed`.
pub fn is_one_of(key: &String, allowed: &Vec<String>) -> (found: bool)
    ensures
        found == texts(allowed@).contains(key@),
{
    let mut i: usize = 0;
    while i < allowed.len()
        invariant
            i <= allowed.len(),
            forall|j: int| 0 <= j < i ==> texts(allowed@)[j] != key@,
        decreases allowed.len() - i,
    {
        if allowed[i] == *key {
            assert(texts(allowed@)[i as int] == key@);
            return true;
        }
        i += 1;
    }
    false
}

/// The ending of a flavor file's name.
pub open spec fn toml_suffix() -> Seq<char> {
    ".toml"@
}

/// The flavor name that a file name stands for: what precedes `.toml`, if
/// the file name ends so and something precedes it.
pub open spec fn toml_stem(file: Seq<char>) -> Option<Seq<char>> {
    if file.len() > 5 && file.subrange(file.len() - 5, file.len() as int) == toml_suffix() {
        Some(file.subrange(0, file.len() - 5))
    } else {
        None
    }
}

/// The flavor names that a run of file names stands for, in order.
pub open spec fn toml_stems(files: Seq<Seq<char>>) -> Seq<Seq<char>>
    decreases files.len(),
{
    if files.len() == 0 {
        Seq::empty()
    } else {
        match toml_stem(files.last()) {
            Some(stem) => toml_stems(files.drop_last()).push(stem),
            None => toml_stems(files.drop_last()),
        }
    }
}

/// The names of `acc` and then those of `more` that came not before.
pub open spec fn add_names(acc: Seq<Seq<char>>, more: Seq<Seq<char>>) -> Seq<Seq<char>>
    decreases more.len(),
{
    if more.len() == 0 {
        acc
    } else {
        let sofar = add_names(acc, more.drop_last());
        if sofar.contains(more.last()) {
            sofar
        } else {
            sofar.push(more.last())
        }
    }
}

/// The names that two lists offer together, each once: first those of
/// `first`, then those that only `second` has.
pub open spec fn union_of(first: Seq<Seq<char>>, second: Seq<Seq<char>>) -> Seq<Seq<char>> {
    add_names(add_names(Seq::empty(), first), second)
}

/// The name of the file that holds a flavor.
pub fn flavor_file_name(name: &str) -> (file: String)
    ensures
        file@ == name@ + toml_suffix(),
{
    let file = name.to_owned();
    vstd::string::StringExecFns::concat(file, ".toml")
}

/// The flavor name that a file name stands for.
pub fn toml_name(file: &str) -> (name: Option<String>)
    ensures
        toml_stem(file@) == match name {
            Some(n) => Some(n@),
            None => None::<Seq<char>>,
        },
{
    let len = file.unicode_len();
    if len > 5 {
        let ending = file.substring_char(len - 5, len).to_owned();
        if ending == ".toml".to_owned() {
            return Some(file.substring_char(0, len - 5).to_owned());
        }
    }
    None
}

/// The flavor names among the file names of one directory, in order.
pub fn toml_names_in_dir(files: &Vec<String>) -> (names: Vec<String>)
    ensures
        texts(names@) == toml_stems(texts(files@)),
{
    let mut names: Vec<String> = Vec::new();
    let mut i: usize = 0;
    assert(texts(files@).take(0) =~= Seq::empty());
    assert(texts(names@) =~= Seq::empty());
    while i < files.len()
        invariant
            i <= files.len(),
            texts(names@) == toml_stems(texts(files@).take(i as int)),
        decreases files.len() - i,
    {
        let ghost before = texts(names@);
        proof {
            let upto = texts(files@).take(i + 1);
            assert(upto.drop_last() =~= texts(files@).take(i as int));
            assert(upto.last() == files@[i as int]@);
        }
        match toml_name(files[i].as_str()) {
            Some(name) => {
                names.push(name);
                assert(texts(names@) =~= before.push(name@));
            },
            None => {},
        }
        i += 1;
    }
    assert(texts(files@).take(files.len() as int) =~= texts(files@));
    names
}

/// Adds to `names` those of `more` that it does not hold yet.
fn extend_names(names: &mut Vec<String>, more: &Vec<String>)
    ensures
        texts(final(names)@) == add_names(texts(old(names)@), texts(more@)),
{
    let ghost start = texts(names@);
    let mut i: usize = 0;
    assert(texts(more@).take(0) =~= Seq::empty());
    while i < more.len()
        invariant
            i <= more.len(),
            texts(names@) == add_names(start, texts(more@).take(i as int)),
        decreases more.len() - i,
    {
        let ghost before = texts(names@);
        proof {
            let upto = texts(more@).take(i + 1);
            assert(upto.drop_last() =~= texts(more@).take(i as int));
            assert(upto.last() == more@[i as int]@);
        }
        if !is_one_of(&more[i], names) {
            names.push(more[i].clone());
            assert(texts(names@) =~= before.push(more@[i as int]@));
        }
        i += 1;
    }
    assert(texts(more@).take(more.len() as int) =~= texts(more@));
}

/// The names that the two lists offer together, each once.
pub fn union_names(first: &Vec<String>, second: &Vec<String>) -> (names: Vec<String>)
    ensures
        texts(names@) == union_of(texts(first@), texts(second@)),
{
    let mut names: Vec<String> = Vec::new();
    assert(texts(names@) =~= Seq::empty());
    extend_names(&mut names, first);
    extend_names(&mut names, second);
    names
}

/// What `add_names` holds: every name of either list and no other, and no
/// name twice where `acc` held none twice.
pub proof fn lemma_add_names(acc: Seq<Seq<char>>, more: Seq<Seq<char>>, name: Seq<char>)
    ensures
        add_names(acc, more).contains(name) <==> acc.contains(name) || more.contains(name),
        acc.no_duplicates() ==> add_names(acc, more).no_duplicates(),
    decreases more.len(),
{
    if more.len() > 0 {
        let front = more.drop_last();
        let sofar = add_names(acc, front);
        lemma_add_names(acc, front, name);
        lemma_add_names(acc, front, more.last());
        if more.contains(name) {
            let i = choose|i: int| 0 <= i < more.len() && more[i] == name;
            if i < more.len() - 1 {
                assert(front[i] == name);
            }
        }
        if front.contains(name) {
            let i = choose|i: int| 0 <= i < front.len() && front[i] == name;
            assert(more[i] == name);
        }
        if !sofar.contains(more.last()) {
            let longer = sofar.push(more.last());
            assert(longer[sofar.len() as int] == more.last());
            if sofar.contains(name) {
                let i = choose|i: int| 0 <= i < sofar.len() && sofar[i] == name;
                assert(longer[i] == name);
            }
            if longer.contains(name) {
                let i = choose|i: int| 0 <= i < longer.len() && longer[i] == name;
                if i < sofar.len() {
                    assert(sofar[i] == name);
                }
            }
        }
    }
}

/// The list of two directories' names holds a name exactly if one of them
/// offers it, and holds no name twice.
pub proof fn law_union_names(first: Seq<Seq<char>>, second: Seq<Seq<char>>, name: Seq<char>)
    ensures
        union_of(first, second).contains(name) <==> first.contains(name) || second.contains(
            name,
        ),
        union_of(first, second).no_duplicates(),
{
    let empty = Seq::<Seq<char>>::empty();
    lemma_add_names(empty, first, name);
    lemma_add_names(add_names(empty, first), second, name);
}

} // verus!

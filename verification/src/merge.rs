//! The structural merge of two documents under a depth budget.

use vstd::prelude::*;
use crate::value::{
    Node, Entry, Doc, docs_of, pairs_of, keys_of, position, is_first, lookup, distinct_keys,
    lemma_array_view, lemma_table_view, find_key, lemma_position_cases, lemma_position_push,
    lemma_position_drop_first, lemma_position_first, lemma_position_none, lemma_member_wf,
};

verus! {

/// The names of a run of items, in order; `None` for an item without one.
pub open spec fn names_of(items: Seq<Doc>) -> Seq<Option<Seq<char>>> {
    Seq::new(items.len(), |i: int| items[i].name())
}

/// The merge of `right` onto `left`.
///
/// Two tables, or two arrays, are merged member by member while `depth` is
/// positive; with no depth left, and for every other pairing, `right` stands.
pub open spec fn merge_docs(left: Doc, right: Doc, depth: nat) -> Doc
    decreases depth, 1nat, 0nat,
{
    match (left, right) {
        (Doc::Array(l), Doc::Array(r)) => if depth > 0 {
            Doc::Array(merge_items(l, r, depth))
        } else {
            right
        },
        (Doc::Table(l), Doc::Table(r)) => if depth > 0 {
            Doc::Table(merge_entries(l, r, depth))
        } else {
            right
        },
        _ => right,
    }
}

/// The items of `rest` placed one after another into `acc`. An item whose
/// name some item of `acc` bears is merged onto the first such item, which
/// keeps its place; any other item goes to the end.
pub open spec fn merge_items(acc: Seq<Doc>, rest: Seq<Doc>, depth: nat) -> Seq<Doc>
    decreases depth, 0nat, rest.len(),
{
    if depth == 0 || rest.len() == 0 {
        acc
    } else {
        merge_items(place_item(acc, rest[0], depth), rest.drop_first(), depth)
    }
}

/// One item placed into `acc`.
pub open spec fn place_item(acc: Seq<Doc>, item: Doc, depth: nat) -> Seq<Doc>
    decreases depth, 0nat, 0nat,
{
    if depth == 0 {
        acc
    } else {
        match item.name() {
            Some(name) => match position(names_of(acc), name) {
                Some(p) => acc.update(p, merge_docs(acc[p], item, (depth - 1) as nat)),
                None => acc.push(item),
            },
            None => acc.push(item),
        }
    }
}

/// The pairs of `rest` placed one after another into `acc`. A pair whose key
/// `acc` holds is merged onto the first pair with that key, which keeps its
/// place; any other pair goes to the end.
pub open spec fn merge_entries(
    acc: Seq<(Seq<char>, Doc)>,
    rest: Seq<(Seq<char>, Doc)>,
    depth: nat,
) -> Seq<(Seq<char>, Doc)>
    decreases depth, 0nat, rest.len(),
{
    if depth == 0 || rest.len() == 0 {
        acc
    } else {
        merge_entries(place_entry(acc, rest[0], depth), rest.drop_first(), depth)
    }
}

/// One pair placed into `acc`.
pub open spec fn place_entry(
    acc: Seq<(Seq<char>, Doc)>,
    pair: (Seq<char>, Doc),
    depth: nat,
) -> Seq<(Seq<char>, Doc)>
    decreases depth, 0nat, 0nat,
{
    if depth == 0 {
        acc
    } else {
        match position(keys_of(acc), pair.0) {
            Some(p) => acc.update(p, (pair.0, merge_docs(acc[p].1, pair.1, (depth - 1) as nat))),
            None => acc.push(pair),
        }
    }
}

/// Finds the first item that bears the given name.
fn find_named(items: &Vec<Node>, name: &str) -> (found: Option<usize>)
    ensures
        position(names_of(docs_of(items@)), name@) == match found {
            Some(i) => Some(i as int),
            None => None::<int>,
        },
        found matches Some(i) ==> i < items.len(),
{
    let wanted = name.to_owned();
    let ghost names = names_of(docs_of(items@));
    let mut i: usize = 0;
    while i < items.len()
        invariant
            i <= items.len(),
            wanted@ == name@,
            names == names_of(docs_of(items@)),
            forall|j: int| 0 <= j < i ==> names[j] != Some(name@),
        decreases items.len() - i,
    {
        let hit = match items[i].name() {
            Some(n) => n.to_owned() == wanted,
            None => false,
        };
        if hit {
            proof {
                lemma_position_first(names, name@, i as int);
            }
            return Some(i);
        }
        i += 1;
    }
    proof {
        lemma_position_none(names, name@);
    }
    None
}

/// Merges the items of `right` into `left`.
fn merge_arrays(left: Vec<Node>, right: Vec<Node>, depth: usize) -> (merged: Vec<Node>)
    requires
        depth > 0,
    ensures
        docs_of(merged@) == merge_items(docs_of(left@), docs_of(right@), depth as nat),
    decreases depth, 0nat,
{
    let ghost goal = merge_items(docs_of(left@), docs_of(right@), depth as nat);
    let mut acc = left;
    let mut rest = right;
    while rest.len() > 0
        invariant
            depth > 0,
            merge_items(docs_of(acc@), docs_of(rest@), depth as nat) == goal,
        decreases rest.len(),
    {
        let ghost acc0 = acc@;
        let ghost rest0 = rest@;
        let item = rest.remove(0);
        proof {
            assert(docs_of(rest@) =~= docs_of(rest0).drop_first());
            assert(docs_of(rest0)[0] == item@);
        }
        let found = match item.name() {
            Some(name) => find_named(&acc, name),
            None => None,
        };
        match found {
            Some(p) => {
                let target = acc.remove(p);
                let merged_item = merge_toml_values(target, item, depth - 1);
                acc.insert(p, merged_item);
                proof {
                    assert(docs_of(acc0)[p as int] == target@);
                    assert(docs_of(acc@) =~= docs_of(acc0).update(p as int, merged_item@));
                }
            },
            None => {
                acc.push(item);
                proof {
                    assert(docs_of(acc@) =~= docs_of(acc0).push(item@));
                }
            },
        }
        assert(docs_of(acc@) == place_item(docs_of(acc0), item@, depth as nat));
    }
    acc
}

/// Merges the entries of `right` into `left`.
fn merge_tables(left: Vec<Entry>, right: Vec<Entry>, depth: usize) -> (merged: Vec<Entry>)
    requires
        depth > 0,
    ensures
        pairs_of(merged@) == merge_entries(pairs_of(left@), pairs_of(right@), depth as nat),
    decreases depth, 0nat,
{
    let ghost goal = merge_entries(pairs_of(left@), pairs_of(right@), depth as nat);
    let mut acc = left;
    let mut rest = right;
    while rest.len() > 0
        invariant
            depth > 0,
            merge_entries(pairs_of(acc@), pairs_of(rest@), depth as nat) == goal,
        decreases rest.len(),
    {
        let ghost acc0 = acc@;
        let ghost rest0 = rest@;
        let entry = rest.remove(0);
        proof {
            assert(pairs_of(rest@) =~= pairs_of(rest0).drop_first());
            assert(pairs_of(rest0)[0] == (entry.key@, entry.value@));
        }
        let Entry { key, value } = entry;
        match find_key(&acc, key.as_str()) {
            Some(p) => {
                let target = acc.remove(p);
                let merged_value = merge_toml_values(target.value, value, depth - 1);
                acc.insert(p, Entry { key, value: merged_value });
                proof {
                    assert(pairs_of(acc0)[p as int].1 == target.value@);
                    assert(pairs_of(acc@) =~= pairs_of(acc0).update(
                        p as int,
                        (key@, merged_value@),
                    ));
                }
            },
            None => {
                acc.push(Entry { key, value });
                proof {
                    assert(pairs_of(acc@) =~= pairs_of(acc0).push((key@, value@)));
                }
            },
        }
        assert(pairs_of(acc@) == place_entry(pairs_of(acc0), (key@, value@), depth as nat));
    }
    acc
}

/// Merges `right` onto `left`.
///
/// Tables are merged key by key and arrays of named tables name by name, for
/// `merge_depth` levels of nesting; below that, and wherever the two values
/// are not both tables or both arrays, `right` replaces `left`.
pub fn merge_toml_values(left: Node, right: Node, merge_depth: usize) -> (merged: Node)
    ensures
        merged@ == merge_docs(left@, right@, merge_depth as nat),
        merge_depth == 0 ==> merged@ == right@,
        left@.wf() && right@.wf() ==> merged@.wf(),
    decreases merge_depth, 1nat,
{
    proof {
        if left@.wf() && right@.wf() {
            law_merge_keeps_keys_distinct(left@, right@, merge_depth as nat);
        }
    }
    if merge_depth == 0 {
        return right;
    }
    match left {
        Node::Array(left_items) => match right {
            Node::Array(right_items) => {
                proof {
                    lemma_array_view(left_items);
                    lemma_array_view(right_items);
                }
                let items = merge_arrays(left_items, right_items, merge_depth);
                proof {
                    lemma_array_view(items);
                }
                Node::Array(items)
            },
            other => other,
        },
        Node::Table(left_entries) => match right {
            Node::Table(right_entries) => {
                proof {
                    lemma_table_view(left_entries);
                    lemma_table_view(right_entries);
                }
                let entries = merge_tables(left_entries, right_entries, merge_depth);
                proof {
                    lemma_table_view(entries);
                }
                Node::Table(entries)
            },
            other => other,
        },
        _ => right,
    }
}

/// What a merged table holds under a key, given what the two sides hold
/// under it: the merge of the two where both hold it, else what either holds.
pub open spec fn merged_member(left: Option<Doc>, right: Option<Doc>, depth: nat) -> Option<Doc> {
    match (left, right) {
        (Some(l), Some(r)) => Some(merge_docs(l, r, (depth - 1) as nat)),
        (Some(l), None) => Some(l),
        (None, r) => r,
    }
}

/// With no depth left, the merge of any two values is the right one.
pub proof fn law_no_depth_overrides(left: Doc, right: Doc)
    ensures
        merge_docs(left, right, 0) == right,
{
}

/// Values that are not both tables or both arrays merge to the right one.
pub proof fn law_mismatch_overrides(left: Doc, right: Doc, depth: nat)
    requires
        !(left is Table && right is Table),
        !(left is Array && right is Array),
    ensures
        merge_docs(left, right, depth) == right,
{
}

/// What placing one pair does to the member under any key.
proof fn lemma_place_entry_member(
    acc: Seq<(Seq<char>, Doc)>,
    pair: (Seq<char>, Doc),
    depth: nat,
    key: Seq<char>,
)
    requires
        depth > 0,
    ensures
        lookup(place_entry(acc, pair, depth), key) == if key == pair.0 {
            merged_member(lookup(acc, key), Some(pair.1), depth)
        } else {
            lookup(acc, key)
        },
{
    let next = place_entry(acc, pair, depth);
    lemma_position_cases(keys_of(acc), pair.0);
    lemma_position_cases(keys_of(acc), key);
    match position(keys_of(acc), pair.0) {
        Some(p) => {
            assert(keys_of(next) =~= keys_of(acc));
        },
        None => {
            assert(keys_of(next) =~= keys_of(acc).push(Some(pair.0)));
            lemma_position_push(keys_of(acc), Some(pair.0), key);
        },
    }
}

/// What merging the pairs of `rest` into `acc` does to the member under any
/// key, where no key occurs twice in `rest`.
proof fn lemma_merge_entries_member(
    acc: Seq<(Seq<char>, Doc)>,
    rest: Seq<(Seq<char>, Doc)>,
    depth: nat,
    key: Seq<char>,
)
    requires
        depth > 0,
        distinct_keys(rest),
    ensures
        lookup(merge_entries(acc, rest, depth), key) == merged_member(
            lookup(acc, key),
            lookup(rest, key),
            depth,
        ),
    decreases rest.len(),
{
    if rest.len() == 0 {
        lemma_position_none(keys_of(rest), key);
    } else {
        let pair = rest[0];
        let tail = rest.drop_first();
        let next = place_entry(acc, pair, depth);
        assert(distinct_keys(tail)) by {
            assert forall|i: int, j: int| 0 <= i < j < tail.len() implies tail[i].0 != tail[j].0 by {
                assert(tail[i] == rest[i + 1] && tail[j] == rest[j + 1]);
            }
        }
        lemma_merge_entries_member(next, tail, depth, key);
        lemma_place_entry_member(acc, pair, depth, key);
        assert(keys_of(tail) =~= keys_of(rest).drop_first());
        lemma_position_drop_first(keys_of(rest), key);
        if key == pair.0 {
            assert forall|j: int| 0 <= j < tail.len() implies keys_of(tail)[j] != Some(key) by {
                assert(tail[j] == rest[j + 1]);
            }
            lemma_position_none(keys_of(tail), key);
        }
    }
}

/// Merging two tables with depth left keeps every key of either side.
/// Under a key that both hold stands the merge, one level down, of what they
/// hold; under a key that one side holds stands what that side holds.
pub proof fn law_table_merge_members(
    left: Seq<(Seq<char>, Doc)>,
    right: Seq<(Seq<char>, Doc)>,
    depth: nat,
    key: Seq<char>,
)
    requires
        depth > 0,
        distinct_keys(right),
    ensures
        merge_docs(Doc::Table(left), Doc::Table(right), depth) is Table,
        merge_docs(Doc::Table(left), Doc::Table(right), depth).member(key) == merged_member(
            Doc::Table(left).member(key),
            Doc::Table(right).member(key),
            depth,
        ),
        (Doc::Table(left).member(key) is Some || Doc::Table(right).member(key) is Some)
            ==> merge_docs(Doc::Table(left), Doc::Table(right), depth).member(key) is Some,
{
    lemma_merge_entries_member(left, right, depth, key);
}

/// Under a key that the right table sets to a value that is neither a table
/// nor an array, the merge holds that value, whatever the left table holds.
pub proof fn law_right_value_wins(
    left: Seq<(Seq<char>, Doc)>,
    right: Seq<(Seq<char>, Doc)>,
    depth: nat,
    key: Seq<char>,
    value: Doc,
)
    requires
        depth > 0,
        distinct_keys(right),
        lookup(right, key) == Some(value),
        !(value is Table),
        !(value is Array),
    ensures
        merge_docs(Doc::Table(left), Doc::Table(right), depth).member(key) == Some(value),
{
    law_table_merge_members(left, right, depth, key);
}

/// Under a key that the right table does not set, the merge holds what the
/// left table holds.
pub proof fn law_left_value_is_kept(
    left: Seq<(Seq<char>, Doc)>,
    right: Seq<(Seq<char>, Doc)>,
    depth: nat,
    key: Seq<char>,
)
    requires
        depth > 0,
        distinct_keys(right),
        lookup(right, key) is None,
    ensures
        merge_docs(Doc::Table(left), Doc::Table(right), depth).member(key) == lookup(left, key),
{
    law_table_merge_members(left, right, depth, key);
}

/// An item without a name, or with a name that no item of `acc` bears, goes
/// to the end of `acc`.
pub proof fn law_unmatched_item_is_appended(acc: Seq<Doc>, item: Doc, depth: nat)
    requires
        depth > 0,
        item.name() matches Some(name) ==> position(names_of(acc), name) is None,
    ensures
        place_item(acc, item, depth) == acc.push(item),
{
}

/// An item with a name that an item of `acc` bears is merged, one level
/// down, onto the first such item, which keeps its place; no other item of
/// `acc` changes.
pub proof fn law_matched_item_keeps_place(acc: Seq<Doc>, item: Doc, depth: nat, p: int)
    requires
        depth > 0,
        item.name() is Some,
        is_first(names_of(acc), item.name()->0, p),
    ensures
        place_item(acc, item, depth) == acc.update(
            p,
            merge_docs(acc[p], item, (depth - 1) as nat),
        ),
        place_item(acc, item, depth).len() == acc.len(),
        forall|i: int| 0 <= i < acc.len() && i != p ==> place_item(acc, item, depth)[i] == acc[i],
{
    lemma_position_first(names_of(acc), item.name()->0, p);
}

/// Whether a value is neither a table nor an array.
pub open spec fn is_leaf(value: Doc) -> bool {
    !(value is Table) && !(value is Array)
}

/// A table merged onto its parent, and that onto the parent's parent: under
/// any key, a leaf that the table sets stands; else a leaf that the parent
/// sets stands; and what neither sets is what the parent's parent holds.
pub proof fn law_inherited_members(
    root: Seq<(Seq<char>, Doc)>,
    parent: Seq<(Seq<char>, Doc)>,
    child: Seq<(Seq<char>, Doc)>,
    depth: nat,
    key: Seq<char>,
)
    requires
        depth > 0,
        distinct_keys(parent),
        distinct_keys(child),
    ensures
        ({
            let resolved = merge_docs(
                merge_docs(Doc::Table(root), Doc::Table(parent), depth),
                Doc::Table(child),
                depth,
            );
            &&& (lookup(child, key) is Some && is_leaf(lookup(child, key)->0)) ==> resolved.member(
                key,
            ) == lookup(child, key)
            &&& (lookup(child, key) is None && lookup(parent, key) is Some && is_leaf(
                lookup(parent, key)->0,
            )) ==> resolved.member(key) == lookup(parent, key)
            &&& (lookup(child, key) is None && lookup(parent, key) is None) ==> resolved.member(
                key,
            ) == lookup(root, key)
        }),
{
    let middle = merge_entries(root, parent, depth);
    law_table_merge_members(root, parent, depth, key);
    law_table_merge_members(middle, child, depth, key);
}

/// What the right document holds at a path of table keys, where that is
/// neither a table nor an array, the merge holds at that path too, whatever
/// the left document holds there and whatever the depth.
pub proof fn law_right_wins_at_path(
    left: Doc,
    right: Doc,
    depth: nat,
    path: Seq<Seq<char>>,
    value: Doc,
)
    requires
        right.wf(),
        right.at_path(path) == Some(value),
        is_leaf(value),
    ensures
        merge_docs(left, right, depth).at_path(path) == Some(value),
    decreases path.len(),
{
    if path.len() > 0 && depth > 0 {
        match (left, right) {
            (Doc::Table(l), Doc::Table(r)) => {
                let key = path[0];
                law_table_merge_members(l, r, depth, key);
                lemma_member_wf(right, key);
                match lookup(l, key) {
                    Some(under) => {
                        law_right_wins_at_path(
                            under,
                            lookup(r, key)->0,
                            (depth - 1) as nat,
                            path.drop_first(),
                            value,
                        );
                    },
                    None => {},
                }
            },
            _ => {},
        }
    }
}

/// A document merged onto its parent, and that onto the parent's parent:
/// what the document holds at a path of table keys, where that is neither a
/// table nor an array, stands at that path, whatever the two ancestors hold.
pub proof fn law_child_wins_over_ancestors(
    root: Doc,
    parent: Doc,
    child: Doc,
    depth: nat,
    path: Seq<Seq<char>>,
    value: Doc,
)
    requires
        child.wf(),
        child.at_path(path) == Some(value),
        is_leaf(value),
    ensures
        merge_docs(merge_docs(root, parent, depth), child, depth).at_path(path) == Some(value),
{
    law_right_wins_at_path(merge_docs(root, parent, depth), child, depth, path, value);
}

/// Whether every item of a run is well-formed.
pub open spec fn items_wf(items: Seq<Doc>) -> bool {
    forall|i: int| 0 <= i < items.len() ==> (#[trigger] items[i]).wf()
}

/// Whether every value of a run of pairs is well-formed.
pub open spec fn values_wf(pairs: Seq<(Seq<char>, Doc)>) -> bool {
    forall|i: int| 0 <= i < pairs.len() ==> (#[trigger] pairs[i]).1.wf()
}

/// The merge of two well-formed documents is well-formed: no table of it
/// holds a key twice.
pub proof fn law_merge_keeps_keys_distinct(left: Doc, right: Doc, depth: nat)
    requires
        left.wf(),
        right.wf(),
    ensures
        merge_docs(left, right, depth).wf(),
    decreases depth, 1nat, 0nat,
{
    if depth > 0 {
        match (left, right) {
            (Doc::Array(l), Doc::Array(r)) => {
                lemma_merge_items_wf(l, r, depth);
            },
            (Doc::Table(l), Doc::Table(r)) => {
                lemma_merge_entries_wf(l, r, depth);
            },
            _ => {},
        }
    }
}

proof fn lemma_merge_items_wf(acc: Seq<Doc>, rest: Seq<Doc>, depth: nat)
    requires
        depth > 0,
        items_wf(acc),
        items_wf(rest),
    ensures
        items_wf(merge_items(acc, rest, depth)),
    decreases depth, 0nat, rest.len(),
{
    if rest.len() > 0 {
        let item = rest[0];
        let next = place_item(acc, item, depth);
        assert(item.wf());
        match item.name() {
            Some(name) => {
                lemma_position_cases(names_of(acc), name);
                match position(names_of(acc), name) {
                    Some(p) => {
                        assert(acc[p].wf());
                        law_merge_keeps_keys_distinct(acc[p], item, (depth - 1) as nat);
                    },
                    None => {},
                }
            },
            None => {},
        }
        assert(items_wf(next));
        assert(items_wf(rest.drop_first())) by {
            assert forall|i: int| 0 <= i < rest.drop_first().len() implies (
            #[trigger] rest.drop_first()[i]).wf() by {
                assert(rest.drop_first()[i] == rest[i + 1]);
            }
        }
        lemma_merge_items_wf(next, rest.drop_first(), depth);
    }
}

proof fn lemma_merge_entries_wf(
    acc: Seq<(Seq<char>, Doc)>,
    rest: Seq<(Seq<char>, Doc)>,
    depth: nat,
)
    requires
        depth > 0,
        distinct_keys(acc),
        values_wf(acc),
        values_wf(rest),
    ensures
        distinct_keys(merge_entries(acc, rest, depth)),
        values_wf(merge_entries(acc, rest, depth)),
    decreases depth, 0nat, rest.len(),
{
    if rest.len() > 0 {
        let pair = rest[0];
        let next = place_entry(acc, pair, depth);
        assert(pair.1.wf());
        lemma_position_cases(keys_of(acc), pair.0);
        match position(keys_of(acc), pair.0) {
            Some(p) => {
                assert(acc[p].1.wf());
                assert(keys_of(acc)[p] == Some(pair.0));
                law_merge_keeps_keys_distinct(acc[p].1, pair.1, (depth - 1) as nat);
                assert forall|i: int, j: int| 0 <= i < j < next.len() implies next[i].0
                    != next[j].0 by {
                    assert(next[i].0 == acc[i].0);
                    assert(next[j].0 == acc[j].0);
                }
            },
            None => {
                assert forall|i: int, j: int| 0 <= i < j < next.len() implies next[i].0
                    != next[j].0 by {
                    if j == acc.len() {
                        assert(keys_of(acc)[i] != Some(pair.0));
                    }
                }
            },
        }
        assert(values_wf(next));
        assert(values_wf(rest.drop_first())) by {
            assert forall|i: int| 0 <= i < rest.drop_first().len() implies (
            #[trigger] rest.drop_first()[i]).1.wf() by {
                assert(rest.drop_first()[i] == rest[i + 1]);
            }
        }
        lemma_merge_entries_wf(next, rest.drop_first(), depth);
    }
}

} // verus!

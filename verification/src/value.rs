//! The semi-structured document that flavors are written in, and its
//! mathematical model.

use vstd::prelude::*;

verus! {

/// One `key = value` line of a table.
#[derive(Debug, PartialEq)]
pub struct Entry {
    pub key: String,
    pub value: Node,
}

/// A document value. A float is held by its IEEE-754 bit pattern and a
/// datetime by its text, so that every leaf is a plain value.
#[derive(Debug, PartialEq)]
pub enum Node {
    String(String),
    Integer(i64),
    Float(u64),
    Boolean(bool),
    Datetime(String),
    Array(Vec<Node>),
    Table(Vec<Entry>),
}

/// The model of a [`Node`]: sequences for arrays, and for tables the
/// sequence of `(key, value)` pairs in the order they are held.
pub enum Doc {
    String(Seq<char>),
    Integer(i64),
    Float(u64),
    Boolean(bool),
    Datetime(Seq<char>),
    Array(Seq<Doc>),
    Table(Seq<(Seq<char>, Doc)>),
}

/// The model of one value.
pub open spec fn doc_of(v: Node) -> Doc
    decreases v,
{
    match v {
        Node::String(s) => Doc::String(s@),
        Node::Integer(i) => Doc::Integer(i),
        Node::Float(bits) => Doc::Float(bits),
        Node::Boolean(b) => Doc::Boolean(b),
        Node::Datetime(s) => Doc::Datetime(s@),
        Node::Array(items) => Doc::Array(
            Seq::new(
                items@.len(),
                |i: int|
                    if 0 <= i < items@.len() {
                        doc_of(items@[i])
                    } else {
                        Doc::Boolean(false)
                    },
            ),
        ),
        Node::Table(entries) => Doc::Table(
            Seq::new(
                entries@.len(),
                |i: int|
                    if 0 <= i < entries@.len() {
                        (entries@[i].key@, doc_of(entries@[i].value))
                    } else {
                        (Seq::empty(), Doc::Boolean(false))
                    },
            ),
        ),
    }
}

/// The models of a run of values.
pub open spec fn docs_of(items: Seq<Node>) -> Seq<Doc> {
    Seq::new(items.len(), |i: int| doc_of(items[i]))
}

/// The models of a run of table entries.
pub open spec fn pairs_of(entries: Seq<Entry>) -> Seq<(Seq<char>, Doc)> {
    Seq::new(entries.len(), |i: int| (entries[i].key@, doc_of(entries[i].value)))
}

impl Clone for Node {
    fn clone(&self) -> (copy: Node)
        ensures
            copy@ == self@,
    {
        self.duplicate()
    }
}

impl Clone for Entry {
    fn clone(&self) -> (copy: Entry)
        ensures
            copy.key@ == self.key@,
            copy.value@ == self.value@,
    {
        Entry { key: self.key.clone(), value: self.value.duplicate() }
    }
}

impl View for Node {
    type V = Doc;

    open spec fn view(&self) -> Doc {
        doc_of(*self)
    }
}

/// An array's model is the models of its items, in order.
pub proof fn lemma_array_view(items: Vec<Node>)
    ensures
        Node::Array(items)@ == Doc::Array(docs_of(items@)),
{
    assert(doc_of(Node::Array(items))->Array_0 =~= docs_of(items@));
}

/// A table's model is the models of its entries, in order.
pub proof fn lemma_table_view(entries: Vec<Entry>)
    ensures
        Node::Table(entries)@ == Doc::Table(pairs_of(entries@)),
{
    assert(doc_of(Node::Table(entries))->Table_0 =~= pairs_of(entries@));
}

/// Whether `i` is the first place of `keys` that holds `key`.
pub open spec fn is_first(keys: Seq<Option<Seq<char>>>, key: Seq<char>, i: int) -> bool {
    &&& 0 <= i < keys.len()
    &&& keys[i] == Some(key)
    &&& forall|j: int| 0 <= j < i ==> keys[j] != Some(key)
}

/// The first place of `keys` that holds `key`, if any does.
pub open spec fn position(keys: Seq<Option<Seq<char>>>, key: Seq<char>) -> Option<int> {
    if exists|i: int| is_first(keys, key, i) {
        Some(choose|i: int| is_first(keys, key, i))
    } else {
        None
    }
}

/// The keys of a table, in order.
pub open spec fn keys_of(pairs: Seq<(Seq<char>, Doc)>) -> Seq<Option<Seq<char>>> {
    Seq::new(pairs.len(), |i: int| Some(pairs[i].0))
}

/// The value that a table holds under `key`: that of the first pair with
/// this key.
pub open spec fn lookup(pairs: Seq<(Seq<char>, Doc)>, key: Seq<char>) -> Option<Doc> {
    match position(keys_of(pairs), key) {
        Some(i) => Some(pairs[i].1),
        None => None,
    }
}

/// Whether no key occurs twice in a table.
pub open spec fn distinct_keys(pairs: Seq<(Seq<char>, Doc)>) -> bool {
    forall|i: int, j: int| 0 <= i < j < pairs.len() ==> pairs[i].0 != pairs[j].0
}

impl Doc {
    /// Whether no table of the document, at any depth, holds a key twice.
    pub open spec fn wf(self) -> bool
        decreases self,
    {
        match self {
            Doc::Array(items) => forall|i: int| 0 <= i < items.len() ==> (#[trigger] items[i]).wf(),
            Doc::Table(pairs) => distinct_keys(pairs) && forall|i: int|
                0 <= i < pairs.len() ==> (#[trigger] pairs[i]).1.wf(),
            _ => true,
        }
    }

    /// The member of a table under `key`; nothing for any other value.
    pub open spec fn member(self, key: Seq<char>) -> Option<Doc> {
        match self {
            Doc::Table(pairs) => lookup(pairs, key),
            _ => None,
        }
    }

    /// What stands at the end of a path of table keys, if every key of the
    /// path is there.
    pub open spec fn at_path(self, path: Seq<Seq<char>>) -> Option<Doc>
        decreases path.len(),
    {
        if path.len() == 0 {
            Some(self)
        } else {
            match self.member(path[0]) {
                Some(m) => m.at_path(path.drop_first()),
                None => None,
            }
        }
    }

    /// The `name` of a table, where it has one that is a string.
    pub open spec fn name(self) -> Option<Seq<char>> {
        match self.member("name"@) {
            Some(Doc::String(s)) => Some(s),
            _ => None,
        }
    }
}

/// A place is the first with its key exactly if `position` names it.
pub proof fn lemma_position_first(keys: Seq<Option<Seq<char>>>, key: Seq<char>, i: int)
    ensures
        is_first(keys, key, i) <==> position(keys, key) == Some(i),
{
    if is_first(keys, key, i) {
        let c = choose|c: int| is_first(keys, key, c);
        assert(is_first(keys, key, c));
        assert(c == i);
    }
}

/// Where no place holds the key, `position` finds none.
pub proof fn lemma_position_none(keys: Seq<Option<Seq<char>>>, key: Seq<char>)
    requires
        forall|j: int| 0 <= j < keys.len() ==> keys[j] != Some(key),
    ensures
        position(keys, key) is None,
{
}

/// What `position` finds is the first place with the key, and where it finds
/// none, no place holds the key.
pub proof fn lemma_position_cases(keys: Seq<Option<Seq<char>>>, key: Seq<char>)
    ensures
        match position(keys, key) {
            Some(i) => is_first(keys, key, i),
            None => forall|j: int| 0 <= j < keys.len() ==> keys[j] != Some(key),
        },
{
    if position(keys, key) is None {
        assert forall|j: int| 0 <= j < keys.len() implies keys[j] != Some(key) by {
            if keys[j] == Some(key) {
                lemma_first_exists(keys, key, j);
            }
        }
    }
}

/// Where some place holds the key, one of them is the first.
pub proof fn lemma_first_exists(keys: Seq<Option<Seq<char>>>, key: Seq<char>, j: int)
    requires
        0 <= j < keys.len(),
        keys[j] == Some(key),
    ensures
        exists|i: int| is_first(keys, key, i),
    decreases j,
{
    if exists|e: int| 0 <= e < j && keys[e] == Some(key) {
        let e = choose|e: int| 0 <= e < j && keys[e] == Some(key);
        lemma_first_exists(keys, key, e);
    } else {
        assert(is_first(keys, key, j));
    }
}

/// A member of a well-formed document is well-formed.
pub proof fn lemma_member_wf(d: Doc, key: Seq<char>)
    requires
        d.wf(),
    ensures
        d.member(key) matches Some(m) ==> m.wf(),
{
    match d {
        Doc::Table(pairs) => {
            lemma_position_cases(keys_of(pairs), key);
            match position(keys_of(pairs), key) {
                Some(i) => {
                    assert(pairs[i].1.wf());
                },
                None => {},
            }
        },
        _ => {},
    }
}

/// `position` after one more key at the end.
pub proof fn lemma_position_push(
    keys: Seq<Option<Seq<char>>>,
    extra: Option<Seq<char>>,
    key: Seq<char>,
)
    ensures
        position(keys.push(extra), key) == if position(keys, key) is Some {
            position(keys, key)
        } else if extra == Some(key) {
            Some(keys.len() as int)
        } else {
            None
        },
{
    let longer = keys.push(extra);
    lemma_position_cases(keys, key);
    match position(keys, key) {
        Some(i) => {
            assert(is_first(longer, key, i));
            lemma_position_first(longer, key, i);
        },
        None => {
            if extra == Some(key) {
                assert(is_first(longer, key, keys.len() as int));
                lemma_position_first(longer, key, keys.len() as int);
            } else {
                lemma_position_none(longer, key);
            }
        },
    }
}

/// `position` in terms of the first key and the rest.
pub proof fn lemma_position_drop_first(keys: Seq<Option<Seq<char>>>, key: Seq<char>)
    requires
        keys.len() > 0,
    ensures
        position(keys, key) == if keys[0] == Some(key) {
            Some(0int)
        } else {
            match position(keys.drop_first(), key) {
                Some(i) => Some(i + 1),
                None => None,
            }
        },
{
    let tail = keys.drop_first();
    if keys[0] == Some(key) {
        assert(is_first(keys, key, 0));
        lemma_position_first(keys, key, 0);
    } else {
        lemma_position_cases(tail, key);
        match position(tail, key) {
            Some(i) => {
                assert forall|j: int| 0 <= j < i + 1 implies keys[j] != Some(key) by {
                    if j > 0 {
                        assert(keys[j] == tail[j - 1]);
                    }
                }
                assert(is_first(keys, key, i + 1));
                lemma_position_first(keys, key, i + 1);
            },
            None => {
                assert forall|j: int| 0 <= j < keys.len() implies keys[j] != Some(key) by {
                    if j > 0 {
                        assert(keys[j] == tail[j - 1]);
                    }
                }
                lemma_position_none(keys, key);
            },
        }
    }
}

/// Finds the first entry with the given key.
pub fn find_key(entries: &Vec<Entry>, key: &str) -> (found: Option<usize>)
    ensures
        position(keys_of(pairs_of(entries@)), key@) == match found {
            Some(i) => Some(i as int),
            None => None::<int>,
        },
        found matches Some(i) ==> i < entries.len() && entries@[i as int].key@ == key@,
{
    let wanted = key.to_owned();
    let ghost keys = keys_of(pairs_of(entries@));
    let mut i: usize = 0;
    while i < entries.len()
        invariant
            i <= entries.len(),
            wanted@ == key@,
            keys == keys_of(pairs_of(entries@)),
            forall|j: int| 0 <= j < i ==> keys[j] != Some(key@),
        decreases entries.len() - i,
    {
        if entries[i].key == wanted {
            proof {
                assert(is_first(keys, key@, i as int));
                lemma_position_first(keys, key@, i as int);
            }
            return Some(i);
        }
        i += 1;
    }
    proof {
        lemma_position_none(keys, key@);
    }
    None
}

impl Node {
    /// A copy of the value.
    pub fn duplicate(&self) -> (copy: Node)
        ensures
            copy@ == self@,
        decreases self,
    {
        match self {
            Node::String(s) => Node::String(s.clone()),
            Node::Integer(i) => Node::Integer(*i),
            Node::Float(bits) => Node::Float(*bits),
            Node::Boolean(b) => Node::Boolean(*b),
            Node::Datetime(s) => Node::Datetime(s.clone()),
            Node::Array(items) => {
                let mut out: Vec<Node> = Vec::new();
                let mut i: usize = 0;
                while i < items.len()
                    invariant
                        i <= items.len(),
                        out@.len() == i,
                        forall|j: int| 0 <= j < i ==> out@[j]@ == items@[j]@,
                        *self == Node::Array(*items),
                    decreases items.len() - i,
                {
                    proof {
                        vstd::std_specs::vec::axiom_vec_index_decreases(*items, i as int);
                        assert(decreases_to!(*self => self->Array_0));
                        assert(decreases_to!(self->Array_0 => self->Array_0[i as int]));
                    }
                    out.push(items[i].duplicate());
                    i += 1;
                }
                proof {
                    lemma_array_view(out);
                    lemma_array_view(*items);
                    assert(docs_of(out@) =~= docs_of(items@));
                }
                Node::Array(out)
            },
            Node::Table(entries) => {
                let mut out: Vec<Entry> = Vec::new();
                let mut i: usize = 0;
                while i < entries.len()
                    invariant
                        i <= entries.len(),
                        out@.len() == i,
                        forall|j: int|
                            0 <= j < i ==> out@[j].key@ == entries@[j].key@ && out@[j].value@
                                == entries@[j].value@,
                        *self == Node::Table(*entries),
                    decreases entries.len() - i,
                {
                    proof {
                        vstd::std_specs::vec::axiom_vec_index_decreases(*entries, i as int);
                        assert(decreases_to!(*self => self->Table_0));
                        assert(decreases_to!(self->Table_0 => self->Table_0[i as int]));
                        assert(decreases_to!(self->Table_0[i as int] => self->Table_0[i as int].value));
                    }
                    out.push(
                        Entry { key: entries[i].key.clone(), value: entries[i].value.duplicate() },
                    );
                    i += 1;
                }
                proof {
                    lemma_table_view(out);
                    lemma_table_view(*entries);
                    assert(pairs_of(out@) =~= pairs_of(entries@));
                }
                Node::Table(out)
            },
        }
    }

    /// The member of a table under `key`; `None` for any other value.
    pub fn get(&self, key: &str) -> (found: Option<&Node>)
        ensures
            self@.member(key@) == match found {
                Some(v) => Some(v@),
                None => None::<Doc>,
            },
    {
        match self {
            Node::Table(entries) => {
                proof {
                    lemma_table_view(*entries);
                }
                match find_key(entries, key) {
                    Some(i) => Some(&entries[i].value),
                    None => None,
                }
            },
            _ => None,
        }
    }

    /// The text of a string value; `None` for any other value.
    pub fn as_str(&self) -> (text: Option<&str>)
        ensures
            match text {
                Some(s) => self@ == Doc::String(s@),
                None => !(self@ is String),
            },
    {
        match self {
            Node::String(s) => Some(s.as_str()),
            _ => None,
        }
    }

    /// The items of an array; `None` for any other value.
    pub fn as_array(&self) -> (items: Option<&Vec<Node>>)
        ensures
            match items {
                Some(v) => self@ == Doc::Array(docs_of(v@)),
                None => !(self@ is Array),
            },
    {
        match self {
            Node::Array(items) => {
                proof {
                    lemma_array_view(*items);
                }
                Some(items)
            },
            _ => None,
        }
    }

    /// The number of an integer value; `None` for any other value.
    pub fn as_integer(&self) -> (number: Option<i64>)
        ensures
            match number {
                Some(i) => self@ == Doc::Integer(i),
                None => !(self@ is Integer),
            },
    {
        match self {
            Node::Integer(i) => Some(*i),
            _ => None,
        }
    }

    /// The `name` of a table, where it has one that is a string.
    pub fn name(&self) -> (found: Option<&str>)
        ensures
            self@.name() == match found {
                Some(s) => Some(s@),
                None => None::<Seq<char>>,
            },
    {
        match self.get("name") {
            Some(v) => v.as_str(),
            None => None,
        }
    }
}

} // verus!

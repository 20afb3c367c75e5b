//! Resolving a flavor through its chain of `inherits`.
//!
//! Reading a file is left to the caller. The resolution is a sequence of
//! steps: each asks for one file, and is continued with what the file held.

use vstd::prelude::*;
use crate::value::{Node, Doc, docs_of};
use crate::names::flavor_file_name;
use crate::parse::{parse_document, toml_parse};

verus! {

/// Why a flavor could not be loaded.
#[derive(Debug, Clone, Copy, PartialEq, Eq)]
pub enum FlavorError {
    /// No file holds the flavor.
    NotFound,
    /// The file is not valid TOML.
    Parse,
    /// `inherits` is there and is no string.
    Schema,
    /// The document does not describe a flavor.
    Conversion,
}

/// A family of flavors: where its files are, how two of its documents merge
/// and which documents are built in.
pub trait FlavorLoader<T> {
    /// The text of the user directory.
    spec fn user_dir_text(&self) -> Seq<char>;

    /// The text of the default directory.
    spec fn default_dir_text(&self) -> Seq<char>;

    /// The merge of a flavor onto its parent.
    spec fn merged(&self, parent: Doc, child: Doc) -> Doc;

    /// The built-in document of a name, if there is one.
    spec fn builtin(&self, name: Seq<char>) -> Option<Doc>;

    fn user_dir(&self) -> (dir: &str)
        ensures
            dir@ == self.user_dir_text(),
    ;

    fn default_dir(&self) -> (dir: &str)
        ensures
            dir@ == self.default_dir_text(),
    ;

    fn log_type_display(&self) -> String;

    /// Merges one flavor onto its parent.
    fn merge_flavors(&self, parent_flavor: Node, flavor: Node) -> (merged: Node)
        ensures
            merged@ == self.merged(parent_flavor@, flavor@),
    ;

    /// The built-in document of a name.
    fn default_data(&self, name: &str) -> (data: Option<Node>)
        ensures
            self.builtin(name@) == match data {
                Some(v) => Some(v@),
                None => None::<Doc>,
            },
    ;
}

/// A file of a flavor: its directory and its name in it.
#[derive(Debug, Clone, PartialEq, Eq)]
pub struct FlavorPath {
    pub dir: String,
    pub file: String,
}

/// The file to read next.
#[derive(Debug, Clone, PartialEq, Eq)]
pub struct Request {
    pub name: String,
    pub only_default_dir: bool,
}

/// A resolution under way: the name that was asked for first, and the
/// documents read so far, each the parent of the one before it.
#[derive(Debug, PartialEq)]
pub struct Resolution {
    pub base: String,
    pub pending: Vec<Node>,
}

/// What a resolution does next.
#[derive(Debug, PartialEq)]
pub enum Step {
    /// Read the file of the request and continue with what it holds.
    Load(Resolution, Request),
    /// The flavor, merged onto all its ancestors.
    Done(Node),
    Failed(FlavorError),
}

/// The file that holds a flavor: the one in the user directory if that
/// directory may be used and has it, else the one in the default directory.
pub fn path<T, L: FlavorLoader<T>>(
    loader: &L,
    name: &str,
    only_default_dir: bool,
    user_file_exists: bool,
) -> (found: FlavorPath)
    ensures
        found.file@ == name@ + ".toml"@,
        found.dir@ == if !only_default_dir && user_file_exists {
            loader.user_dir_text()
        } else {
            loader.default_dir_text()
        },
{
    let file = flavor_file_name(name);
    if !only_default_dir && user_file_exists {
        FlavorPath { dir: loader.user_dir().to_owned(), file }
    } else {
        FlavorPath { dir: loader.default_dir().to_owned(), file }
    }
}

/// What reading a flavor's file gives: the document that `text` is parsed to,
/// `text` being what the file held, or `None` if it could not be read.
pub open spec fn loaded_doc(text: Option<Seq<char>>) -> Result<Doc, FlavorError> {
    match text {
        None => Err(FlavorError::NotFound),
        Some(t) => match toml_parse(t) {
            Some(d) => Ok(d),
            None => Err(FlavorError::Parse),
        },
    }
}

/// Parses what a flavor's file held.
pub fn load_toml(text: Option<&str>) -> (loaded: Result<Node, FlavorError>)
    ensures
        loaded_doc(
            match text {
                Some(t) => Some(t@),
                None => None,
            },
        ) == match loaded {
            Ok(v) => Ok::<Doc, FlavorError>(v@),
            Err(e) => Err(e),
        },
{
    match text {
        None => Err(FlavorError::NotFound),
        Some(t) => match parse_document(t) {
            Some(v) => Ok(v),
            None => Err(FlavorError::Parse),
        },
    }
}

/// The documents that wait for their parent, merged onto it one after
/// another, the one read last first.
pub open spec fn settle<T, L: FlavorLoader<T>>(loader: L, pending: Seq<Doc>, resolved: Doc) -> Doc
    decreases pending.len(),
{
    if pending.len() == 0 {
        resolved
    } else {
        settle(loader, pending.drop_last(), loader.merged(resolved, pending.last()))
    }
}

fn settle_pending<T, L: FlavorLoader<T>>(loader: &L, pending: Vec<Node>, resolved: Node) -> (done:
    Node)
    ensures
        done@ == settle(*loader, docs_of(pending@), resolved@),
{
    let ghost goal = settle(*loader, docs_of(pending@), resolved@);
    let mut pending = pending;
    let mut current = resolved;
    while pending.len() > 0
        invariant
            settle(*loader, docs_of(pending@), current@) == goal,
        decreases pending.len(),
    {
        let ghost before = pending@;
        let child = pending.pop().unwrap();
        proof {
            assert(docs_of(pending@) =~= docs_of(before).drop_last());
            assert(docs_of(before).last() == child@);
        }
        current = loader.merge_flavors(current, child);
    }
    current
}

/// Starts the resolution of `name`. `base_flavor_name` is the name that was
/// asked for in the first place.
pub fn load_flavor(name: &str, base_flavor_name: &str, only_default_dir: bool) -> (step: Step)
    ensures
        step.model() == (StepModel::Load {
            base: base_flavor_name@,
            pending: Seq::empty(),
            name: name@,
            only_default_dir,
        }),
{
    let pending: Vec<Node> = Vec::new();
    assert(docs_of(pending@) =~= Seq::empty());
    Step::Load(
        Resolution { base: base_flavor_name.to_owned(), pending },
        Request { name: name.to_owned(), only_default_dir },
    )
}

/// What the step after `loaded` is, `loaded` being what the requested file
/// gave.
///
/// A failure ends the resolution with that failure. A document without
/// `inherits` ends it: the documents read before are merged onto it. One that
/// inherits a built-in document ends it too, merged onto that document. One
/// that inherits another name asks for that name's file, from the default
/// directory only if the name is the one that was asked for first.
pub open spec fn next_step<T, L: FlavorLoader<T>>(
    loader: L,
    base: Seq<char>,
    pending: Seq<Doc>,
    loaded: Result<Doc, FlavorError>,
) -> StepModel {
    match loaded {
        Err(e) => StepModel::Failed(e),
        Ok(doc) => match doc.member("inherits"@) {
            None => StepModel::Done(settle(loader, pending, doc)),
            Some(Doc::String(parent)) => match loader.builtin(parent) {
                Some(root) => StepModel::Done(settle(loader, pending, loader.merged(root, doc))),
                None => StepModel::Load {
                    base,
                    pending: pending.push(doc),
                    name: parent,
                    only_default_dir: base == parent,
                },
            },
            Some(_) => StepModel::Failed(FlavorError::Schema),
        },
    }
}

/// The model of a [`Step`].
pub enum StepModel {
    Load { base: Seq<char>, pending: Seq<Doc>, name: Seq<char>, only_default_dir: bool },
    Done(Doc),
    Failed(FlavorError),
}

impl Step {
    /// The model of a step.
    pub open spec fn model(self) -> StepModel {
        match self {
            Step::Load(state, request) => StepModel::Load {
                base: state.base@,
                pending: docs_of(state.pending@),
                name: request.name@,
                only_default_dir: request.only_default_dir,
            },
            Step::Done(v) => StepModel::Done(v@),
            Step::Failed(e) => StepModel::Failed(e),
        }
    }
}

/// Continues a resolution with what the requested file gave.
///
/// Only the name that was asked for first is guarded against inheriting
/// itself. Flavors that inherit each other in a circle that does not pass
/// through that name are asked for without end: a caller that cannot trust
/// its files bounds the number of steps it takes.
pub fn continue_flavor<T, L: FlavorLoader<T>>(
    loader: &L,
    state: Resolution,
    loaded: Result<Node, FlavorError>,
) -> (step: Step)
    ensures
        step.model() == next_step(
            *loader,
            state.base@,
            docs_of(state.pending@),
            match loaded {
                Ok(v) => Ok(v@),
                Err(e) => Err(e),
            },
        ),
{
    let Resolution { base, pending } = state;
    let flavor = match loaded {
        Ok(v) => v,
        Err(e) => {
            return Step::Failed(e);
        },
    };
    let parent_name: String = match flavor.get("inherits") {
        None => {
            return Step::Done(settle_pending(loader, pending, flavor));
        },
        Some(inherits) => match inherits.as_str() {
            Some(name) => name.to_owned(),
            None => {
                return Step::Failed(FlavorError::Schema);
            },
        },
    };
    match loader.default_data(parent_name.as_str()) {
        Some(root) => {
            let merged = loader.merge_flavors(root, flavor);
            Step::Done(settle_pending(loader, pending, merged))
        },
        None => {
            let only_default_dir = base == parent_name;
            let ghost before = pending@;
            let mut pending = pending;
            pending.push(flavor);
            proof {
                assert(docs_of(pending@) =~= docs_of(before).push(flavor@));
            }
            Step::Load(
                Resolution { base, pending },
                Request { name: parent_name, only_default_dir },
            )
        },
    }
}

/// A flavor that inherits a built-in document resolves to the merge of the
/// two, and one further flavor that inherits it resolves to the merge of
/// itself onto that.
pub proof fn law_chain_merges_parent_first<T, L: FlavorLoader<T>>(
    loader: L,
    root: Doc,
    middle: Doc,
    leaf: Doc,
)
    ensures
        settle(loader, Seq::empty(), loader.merged(root, middle)) == loader.merged(root, middle),
        settle(loader, seq![leaf], loader.merged(root, middle)) == loader.merged(
            loader.merged(root, middle),
            leaf,
        ),
{
    let one = seq![leaf];
    assert(one.drop_last() =~= Seq::empty());
    assert(one.last() == leaf);
    reveal_with_fuel(settle, 3);
}

/// A flavor that inherits the very name that was asked for first has its
/// parent read from the default directory only; any other parent may come
/// from the user directory.
pub proof fn law_base_name_is_guarded<T, L: FlavorLoader<T>>(
    loader: L,
    base: Seq<char>,
    pending: Seq<Doc>,
    doc: Doc,
    parent: Seq<char>,
)
    requires
        doc.member("inherits"@) == Some(Doc::String(parent)),
        loader.builtin(parent) is None,
    ensures
        next_step(loader, base, pending, Ok(doc)) == (StepModel::Load {
            base,
            pending: pending.push(doc),
            name: parent,
            only_default_dir: parent == base,
        }),
{
}

} // verus!

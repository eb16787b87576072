//! Handles of vector images and the payloads behind them.

use crate::id::{numbers, Id, IdSource};
use crate::path::path_bytes;
use std::borrow::Cow;
use std::hash::{Hash, Hasher};
use std::path::PathBuf;
use std::sync::Arc;
use vstd::prelude::*;
use vstd::std_specs::cmp::PartialEqSpecImpl;
use vstd::std_specs::convert::{FromSpecImpl, IntoSpec};

verus! {

/// A parsed document as `usvg` holds it. Nothing here looks inside one.
#[verifier::external_type_specification]
#[verifier::external_body]
pub struct ExTree(usvg::Tree);

/// The text that `Debug` writes for `path`.
pub uninterp spec fn path_debug(path: PathBuf) -> Seq<char>;

/// `Debug` of a path, through `format!`: the text depends on the path alone.
#[verifier::external_body]
fn quoted(path: &PathBuf) -> (text: String)
    ensures
        text@ == path_debug(*path),
{
    format!("{:?}", path)
}

/// The payload of a vector image. It never changes once made.
#[derive(Debug)]
pub enum Data {
    /// The path of a file that holds the image.
    Path(PathBuf),
    /// The image in memory: its text, or that text compressed with gzip.
    Bytes(Cow<'static, [u8]>),
    /// The image as a parsed document.
    Tree(usvg::Tree),
}

impl Data {
    /// The identifier that a handle of this payload gets when its source has
    /// issued `issued` identifiers so far: for a path the identifier of that
    /// path, for anything else the next one of the source.
    pub open spec fn id_after(&self, issued: nat) -> Id {
        match self {
            Data::Path(path) => Id::of_path(*path),
            Data::Bytes(_) | Data::Tree(_) => Id::numbered(issued),
        }
    }

    /// Whether `id` is an identifier that a handle of this payload may have:
    /// for a path the identifier of that path, for anything else one that a
    /// source issued.
    pub open spec fn identified_by(&self, id: Id) -> bool {
        match self {
            Data::Path(path) => id == Id::of_path(*path),
            Data::Bytes(_) | Data::Tree(_) => id is Unique,
        }
    }

    /// The text that describes a payload at a path, given the path as
    /// `Debug` writes it.
    pub open spec fn path_description(quoted: Seq<char>) -> Seq<char> {
        "Path("@ + quoted + ")"@
    }

    /// The text that describes the payload: its kind, with the path as
    /// `Debug` writes it where it is one, and without the content where it
    /// is not.
    pub open spec fn description(&self) -> Seq<char> {
        match self {
            Data::Path(path) => Data::path_description(path_debug(*path)),
            Data::Bytes(_) => "Bytes(...)"@,
            Data::Tree(_) => "Tree(...)"@,
        }
    }

    /// Describes a payload at a path, given the path as `Debug` writes it.
    pub fn describe_path(quoted: &str) -> (text: String)
        ensures
            text@ == Data::path_description(quoted@),
    {
        String::from_str("Path(").concat(quoted).concat(")")
    }

    /// Describes the payload in a few words.
    pub fn describe(&self) -> (text: String)
        ensures
            text@ == self.description(),
    {
        match self {
            Data::Path(path) => {
                let quoted = quoted(path);
                Data::describe_path(quoted.as_str())
            },
            Data::Bytes(_) => String::from_str("Bytes(...)"),
            Data::Tree(_) => String::from_str("Tree(...)"),
        }
    }
}

/// A handle of a vector image: an identifier, and a share in the payload.
///
/// Handles are equal when their identifiers are. A clone shares the payload
/// of the handle it was made from, and nothing can change either.
#[derive(Debug)]
pub struct Handle {
    id: Id,
    data: Arc<Data>,
}

/// `Arc::clone`: the new pointer leads to the allocation that `data` leads
/// to, hence to the same value.
#[verifier::external_body]
fn share(data: &Arc<Data>) -> (shared: Arc<Data>)
    ensures
        shared == *data,
{
    Arc::clone(data)
}

/// `Hash::hash` of an identifier: feeds `id` to `state`. What a hasher makes
/// of it is its own affair, so nothing is claimed of `state` afterwards.
#[verifier::external_body]
fn feed<H: Hasher>(id: &Id, state: &mut H) {
    id.hash(state)
}

impl Handle {
    #[verifier::type_invariant]
    spec fn well_formed(&self) -> bool {
        self.data.identified_by(self.id)
    }

    /// The handle with the identifier `id` and the payload `data`.
    pub closed spec fn of(id: Id, data: Data) -> Handle {
        Handle { id, data: Arc::new(data) }
    }

    /// The identifier of the handle.
    pub closed spec fn spec_id(&self) -> Id {
        self.id
    }

    /// The payload of the handle.
    pub closed spec fn spec_data(&self) -> &Data {
        &*self.data
    }

    /// Whether the two handles are of one resource: whether their identifiers
    /// are equal. This is what `==` decides.
    pub open spec fn same_resource(&self, other: &Handle) -> bool {
        self.id() == other.id()
    }

    /// The handle that [`Handle::from_path`] makes of `path`.
    pub open spec fn at_path(path: PathBuf) -> Handle {
        Handle::of(Id::of_path(path), Data::Path(path))
    }

    /// The handle that [`Handle::from_memory`] makes of `bytes` when its
    /// source has issued `issued` identifiers so far.
    pub open spec fn in_memory(bytes: Cow<'static, [u8]>, issued: nat) -> Handle {
        Handle::of(Id::numbered(issued), Data::Bytes(bytes))
    }

    /// The handle that [`Handle::from_tree`] makes of `tree` when its source
    /// has issued `issued` identifiers so far.
    pub open spec fn parsed(tree: usvg::Tree, issued: nat) -> Handle {
        Handle::of(Id::numbered(issued), Data::Tree(tree))
    }

    /// The handle of the payload `data`: identified by its path where it is
    /// one, and by the next identifier of `ids` where it is not. A path
    /// leaves `ids` as it is.
    pub fn from_data(data: Data, ids: &mut IdSource) -> (handle: Handle)
        ensures
            handle == Handle::of(data.id_after(old(ids).count()), data),
            handle.id() == data.id_after(old(ids).count()),
            *handle.data() == data,
            final(ids).count() == if data is Path {
                old(ids).count()
            } else {
                old(ids).count() + 1
            },
    {
        let id = match &data {
            Data::Path(path) => Id::from_path(path),
            Data::Bytes(_) | Data::Tree(_) => Id::unique(ids),
        };
        Handle { id, data: Arc::new(data) }
    }

    /// The handle of the vector image at `path`. Whether there is a file at
    /// the path, and what it holds, is not looked at.
    pub fn from_path(path: PathBuf) -> (handle: Handle)
        ensures
            handle == Handle::at_path(path),
            handle.id() == Id::of_path(path),
            *handle.data() == Data::Path(path),
    {
        let id = Id::from_path(&path);
        Handle { id, data: Arc::new(Data::Path(path)) }
    }

    /// The handle of a vector image held in memory as `bytes`. Its
    /// identifier is the next of `ids`, whatever the bytes are: the same
    /// bytes handed in twice make two resources.
    pub fn from_memory(bytes: Cow<'static, [u8]>, ids: &mut IdSource) -> (handle: Handle)
        ensures
            handle == Handle::in_memory(bytes, old(ids).count()),
            handle.id() == Id::numbered(old(ids).count()),
            *handle.data() == Data::Bytes(bytes),
            final(ids).count() == old(ids).count() + 1,
            final(ids).issued() == old(ids).issued().insert(handle.id()),
            old(ids).count() < numbers() ==> !old(ids).issued().contains(handle.id()),
            old(ids).count() > 0 ==> handle.id() != Id::numbered((old(ids).count() - 1) as nat),
    {
        Handle::from_data(Data::Bytes(bytes), ids)
    }

    /// The handle of the parsed document `tree`. Its identifier is the next
    /// of `ids`.
    pub fn from_tree(tree: usvg::Tree, ids: &mut IdSource) -> (handle: Handle)
        ensures
            handle == Handle::parsed(tree, old(ids).count()),
            handle.id() == Id::numbered(old(ids).count()),
            *handle.data() == Data::Tree(tree),
            final(ids).count() == old(ids).count() + 1,
            final(ids).issued() == old(ids).issued().insert(handle.id()),
            old(ids).count() < numbers() ==> !old(ids).issued().contains(handle.id()),
            old(ids).count() > 0 ==> handle.id() != Id::numbered((old(ids).count() - 1) as nat),
    {
        Handle::from_data(Data::Tree(tree), ids)
    }

    /// The identifier of the handle.
    #[verifier::when_used_as_spec(spec_id)]
    pub fn id(&self) -> (id: Id)
        ensures
            id == self.spec_id(),
            self.spec_data().identified_by(id),
    {
        proof {
            use_type_invariant(self);
        }
        self.id
    }

    /// The payload of the handle, which it shares with its clones.
    #[verifier::when_used_as_spec(spec_data)]
    pub fn data(&self) -> (data: &Data)
        ensures
            data == self.spec_data(),
            data.identified_by(self.spec_id()),
    {
        proof {
            use_type_invariant(self);
        }
        &self.data
    }

    /// A handle is its identifier and its payload, and nothing more.
    pub proof fn lemma_of(id: Id, data: Data)
        ensures
            Handle::of(id, data).id() == id,
            *Handle::of(id, data).data() == data,
    {
    }

    /// Handles with one identifier and one payload are one handle.
    pub proof fn lemma_same_parts_same_handle(first: Handle, second: Handle)
        requires
            first.id() == second.id(),
            first.data() == second.data(),
        ensures
            first == second,
    {
    }

    /// Two handles made of one path have one identifier, and so are equal;
    /// so have two made of paths that consist of the same bytes.
    pub proof fn lemma_same_path_same_id(first: PathBuf, second: PathBuf)
        requires
            first == second || path_bytes(first) == path_bytes(second),
        ensures
            Handle::at_path(first).id() == Handle::at_path(second).id(),
            Handle::at_path(first).same_resource(&Handle::at_path(second)),
    {
    }

    /// Two handles made in memory one after the other from one source have
    /// different identifiers, and so are unequal, also where their bytes are
    /// the same. `issued` is what the source had issued before the first.
    pub proof fn lemma_same_bytes_different_ids(
        first: Cow<'static, [u8]>,
        second: Cow<'static, [u8]>,
        issued: nat,
    )
        ensures
            Handle::in_memory(first, issued).id() != Handle::in_memory(second, issued + 1).id(),
            !Handle::in_memory(first, issued).same_resource(&Handle::in_memory(second, issued + 1)),
    {
        Id::lemma_issued_apart(issued, issued + 1);
    }

    /// Of the handles that one source identifies, no two made fewer than
    /// 2^64 issues apart have one identifier, whatever their payloads are.
    pub proof fn lemma_issued_once(first: Data, second: Data, earlier: nat, later: nat)
        requires
            !(first is Path),
            !(second is Path),
            earlier < later < earlier + numbers(),
        ensures
            first.id_after(earlier) != second.id_after(later),
    {
        Id::lemma_issued_apart(earlier, later);
    }

    /// Handles with one identifier are equal, whatever their payloads are.
    pub proof fn lemma_equal_ids_equal_handles(first: Handle, second: Handle)
        requires
            first.id() == second.id(),
        ensures
            first.same_resource(&second),
            second.same_resource(&first),
    {
    }

    /// Equal handles have one identifier, so equality of handles is that of
    /// their identifiers: it holds of a handle and itself, and carries over
    /// from two pairs with a handle in common to the third.
    pub proof fn lemma_equality_is_of_ids(first: Handle, second: Handle, third: Handle)
        ensures
            first.same_resource(&second) <==> first.id() == second.id(),
            first.same_resource(&first),
            first.same_resource(&second) && second.same_resource(&third) ==> first.same_resource(&third),
    {
    }
}

impl Clone for Handle {
    /// A second handle of the same resource: the same identifier, and a
    /// share in the same payload.
    fn clone(&self) -> (copy: Handle)
        ensures
            copy == *self,
    {
        proof {
            use_type_invariant(self);
        }
        Handle { id: self.id, data: share(&self.data) }
    }
}

impl<T: Into<PathBuf>> From<T> for Handle {
    /// The handle of the vector image at the path that `path` turns into:
    /// what [`Handle::from_path`] makes of that path.
    fn from(path: T) -> (handle: Handle)
        ensures
            handle.data() matches Data::Path(at) && handle == Handle::at_path(*at) && handle.id()
                == Id::of_path(*at),
    {
        Handle::from_path(path.into())
    }
}

impl<T: Into<PathBuf>> FromSpecImpl<T> for Handle {
    open spec fn obeys_from_spec() -> bool {
        <T as IntoSpec<PathBuf>>::obeys_into_spec()
    }

    open spec fn from_spec(path: T) -> Handle {
        Handle::at_path(<T as IntoSpec<PathBuf>>::into_spec(path))
    }
}

impl PartialEq for Handle {
    fn eq(&self, other: &Handle) -> (equal: bool) {
        self.id == other.id
    }
}

impl PartialEqSpecImpl for Handle {
    open spec fn obeys_eq_spec() -> bool {
        true
    }

    open spec fn eq_spec(&self, other: &Handle) -> bool {
        self.same_resource(other)
    }
}

impl Eq for Handle {

}

impl Hash for Handle {
    /// Feeds the identifier to `state`, and nothing of the payload.
    fn hash<H: Hasher>(&self, state: &mut H) {
        feed(&self.id, state)
    }
}

} // verus!

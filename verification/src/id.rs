//! Identifiers of resources, and the source of the unique ones.

use crate::digest::{digest, digest_of};
use crate::path::{
    bytes_of, components, is_rooted, lemma_same_normal_form, normal_form, normalize, path_bytes,
};
use std::path::PathBuf;
use vstd::prelude::*;

verus! {

/// How many numbers a source has: 2^64.
pub open spec fn numbers() -> nat {
    0x1_0000_0000_0000_0000
}

/// The identity of a resource.
///
/// It is all that equality and hashing of a handle look at, so two resources
/// are the same to a cache exactly when their identifiers are equal.
#[derive(Clone, Copy, Debug, PartialEq, Eq, Hash, Structural)]
pub enum Id {
    /// The identifier of the resource at a path: the digest of the path's
    /// normal form. It is the same in every process.
    Path(u64),
    /// The identifier of a resource without a path: the number under which
    /// an [`IdSource`] issued it.
    Unique(u64),
}

/// Issues the identifiers of the resources that have no path.
///
/// A source counts the identifiers it issues and numbers each with the count
/// before it, starting again at zero after 2^64 of them. So an identifier
/// differs from every one of the 2^64 - 1 that the source issued before it.
/// Identifiers of two sources may coincide: a process that wants them unique
/// throughout keeps one source.
pub struct IdSource {
    next: u64,
    issued: Ghost<nat>,
}

impl IdSource {
    #[verifier::type_invariant]
    spec fn well_formed(&self) -> bool {
        self.next == self.issued@ % numbers()
    }

    /// How many identifiers the source has issued.
    pub closed spec fn count(&self) -> nat {
        self.issued@
    }

    /// The identifiers that the source has issued.
    pub open spec fn issued(&self) -> Set<Id> {
        Set::new(|id: Id| exists|earlier: nat| earlier < self.count() && id == Id::numbered(earlier))
    }

    /// A source that has issued nothing yet.
    pub fn new() -> (ids: IdSource)
        ensures
            ids.count() == 0,
    {
        IdSource { next: 0, issued: Ghost(0) }
    }

    /// A source that goes on where another stopped after it had issued
    /// `issued` identifiers. What it issues is new only if that other source
    /// is no longer asked.
    pub fn resumed(issued: u64) -> (ids: IdSource)
        ensures
            ids.count() == issued,
    {
        IdSource { next: issued, issued: Ghost(issued as nat) }
    }
}

impl Default for IdSource {
    fn default() -> (ids: IdSource)
        ensures
            ids.count() == 0,
    {
        IdSource::new()
    }
}

impl Id {
    /// The identifier that belongs to the path made of the bytes `path`.
    pub open spec fn of_bytes(path: Seq<u8>) -> Id {
        Id::Path(digest(normal_form(path)))
    }

    /// The identifier that belongs to the path `path`.
    pub open spec fn of_path(path: PathBuf) -> Id {
        Id::of_bytes(path_bytes(path))
    }

    /// The identifier that a source issues after `issued` others: it holds
    /// that count, taken modulo 2^64.
    pub open spec fn numbered(issued: nat) -> Id {
        Id::Unique((issued % numbers()) as u64)
    }

    /// The identifier of the resource at the path made of the bytes `path`.
    /// It depends on the normal form of the bytes alone.
    pub fn from_bytes(path: &[u8]) -> (id: Id)
        ensures
            id == Id::of_bytes(path@),
    {
        let normal = normalize(path);
        Id::Path(digest_of(normal.as_slice()))
    }

    /// The identifier of the resource at `path`. It depends on the path
    /// alone, and of it on the normal form of its bytes.
    pub fn from_path(path: &PathBuf) -> (id: Id)
        ensures
            id == Id::of_path(*path),
    {
        Id::from_bytes(bytes_of(path))
    }

    /// Issues the next identifier of `ids`. It differs from the one issued
    /// just before, and from all issued before while those are fewer than
    /// 2^64.
    pub fn unique(ids: &mut IdSource) -> (id: Id)
        ensures
            id == Id::numbered(old(ids).count()),
            final(ids).count() == old(ids).count() + 1,
            final(ids).issued() == old(ids).issued().insert(id),
            old(ids).count() < numbers() ==> !old(ids).issued().contains(id),
            old(ids).count() > 0 ==> id != Id::numbered((old(ids).count() - 1) as nat),
    {
        proof {
            use_type_invariant(&*ids);
            if ids.count() > 0 {
                Id::lemma_issued_apart((ids.count() - 1) as nat, ids.count());
            }
        }
        let ghost before = ids.issued@;
        let number = ids.next;
        let id = Id::Unique(number);
        *ids = IdSource { next: number.wrapping_add(1), issued: Ghost(before + 1) };
        proof {
            assert(ids.issued() =~= old(ids).issued().insert(id)) by {
                assert forall|other: Id| old(ids).issued().insert(id).contains(other) implies ids.issued().contains(other) by {
                    if other == id {
                        assert(before < ids.count() && other == Id::numbered(before));
                    } else {
                        let earlier = choose|earlier: nat|
                            earlier < before && other == Id::numbered(earlier);
                        assert(earlier < ids.count() && other == Id::numbered(earlier));
                    }
                }
                assert forall|other: Id| ids.issued().contains(other) implies old(ids).issued().insert(id).contains(other) by {
                    let earlier = choose|earlier: nat|
                        earlier < before + 1 && other == Id::numbered(earlier);
                    if earlier < before {
                        assert(earlier < old(ids).count() && other == Id::numbered(earlier));
                    }
                }
            }
        }
        id
    }

    /// Paths that agree in whether they start at the root and in their
    /// components have one identifier, however they are written.
    pub proof fn lemma_same_components_same_id(first: Seq<u8>, second: Seq<u8>)
        requires
            is_rooted(first) == is_rooted(second),
            components(first) == components(second),
        ensures
            Id::of_bytes(first) == Id::of_bytes(second),
    {
        lemma_same_normal_form(first, second);
    }

    /// Two identifiers that a source issues fewer than 2^64 issues apart are
    /// different; so are, always, two that it issues one after the other.
    pub proof fn lemma_issued_apart(earlier: nat, later: nat)
        requires
            earlier < later < earlier + numbers(),
        ensures
            Id::numbered(earlier) != Id::numbered(later),
    {
        if earlier % numbers() == later % numbers() {
            vstd::arithmetic::div_mod::lemma_fundamental_div_mod(earlier as int, numbers() as int);
            vstd::arithmetic::div_mod::lemma_fundamental_div_mod(later as int, numbers() as int);
            let e = earlier as int / numbers() as int;
            let l = later as int / numbers() as int;
            assert(later - earlier == numbers() * (l - e)) by (nonlinear_arith)
                requires
                    earlier == numbers() * e + earlier % numbers(),
                    later == numbers() * l + later % numbers(),
                    earlier % numbers() == later % numbers(),
            ;
            assert(false) by (nonlinear_arith)
                requires
                    0 < later - earlier < numbers(),
                    later - earlier == numbers() * (l - e),
            ;
        }
    }
}

} // verus!

//! What is read off a walk through the history of a branch, and the order
//! in which remotes are shown.

use crate::assoc_map::{AssocMap, Key};
use crate::git::Oid;
use crate::text::{chars_of, lemma_text_le_total, precedes, same_text, text_le, texts};
use vstd::prelude::*;

verus! {

/// The ids of a sequence of objects.
pub open spec fn id_views(ids: Seq<Oid>) -> Seq<Seq<u8>> {
    Seq::new(ids.len(), |i: int| ids[i]@)
}

/// The first position of `walk` that holds one of `marked`, or the length of
/// `walk` where it holds none.
pub open spec fn first_marked(walk: Seq<Seq<u8>>, marked: Set<Seq<u8>>) -> int
    decreases walk.len(),
{
    if walk.len() == 0 {
        0
    } else if marked.contains(walk[0]) {
        0
    } else {
        1 + first_marked(walk.skip(1), marked)
    }
}

/// `first_marked` is the one position that holds a marked id and has none
/// before it.
pub proof fn lemma_first_marked(walk: Seq<Seq<u8>>, marked: Set<Seq<u8>>, at: int)
    requires
        0 <= at <= walk.len(),
        forall|j: int| 0 <= j < at ==> !marked.contains(#[trigger] walk[j]),
        at < walk.len() ==> marked.contains(walk[at]),
    ensures
        first_marked(walk, marked) == at,
    decreases walk.len(),
{
    if walk.len() > 0 && at > 0 {
        assert(!marked.contains(walk[0]));
        let rest = walk.skip(1);
        assert forall|j: int| 0 <= j < at - 1 implies !marked.contains(#[trigger] rest[j]) by {
            assert(rest[j] == walk[j + 1]);
        }
        if at < walk.len() {
            assert(rest[at - 1] == walk[at]);
        }
        lemma_first_marked(rest, marked, at - 1);
    }
}

/// The tag of the first commit of a walk that carries one. The walk starts
/// at the head of a branch and steps back in time, so this is the latest
/// tag on the branch.
pub fn latest_tag<'a>(walk: &[Oid], tags: &'a AssocMap<Oid, String>) -> (found: Option<&'a String>)
    ensures
        match found {
            Some(name) => {
                let at = first_marked(id_views(walk@), tags@.dom());
                at < walk@.len() && name@ == tags@[walk@[at]@]
            },
            None => first_marked(id_views(walk@), tags@.dom()) == walk@.len(),
        },
{
    let mut i: usize = 0;
    while i < walk.len()
        invariant
            i <= walk@.len(),
            forall|j: int| 0 <= j < i ==> !tags@.dom().contains(#[trigger] id_views(walk@)[j]),
        decreases walk@.len() - i,
    {
        if let Some(name) = tags.lookup(&walk[i]) {
            proof {
                lemma_first_marked(id_views(walk@), tags@.dom(), i as int);
            }
            return Some(name);
        }
        assert(id_views(walk@)[i as int] == walk@[i as int]@);
        i += 1;
    }
    proof {
        lemma_first_marked(id_views(walk@), tags@.dom(), walk@.len() as int);
    }
    None
}

/// The set that holds the id to stop at, if there is one.
pub open spec fn stop_set(stop: Option<Oid>) -> Set<Seq<u8>> {
    match stop {
        Some(id) => set![id@],
        None => Set::empty(),
    }
}

/// Tests whether `id` is the id to stop at.
fn stops_at(stop: &Option<Oid>, id: &Oid) -> (yes: bool)
    ensures
        yes == stop_set(*stop).contains(id@),
{
    match stop {
        Some(end) => end.same(id),
        None => false,
    }
}

/// The commits of a walk that come before the commit to stop at, the oldest
/// first: the walk steps back in time, so they are turned round. Without a
/// commit to stop at, and where the walk does not reach it, these are all
/// commits of the walk.
pub fn commits_since(walk: &[Oid], stop: Option<Oid>) -> (since: Vec<Oid>)
    ensures
        id_views(since@) == id_views(walk@).take(
            first_marked(id_views(walk@), stop_set(stop)),
        ).reverse(),
{
    let mut end: usize = 0;
    while end < walk.len() && !stops_at(&stop, &walk[end])
        invariant
            end <= walk@.len(),
            forall|j: int| 0 <= j < end ==> !stop_set(stop).contains(#[trigger] id_views(walk@)[j]),
        decreases walk@.len() - end,
    {
        assert(id_views(walk@)[end as int] == walk@[end as int]@);
        end += 1;
    }
    proof {
        if end < walk@.len() {
            assert(id_views(walk@)[end as int] == walk@[end as int]@);
        }
        lemma_first_marked(id_views(walk@), stop_set(stop), end as int);
    }
    let ghost kept = id_views(walk@).take(end as int);
    let mut since: Vec<Oid> = Vec::new();
    let mut i: usize = end;
    while i > 0
        invariant
            i <= end <= walk@.len(),
            kept == id_views(walk@).take(end as int),
            since@.len() == end - i,
            forall|j: int| 0 <= j < since@.len() ==> (#[trigger] since@[j])@ == kept[end - 1 - j],
        decreases i,
    {
        i -= 1;
        since.push(walk[i]);
    }
    assert(id_views(since@) =~= kept.reverse());
    since
}

/// The name of the remote that is shown first.
pub open spec fn origin() -> Seq<char> {
    "origin"@
}

/// The order in which remotes are shown: `origin` first, the others as in
/// the dictionary.
pub open spec fn remote_le(a: Seq<char>, b: Seq<char>) -> bool {
    a == origin() || (b != origin() && text_le(a, b))
}

/// Each remote stands before the next in the order of remotes.
pub open spec fn remotes_ordered(names: Seq<Seq<char>>) -> bool {
    forall|i: int| 0 <= i && i + 1 < names.len() ==> remote_le(#[trigger] names[i], names[i + 1])
}

/// Tests whether `a` stands before `b` in the order of remotes, or is `b`.
fn remote_precedes(a: &str, b: &str) -> (yes: bool)
    ensures
        yes == remote_le(a@, b@),
{
    if same_text(a, "origin") {
        true
    } else if same_text(b, "origin") {
        false
    } else {
        let x = chars_of(a);
        let y = chars_of(b);
        precedes(x.as_slice(), y.as_slice())
    }
}

/// Puts the names of remotes in the order in which they are shown: `origin`
/// first, the others as in the dictionary.
pub fn order_remotes(names: &[String]) -> (ordered: Vec<String>)
    ensures
        remotes_ordered(texts(ordered@)),
        texts(ordered@).to_multiset() == texts(names@).to_multiset(),
{
    let mut ordered: Vec<String> = Vec::new();
    let mut i: usize = 0;
    assert(texts(names@).take(0) =~= texts(ordered@));
    while i < names.len()
        invariant
            i <= names@.len(),
            remotes_ordered(texts(ordered@)),
            texts(ordered@).to_multiset() == texts(names@).take(i as int).to_multiset(),
        decreases names@.len() - i,
    {
        let name = names[i].clone();
        let mut at: usize = 0;
        while at < ordered.len() && remote_precedes(ordered[at].as_str(), name.as_str())
            invariant
                at <= ordered@.len(),
                forall|j: int| 0 <= j < at ==> remote_le(texts(ordered@)[j], name@),
            decreases ordered@.len() - at,
        {
            at += 1;
        }
        let ghost before = texts(ordered@);
        let ghost added = name@;
        proof {
            if at < ordered@.len() {
                lemma_text_le_total(before[at as int], added);
            }
        }
        ordered.insert(at, name);
        proof {
            let after = texts(ordered@);
            assert(after =~= before.insert(at as int, added));
            assert forall|k: int| 0 <= k && k + 1 < after.len() implies remote_le(
                #[trigger] after[k],
                after[k + 1],
            ) by {
                if k + 1 < at {
                    assert(remote_le(before[k], before[k + 1]));
                } else if k + 1 == at {
                    assert(remote_le(before[k], added));
                } else if k == at {
                    assert(after[k + 1] == before[at as int]);
                } else {
                    assert(after[k] == before[k - 1]);
                    assert(after[k + 1] == before[k]);
                    assert(remote_le(before[k - 1], before[k]));
                }
            }
            assert(after.remove(at as int) =~= before);
            vstd::seq_lib::to_multiset_remove(after, at as int);
            after.to_multiset_ensures();
            assert(after.contains(added)) by {
                assert(after[at as int] == added);
            }
            assert(after.to_multiset() =~= before.to_multiset().insert(added));
            let sofar = texts(names@).take(i as int);
            assert(texts(names@).take(i + 1) =~= sofar.push(added));
            vstd::seq_lib::to_multiset_build(sofar, added);
        }
        i += 1;
    }
    assert(texts(names@).take(names@.len() as int) == texts(names@));
    ordered
}

/// What is found where the head of a branch is looked up.
#[derive(Debug, Clone, Copy, PartialEq, Eq)]
pub enum BranchHead {
    /// The branch is not there.
    Missing,
    /// The branch is there, and points to no commit.
    Unborn,
    /// The branch points to the commit of the given id.
    At(Oid),
}

/// What is to be done to bring a local branch up to its remote counterpart.
#[derive(Debug, Clone, Copy, PartialEq, Eq)]
pub enum BranchUpdate {
    /// Nothing is to be done.
    Nothing,
    /// The remote branch points to no commit: an error.
    InvalidRemote,
    /// The local branch is to be created at the commit of the given id.
    Create(Oid),
    /// The local branch is to be moved to `remote` if `remote` descends
    /// from `local`, and left where it is if not.
    FastForward { local: Oid, remote: Oid },
}

/// The mathematical value of a [`BranchHead`].
pub enum BranchHeadModel {
    Missing,
    Unborn,
    At(Seq<u8>),
}

/// The mathematical value of a [`BranchUpdate`].
pub enum BranchUpdateModel {
    Nothing,
    InvalidRemote,
    Create(Seq<u8>),
    FastForward { local: Seq<u8>, remote: Seq<u8> },
}

impl View for BranchHead {
    type V = BranchHeadModel;

    open spec fn view(&self) -> BranchHeadModel {
        match self {
            BranchHead::Missing => BranchHeadModel::Missing,
            BranchHead::Unborn => BranchHeadModel::Unborn,
            BranchHead::At(id) => BranchHeadModel::At(id@),
        }
    }
}

impl View for BranchUpdate {
    type V = BranchUpdateModel;

    open spec fn view(&self) -> BranchUpdateModel {
        match self {
            BranchUpdate::Nothing => BranchUpdateModel::Nothing,
            BranchUpdate::InvalidRemote => BranchUpdateModel::InvalidRemote,
            BranchUpdate::Create(id) => BranchUpdateModel::Create(id@),
            BranchUpdate::FastForward { local, remote } => BranchUpdateModel::FastForward {
                local: local@,
                remote: remote@,
            },
        }
    }
}

/// What is to be done to a local branch, given the head of its remote
/// counterpart. Without remote branch nothing is done. A local branch that
/// is missing is created where the remote one stands; one that points to no
/// commit, or to the same commit, is left alone; any other is moved forward
/// if that loses nothing.
pub open spec fn update_for(remote: BranchHeadModel, local: BranchHeadModel) -> BranchUpdateModel {
    match remote {
        BranchHeadModel::Missing => BranchUpdateModel::Nothing,
        BranchHeadModel::Unborn => BranchUpdateModel::InvalidRemote,
        BranchHeadModel::At(there) => match local {
            BranchHeadModel::Missing => BranchUpdateModel::Create(there),
            BranchHeadModel::Unborn => BranchUpdateModel::Nothing,
            BranchHeadModel::At(here) => if here == there {
                BranchUpdateModel::Nothing
            } else {
                BranchUpdateModel::FastForward { local: here, remote: there }
            },
        },
    }
}

/// Decides what is to be done to a local branch, given the head of its
/// remote counterpart.
pub fn plan_branch_update(remote: BranchHead, local: BranchHead) -> (update: BranchUpdate)
    ensures
        update@ == update_for(remote@, local@),
{
    match remote {
        BranchHead::Missing => BranchUpdate::Nothing,
        BranchHead::Unborn => BranchUpdate::InvalidRemote,
        BranchHead::At(there) => match local {
            BranchHead::Missing => BranchUpdate::Create(there),
            BranchHead::Unborn => BranchUpdate::Nothing,
            BranchHead::At(here) => if here.same(&there) {
                BranchUpdate::Nothing
            } else {
                BranchUpdate::FastForward { local: here, remote: there }
            },
        },
    }
}

} // verus!

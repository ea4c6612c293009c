//! A repository held in memory.

use crate::assoc_map::AssocMap;
use crate::error::{ErrorModel, GitPublishError};
use crate::git::{commit_views, CommitInfo, CommitInfoModel, Oid, Repository};
use crate::text::{chars_of, lemma_text_le_total, precedes, text_le, texts};
use vstd::prelude::*;

verus! {

/// A repository that holds commits, tags and branch heads in memory and
/// touches nothing else.
pub struct MockRepository {
    commits: AssocMap<Oid, CommitInfo>,
    tags: AssocMap<String, Oid>,
    branch_heads: AssocMap<String, Oid>,
}

/// The error for a branch that the repository does not hold.
pub open spec fn branch_not_found(branch: Seq<char>) -> ErrorModel {
    ErrorModel::Branch("Branch not found: "@ + branch)
}

/// The commits under the ids of `order` other than `from`, in that order.
pub open spec fn commits_but(
    order: Seq<Seq<u8>>,
    commits: Map<Seq<u8>, CommitInfoModel>,
    from: Seq<u8>,
) -> Seq<CommitInfoModel>
    decreases order.len(),
{
    if order.len() == 0 {
        Seq::empty()
    } else if order.last() == from {
        commits_but(order.drop_last(), commits, from)
    } else {
        commits_but(order.drop_last(), commits, from).push(commits[order.last()])
    }
}

/// Each hash stands before the next in the dictionary, or is the same.
pub open spec fn hashes_ascend(commits: Seq<CommitInfoModel>) -> bool {
    forall|i: int| 0 <= i && i + 1 < commits.len() ==> text_le(#[trigger] commits[i].hash, commits[i + 1].hash)
}

/// Tests whether the hash of `commit` stands before `hash` or is `hash`.
fn hash_precedes(commit: &CommitInfo, hash: &[char]) -> (yes: bool)
    ensures
        yes == text_le(commit.hash@, hash@),
{
    let own = chars_of(commit.hash.as_str());
    precedes(own.as_slice(), hash)
}

/// Puts a commit into a list that ascends by hash, behind the commits whose
/// hash is not greater.
fn insert_by_hash(sorted: &mut Vec<CommitInfo>, commit: CommitInfo)
    requires
        hashes_ascend(commit_views(old(sorted)@)),
    ensures
        hashes_ascend(commit_views(final(sorted)@)),
        commit_views(final(sorted)@).to_multiset() == commit_views(old(sorted)@).to_multiset().insert(
            commit@,
        ),
{
    let hash = chars_of(commit.hash.as_str());
    let mut at: usize = 0;
    while at < sorted.len() && hash_precedes(&sorted[at], hash.as_slice())
        invariant
            at <= sorted@.len(),
            sorted@ == old(sorted)@,
            hash@ == commit.hash@,
            forall|j: int| 0 <= j < at ==> text_le(commit_views(sorted@)[j].hash, hash@),
        decreases sorted@.len() - at,
    {
        at += 1;
    }
    proof {
        if at < sorted@.len() {
            lemma_text_le_total(commit_views(sorted@)[at as int].hash, hash@);
        }
    }
    let ghost before = commit_views(sorted@);
    let ghost added = commit@;
    sorted.insert(at, commit);
    proof {
        let after = commit_views(sorted@);
        assert(after =~= before.insert(at as int, added));
        assert forall|i: int| 0 <= i && i + 1 < after.len() implies text_le(
            #[trigger] after[i].hash,
            after[i + 1].hash,
        ) by {
            if i + 1 < at {
                assert(text_le(before[i].hash, before[i + 1].hash));
            } else if i + 1 == at {
                assert(text_le(before[i].hash, hash@));
            } else if i == at {
                assert(after[i + 1] == before[at as int]);
                assert(text_le(hash@, before[at as int].hash));
            } else {
                assert(after[i] == before[i - 1]);
                assert(after[i + 1] == before[i]);
                assert(text_le(before[i - 1].hash, before[i].hash));
            }
        }
        assert(after.remove(at as int) =~= before);
        vstd::seq_lib::to_multiset_remove(after, at as int);
        assert(before.to_multiset() == after.to_multiset().remove(added));
        after.to_multiset_ensures();
        assert(after.contains(added)) by {
            assert(after[at as int] == added);
        }
        assert(after.to_multiset() =~= before.to_multiset().insert(added));
    }
}

impl MockRepository {
    /// The commits of the repository, by id.
    pub closed spec fn commits(&self) -> Map<Seq<u8>, CommitInfoModel> {
        self.commits@
    }

    /// The ids of the commits, in the order in which they came.
    pub closed spec fn commit_order(&self) -> Seq<Seq<u8>> {
        self.commits.key_order()
    }

    /// The ids that the tags point to, by name.
    pub closed spec fn tags(&self) -> Map<Seq<char>, Seq<u8>> {
        self.tags@
    }

    /// The names of the tags, in the order in which they came.
    pub closed spec fn tag_order(&self) -> Seq<Seq<char>> {
        self.tags.key_order()
    }

    /// The ids of the heads of the branches, by name.
    pub closed spec fn branch_heads(&self) -> Map<Seq<char>, Seq<u8>> {
        self.branch_heads@
    }

    /// A repository that holds nothing.
    pub fn new() -> (repo: MockRepository)
        ensures
            repo.commits() == Map::<Seq<u8>, CommitInfoModel>::empty(),
            repo.commit_order() == Seq::<Seq<u8>>::empty(),
            repo.tags() == Map::<Seq<char>, Seq<u8>>::empty(),
            repo.tag_order() == Seq::<Seq<char>>::empty(),
            repo.branch_heads() == Map::<Seq<char>, Seq<u8>>::empty(),
    {
        MockRepository {
            commits: AssocMap::new(),
            tags: AssocMap::new(),
            branch_heads: AssocMap::new(),
        }
    }

    /// Puts a commit under an id; a commit that stood there is replaced.
    pub fn add_commit(&mut self, oid: Oid, info: CommitInfo)
        ensures
            final(self).commits() == old(self).commits().insert(oid@, info@),
            final(self).commit_order() == (if old(self).commits().dom().contains(oid@) {
                old(self).commit_order()
            } else {
                old(self).commit_order().push(oid@)
            }),
            final(self).tags() == old(self).tags(),
            final(self).tag_order() == old(self).tag_order(),
            final(self).branch_heads() == old(self).branch_heads(),
    {
        self.commits.insert(oid, info);
    }

    /// Makes a tag point to an id.
    pub fn add_tag(&mut self, name: &str, oid: Oid)
        ensures
            final(self).tags() == old(self).tags().insert(name@, oid@),
            final(self).tag_order() == (if old(self).tags().dom().contains(name@) {
                old(self).tag_order()
            } else {
                old(self).tag_order().push(name@)
            }),
            final(self).commits() == old(self).commits(),
            final(self).commit_order() == old(self).commit_order(),
            final(self).branch_heads() == old(self).branch_heads(),
    {
        self.tags.insert(name.to_string(), oid);
    }

    /// Makes the head of a branch point to an id.
    pub fn set_branch_head(&mut self, branch: &str, oid: Oid)
        ensures
            final(self).branch_heads() == old(self).branch_heads().insert(branch@, oid@),
            final(self).commits() == old(self).commits(),
            final(self).commit_order() == old(self).commit_order(),
            final(self).tags() == old(self).tags(),
            final(self).tag_order() == old(self).tag_order(),
    {
        self.branch_heads.insert(branch.to_string(), oid);
    }
}

impl Default for MockRepository {
    fn default() -> (repo: Self)
        ensures
            repo.commits() == Map::<Seq<u8>, CommitInfoModel>::empty(),
            repo.tags() == Map::<Seq<char>, Seq<u8>>::empty(),
            repo.branch_heads() == Map::<Seq<char>, Seq<u8>>::empty(),
    {
        MockRepository::new()
    }
}

impl Repository for MockRepository {
    /// The head of a branch that was set; an error for any other branch.
    fn get_branch_head_oid(&self, branch_name: &str) -> (r: Result<Oid, GitPublishError>)
        ensures
            match r {
                Ok(id) => self.branch_heads().dom().contains(branch_name@)
                    && id@ == self.branch_heads()[branch_name@],
                Err(e) => !self.branch_heads().dom().contains(branch_name@) && e@
                    == branch_not_found(branch_name@),
            },
    {
        match self.branch_heads.get(branch_name) {
            Some(id) => Ok(*id),
            None => {
                let mut message = "Branch not found: ".to_string();
                message.append(branch_name);
                Err(GitPublishError::Branch(message))
            },
        }
    }

    /// With two different ids: every commit but the one under `from_oid`,
    /// in ascending order of the hashes. With the same id twice: the commit
    /// under it, if there is one.
    open spec fn gives_commits(
        &self,
        from_oid: Oid,
        to_oid: Oid,
        answer: Result<Vec<CommitInfo>, GitPublishError>,
    ) -> bool {
        answer matches Ok(found) && (if from_oid@ == to_oid@ {
            commit_views(found@) == (if self.commits().dom().contains(from_oid@) {
                seq![self.commits()[from_oid@]]
            } else {
                Seq::<CommitInfoModel>::empty()
            })
        } else {
            &&& hashes_ascend(commit_views(found@))
            &&& commit_views(found@).to_multiset() == commits_but(
                self.commit_order(),
                self.commits(),
                from_oid@,
            ).to_multiset()
        })
    }

    fn get_commits_between(&self, from_oid: Oid, to_oid: Oid) -> (r: Result<
        Vec<CommitInfo>,
        GitPublishError,
    >)
    {
        let mut found: Vec<CommitInfo> = Vec::new();
        if crate::assoc_map::Key::same(&from_oid, &to_oid) {
            if let Some(commit) = self.commits.lookup(&from_oid) {
                found.push(commit.duplicate());
                assert(commit_views(found@) =~= seq![self.commits()[from_oid@]]);
            } else {
                assert(commit_views(found@) =~= Seq::<CommitInfoModel>::empty());
            }
            return Ok(found);
        }
        let count = self.commits.len();
        let mut i: usize = 0;
        assert(self.commit_order().take(0) == Seq::<Seq<u8>>::empty());
        assert(commit_views(found@) =~= Seq::<CommitInfoModel>::empty());
        while i < count
            invariant
                i <= count,
                count == self.commit_order().len(),
                hashes_ascend(commit_views(found@)),
                commit_views(found@).to_multiset() == commits_but(
                    self.commit_order().take(i as int),
                    self.commits(),
                    from_oid@,
                ).to_multiset(),
            decreases count - i,
        {
            let ghost order = self.commit_order();
            assert(order.take(i + 1).drop_last() == order.take(i as int));
            assert(order.take(i + 1).last() == order[i as int]);
            let id = self.commits.key_at(i);
            if !crate::assoc_map::Key::same(id, &from_oid) {
                let commit = self.commits.value_at(i).duplicate();
                proof {
                    vstd::seq_lib::to_multiset_build(
                        commits_but(order.take(i as int), self.commits(), from_oid@),
                        commit@,
                    );
                }
                insert_by_hash(&mut found, commit);
            }
            i += 1;
        }
        assert(self.commit_order().take(count as int) == self.commit_order());
        Ok(found)
    }

    /// The id that a tag points to, if the tag is there.
    fn find_tag_oid(&self, tag_name: &str) -> (r: Result<Option<Oid>, GitPublishError>)
        ensures
            r matches Ok(found) && match found {
                Some(id) => self.tags().dom().contains(tag_name@) && id@ == self.tags()[tag_name@],
                None => !self.tags().dom().contains(tag_name@),
            },
    {
        match self.tags.get(tag_name) {
            Some(id) => Ok(Some(*id)),
            None => Ok(None),
        }
    }

    /// The names of the tags, each once, in the order in which they came.
    fn list_tags(&self) -> (r: Result<Vec<String>, GitPublishError>)
        ensures
            r matches Ok(names) && texts(names@) == self.tag_order(),
            self.tag_order().no_duplicates(),
            self.tag_order().to_set() == self.tags().dom(),
    {
        let _ = self.tags.len();
        Ok(self.tags.keys())
    }

    /// Does nothing, and succeeds.
    fn create_tag(&self, name: &str, oid: Oid) -> (r: Result<(), GitPublishError>)
        ensures
            r is Ok,
    {
        Ok(())
    }

    /// Does nothing, and succeeds.
    fn push_tags(&self, remote: &str, tag_names: &[&str]) -> (r: Result<(), GitPublishError>)
        ensures
            r is Ok,
    {
        Ok(())
    }

    /// Fetches nothing, and gives the id of twenty zero bytes.
    fn fetch_from_remote(&self, remote: &str, branch: &str) -> (r: Result<Oid, GitPublishError>)
        ensures
            r matches Ok(id) && id@ == Seq::new(20, |i: int| 0u8),
    {
        Ok(Oid::zero())
    }
}

} // verus!

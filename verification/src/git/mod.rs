//! What a repository offers to the rest of the library: object ids, commits,
//! and the operations on branches and tags.

pub mod history;
pub mod mock;

pub use mock::MockRepository;

use crate::assoc_map::Key;
use crate::error::{ErrorModel, GitPublishError};
use vstd::prelude::*;

verus! {

/// The id of an object of a repository: twenty bytes.
#[derive(Debug, Clone, Copy, PartialEq, Eq, Hash)]
pub struct Oid {
    bytes: [u8; 20],
}

impl View for Oid {
    type V = Seq<u8>;

    closed spec fn view(&self) -> Seq<u8> {
        self.bytes@
    }
}

/// The error for an id that is not made of twenty bytes.
pub open spec fn invalid_id() -> ErrorModel {
    ErrorModel::Git("raw byte array must be 20 bytes"@)
}

impl Oid {
    /// The id made of the given bytes, which must be twenty.
    pub fn from_bytes(bytes: &[u8]) -> (r: Result<Oid, GitPublishError>)
        ensures
            match r {
                Ok(id) => bytes@.len() == 20 && id@ == bytes@,
                Err(e) => bytes@.len() != 20 && e@ == invalid_id(),
            },
    {
        if bytes.len() != 20 {
            return Err(GitPublishError::Git("raw byte array must be 20 bytes".to_string()));
        }
        let mut held: [u8; 20] = [0u8;20];
        let mut i: usize = 0;
        while i < 20
            invariant
                i <= 20,
                bytes@.len() == 20,
                forall|j: int| 0 <= j < i ==> held@[j] == bytes@[j],
            decreases 20 - i,
        {
            held[i] = bytes[i];
            i += 1;
        }
        assert(held@ =~= bytes@);
        Ok(Oid { bytes: held })
    }

    /// The id of twenty zero bytes.
    pub fn zero() -> (id: Oid)
        ensures
            id@ == Seq::new(20, |i: int| 0u8),
    {
        let held: [u8; 20] = [0u8;20];
        assert(held@ =~= Seq::new(20, |i: int| 0u8));
        Oid { bytes: held }
    }

    /// The twenty bytes of the id.
    pub fn as_bytes(&self) -> (bytes: &[u8; 20])
        ensures
            bytes@ == self@,
            bytes@.len() == 20,
    {
        &self.bytes
    }
}

impl Key for Oid {
    fn same(&self, other: &Self) -> (yes: bool) {
        let mut i: usize = 0;
        while i < 20
            invariant
                i <= 20,
                forall|j: int| 0 <= j < i ==> self.bytes@[j] == other.bytes@[j],
            decreases 20 - i,
        {
            if self.bytes[i] != other.bytes[i] {
                return false;
            }
            i += 1;
        }
        assert(self.bytes@ =~= other.bytes@);
        true
    }
}

/// What the analysis reads of a commit.
#[derive(Debug, Clone, PartialEq)]
pub struct CommitInfo {
    /// The hash of the commit, shortened.
    pub hash: String,
    /// The commit message.
    pub message: String,
    /// The author of the commit.
    pub author: String,
}

/// The mathematical value of a [`CommitInfo`].
pub struct CommitInfoModel {
    pub hash: Seq<char>,
    pub message: Seq<char>,
    pub author: Seq<char>,
}

impl View for CommitInfo {
    type V = CommitInfoModel;

    open spec fn view(&self) -> CommitInfoModel {
        CommitInfoModel { hash: self.hash@, message: self.message@, author: self.author@ }
    }
}

impl CommitInfo {
    /// A copy of the commit.
    pub fn duplicate(&self) -> (copy: CommitInfo)
        ensures
            copy@ == self@,
    {
        CommitInfo {
            hash: self.hash.clone(),
            message: self.message.clone(),
            author: self.author.clone(),
        }
    }
}

/// The views of a sequence of commits.
pub open spec fn commit_views(commits: Seq<CommitInfo>) -> Seq<CommitInfoModel> {
    Seq::new(commits.len(), |i: int| commits[i]@)
}

/// The messages of a sequence of commits.
pub open spec fn messages_of(commits: Seq<CommitInfo>) -> Seq<Seq<char>> {
    Seq::new(commits.len(), |i: int| commits[i].message@)
}

/// The operations on a repository that the library needs. An implementation
/// reads and changes a repository; what it finds there is its own affair,
/// and the library promises nothing of it.
pub trait Repository {
    /// The id of the commit at the head of a branch.
    fn get_branch_head_oid(&self, branch_name: &str) -> Result<Oid, GitPublishError>;

    /// Whether `answer` is what the repository may give when it is asked for
    /// the commits after `from_oid` up to `to_oid`. An implementation that
    /// says nothing of its answers may give any.
    open spec fn gives_commits(
        &self,
        from_oid: Oid,
        to_oid: Oid,
        answer: Result<Vec<CommitInfo>, GitPublishError>,
    ) -> bool {
        true
    }

    /// The commits after `from_oid` up to `to_oid`, the oldest first.
    fn get_commits_between(&self, from_oid: Oid, to_oid: Oid) -> (answer: Result<
        Vec<CommitInfo>,
        GitPublishError,
    >)
        ensures
            self.gives_commits(from_oid, to_oid, answer),
    ;

    /// The id that a tag points to, if the tag is there.
    fn find_tag_oid(&self, tag_name: &str) -> Result<Option<Oid>, GitPublishError>;

    /// The names of the tags.
    fn list_tags(&self) -> Result<Vec<String>, GitPublishError>;

    /// Creates a lightweight tag at an object.
    fn create_tag(&self, name: &str, oid: Oid) -> Result<(), GitPublishError>;

    /// Pushes tags to a remote.
    fn push_tags(&self, remote: &str, tag_names: &[&str]) -> Result<(), GitPublishError>;

    /// Fetches a branch from a remote and gives the id of its head there.
    fn fetch_from_remote(&self, remote: &str, branch: &str) -> Result<Oid, GitPublishError>;
}

} // verus!

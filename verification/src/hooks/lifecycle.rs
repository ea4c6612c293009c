//! The points at which a hook runs, and what it is told.

use crate::assoc_map::StringMap;
use crate::text::{decimal_text, push_decimal};
use vstd::prelude::*;

verus! {

/// The points at which a hook runs.
#[derive(Debug, Clone, Copy, PartialEq, Eq, Structural)]
pub enum HookType {
    PreTagCreate,
    PostTagCreate,
    PostPush,
}

impl HookType {
    /// The name of the hook as text.
    pub open spec fn name_text(self) -> Seq<char> {
        match self {
            HookType::PreTagCreate => "pre-tag-create"@,
            HookType::PostTagCreate => "post-tag-create"@,
            HookType::PostPush => "post-push"@,
        }
    }

    /// The name of the hook.
    pub fn name(&self) -> (name: &'static str)
        ensures
            name@ == self.name_text(),
    {
        match self {
            HookType::PreTagCreate => "pre-tag-create",
            HookType::PostTagCreate => "post-tag-create",
            HookType::PostPush => "post-push",
        }
    }
}

/// What a hook is told.
#[derive(Debug, Clone)]
pub struct HookContext {
    /// The hook that runs.
    pub hook_type: HookType,
    /// The branch that is tagged.
    pub branch: String,
    /// The tag that is created or pushed.
    pub tag: String,
    /// The remote that the tag goes to.
    pub remote: String,
    /// The kind of the bump, where it is known.
    pub version_bump: Option<String>,
    /// The number of commits since the latest tag, where it is known.
    pub commit_count: Option<usize>,
}

/// The mathematical value of a [`HookContext`].
pub struct HookContextModel {
    pub hook_type: HookType,
    pub branch: Seq<char>,
    pub tag: Seq<char>,
    pub remote: Seq<char>,
    pub version_bump: Option<Seq<char>>,
    pub commit_count: Option<nat>,
}

impl View for HookContext {
    type V = HookContextModel;

    open spec fn view(&self) -> HookContextModel {
        HookContextModel {
            hook_type: self.hook_type,
            branch: self.branch@,
            tag: self.tag@,
            remote: self.remote@,
            version_bump: match self.version_bump {
                Some(b) => Some(b@),
                None => None,
            },
            commit_count: match self.commit_count {
                Some(n) => Some(n as nat),
                None => None,
            },
        }
    }
}

impl HookContextModel {
    /// The variables that every hook gets: branch, tag and remote.
    pub open spec fn base_variables(self) -> Map<Seq<char>, Seq<char>> {
        Map::<Seq<char>, Seq<char>>::empty().insert("GITPUBLISH_BRANCH"@, self.branch).insert(
            "GITPUBLISH_TAG_NAME"@,
            self.tag,
        ).insert("GITPUBLISH_REMOTE"@, self.remote)
    }

    /// The base variables, and the kind of the bump where it is known.
    pub open spec fn with_bump(self) -> Map<Seq<char>, Seq<char>> {
        match self.version_bump {
            Some(bump) => self.base_variables().insert("GITPUBLISH_VERSION_BUMP"@, bump),
            None => self.base_variables(),
        }
    }

    /// The environment variables that stand for the context: branch, tag and
    /// remote always, the kind of the bump and the number of commits where
    /// they are known.
    pub open spec fn variables(self) -> Map<Seq<char>, Seq<char>> {
        match self.commit_count {
            Some(n) => self.with_bump().insert("GITPUBLISH_COMMIT_COUNT"@, decimal_text(n)),
            None => self.with_bump(),
        }
    }
}

impl HookContext {
    /// The environment variables that hand the context to a hook script.
    pub fn to_env_vars(&self) -> (env: StringMap)
        ensures
            env@ == self@.variables(),
    {
        let mut env = StringMap::new();
        env.insert("GITPUBLISH_BRANCH".to_string(), self.branch.clone());
        env.insert("GITPUBLISH_TAG_NAME".to_string(), self.tag.clone());
        env.insert("GITPUBLISH_REMOTE".to_string(), self.remote.clone());
        if let Some(bump) = &self.version_bump {
            env.insert("GITPUBLISH_VERSION_BUMP".to_string(), bump.clone());
        }
        if let Some(count) = self.commit_count {
            let mut number = String::new();
            push_decimal(&mut number, count as u64);
            assert(number@ == decimal_text(count as nat));
            env.insert("GITPUBLISH_COMMIT_COUNT".to_string(), number);
        }
        env
    }
}

} // verus!

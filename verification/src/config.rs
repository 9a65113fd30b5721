//! Project configuration and command line options.
use crate::error::{ConfigError, SyncError};
use crate::paths::Platform;
use vstd::prelude::*;

verus! {

/// Where a target's assets go.
#[derive(Clone, Copy, Debug, PartialEq, Eq, Structural)]
pub enum TargetType {
    /// Into Studio's content folder on this machine.
    Local,
    /// To the Roblox cloud.
    Roblox,
}

/// A place that assets are synced to.
pub struct TargetConfig {
    pub key: String,
    pub target_type: TargetType,
}

impl Clone for TargetConfig {
    fn clone(&self) -> (r: Self)
        ensures
            r == *self,
    {
        TargetConfig { key: self.key.clone(), target_type: self.target_type }
    }
}

/// A set of files that take part, given by a glob.
pub struct InputConfig {
    pub glob: String,
}

/// A universe whose experiences may use the uploaded sounds.
pub struct UniverseConfig {
    pub id: u64,
}

/// The configuration of a project.
pub struct Config {
    pub name: String,
    /// How paths are written.
    pub platform: Platform,
    /// The folder that the project lives in.
    pub root_path: String,
    pub targets: Vec<TargetConfig>,
    pub inputs: Vec<InputConfig>,
    pub universes: Vec<UniverseConfig>,
}

/// Who uploaded assets belong to.
pub struct CreatorOptions {
    pub user_id: Option<String>,
    pub group_id: Option<String>,
}

/// What the command line says about uploads. Secrets are of type `S`.
pub struct UploadOptions<S> {
    pub api_key: Option<S>,
    pub creator: Option<CreatorOptions>,
    pub auth_cookie: Option<S>,
    /// Whether sounds synced earlier get permissions too.
    pub force_permissions: bool,
}

/// What the command line says about the project.
pub struct ProjectOptions {
    /// The configuration, where it is not looked for in the working directory.
    pub config: Option<String>,
    /// The key of the target to sync to.
    pub target: String,
}

/// What the command line says about a sync.
pub struct SyncOptions<S> {
    pub project: ProjectOptions,
    pub upload: UploadOptions<S>,
    /// Whether assets are synced that have not changed.
    pub force: bool,
}

/// Who an uploaded asset is created for.
pub enum AssetCreator {
    User { user_id: String },
    Group { group_id: String },
}

impl Clone for AssetCreator {
    fn clone(&self) -> (r: Self)
        ensures
            r == *self,
    {
        match self {
            AssetCreator::User { user_id } => AssetCreator::User { user_id: user_id.clone() },
            AssetCreator::Group { group_id } => AssetCreator::Group { group_id: group_id.clone() },
        }
    }
}

/// Whether the first target with the key `key` is the one at position `at`.
pub open spec fn first_target(targets: Seq<TargetConfig>, key: Seq<char>, at: int) -> bool {
    &&& 0 <= at < targets.len()
    &&& targets[at].key@ == key
    &&& forall|i: int| 0 <= i < at ==> (#[trigger] targets[i]).key@ != key
}

/// Picks the first target that has the key `key`.
pub fn find_target(config: &Config, key: &str) -> (r: Result<TargetConfig, SyncError>)
    ensures
        match r {
            Ok(target) => exists|at: int| #[trigger]
                first_target(config.targets@, key@, at) && target == config.targets@[at],
            Err(e) => e == (SyncError::Config { source: ConfigError::UnknownTarget }) && forall|
                i: int,
            |
                0 <= i < config.targets@.len() ==> (#[trigger] config.targets@[i]).key@ != key@,
        },
{
    let wanted = key.to_owned();
    let mut i: usize = 0;
    while i < config.targets.len()
        invariant
            wanted@ == key@,
            i <= config.targets.len(),
            forall|j: int| 0 <= j < i ==> (#[trigger] config.targets@[j]).key@ != key@,
        decreases config.targets.len() - i,
    {
        if config.targets[i].key == wanted {
            assert(first_target(config.targets@, key@, i as int));
            return Ok(config.targets[i].clone());
        }
        i = i + 1;
    }
    Err(SyncError::Config { source: ConfigError::UnknownTarget })
}

} // verus!

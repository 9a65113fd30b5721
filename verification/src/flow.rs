//! A sync from the command line to its outcome, one stage after another.
//!
//! At each stage something has to be done outside: a folder linked, a file
//! read, a service asked. What came of it takes the sync to its next stage.
use crate::asset::Asset;
use crate::config::{
    find_target, first_target, AssetCreator, Config, SyncOptions, TargetConfig, TargetType,
};
use crate::error::{ConfigError, SessionError, StateError, SymlinkError, SyncError};
use crate::paths::{join_path, path_joined};
use crate::session::{assets_found, errors_found, records, SyncSession, WalkItem};
use crate::state::State;
use vstd::prelude::*;

verus! {

/// How assets are synced.
pub enum StrategyChoice {
    /// By copying them to a folder.
    Local { local_path: String },
    /// By uploading them on behalf of `creator`.
    Roblox { creator: AssetCreator },
}

/// What a session is opened with.
pub struct SyncSetup {
    pub config: Config,
    pub target: TargetConfig,
}

/// Where a sync stands.
pub enum SyncStage {
    /// The content folders have to be linked to `local_path`.
    Link { setup: SyncSetup, local_path: String },
    /// The state of earlier syncs has to be read.
    Open { setup: SyncSetup },
    /// The assets have to be looked for.
    Find { session: SyncSession },
    /// The assets have to be synced.
    Sync { session: SyncSession },
    /// `state` has to be written.
    Write { session: SyncSession, state: State },
    /// Code has to be generated from `state`.
    Generate { session: SyncSession, state: State },
    /// The sync is over.
    Done { outcome: Result<(), SyncError> },
}

/// What happened during a sync.
pub enum SyncEvent {
    Linked(Result<(), SymlinkError>),
    StateRead(Result<State, StateError>),
    /// What the directory walk came across, or why there was none.
    Walked(Result<Vec<WalkItem>, SyncError>),
    /// Each asset was synced, failed or was left alone.
    Synced,
    StateWritten(Result<(), StateError>),
    /// Code was generated, or `Err` says why not.
    Generated(Result<(), String>),
}

/// A sync under way.
pub struct SyncFlow {
    pub strategy: StrategyChoice,
    pub stage: SyncStage,
}

/// Whether the command line names a creator, and if so does it by a user or a
/// group.
pub open spec fn creator_complete<S>(options: SyncOptions<S>) -> bool {
    options.upload.creator matches Some(c) ==> c.user_id is Some || c.group_id is Some
}

/// Whether a sync to `target` gets as far as to ask for a creator.
pub open spec fn asks_for_creator<S>(options: SyncOptions<S>, target: TargetConfig) -> bool {
    target.target_type is Roblox && options.upload.api_key is Some
}

/// Whether `choice` is how assets get to `target`. An upload goes on behalf of
/// the user, or of the group where no user is named.
pub open spec fn chosen_strategy<S>(
    options: SyncOptions<S>,
    config: Config,
    target: TargetConfig,
    choice: Result<StrategyChoice, SyncError>,
) -> bool {
    match target.target_type {
        TargetType::Local => choice matches Ok(StrategyChoice::Local { local_path })
            && local_path@ == path_joined(config.platform, config.root_path@, ".runway"@),
        TargetType::Roblox => if options.upload.api_key is None {
            choice == Err::<StrategyChoice, SyncError>(SyncError::MissingApiKey)
        } else {
            match options.upload.creator {
                None => choice == Err::<StrategyChoice, SyncError>(SyncError::MissingCreator),
                Some(c) => choice matches Ok(StrategyChoice::Roblox { creator }) && match (
                    c.user_id,
                    c.group_id,
                ) {
                    (Some(id), _) => creator == (AssetCreator::User { user_id: id }),
                    (None, Some(id)) => creator == (AssetCreator::Group { group_id: id }),
                    (None, None) => false,
                },
            }
        },
    }
}

/// Chooses how assets get to `target`.
pub fn choose_strategy<S>(
    options: &SyncOptions<S>,
    config: &Config,
    target: &TargetConfig,
) -> (r: Result<StrategyChoice, SyncError>)
    requires
        asks_for_creator(*options, *target) ==> creator_complete(*options),
    ensures
        chosen_strategy(*options, *config, *target, r),
{
    match target.target_type {
        TargetType::Local => Ok(
            StrategyChoice::Local {
                local_path: join_path(config.platform, config.root_path.as_str(), ".runway"),
            },
        ),
        TargetType::Roblox => {
            if options.upload.api_key.is_none() {
                return Err(SyncError::MissingApiKey);
            }
            match &options.upload.creator {
                None => Err(SyncError::MissingCreator),
                Some(c) => {
                    if let Some(id) = &c.user_id {
                        Ok(
                            StrategyChoice::Roblox {
                                creator: AssetCreator::User { user_id: id.clone() },
                            },
                        )
                    } else if let Some(id) = &c.group_id {
                        Ok(
                            StrategyChoice::Roblox {
                                creator: AssetCreator::Group { group_id: id.clone() },
                            },
                        )
                    } else {
                        Err(SyncError::MissingCreator)
                    }
                },
            }
        },
    }
}

/// Whether a sync to `target` begins as `r`: by linking the content folders
/// where assets are copied, by reading the state where they are uploaded.
pub open spec fn begins<S>(
    options: SyncOptions<S>,
    config: Config,
    target: TargetConfig,
    r: Result<SyncFlow, SyncError>,
) -> bool {
    match r {
        Ok(flow) => {
            &&& chosen_strategy(options, config, target, Ok(flow.strategy))
            &&& match flow.strategy {
                StrategyChoice::Local { local_path } => flow.stage matches SyncStage::Link {
                    setup,
                    local_path: link_to,
                } && setup == (SyncSetup { config, target }) && link_to@ == local_path@,
                StrategyChoice::Roblox { creator } => flow.stage == (SyncStage::Open {
                    setup: SyncSetup { config, target },
                }),
            }
        },
        Err(e) => chosen_strategy(options, config, target, Err(e)),
    }
}

/// Begins a sync of the project `config` to `target`.
pub fn sync_with_config<S>(options: &SyncOptions<S>, config: Config, target: TargetConfig) -> (r:
    Result<SyncFlow, SyncError>)
    requires
        asks_for_creator(*options, target) ==> creator_complete(*options),
    ensures
        begins(*options, config, target, r),
{
    match choose_strategy(options, &config, &target) {
        Err(e) => Err(e),
        Ok(StrategyChoice::Local { local_path }) => {
            let link_to = local_path.clone();
            Ok(
                SyncFlow {
                    strategy: StrategyChoice::Local { local_path },
                    stage: SyncStage::Link {
                        setup: SyncSetup { config, target },
                        local_path: link_to,
                    },
                },
            )
        },
        Ok(StrategyChoice::Roblox { creator }) => Ok(
            SyncFlow {
                strategy: StrategyChoice::Roblox { creator },
                stage: SyncStage::Open { setup: SyncSetup { config, target } },
            },
        ),
    }
}

/// Whether a sync begins as `r`, given what came of reading the configuration: to
/// the first target that has the key which the command line names.
pub open spec fn begins_as_named<S>(
    options: SyncOptions<S>,
    read: Result<Config, ConfigError>,
    r: Result<SyncFlow, SyncError>,
) -> bool {
    match read {
        Err(source) => r == Err::<SyncFlow, SyncError>(SyncError::Config { source }),
        Ok(config) => {
            &&& forall|at: int| #[trigger]
                first_target(config.targets@, options.project.target@, at) ==> begins(
                    options,
                    config,
                    config.targets@[at],
                    r,
                )
            &&& (forall|i: int|
                0 <= i < config.targets@.len() ==> (#[trigger] config.targets@[i]).key@
                    != options.project.target@) ==> r == Err::<SyncFlow, SyncError>(
                SyncError::Config { source: ConfigError::UnknownTarget },
            )
        },
    }
}

/// Begins a sync to the target that the command line names, given what came of
/// reading the configuration.
pub fn sync<S>(options: &SyncOptions<S>, read: Result<Config, ConfigError>) -> (r: Result<
    SyncFlow,
    SyncError,
>)
    requires
        read matches Ok(config) ==> forall|at: int| #[trigger]
            first_target(config.targets@, options.project.target@, at) && asks_for_creator(
                *options,
                config.targets@[at],
            ) ==> creator_complete(*options),
    ensures
        begins_as_named(*options, read, r),
        match read {
            Err(source) => r == Err::<SyncFlow, SyncError>(SyncError::Config { source }),
            Ok(config) => {
                ||| exists|at: int| #[trigger]
                    first_target(config.targets@, options.project.target@, at) && begins(
                        *options,
                        config,
                        config.targets@[at],
                        r,
                    )
                ||| (forall|i: int|
                    0 <= i < config.targets@.len() ==> (#[trigger] config.targets@[i]).key@
                        != options.project.target@) && r == Err::<SyncFlow, SyncError>(
                    SyncError::Config { source: ConfigError::UnknownTarget },
                )
            },
        },
{
    match read {
        Err(source) => Err(SyncError::Config { source }),
        Ok(config) => match find_target(&config, options.project.target.as_str()) {
            Err(e) => Err(e),
            Ok(target) => sync_with_config(options, config, target),
        },
    }
}

/// Whether an event takes a sync from one stage to the next. An event that does
/// not belong to the stage changes nothing.
pub open spec fn flow_step(
    force: bool,
    before: SyncStage,
    event: SyncEvent,
    after: SyncStage,
) -> bool {
    match (before, event) {
        (SyncStage::Link { setup, local_path }, SyncEvent::Linked(Ok(_))) => after == (
        SyncStage::Open { setup }),
        (SyncStage::Link { setup, local_path }, SyncEvent::Linked(Err(source))) => after == (
        SyncStage::Done { outcome: Err(SyncError::SymlinkError { source }) }),
        (SyncStage::Open { setup }, SyncEvent::StateRead(Ok(state))) => {
            &&& after matches SyncStage::Find { session }
            &&& session.config == setup.config
            &&& session.target == setup.target
            &&& session.prev_state == state
            &&& session.force_sync == force
            &&& session.assets@ == Map::<Seq<char>, Asset>::empty()
            &&& session.errors@ == Seq::<SessionError>::empty()
        },
        (SyncStage::Open { setup }, SyncEvent::StateRead(Err(source))) => after == (
        SyncStage::Done { outcome: Err(SyncError::State { source }) }),
        (SyncStage::Find { session }, SyncEvent::Walked(Ok(found))) => {
            &&& after matches SyncStage::Sync { session: next }
            &&& next.same_setup(session)
            &&& next.assets@ == assets_found(session.assets@, found@)
            &&& next.errors@ == errors_found(session.errors@, found@)
        },
        (SyncStage::Find { session }, SyncEvent::Walked(Err(e))) => after == (SyncStage::Done {
            outcome: Err(e),
        }),
        (SyncStage::Sync { session }, SyncEvent::Synced) => {
            &&& after matches SyncStage::Write { session: same, state }
            &&& same == session
            &&& records(state.assets@, session.assets@)
        },
        (SyncStage::Write { session, state }, SyncEvent::StateWritten(Ok(_))) => after == (
        SyncStage::Generate { session, state }),
        (SyncStage::Write { session, state }, SyncEvent::StateWritten(Err(source))) => after == (
        SyncStage::Done { outcome: Err(SyncError::State { source }) }),
        (SyncStage::Generate { session, state }, SyncEvent::Generated(generated)) => {
            let count = session.errors@.len() + if generated is Err {
                1int
            } else {
                0
            };
            &&& after matches SyncStage::Done { outcome }
            &&& if count == 0 {
                outcome == Ok::<(), SyncError>(())
            } else {
                outcome matches Err(SyncError::HadErrors { error_count }) && error_count == count
            }
        },
        _ => after == before,
    }
}

impl SyncStage {
    /// Whether the session, where there is one, is valid.
    pub open spec fn valid(self) -> bool {
        match self {
            SyncStage::Find { session } => session.valid(),
            SyncStage::Sync { session } => session.valid(),
            SyncStage::Write { session, .. } => session.valid(),
            SyncStage::Generate { session, .. } => session.valid(),
            _ => true,
        }
    }
}

impl SyncFlow {
    /// Takes a sync on after an event.
    pub fn step<S>(self, options: &SyncOptions<S>, event: SyncEvent) -> (r: Self)
        requires
            self.stage.valid(),
        ensures
            r.strategy == self.strategy,
            flow_step(options.force, self.stage, event, r.stage),
            r.stage.valid(),
    {
        let SyncFlow { strategy, stage } = self;
        let stage = match (stage, event) {
            (SyncStage::Link { setup, .. }, SyncEvent::Linked(Ok(_))) => SyncStage::Open { setup },
            (SyncStage::Link { .. }, SyncEvent::Linked(Err(source))) => SyncStage::Done {
                outcome: Err(SyncError::SymlinkError { source }),
            },
            (SyncStage::Open { setup }, SyncEvent::StateRead(read)) => {
                match SyncSession::new(options, setup.config, setup.target, read) {
                    Ok(session) => SyncStage::Find { session },
                    Err(e) => SyncStage::Done { outcome: Err(e) },
                }
            },
            (SyncStage::Find { session }, SyncEvent::Walked(Ok(found))) => {
                let mut session = session;
                session.find_assets(found);
                SyncStage::Sync { session }
            },
            (SyncStage::Find { .. }, SyncEvent::Walked(Err(e))) => SyncStage::Done {
                outcome: Err(e),
            },
            (SyncStage::Sync { session }, SyncEvent::Synced) => {
                let state = session.write_state();
                SyncStage::Write { session, state }
            },
            (
                SyncStage::Write { session, state },
                SyncEvent::StateWritten(Ok(_)),
            ) => SyncStage::Generate { session, state },
            (SyncStage::Write { .. }, SyncEvent::StateWritten(Err(source))) => SyncStage::Done {
                outcome: Err(SyncError::State { source }),
            },
            (SyncStage::Generate { session, .. }, SyncEvent::Generated(generated)) => {
                let mut session = session;
                if let Err(message) = generated {
                    session.raise_error(SessionError::Codegen { message });
                }
                SyncStage::Done { outcome: session.finish() }
            },
            (stage, _) => stage,
        };
        SyncFlow { strategy, stage }
    }
}

} // verus!

//! The upload of one asset to the Roblox cloud, one request after another.
//!
//! An upload is a state that answers each event with a next state and says
//! what is to be done next. Waiting and talking to the service happens
//! elsewhere.
use crate::asset::AssetType;
use crate::error::{PreprocessError, RbxCloudError, SyncError};
use crate::text::{has_part, text_contains, without_prefix};
use vstd::arithmetic::power2::{lemma2_to64, lemma_pow2_strictly_increases, lemma_pow2_unfold, pow2};
use vstd::prelude::*;

verus! {

/// How often the creation of one asset is tried.
pub const MAX_CREATE_FAILURES: usize = 3;

/// How many failed polls of one operation are too many.
pub const MAX_GET_FAILURES: usize = 3;

/// How often the texture of one decal is asked for.
pub const MAX_TEXTUREID_FAILURES: usize = 3;

/// Seconds between two tries of creating an asset.
pub const CREATE_RETRY_WAIT: u64 = 3;

/// The last poll whose wait, in seconds, a `u64` can hold.
pub const LAST_POLL: u32 = 63;

/// What the service says about an operation that is under way.
pub struct OperationReply {
    /// The new asset's id, once there is one.
    pub asset_id: Option<String>,
    pub done: Option<bool>,
}

/// What happened to an upload.
pub enum UploadEvent {
    /// The asset was made ready, or could not be.
    Preprocessed(Result<(), PreprocessError>),
    /// The service answered a request to create the asset with the path of
    /// the operation that does so.
    Created(Result<Option<String>, RbxCloudError>),
    /// The service said how the operation stands.
    Polled(Result<OperationReply, RbxCloudError>),
    /// The texture of a decal was asked for, and found or not.
    Textured(Option<String>),
}

/// Where an upload stands.
pub enum UploadStage {
    Preprocess,
    /// `attempt` creations have failed.
    Create { attempt: usize },
    /// The operation was polled `polls` times, and `failures` of these failed.
    Poll { operation_id: String, polls: u32, failures: usize },
    /// The texture of the new decal was asked for `failures` times in vain.
    Texture { asset_id: String, failures: usize },
    Done { outcome: Result<String, SyncError> },
}

/// The upload of one asset.
pub struct UploadTask {
    pub asset_type: AssetType,
    /// The name that the asset is created under.
    pub name: String,
    pub stage: UploadStage,
}

/// What an upload needs next.
pub enum UploadAction {
    /// Make the asset ready.
    Preprocess,
    /// Wait that many seconds, then ask the service to create the asset.
    Create { wait: u64, name: String },
    /// Wait that many seconds, then ask how the operation stands.
    Poll { wait: u64, operation_id: String },
    /// Ask for the texture of a decal.
    Texture { asset_id: String },
    /// Nothing: the upload is over.
    Finished,
}

/// Where an upload stands, as a value.
pub enum StageModel {
    Preprocess,
    Create { attempt: nat },
    Poll { operation_id: Seq<char>, polls: nat, failures: nat },
    Texture { asset_id: Seq<char>, failures: nat },
    Done { outcome: Result<Seq<char>, SyncError> },
}

/// The upload of one asset, as a value.
pub struct UploadModel {
    pub asset_type: AssetType,
    pub name: Seq<char>,
    pub stage: StageModel,
}

/// What an upload needs next, as a value.
pub enum ActionModel {
    Preprocess,
    Create { wait: nat, name: Seq<char> },
    Poll { wait: nat, operation_id: Seq<char> },
    Texture { asset_id: Seq<char> },
    Finished,
}

impl View for UploadStage {
    type V = StageModel;

    open spec fn view(&self) -> StageModel {
        match *self {
            UploadStage::Preprocess => StageModel::Preprocess,
            UploadStage::Create { attempt } => StageModel::Create { attempt: attempt as nat },
            UploadStage::Poll { operation_id, polls, failures } => StageModel::Poll {
                operation_id: operation_id@,
                polls: polls as nat,
                failures: failures as nat,
            },
            UploadStage::Texture { asset_id, failures } => StageModel::Texture {
                asset_id: asset_id@,
                failures: failures as nat,
            },
            UploadStage::Done { outcome } => StageModel::Done { outcome: outcome_text(outcome) },
        }
    }
}

impl View for UploadTask {
    type V = UploadModel;

    open spec fn view(&self) -> UploadModel {
        UploadModel { asset_type: self.asset_type, name: self.name@, stage: self.stage@ }
    }
}

impl View for UploadAction {
    type V = ActionModel;

    open spec fn view(&self) -> ActionModel {
        match *self {
            UploadAction::Preprocess => ActionModel::Preprocess,
            UploadAction::Create { wait, name } => ActionModel::Create {
                wait: wait as nat,
                name: name@,
            },
            UploadAction::Poll { wait, operation_id } => ActionModel::Poll {
                wait: wait as nat,
                operation_id: operation_id@,
            },
            UploadAction::Texture { asset_id } => ActionModel::Texture { asset_id: asset_id@ },
            UploadAction::Finished => ActionModel::Finished,
        }
    }
}

/// An upload's outcome with the id as a sequence of characters.
pub open spec fn outcome_text(outcome: Result<String, SyncError>) -> Result<Seq<char>, SyncError> {
    match outcome {
        Ok(id) => Ok(id@),
        Err(e) => Err(e),
    }
}

/// What the path of an operation begins with.
pub open spec fn operation_prefix() -> Seq<char> {
    "operations/"@
}

/// Whether the answer to a creation names an operation, and if so does it in
/// the form that operations are named in.
pub open spec fn well_formed_creation(reply: Result<Option<String>, RbxCloudError>) -> bool {
    reply matches Ok(Some(path)) ==> operation_prefix().is_prefix_of(path@)
}

/// Reads the id of the operation out of the answer to a creation.
pub fn created_operation(reply: Result<Option<String>, RbxCloudError>) -> (r: Result<
    String,
    SyncError,
>)
    requires
        well_formed_creation(reply),
    ensures
        match reply {
            Ok(Some(path)) => r matches Ok(id) && path@ == operation_prefix() + id@,
            Ok(None) => r == Err::<String, SyncError>(SyncError::RobloxApi),
            Err(e) => r == Err::<String, SyncError>(SyncError::RbxCloud { source: e }),
        },
{
    match reply {
        Ok(Some(path)) => {
            match without_prefix(path.as_str(), "operations/") {
                Some(id) => Ok(id),
                None => Err(SyncError::RobloxApi),
            }
        },
        Ok(None) => Err(SyncError::RobloxApi),
        Err(e) => Err(SyncError::RbxCloud { source: e }),
    }
}

/// Reads the id of the new asset out of the answer to a poll.
pub fn polled_asset(reply: Result<OperationReply, RbxCloudError>) -> (r: Result<String, SyncError>)
    ensures
        match reply {
            Ok(answer) => match answer.asset_id {
                Some(id) => r == Ok::<String, SyncError>(id),
                None => if answer.done == Some(true) {
                    r == Err::<String, SyncError>(SyncError::UploadFailed)
                } else {
                    r == Err::<String, SyncError>(SyncError::UploadNotDone)
                },
            },
            Err(e) => r == Err::<String, SyncError>(SyncError::RbxCloud { source: e }),
        },
{
    match reply {
        Ok(answer) => match answer.asset_id {
            Some(id) => Ok(id),
            None => {
                let done = answer.done.unwrap_or(false);
                if done {
                    Err(SyncError::UploadFailed)
                } else {
                    Err(SyncError::UploadNotDone)
                }
            },
        },
        Err(e) => Err(SyncError::RbxCloud { source: e }),
    }
}

/// Whether the service turned an asset's name down.
pub open spec fn name_refused(error: RbxCloudError) -> bool {
    error matches RbxCloudError::HttpStatusError { code, msg } && code == 400 && text_contains(
        msg@,
        "Asset name and description is fully moderated."@,
    )
}

/// Tells whether an answer turns an asset's name down.
pub fn refuses_name(error: &RbxCloudError) -> (r: bool)
    ensures
        r == name_refused(*error),
{
    match error {
        RbxCloudError::HttpStatusError { code, msg } => *code == 400 && has_part(
            msg.as_str(),
            "Asset name and description is fully moderated.",
        ),
        _ => false,
    }
}

/// Tells whether a creation failed because the service turned the name down.
pub fn is_name_refused(error: &SyncError) -> (r: bool)
    ensures
        r == (*error matches SyncError::RbxCloud { source } && name_refused(source)),
{
    match error {
        SyncError::RbxCloud { source } => refuses_name(source),
        _ => false,
    }
}

/// Whether a creation was answered with a refusal of the name.
pub open spec fn reply_refuses_name(reply: Result<Option<String>, RbxCloudError>) -> bool {
    reply matches Err(e) && name_refused(e)
}

impl UploadModel {
    /// An upload that has not begun.
    pub open spec fn start(asset_type: AssetType, name: Seq<char>) -> UploadModel {
        UploadModel { asset_type, name, stage: StageModel::Preprocess }
    }

    /// This upload at another stage.
    pub open spec fn at(self, stage: StageModel) -> UploadModel {
        UploadModel { stage, ..self }
    }

    /// This upload once the service has given the asset an id. A decal's id
    /// still has to be mapped to that of its texture.
    pub open spec fn resolved(self, id: Seq<char>) -> UploadModel {
        if self.asset_type.decal() {
            self.at(StageModel::Texture { asset_id: id, failures: 0 })
        } else {
            self.at(StageModel::Done { outcome: Ok(id) })
        }
    }

    /// This upload after the answer to a creation.
    pub open spec fn after_create(
        self,
        attempt: nat,
        reply: Result<Option<String>, RbxCloudError>,
    ) -> UploadModel {
        match reply {
            Ok(Some(path)) => self.at(
                StageModel::Poll {
                    operation_id: path@.skip(operation_prefix().len() as int),
                    polls: 0,
                    failures: 0,
                },
            ),
            _ => UploadModel {
                name: if reply_refuses_name(reply) {
                    "RunwayAsset"@
                } else {
                    self.name
                },
                stage: if attempt + 1 < MAX_CREATE_FAILURES {
                    StageModel::Create { attempt: attempt + 1 }
                } else {
                    StageModel::Done { outcome: Err(SyncError::UploadFailed) }
                },
                ..self
            },
        }
    }

    /// This upload after a failed poll.
    pub open spec fn after_poll_failure(
        self,
        operation_id: Seq<char>,
        polls: nat,
        failures: nat,
    ) -> UploadModel {
        if failures + 1 < MAX_GET_FAILURES {
            self.at(StageModel::Poll { operation_id, polls: polls + 1, failures: failures + 1 })
        } else {
            self.at(StageModel::Done { outcome: Err(SyncError::UploadFailed) })
        }
    }

    /// This upload after the answer to a poll.
    pub open spec fn after_poll(
        self,
        operation_id: Seq<char>,
        polls: nat,
        failures: nat,
        reply: Result<OperationReply, RbxCloudError>,
    ) -> UploadModel {
        match reply {
            Ok(answer) => match answer.asset_id {
                Some(id) => self.resolved(id@),
                None => if answer.done == Some(true) {
                    self.after_poll_failure(operation_id, polls, failures)
                } else {
                    self.at(StageModel::Poll { operation_id, polls: polls + 1, failures })
                },
            },
            Err(_) => self.after_poll_failure(operation_id, polls, failures),
        }
    }

    /// This upload after a decal's texture was asked for.
    pub open spec fn after_texture(
        self,
        asset_id: Seq<char>,
        failures: nat,
        reply: Option<String>,
    ) -> UploadModel {
        match reply {
            Some(id) => self.at(StageModel::Done { outcome: Ok(id@) }),
            None => if failures + 1 < MAX_TEXTUREID_FAILURES {
                self.at(StageModel::Texture { asset_id, failures: failures + 1 })
            } else {
                self.at(StageModel::Done { outcome: Err(SyncError::RobloxApi) })
            },
        }
    }

    /// This upload after an event. An event that does not belong to the stage
    /// changes nothing.
    pub open spec fn step(self, event: UploadEvent) -> UploadModel {
        match (self.stage, event) {
            (StageModel::Preprocess, UploadEvent::Preprocessed(Ok(_))) => self.at(
                StageModel::Create { attempt: 0 },
            ),
            (StageModel::Preprocess, UploadEvent::Preprocessed(Err(source))) => self.at(
                StageModel::Done { outcome: Err(SyncError::Preprocess { source }) },
            ),
            (StageModel::Create { attempt }, UploadEvent::Created(reply)) => self.after_create(
                attempt,
                reply,
            ),
            (
                StageModel::Poll { operation_id, polls, failures },
                UploadEvent::Polled(reply),
            ) => self.after_poll(operation_id, polls, failures, reply),
            (
                StageModel::Texture { asset_id, failures },
                UploadEvent::Textured(reply),
            ) => self.after_texture(asset_id, failures, reply),
            _ => self,
        }
    }

    /// What this upload needs next. The wait before a poll doubles from one
    /// to the next.
    pub open spec fn action(self) -> ActionModel {
        match self.stage {
            StageModel::Preprocess => ActionModel::Preprocess,
            StageModel::Create { attempt } => ActionModel::Create {
                wait: if attempt > 0 {
                    CREATE_RETRY_WAIT as nat
                } else {
                    0
                },
                name: self.name,
            },
            StageModel::Poll { operation_id, polls, failures } => ActionModel::Poll {
                wait: pow2(polls + 1),
                operation_id,
            },
            StageModel::Texture { asset_id, failures } => ActionModel::Texture { asset_id },
            StageModel::Done { outcome } => ActionModel::Finished,
        }
    }

    /// Whether the wait before the next poll, if one is due, fits.
    pub open spec fn wait_fits(self) -> bool {
        self.stage matches StageModel::Poll { polls, .. } ==> polls < LAST_POLL
    }

    /// Whether the upload has kept within its limits.
    pub open spec fn valid(self) -> bool {
        match self.stage {
            StageModel::Create { attempt } => attempt < MAX_CREATE_FAILURES,
            StageModel::Poll { failures, .. } => failures < MAX_GET_FAILURES,
            StageModel::Texture { failures, .. } => failures < MAX_TEXTUREID_FAILURES
                && self.asset_type.decal(),
            _ => true,
        }
    }
}

/// Whether `r` is how an upload came out, if it is over.
pub open spec fn came_out_as(
    upload: UploadModel,
    r: Option<Result<String, SyncError>>,
) -> bool {
    match (upload.stage, r) {
        (StageModel::Done { outcome }, Some(o)) => outcome_text(o) == outcome,
        (StageModel::Done { .. }, None) => false,
        (_, r) => r is None,
    }
}

/// Two to the power of `exponent`.
fn power_of_two(exponent: u32) -> (r: u64)
    requires
        exponent <= LAST_POLL,
    ensures
        r == pow2(exponent as nat),
{
    let mut r: u64 = 1;
    let mut i: u32 = 0;
    proof {
        lemma2_to64();
    }
    while i < exponent
        invariant
            i <= exponent <= LAST_POLL,
            r == pow2(i as nat),
        decreases exponent - i,
    {
        proof {
            lemma_pow2_unfold((i + 1) as nat);
            lemma2_to64();
            if i < 31 {
                lemma_pow2_strictly_increases(i as nat, 31);
            } else if 31 < i < 62 {
                lemma_pow2_strictly_increases(i as nat, 62);
            }
            assert(pow2(62) == 0x4000000000000000) by {
                lemma_pow2_unfold(64);
                lemma_pow2_unfold(63);
            }
        }
        r = 2 * r;
        i = i + 1;
    }
    r
}

impl UploadTask {
    /// An upload of an asset under the name `name`.
    pub fn new(asset_type: AssetType, name: String) -> (r: Self)
        ensures
            r@ == UploadModel::start(asset_type, name@),
            r@.valid(),
    {
        UploadTask { asset_type, name, stage: UploadStage::Preprocess }
    }

    /// Tells whether the wait before the next poll, if one is due, fits.
    pub fn can_wait(&self) -> (r: bool)
        ensures
            r == self@.wait_fits(),
    {
        match &self.stage {
            UploadStage::Poll { polls, .. } => *polls < LAST_POLL,
            _ => true,
        }
    }

    /// What is to be done next.
    pub fn action(&self) -> (r: UploadAction)
        requires
            self@.wait_fits(),
        ensures
            r@ == self@.action(),
    {
        match &self.stage {
            UploadStage::Preprocess => UploadAction::Preprocess,
            UploadStage::Create { attempt } => {
                let wait: u64 = if *attempt > 0 {
                    CREATE_RETRY_WAIT
                } else {
                    0
                };
                UploadAction::Create { wait, name: self.name.clone() }
            },
            UploadStage::Poll { operation_id, polls, .. } => UploadAction::Poll {
                wait: power_of_two(*polls + 1),
                operation_id: operation_id.clone(),
            },
            UploadStage::Texture { asset_id, .. } => UploadAction::Texture {
                asset_id: asset_id.clone(),
            },
            UploadStage::Done { .. } => UploadAction::Finished,
        }
    }

    /// This upload at another stage.
    fn at(self, stage: UploadStage) -> (r: Self)
        ensures
            r@ == self@.at(stage@),
    {
        UploadTask { asset_type: self.asset_type, name: self.name, stage }
    }

    /// This upload after a failed poll.
    fn after_poll_failure(self, operation_id: String, polls: u32, failures: usize) -> (r: Self)
        requires
            polls < LAST_POLL,
            failures < MAX_GET_FAILURES,
        ensures
            r@ == self@.after_poll_failure(operation_id@, polls as nat, failures as nat),
    {
        if failures + 1 < MAX_GET_FAILURES {
            self.at(UploadStage::Poll { operation_id, polls: polls + 1, failures: failures + 1 })
        } else {
            self.at(UploadStage::Done { outcome: Err(SyncError::UploadFailed) })
        }
    }

    /// This upload after an event.
    pub fn step(self, event: UploadEvent) -> (r: Self)
        requires
            self@.valid(),
            self@.wait_fits(),
            event matches UploadEvent::Created(reply) ==> well_formed_creation(reply),
        ensures
            r@ == self@.step(event),
            r@.valid(),
    {
        let UploadTask { asset_type, name, stage } = self;
        match (stage, event) {
            (UploadStage::Preprocess, UploadEvent::Preprocessed(Ok(_))) => UploadTask {
                asset_type,
                name,
                stage: UploadStage::Create { attempt: 0 },
            },
            (UploadStage::Preprocess, UploadEvent::Preprocessed(Err(source))) => UploadTask {
                asset_type,
                name,
                stage: UploadStage::Done { outcome: Err(SyncError::Preprocess { source }) },
            },
            (UploadStage::Create { attempt }, UploadEvent::Created(reply)) => {
                match created_operation(reply) {
                    Ok(operation_id) => {
                        proof {
                            let path = reply->Ok_0->Some_0;
                            assert(path@.skip(operation_prefix().len() as int) =~= operation_id@);
                        }
                        UploadTask {
                            asset_type,
                            name,
                            stage: UploadStage::Poll { operation_id, polls: 0, failures: 0 },
                        }
                    },
                    Err(e) => {
                        let name = if is_name_refused(&e) {
                            "RunwayAsset".to_owned()
                        } else {
                            name
                        };
                        let stage = if attempt + 1 < MAX_CREATE_FAILURES {
                            UploadStage::Create { attempt: attempt + 1 }
                        } else {
                            UploadStage::Done { outcome: Err(SyncError::UploadFailed) }
                        };
                        UploadTask { asset_type, name, stage }
                    },
                }
            },
            (
                UploadStage::Poll { operation_id, polls, failures },
                UploadEvent::Polled(reply),
            ) => {
                let task = UploadTask { asset_type, name, stage: UploadStage::Preprocess };
                match polled_asset(reply) {
                    Ok(id) => {
                        if asset_type.is_decal() {
                            task.at(UploadStage::Texture { asset_id: id, failures: 0 })
                        } else {
                            task.at(UploadStage::Done { outcome: Ok(id) })
                        }
                    },
                    Err(SyncError::UploadNotDone) => task.at(
                        UploadStage::Poll { operation_id, polls: polls + 1, failures },
                    ),
                    Err(_) => task.after_poll_failure(operation_id, polls, failures),
                }
            },
            (UploadStage::Texture { asset_id, failures }, UploadEvent::Textured(reply)) => {
                let stage = match reply {
                    Some(id) => UploadStage::Done { outcome: Ok(id) },
                    None => if failures + 1 < MAX_TEXTUREID_FAILURES {
                        UploadStage::Texture { asset_id, failures: failures + 1 }
                    } else {
                        UploadStage::Done { outcome: Err(SyncError::RobloxApi) }
                    },
                };
                UploadTask { asset_type, name, stage }
            },
            (stage, _) => UploadTask { asset_type, name, stage },
        }
    }

    /// How the upload came out, once it is over.
    pub fn outcome(self) -> (r: Option<Result<String, SyncError>>)
        ensures
            came_out_as(self@, r),
            match self@.stage {
                StageModel::Done { outcome } => r matches Some(o) && outcome_text(o) == outcome,
                _ => r is None,
            },
    {
        match self.stage {
            UploadStage::Done { outcome } => Some(outcome),
            _ => None,
        }
    }
}

} // verus!

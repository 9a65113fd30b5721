//! What holds of every upload, whatever the service answers.
use crate::asset::AssetType;
use crate::error::SyncError;
use crate::upload::{
    reply_refuses_name, ActionModel, StageModel, UploadEvent, UploadModel, MAX_CREATE_FAILURES,
    MAX_GET_FAILURES, MAX_TEXTUREID_FAILURES,
};
use vstd::arithmetic::power2::{lemma2_to64, lemma_pow2_unfold};
use vstd::prelude::*;

verus! {

/// An upload after a run of events.
pub open spec fn run(upload: UploadModel, events: Seq<UploadEvent>) -> UploadModel
    decreases events.len(),
{
    if events.len() == 0 {
        upload
    } else {
        run(upload, events.drop_last()).step(events.last())
    }
}

/// How many of the events answer a request to create the asset.
pub open spec fn creations(upload: UploadModel, events: Seq<UploadEvent>) -> nat
    decreases events.len(),
{
    if events.len() == 0 {
        0
    } else {
        let before = events.drop_last();
        creations(upload, before) + if run(upload, before).stage is Create
            && events.last() is Created {
            1nat
        } else {
            0
        }
    }
}

/// Whether the answer to a poll counts as a failure: it is an error, or says
/// that the operation is done without naming an asset.
pub open spec fn poll_fails(event: UploadEvent) -> bool {
    match event {
        UploadEvent::Polled(Ok(answer)) => answer.asset_id is None && answer.done == Some(true),
        UploadEvent::Polled(Err(_)) => true,
        _ => false,
    }
}

/// Whether the answer to a poll says that the operation is still under way.
pub open spec fn poll_pending(event: UploadEvent) -> bool {
    event matches UploadEvent::Polled(Ok(answer)) && answer.asset_id is None && answer.done != Some(
        true,
    )
}

/// How many of the events are failed polls.
pub open spec fn failed_polls(upload: UploadModel, events: Seq<UploadEvent>) -> nat
    decreases events.len(),
{
    if events.len() == 0 {
        0
    } else {
        let before = events.drop_last();
        failed_polls(upload, before) + if run(upload, before).stage is Poll && poll_fails(
            events.last(),
        ) {
            1nat
        } else {
            0
        }
    }
}

/// How many of the events answer a request for a decal's texture.
pub open spec fn texture_requests(upload: UploadModel, events: Seq<UploadEvent>) -> nat
    decreases events.len(),
{
    if events.len() == 0 {
        0
    } else {
        let before = events.drop_last();
        texture_requests(upload, before) + if run(upload, before).stage is Texture
            && events.last() is Textured {
            1nat
        } else {
            0
        }
    }
}

/// How the counts of a run belong to the stage that it reached.
pub open spec fn counts_match(upload: UploadModel, events: Seq<UploadEvent>) -> bool {
    let made = creations(upload, events);
    let failed = failed_polls(upload, events);
    let asked = texture_requests(upload, events);
    match run(upload, events).stage {
        StageModel::Preprocess => made == 0 && failed == 0 && asked == 0,
        StageModel::Create { attempt } => made == attempt && attempt < MAX_CREATE_FAILURES
            && failed == 0 && asked == 0,
        StageModel::Poll { failures, .. } => 0 < made <= MAX_CREATE_FAILURES && failed == failures
            && failures < MAX_GET_FAILURES && asked == 0,
        StageModel::Texture { failures, .. } => 0 < made <= MAX_CREATE_FAILURES && failed
            < MAX_GET_FAILURES && asked == failures && failures < MAX_TEXTUREID_FAILURES,
        StageModel::Done { outcome } => {
            &&& made <= MAX_CREATE_FAILURES
            &&& failed <= MAX_GET_FAILURES
            &&& asked <= MAX_TEXTUREID_FAILURES
            &&& outcome matches Err(e) ==> {
                ||| e is Preprocess && made == 0
                ||| e is UploadFailed && (made == MAX_CREATE_FAILURES && failed == 0 || failed
                    == MAX_GET_FAILURES) && asked == 0
                ||| e is RobloxApi && asked == MAX_TEXTUREID_FAILURES
            }
        },
    }
}

proof fn lemma_counts_match(asset_type: AssetType, name: Seq<char>, events: Seq<UploadEvent>)
    ensures
        counts_match(UploadModel::start(asset_type, name), events),
        run(UploadModel::start(asset_type, name), events).asset_type == asset_type,
    decreases events.len(),
{
    if events.len() > 0 {
        lemma_counts_match(asset_type, name, events.drop_last());
    }
}

/// However the service answers, an asset's creation is requested at most
/// `MAX_CREATE_FAILURES` times, at most `MAX_GET_FAILURES` polls fail, and a
/// texture is asked for at most `MAX_TEXTUREID_FAILURES` times.
pub proof fn law_requests_are_bounded(
    asset_type: AssetType,
    name: Seq<char>,
    events: Seq<UploadEvent>,
)
    ensures
        creations(UploadModel::start(asset_type, name), events) <= MAX_CREATE_FAILURES,
        failed_polls(UploadModel::start(asset_type, name), events) <= MAX_GET_FAILURES,
        texture_requests(UploadModel::start(asset_type, name), events) <= MAX_TEXTUREID_FAILURES,
{
    lemma_counts_match(asset_type, name, events);
}

/// An upload fails for one of three reasons only: the asset could not be made
/// ready, the creations or the polls have used up their tries, or a decal's
/// texture was asked for in vain as often as it may be.
pub proof fn law_failures_are_earned(
    asset_type: AssetType,
    name: Seq<char>,
    events: Seq<UploadEvent>,
    error: SyncError,
)
    requires
        run(UploadModel::start(asset_type, name), events).stage == (StageModel::Done {
            outcome: Err(error),
        }),
    ensures
        ({
            let upload = UploadModel::start(asset_type, name);
            ||| error is Preprocess && creations(upload, events) == 0
            ||| error is UploadFailed && (creations(upload, events) == MAX_CREATE_FAILURES
                || failed_polls(upload, events) == MAX_GET_FAILURES)
            ||| error is RobloxApi && texture_requests(upload, events) == MAX_TEXTUREID_FAILURES
        }),
{
    lemma_counts_match(asset_type, name, events);
}

/// Whether an event brings the id that an asset of this kind is used by: the
/// texture's id for a decal, the asset's own id for anything else.
pub open spec fn gives_id(asset_type: AssetType, event: UploadEvent, id: Seq<char>) -> bool {
    if asset_type.decal() {
        event matches UploadEvent::Textured(Some(t)) && t@ == id
    } else {
        event matches UploadEvent::Polled(Ok(answer)) && answer.asset_id matches Some(t) && t@ == id
    }
}

/// The id that a successful upload ends with is one that the service gave: the
/// texture's id for a decal, the asset's own id for anything else.
pub proof fn law_uploaded_id_comes_from_the_service(
    asset_type: AssetType,
    name: Seq<char>,
    events: Seq<UploadEvent>,
    id: Seq<char>,
)
    requires
        run(UploadModel::start(asset_type, name), events).stage == (StageModel::Done {
            outcome: Ok(id),
        }),
    ensures
        exists|k: int| 0 <= k < events.len() && gives_id(asset_type, #[trigger] events[k], id),
    decreases events.len(),
{
    let upload = UploadModel::start(asset_type, name);
    let before = events.drop_last();
    lemma_counts_match(asset_type, name, events);
    if events.len() > 0 {
        lemma_counts_match(asset_type, name, before);
        lemma_texture_only_for_decals(asset_type, name, before);
        if run(upload, before).stage == (StageModel::Done { outcome: Ok(id) }) {
            law_uploaded_id_comes_from_the_service(asset_type, name, before, id);
            let k = choose|k: int|
                0 <= k < before.len() && gives_id(asset_type, #[trigger] before[k], id);
            assert(events[k] == before[k]);
        } else {
            assert(gives_id(asset_type, events[events.len() - 1], id));
        }
    }
}

proof fn lemma_texture_only_for_decals(
    asset_type: AssetType,
    name: Seq<char>,
    events: Seq<UploadEvent>,
)
    ensures
        run(UploadModel::start(asset_type, name), events).stage is Texture ==> asset_type.decal(),
    decreases events.len(),
{
    if events.len() > 0 {
        lemma_counts_match(asset_type, name, events.drop_last());
        lemma_texture_only_for_decals(asset_type, name, events.drop_last());
    }
}

/// An upload that is over stays as it is, whatever is still heard of it.
pub proof fn law_finished_uploads_stay(upload: UploadModel, events: Seq<UploadEvent>)
    requires
        upload.stage is Done,
    ensures
        run(upload, events) == upload,
    decreases events.len(),
{
    if events.len() > 0 {
        law_finished_uploads_stay(upload, events.drop_last());
    }
}

/// Answers that say an operation is still under way use up no tries: any
/// number of them leaves the upload polling, with the failures it had.
pub proof fn law_pending_polls_are_free(
    upload: UploadModel,
    operation_id: Seq<char>,
    polls: nat,
    failures: nat,
    events: Seq<UploadEvent>,
)
    requires
        upload.stage == (StageModel::Poll { operation_id, polls, failures }),
        forall|k: int| 0 <= k < events.len() ==> poll_pending(#[trigger] events[k]),
    ensures
        run(upload, events) == upload.at(
            StageModel::Poll { operation_id, polls: polls + events.len(), failures },
        ),
    decreases events.len(),
{
    if events.len() > 0 {
        let before = events.drop_last();
        assert forall|k: int| 0 <= k < before.len() implies poll_pending(#[trigger] before[k]) by {
            assert(before[k] == events[k]);
        }
        law_pending_polls_are_free(upload, operation_id, polls, failures, before);
        assert(poll_pending(events[events.len() - 1]));
    }
}

/// The first poll waits two seconds, and each further one twice as long as the
/// one before.
pub proof fn law_poll_waits_double(
    upload: UploadModel,
    operation_id: Seq<char>,
    polls: nat,
    failures: nat,
    event: UploadEvent,
)
    requires
        upload.stage == (StageModel::Poll { operation_id, polls, failures }),
    ensures
        polls == 0 ==> upload.action() == (ActionModel::Poll { wait: 2, operation_id }),
        upload.step(event) != upload && upload.step(event).stage is Poll ==> (
        upload.step(event).action() matches ActionModel::Poll { wait, operation_id: o } && o
            == operation_id && (upload.action() matches ActionModel::Poll { wait: w, .. } && wait
            == 2 * w)),
{
    lemma2_to64();
    lemma_pow2_unfold((polls + 2) as nat);
}

/// Whether the event at position `k` answers a creation by turning the name
/// down.
pub open spec fn refusal_at(upload: UploadModel, events: Seq<UploadEvent>, k: int) -> bool {
    &&& 0 <= k < events.len()
    &&& run(upload, events.take(k)).stage is Create
    &&& events[k] matches UploadEvent::Created(reply)
    &&& reply_refuses_name(reply)
}

/// Whether the name was turned down in one of the answers to a creation.
pub open spec fn name_was_refused(upload: UploadModel, events: Seq<UploadEvent>) -> bool {
    exists|k: int| refusal_at(upload, events, k)
}

proof fn lemma_refused_by_last(upload: UploadModel, events: Seq<UploadEvent>)
    requires
        events.len() > 0,
    ensures
        name_was_refused(upload, events) == (name_was_refused(upload, events.drop_last())
            || refusal_at(upload, events, events.len() - 1)),
{
    let before = events.drop_last();
    assert forall|k: int| 0 <= k < before.len() implies refusal_at(upload, before, k)
        == refusal_at(upload, events, k) by {
        assert(events.take(k) =~= before.take(k));
    }
    if name_was_refused(upload, before) {
        let k = choose|k: int| refusal_at(upload, before, k);
        assert(refusal_at(upload, events, k));
    }
    if name_was_refused(upload, events) {
        let k = choose|k: int| refusal_at(upload, events, k);
        if k < before.len() {
            assert(refusal_at(upload, before, k));
        }
    }
}

/// An asset is created under its own name until the service turns that name
/// down, and under the generic name from then on.
pub proof fn law_refused_names_are_replaced(
    asset_type: AssetType,
    name: Seq<char>,
    events: Seq<UploadEvent>,
)
    ensures
        run(UploadModel::start(asset_type, name), events).name == if name_was_refused(
            UploadModel::start(asset_type, name),
            events,
        ) {
            "RunwayAsset"@
        } else {
            name
        },
    decreases events.len(),
{
    let upload = UploadModel::start(asset_type, name);
    if events.len() > 0 {
        let before = events.drop_last();
        law_refused_names_are_replaced(asset_type, name, before);
        lemma_refused_by_last(upload, events);
        assert(events.take(events.len() - 1) =~= before);
    } else {
        assert forall|k: int| !refusal_at(upload, events, k) by {}
    }
}

} // verus!

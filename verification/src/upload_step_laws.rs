//! What each answer of the service means for an upload, and how an upload that
//! is answered well comes to its end.
use crate::asset::AssetType;
use crate::error::{PreprocessError, RbxCloudError, SyncError};
use crate::text::{occurs_at, text_contains};
use crate::upload::{
    came_out_as, ActionModel, OperationReply, StageModel, UploadAction, UploadEvent, UploadModel,
    UploadStage, UploadTask,
};
use crate::upload_laws::run;
use vstd::arithmetic::power2::pow2;
use vstd::prelude::*;

verus! {

/// Whether an asset is an image, which the service wraps in a decal.
pub open spec fn is_image(kind: AssetType) -> bool {
    ||| kind == AssetType::DecalPng
    ||| kind == AssetType::DecalJpeg
    ||| kind == AssetType::DecalBmp
    ||| kind == AssetType::DecalTga
}

/// Whether `text` holds `part`.
pub open spec fn holds_text(text: Seq<char>, part: Seq<char>) -> bool {
    exists|front: Seq<char>, back: Seq<char>| text == #[trigger] ((front + part) + back)
}

/// An upload is told by its asset's type, its name and its stage, and nothing of
/// these is hidden or made up.
pub proof fn law_uploads_show_what_they_are(task: UploadTask)
    ensures
        task@.asset_type == task.asset_type,
        task@.name == task.name@,
        match task.stage {
            UploadStage::Preprocess => task@.stage == StageModel::Preprocess,
            UploadStage::Create { attempt } => task@.stage == (StageModel::Create {
                attempt: attempt as nat,
            }),
            UploadStage::Poll { operation_id, polls, failures } => task@.stage == (
            StageModel::Poll {
                operation_id: operation_id@,
                polls: polls as nat,
                failures: failures as nat,
            }),
            UploadStage::Texture { asset_id, failures } => task@.stage == (StageModel::Texture {
                asset_id: asset_id@,
                failures: failures as nat,
            }),
            UploadStage::Done { outcome: Ok(id) } => task@.stage == (StageModel::Done {
                outcome: Ok(id@),
            }),
            UploadStage::Done { outcome: Err(e) } => task@.stage == (StageModel::Done {
                outcome: Err(e),
            }),
        },
{
}

/// What an upload asks for is told by all that belongs to it.
pub proof fn law_actions_show_what_they_are(action: UploadAction)
    ensures
        match action {
            UploadAction::Preprocess => action@ == ActionModel::Preprocess,
            UploadAction::Create { wait, name } => action@ == (ActionModel::Create {
                wait: wait as nat,
                name: name@,
            }),
            UploadAction::Poll { wait, operation_id } => action@ == (ActionModel::Poll {
                wait: wait as nat,
                operation_id: operation_id@,
            }),
            UploadAction::Texture { asset_id } => action@ == (ActionModel::Texture {
                asset_id: asset_id@,
            }),
            UploadAction::Finished => action@ == ActionModel::Finished,
        },
{
}

/// How an upload came out is told once it is over, with the id or the error that
/// it ended with, and not before.
pub proof fn law_outcomes_are_told_at_the_end(
    upload: UploadModel,
    r: Option<Result<String, SyncError>>,
)
    requires
        came_out_as(upload, r),
    ensures
        r is Some <==> upload.stage is Done,
        r matches Some(Ok(id)) ==> upload.stage == (StageModel::Done { outcome: Ok(id@) }),
        r matches Some(Err(e)) ==> upload.stage == (StageModel::Done { outcome: Err(e) }),
{
}

/// An upload begins with nothing done, under the name that it is given, and an
/// asset that was made ready is created for the first time; one that could not
/// be is given up for that very reason.
pub proof fn law_uploads_begin_by_preprocessing(
    kind: AssetType,
    name: Seq<char>,
    source: PreprocessError,
)
    ensures
        ({
            let upload = UploadModel::start(kind, name);
            let ready = upload.step(UploadEvent::Preprocessed(Ok(())));
            let broken = upload.step(UploadEvent::Preprocessed(Err(source)));
            &&& upload.asset_type == kind
            &&& upload.name == name
            &&& upload.stage is Preprocess
            &&& ready == (UploadModel {
                asset_type: kind,
                name,
                stage: StageModel::Create { attempt: 0 },
            })
            &&& broken == (UploadModel {
                asset_type: kind,
                name,
                stage: StageModel::Done { outcome: Err(SyncError::Preprocess { source }) },
            })
        }),
{
}

/// However many creations have failed before, an accepted one is followed: the
/// upload polls the very operation that the service named, with nothing counted
/// against it yet.
pub proof fn law_accepted_creations_are_polled(
    upload: UploadModel,
    attempt: nat,
    path: String,
    id: Seq<char>,
)
    requires
        upload.stage == (StageModel::Create { attempt }),
        path@ == "operations/"@ + id,
    ensures
        upload.step(UploadEvent::Created(Ok(Some(path)))) == (UploadModel {
            asset_type: upload.asset_type,
            name: upload.name,
            stage: StageModel::Poll { operation_id: id, polls: 0, failures: 0 },
        }),
{
    assert(path@.skip("operations/"@.len() as int) =~= id);
}

/// A creation that fails is tried again until it has failed three times, and
/// the asset's name is replaced exactly if the service says that it was
/// moderated.
pub proof fn law_failed_creations_are_tried_again(
    upload: UploadModel,
    attempt: nat,
    reply: Result<Option<String>, RbxCloudError>,
)
    requires
        upload.stage == (StageModel::Create { attempt }),
        attempt < 3,
        reply is Err || reply->Ok_0 is None,
    ensures
        ({
            let next = upload.step(UploadEvent::Created(reply));
            let moderated = reply matches Err(RbxCloudError::HttpStatusError { code, msg }) && code
                == 400 && holds_text(msg@, "Asset name and description is fully moderated."@);
            &&& next.asset_type == upload.asset_type
            &&& attempt < 2 ==> next.stage == (StageModel::Create { attempt: attempt + 1 })
            &&& attempt == 2 ==> next.stage == (StageModel::Done {
                outcome: Err(SyncError::UploadFailed),
            })
            &&& moderated ==> next.name == "RunwayAsset"@
            &&& !moderated ==> next.name == upload.name
        }),
{
    if let Err(RbxCloudError::HttpStatusError { code, msg }) = reply {
        lemma_parts(msg@, "Asset name and description is fully moderated."@);
    }
}

/// A text holds a part if and only if the part occurs in it at some position.
pub proof fn lemma_parts(text: Seq<char>, part: Seq<char>)
    ensures
        holds_text(text, part) <==> text_contains(text, part),
{
    if holds_text(text, part) {
        let (front, back) = choose|front: Seq<char>, back: Seq<char>|
            text == #[trigger] ((front + part) + back);
        assert(text.subrange(front.len() as int, (front.len() + part.len()) as int) =~= part);
        assert(occurs_at(text, part, front.len() as int));
    }
    if text_contains(text, part) {
        let at = choose|at: int| occurs_at(text, part, at);
        let front = text.take(at);
        let back = text.skip(at + part.len());
        assert(text =~= (front + part) + back);
    }
}

/// A poll that brings an id ends the upload with that id, but for an image,
/// whose texture is still to be asked for.
pub proof fn law_polled_ids_are_taken(
    upload: UploadModel,
    operation_id: Seq<char>,
    polls: nat,
    failures: nat,
    id: String,
    done: Option<bool>,
)
    requires
        upload.stage == (StageModel::Poll { operation_id, polls, failures }),
    ensures
        ({
            let reply = OperationReply { asset_id: Some(id), done };
            let next = upload.step(UploadEvent::Polled(Ok(reply)));
            &&& next.asset_type == upload.asset_type
            &&& next.name == upload.name
            &&& is_image(upload.asset_type) ==> next.stage == (StageModel::Texture {
                asset_id: id@,
                failures: 0,
            })
            &&& !is_image(upload.asset_type) ==> next.stage == (StageModel::Done {
                outcome: Ok(id@),
            })
        }),
{
}

/// A poll that brings no id is made again. It counts against the upload exactly
/// if it is an error or the operation is done, and the third such poll is the
/// last.
pub proof fn law_polls_without_an_id_are_repeated(
    upload: UploadModel,
    operation_id: Seq<char>,
    polls: nat,
    failures: nat,
    reply: Result<OperationReply, RbxCloudError>,
)
    requires
        upload.stage == (StageModel::Poll { operation_id, polls, failures }),
        failures < 3,
        reply is Err || reply->Ok_0.asset_id is None,
    ensures
        ({
            let next = upload.step(UploadEvent::Polled(reply));
            let fails = reply is Err || reply->Ok_0.done == Some(true);
            let counted = if fails {
                failures + 1
            } else {
                failures
            };
            &&& next.asset_type == upload.asset_type
            &&& next.name == upload.name
            &&& counted < 3 ==> next.stage == (StageModel::Poll {
                operation_id,
                polls: polls + 1,
                failures: counted,
            })
            &&& counted == 3 ==> next.stage == (StageModel::Done {
                outcome: Err(SyncError::UploadFailed),
            })
        }),
{
}

/// An image is used by the id of its texture, which is asked for up to three
/// times.
pub proof fn law_textures_are_asked_for(
    upload: UploadModel,
    asset_id: Seq<char>,
    failures: nat,
    reply: Option<String>,
)
    requires
        upload.stage == (StageModel::Texture { asset_id, failures }),
        failures < 3,
    ensures
        ({
            let next = upload.step(UploadEvent::Textured(reply));
            &&& next.asset_type == upload.asset_type
            &&& next.name == upload.name
            &&& reply matches Some(id) ==> next.stage == (StageModel::Done { outcome: Ok(id@) })
            &&& reply is None && failures < 2 ==> next.stage == (StageModel::Texture {
                asset_id,
                failures: failures + 1,
            })
            &&& reply is None && failures == 2 ==> next.stage == (StageModel::Done {
                outcome: Err(SyncError::RobloxApi),
            })
        }),
{
}

/// An answer to a question that was not asked changes nothing.
pub proof fn law_other_answers_change_nothing(upload: UploadModel, event: UploadEvent)
    requires
        upload.stage is Preprocess ==> !(event is Preprocessed),
        upload.stage is Create ==> !(event is Created),
        upload.stage is Poll ==> !(event is Polled),
        upload.stage is Texture ==> !(event is Textured),
    ensures
        upload.step(event) == upload,
{
}

/// What an upload asks for follows from where it stands: a first creation at
/// once and a further one after three seconds, under the name that the upload
/// has; a poll of its operation after two, four, eight and so on seconds; the
/// texture of its asset.
pub proof fn law_uploads_ask_for_what_is_next(upload: UploadModel)
    ensures
        match upload.stage {
            StageModel::Preprocess => upload.action() is Preprocess,
            StageModel::Create { attempt } => upload.action() matches ActionModel::Create {
                wait,
                name,
            } && name == upload.name && (attempt == 0 ==> wait == 0) && (attempt > 0 ==> wait == 3),
            StageModel::Poll { operation_id, polls, failures } => upload.action() == (
            ActionModel::Poll { wait: pow2(polls + 1), operation_id }),
            StageModel::Texture { asset_id, failures } => upload.action() == (
            ActionModel::Texture { asset_id }),
            StageModel::Done { outcome } => upload.action() is Finished,
        },
{
}

/// Whether every event is a creation that failed.
pub open spec fn creations_fail(events: Seq<UploadEvent>) -> bool {
    forall|k: int|
        0 <= k < events.len() ==> (#[trigger] events[k] matches UploadEvent::Created(reply) && (
        reply is Err || reply->Ok_0 is None))
}

/// Whether every event is a poll that brought no id.
pub open spec fn polls_bring_nothing(events: Seq<UploadEvent>) -> bool {
    forall|k: int|
        0 <= k < events.len() ==> (#[trigger] events[k] matches UploadEvent::Polled(reply) && (
        reply is Err || reply->Ok_0.asset_id is None))
}

/// How many of the polls count against an upload.
pub open spec fn polls_that_count(events: Seq<UploadEvent>) -> nat
    decreases events.len(),
{
    if events.len() == 0 {
        0
    } else {
        polls_that_count(events.drop_last()) + if events.last() matches UploadEvent::Polled(reply)
            && (reply is Err || reply->Ok_0.done == Some(true)) {
            1nat
        } else {
            0
        }
    }
}

/// Whether every event is an image's texture asked for in vain.
pub open spec fn textures_are_missing(events: Seq<UploadEvent>) -> bool {
    forall|k: int| 0 <= k < events.len() ==> #[trigger] events[k] == UploadEvent::Textured(None)
}

proof fn lemma_run_joined(upload: UploadModel, a: Seq<UploadEvent>, b: Seq<UploadEvent>)
    ensures
        run(upload, a + b) == run(run(upload, a), b),
    decreases b.len(),
{
    if b.len() == 0 {
        assert(a + b =~= a);
    } else {
        lemma_run_joined(upload, a, b.drop_last());
        assert((a + b).drop_last() =~= a + b.drop_last());
    }
}

proof fn lemma_run_one(upload: UploadModel, event: UploadEvent)
    ensures
        run(upload, seq![event]) == upload.step(event),
{
    assert(seq![event].drop_last() =~= Seq::<UploadEvent>::empty());
    reveal_with_fuel(run, 2);
}

proof fn lemma_creations_fail(upload: UploadModel, events: Seq<UploadEvent>)
    requires
        upload.stage == (StageModel::Create { attempt: 0 }),
        creations_fail(events),
        events.len() < 3,
    ensures
        run(upload, events).stage == (StageModel::Create { attempt: events.len() }),
        run(upload, events).asset_type == upload.asset_type,
    decreases events.len(),
{
    if events.len() > 0 {
        let before = events.drop_last();
        assert forall|k: int| 0 <= k < before.len() implies (
        #[trigger] before[k] matches UploadEvent::Created(reply) && (reply is Err
            || reply->Ok_0 is None)) by {
            assert(before[k] == events[k]);
        }
        lemma_creations_fail(upload, before);
        let last = events[events.len() - 1];
        law_failed_creations_are_tried_again(
            run(upload, before),
            before.len(),
            last->Created_0,
        );
    }
}

proof fn lemma_polls_go_on(
    upload: UploadModel,
    operation_id: Seq<char>,
    events: Seq<UploadEvent>,
)
    requires
        upload.stage == (StageModel::Poll { operation_id, polls: 0, failures: 0 }),
        polls_bring_nothing(events),
        polls_that_count(events) < 3,
    ensures
        run(upload, events).stage == (StageModel::Poll {
            operation_id,
            polls: events.len(),
            failures: polls_that_count(events),
        }),
        run(upload, events).asset_type == upload.asset_type,
    decreases events.len(),
{
    if events.len() > 0 {
        let before = events.drop_last();
        assert forall|k: int| 0 <= k < before.len() implies (
        #[trigger] before[k] matches UploadEvent::Polled(reply) && (reply is Err
            || reply->Ok_0.asset_id is None)) by {
            assert(before[k] == events[k]);
        }
        lemma_polls_go_on(upload, operation_id, before);
        let last = events[events.len() - 1];
        law_polls_without_an_id_are_repeated(
            run(upload, before),
            operation_id,
            before.len(),
            polls_that_count(before),
            last->Polled_0,
        );
    }
}

proof fn lemma_textures_go_on(upload: UploadModel, asset_id: Seq<char>, events: Seq<UploadEvent>)
    requires
        upload.stage == (StageModel::Texture { asset_id, failures: 0 }),
        textures_are_missing(events),
        events.len() < 3,
    ensures
        run(upload, events).stage == (StageModel::Texture { asset_id, failures: events.len() }),
    decreases events.len(),
{
    if events.len() > 0 {
        let before = events.drop_last();
        assert forall|k: int| 0 <= k < before.len() implies #[trigger] before[k]
            == UploadEvent::Textured(None) by {
            assert(before[k] == events[k]);
        }
        lemma_textures_go_on(upload, asset_id, before);
        assert(events[events.len() - 1] == UploadEvent::Textured(None));
        law_textures_are_asked_for(run(upload, before), asset_id, before.len(), None);
    }
}

/// The answers that an upload gets before it has an id: it is made ready, up to
/// two creations fail, one is accepted, polls bring no id, and one does.
pub open spec fn answers_up_to_the_id(
    failed: Seq<UploadEvent>,
    path: String,
    polls: Seq<UploadEvent>,
    id: String,
    done: Option<bool>,
) -> Seq<UploadEvent> {
    seq![UploadEvent::Preprocessed(Ok(()))] + failed + seq![UploadEvent::Created(Ok(Some(path)))]
        + polls + seq![UploadEvent::Polled(Ok(OperationReply { asset_id: Some(id), done }))]
}

/// An upload succeeds whenever the service lets it: if one of the first three
/// creations is accepted and a poll brings an id before three have failed, a
/// sound or a model ends with that id, and an image asks for the texture of that
/// asset.
pub proof fn law_accepted_uploads_succeed(
    kind: AssetType,
    name: Seq<char>,
    failed: Seq<UploadEvent>,
    path: String,
    operation_id: Seq<char>,
    polls: Seq<UploadEvent>,
    id: String,
    done: Option<bool>,
)
    requires
        creations_fail(failed),
        failed.len() < 3,
        path@ == "operations/"@ + operation_id,
        polls_bring_nothing(polls),
        polls_that_count(polls) < 3,
    ensures
        ({
            let events = answers_up_to_the_id(failed, path, polls, id, done);
            let end = run(UploadModel::start(kind, name), events);
            &&& end.asset_type == kind
            &&& !is_image(kind) ==> end.stage == (StageModel::Done { outcome: Ok(id@) })
            &&& is_image(kind) ==> end.stage == (StageModel::Texture {
                asset_id: id@,
                failures: 0,
            })
        }),
{
    let upload = UploadModel::start(kind, name);
    let ready = seq![UploadEvent::Preprocessed(Ok(()))];
    let accepted = seq![UploadEvent::Created(Ok(Some(path)))];
    let given = UploadEvent::Polled(Ok(OperationReply { asset_id: Some(id), done }));
    let first = run(upload, ready);
    lemma_run_one(upload, UploadEvent::Preprocessed(Ok(())));
    lemma_run_joined(upload, ready, failed);
    lemma_creations_fail(first, failed);
    let second = run(first, failed);
    lemma_run_joined(upload, ready + failed, accepted);
    lemma_run_one(second, UploadEvent::Created(Ok(Some(path))));
    law_accepted_creations_are_polled(second, failed.len(), path, operation_id);
    let third = run(second, accepted);
    lemma_run_joined(upload, ready + failed + accepted, polls);
    lemma_polls_go_on(third, operation_id, polls);
    let fourth = run(third, polls);
    lemma_run_joined(upload, ready + failed + accepted + polls, seq![given]);
    lemma_run_one(fourth, given);
    law_polled_ids_are_taken(
        fourth,
        operation_id,
        polls.len(),
        polls_that_count(polls),
        id,
        done,
    );
}

/// An image that has an id ends with the id of its texture, if that is found
/// within three tries.
pub proof fn law_accepted_images_succeed(
    kind: AssetType,
    name: Seq<char>,
    failed: Seq<UploadEvent>,
    path: String,
    operation_id: Seq<char>,
    polls: Seq<UploadEvent>,
    id: String,
    done: Option<bool>,
    misses: Seq<UploadEvent>,
    texture: String,
)
    requires
        is_image(kind),
        creations_fail(failed),
        failed.len() < 3,
        path@ == "operations/"@ + operation_id,
        polls_bring_nothing(polls),
        polls_that_count(polls) < 3,
        textures_are_missing(misses),
        misses.len() < 3,
    ensures
        run(
            UploadModel::start(kind, name),
            answers_up_to_the_id(failed, path, polls, id, done) + misses
                + seq![UploadEvent::Textured(Some(texture))],
        ).stage == (StageModel::Done { outcome: Ok(texture@) }),
{
    let upload = UploadModel::start(kind, name);
    let events = answers_up_to_the_id(failed, path, polls, id, done);
    let found = UploadEvent::Textured(Some(texture));
    law_accepted_uploads_succeed(kind, name, failed, path, operation_id, polls, id, done);
    let first = run(upload, events);
    lemma_run_joined(upload, events, misses);
    lemma_textures_go_on(first, id@, misses);
    let second = run(first, misses);
    lemma_run_joined(upload, events + misses, seq![found]);
    lemma_run_one(second, found);
    law_textures_are_asked_for(second, id@, misses.len(), Some(texture));
}

} // verus!

//! What holds of every sync, whatever comes of its single stages.
use crate::error::SyncError;
use crate::flow::{flow_step, SyncEvent, SyncStage};
use crate::session::records;
use vstd::prelude::*;

verus! {

/// The course of a sync: the stages that it came to, what these were when it
/// left them, and the events between.
pub struct SyncCourse {
    pub reached: Seq<SyncStage>,
    pub left: Seq<SyncStage>,
    pub events: Seq<SyncEvent>,
}

/// Whether a stage is left as it was reached. Only while assets are synced
/// does the session change, and then its setup stays.
pub open spec fn worked_on(reached: SyncStage, left: SyncStage) -> bool {
    match (reached, left) {
        (SyncStage::Sync { session }, SyncStage::Sync { session: worked }) => worked.same_setup(
            session,
        ),
        _ => reached == left,
    }
}

impl SyncCourse {
    /// Whether this is the course of a sync from its beginning on.
    pub open spec fn valid(self, force: bool) -> bool {
        &&& self.reached.len() == self.events.len() + 1
        &&& self.left.len() == self.events.len()
        &&& self.reached[0] is Link || self.reached[0] is Open
        &&& forall|k: int|
            0 <= k < self.events.len() ==> {
                &&& worked_on(self.reached[k], #[trigger] self.left[k])
                &&& flow_step(force, self.left[k], self.events[k], self.reached[k + 1])
            }
    }

    /// Whether event `k` says that the state was written, and that state holds
    /// what stands at the targets of each asset.
    pub open spec fn state_written_at(self, k: int) -> bool {
        &&& self.left[k] matches SyncStage::Write { session, state }
        &&& records(state.assets@, session.assets@)
        &&& self.events[k] matches SyncEvent::StateWritten(r)
        &&& r is Ok
    }

    /// Whether event `k` says that code was generated, and not one error was
    /// noted down before.
    pub open spec fn generated_at(self, k: int) -> bool {
        &&& self.left[k] matches SyncStage::Generate { session, state }
        &&& session.errors@.len() == 0
        &&& self.events[k] matches SyncEvent::Generated(r)
        &&& r is Ok
    }

    /// Whether the state was written in one of the first `n` events.
    pub open spec fn written_before(self, n: int) -> bool {
        exists|k: int| 0 <= k < n && #[trigger] self.state_written_at(k)
    }
}

/// How far along a stage is.
pub open spec fn rank(stage: SyncStage) -> int {
    match stage {
        SyncStage::Link { .. } => 0,
        SyncStage::Open { .. } => 1,
        SyncStage::Find { .. } => 2,
        SyncStage::Sync { .. } => 3,
        SyncStage::Write { .. } => 4,
        SyncStage::Generate { .. } => 5,
        SyncStage::Done { .. } => 6,
    }
}

/// A sync never goes back: an event leaves it where it is or takes it further.
pub proof fn law_syncs_only_go_forward(
    force: bool,
    before: SyncStage,
    event: SyncEvent,
    after: SyncStage,
)
    requires
        flow_step(force, before, event, after),
    ensures
        after == before || rank(after) > rank(before),
{
}

proof fn lemma_written(course: SyncCourse, force: bool, n: int)
    requires
        course.valid(force),
        0 <= n <= course.events.len(),
    ensures
        course.reached[n] matches SyncStage::Write { session, state } ==> records(
            state.assets@,
            session.assets@,
        ),
        course.reached[n] is Generate ==> course.written_before(n),
    decreases n,
{
    if n > 0 {
        let k = n - 1;
        lemma_written(course, force, k);
        assert(worked_on(course.reached[k], course.left[k]));
        if course.reached[n] is Generate {
            if course.left[k] is Generate {
                let w = choose|w: int| 0 <= w < k && #[trigger] course.state_written_at(w);
                assert(course.state_written_at(w));
            } else {
                assert(course.state_written_at(k));
            }
        }
    }
}

/// Only a sync that has done everything succeeds: the state was written, code
/// was generated after that, and not one error was noted down.
pub proof fn law_success_means_all_was_done(course: SyncCourse, force: bool)
    requires
        course.valid(force),
        course.reached.last() matches SyncStage::Done { outcome } && outcome is Ok,
    ensures
        exists|g: int|
            0 <= g < course.events.len() && #[trigger] course.generated_at(g)
                && course.written_before(g),
{
    lemma_success(course, force, course.events.len() as int);
}

proof fn lemma_success(course: SyncCourse, force: bool, n: int)
    requires
        course.valid(force),
        0 <= n <= course.events.len(),
        course.reached[n] matches SyncStage::Done { outcome } && outcome is Ok,
    ensures
        exists|g: int|
            0 <= g < n && #[trigger] course.generated_at(g) && course.written_before(g),
    decreases n,
{
    if n > 0 {
        let k = n - 1;
        assert(worked_on(course.reached[k], course.left[k]));
        if course.left[k] is Done {
            lemma_success(course, force, k);
        } else {
            lemma_written(course, force, k);
            assert(course.generated_at(k));
        }
    }
}

/// A sync of which a single asset, or code generation, failed still writes its
/// state, and then reports how many errors there were.
pub proof fn law_single_errors_do_not_stop_a_sync(
    force: bool,
    synced: SyncStage,
    writing: SyncStage,
    generating: SyncStage,
    generated: SyncEvent,
    end: SyncStage,
)
    requires
        synced is Sync,
        flow_step(force, synced, SyncEvent::Synced, writing),
        flow_step(force, writing, SyncEvent::StateWritten(Ok(())), generating),
        generated is Generated,
        flow_step(force, generating, generated, end),
    ensures
        ({
            let session = synced->Sync_session;
            let failed = session.errors@.len() + if generated->Generated_0 is Err {
                1int
            } else {
                0
            };
            &&& writing matches SyncStage::Write { session: s, state }
            &&& s == session
            &&& records(state.assets@, session.assets@)
            &&& generating is Generate
            &&& end matches SyncStage::Done { outcome }
            &&& outcome is Ok <==> failed == 0
            &&& failed > 0 ==> (outcome matches Err(
                SyncError::HadErrors { error_count },
            ) && error_count == failed)
        }),
{
}

} // verus!

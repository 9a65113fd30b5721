//! What holds of a sync into Studio's content folder from the command line to
//! its outcome.
use crate::asset::Asset;
use crate::config::{Config, SyncOptions, TargetConfig};
use crate::error::SyncError;
use crate::flow::{begins, flow_step, StrategyChoice, SyncEvent, SyncFlow, SyncStage};
use crate::flow_laws::SyncCourse;
use crate::local::{local_decision, local_step, settled, LocalEvent, LocalSyncStrategy};
use crate::local_laws::{lemma_local_progress, local_history, LocalMoment};
use crate::ordered_map::{increasing, lemma_increasing_index};
use crate::paths::path_joined;
use crate::session::{assets_found, SyncSession, WalkItem};
use crate::session_laws::{alike_target, alike_targets, lemma_asset_by_ident, well_ordered};
use crate::state::State;
use crate::text::{lemma_text_less_irreflexive, lemma_text_less_transitive, text_less};
use vstd::prelude::*;

verus! {

/// Whether two assets are the same, and the same is known of them.
pub open spec fn alike_asset(a: Asset, b: Asset) -> bool {
    &&& a.ident == b.ident
    &&& a.path == b.path
    &&& a.hash == b.hash
    &&& a.contents == b.contents
    &&& alike_targets(a.targets@, b.targets@)
}

/// Whether the same assets stand under the same identifiers.
pub open spec fn alike_assets(a: Map<Seq<char>, Asset>, b: Map<Seq<char>, Asset>) -> bool {
    &&& a.dom() == b.dom()
    &&& forall|ident: Seq<char>| #[trigger]
        a.contains_key(ident) ==> alike_asset(a[ident], b[ident])
}

/// Whether two sessions are the same in all that can be told of them.
pub open spec fn alike_session(a: SyncSession, b: SyncSession) -> bool {
    &&& a.same_setup(b)
    &&& a.errors@ == b.errors@
    &&& a.assets.keys() == b.assets.keys()
    &&& a.assets.values().len() == b.assets.values().len()
    &&& forall|j: int|
        0 <= j < a.assets.values().len() ==> alike_asset(
            #[trigger] a.assets.values()[j],
            b.assets.values()[j],
        )
}

/// Whether two states hold the same.
pub open spec fn alike_state(a: State, b: State) -> bool {
    &&& a.assets@.dom() == b.assets@.dom()
    &&& forall|ident: Seq<char>| #[trigger]
        a.assets@.contains_key(ident) ==> alike_targets(
            a.assets@[ident].targets@,
            b.assets@[ident].targets@,
        )
}

/// Whether two syncs stand at the same stage with the same at hand.
pub open spec fn alike_stage(a: SyncStage, b: SyncStage) -> bool {
    match (a, b) {
        (
            SyncStage::Link { setup, local_path },
            SyncStage::Link { setup: setup2, local_path: local_path2 },
        ) => setup == setup2 && local_path@ == local_path2@,
        (SyncStage::Open { setup }, SyncStage::Open { setup: setup2 }) => setup == setup2,
        (SyncStage::Find { session }, SyncStage::Find { session: session2 }) => alike_session(
            session,
            session2,
        ),
        (SyncStage::Sync { session }, SyncStage::Sync { session: session2 }) => alike_session(
            session,
            session2,
        ),
        (
            SyncStage::Write { session, state },
            SyncStage::Write { session: session2, state: state2 },
        ) => alike_session(session, session2) && alike_state(state, state2),
        (
            SyncStage::Generate { session, state },
            SyncStage::Generate { session: session2, state: state2 },
        ) => alike_session(session, session2) && alike_state(state, state2),
        (SyncStage::Done { outcome }, SyncStage::Done { outcome: outcome2 }) => outcome == outcome2,
        _ => false,
    }
}

/// Whether the assets of a stage's session, where there is one, are in
/// ascending order, none twice.
pub open spec fn ordered_stage(stage: SyncStage) -> bool {
    match stage {
        SyncStage::Find { session } => well_ordered(session),
        SyncStage::Sync { session } => well_ordered(session),
        SyncStage::Write { session, .. } => well_ordered(session),
        SyncStage::Generate { session, .. } => well_ordered(session),
        _ => true,
    }
}

/// Keys in ascending order are told by what they are.
proof fn lemma_same_keys(a: Seq<Seq<char>>, b: Seq<Seq<char>>)
    requires
        increasing(a),
        increasing(b),
        forall|key: Seq<char>| a.contains(key) <==> b.contains(key),
    ensures
        a == b,
    decreases a.len() + b.len(),
{
    if a.len() == 0 {
        if b.len() > 0 {
            assert(b.contains(b[0]));
            assert(a.contains(b[0]));
        }
        assert(a =~= b);
    } else if b.len() == 0 {
        assert(a.contains(a[0]));
        assert(b.contains(a[0]));
    } else {
        let x = a.last();
        let y = b.last();
        assert(a[a.len() - 1] == x && a.contains(x) && b.contains(x));
        assert(b[b.len() - 1] == y && b.contains(y) && a.contains(y));
        let i = b.index_of(x);
        let j = a.index_of(y);
        if x != y {
            assert(b[i] == x && i < b.len() - 1);
            assert(text_less(b[i], b[b.len() - 1]));
            assert(a[j] == y && j < a.len() - 1);
            assert(text_less(a[j], a[a.len() - 1]));
            lemma_text_less_transitive(x, y, x);
            lemma_text_less_irreflexive(x);
        }
        let front_a = a.drop_last();
        let front_b = b.drop_last();
        assert forall|key: Seq<char>| front_a.contains(key) <==> front_b.contains(key) by {
            lemma_without_last(a, key);
            lemma_without_last(b, key);
        }
        assert(increasing(front_a)) by {
            assert forall|m: int, n: int| 0 <= m < n < front_a.len() implies text_less(
                #[trigger] front_a[m],
                #[trigger] front_a[n],
            ) by {
                assert(text_less(a[m], a[n]));
            }
        }
        assert(increasing(front_b)) by {
            assert forall|m: int, n: int| 0 <= m < n < front_b.len() implies text_less(
                #[trigger] front_b[m],
                #[trigger] front_b[n],
            ) by {
                assert(text_less(b[m], b[n]));
            }
        }
        lemma_same_keys(front_a, front_b);
        assert(a =~= front_a.push(x));
        assert(b =~= front_b.push(y));
    }
}

proof fn lemma_without_last(keys: Seq<Seq<char>>, key: Seq<char>)
    requires
        increasing(keys),
        keys.len() > 0,
    ensures
        keys.drop_last().contains(key) <==> keys.contains(key) && key != keys.last(),
{
    let front = keys.drop_last();
    if front.contains(key) {
        let i = front.index_of(key);
        assert(keys[i] == key);
        lemma_increasing_index(keys, i);
        lemma_increasing_index(keys, keys.len() - 1);
    }
    if keys.contains(key) && key != keys.last() {
        let i = keys.index_of(key);
        assert(front[i] == key);
    }
}

proof fn lemma_alike_by_map(a: SyncSession, b: SyncSession)
    requires
        well_ordered(a),
        well_ordered(b),
        a.same_setup(b),
        a.errors@ == b.errors@,
        alike_assets(a.assets@, b.assets@),
    ensures
        alike_session(a, b),
{
    assert forall|key: Seq<char>| a.assets.keys().contains(key) <==> b.assets.keys().contains(
        key,
    ) by {
        assert(a.assets@.dom().contains(key) == b.assets@.dom().contains(key));
    }
    lemma_same_keys(a.assets.keys(), b.assets.keys());
    assert forall|j: int| 0 <= j < a.assets.values().len() implies alike_asset(
        #[trigger] a.assets.values()[j],
        b.assets.values()[j],
    ) by {
        lemma_asset_by_ident(a, j);
        lemma_asset_by_ident(b, j);
    }
}

proof fn lemma_alike_maps(a: SyncSession, b: SyncSession)
    requires
        well_ordered(a),
        well_ordered(b),
        alike_session(a, b),
    ensures
        alike_assets(a.assets@, b.assets@),
{
    assert(a.assets@.dom() =~= b.assets@.dom());
    assert forall|ident: Seq<char>| #[trigger] a.assets@.contains_key(ident) implies alike_asset(
        a.assets@[ident],
        b.assets@[ident],
    ) by {
        let j = a.assets.keys().index_of(ident);
        assert(a.assets.keys()[j] == ident);
        assert(alike_asset(a.assets.values()[j], b.assets.values()[j]));
    }
}

proof fn lemma_alike_found(
    a: Map<Seq<char>, Asset>,
    b: Map<Seq<char>, Asset>,
    found: Seq<WalkItem>,
)
    requires
        alike_assets(a, b),
    ensures
        alike_assets(assets_found(a, found), assets_found(b, found)),
    decreases found.len(),
{
    if found.len() > 0 {
        lemma_alike_found(a, b, found.drop_last());
        let after_a = assets_found(a, found);
        let after_b = assets_found(b, found);
        assert(after_a.dom() =~= after_b.dom());
    }
}

proof fn lemma_alike_settled(
    a: SyncSession,
    b: SyncSession,
    i: int,
    ok_count: int,
    err_count: int,
)
    requires
        alike_session(a, b),
        a.assets.keys().len() == a.assets.values().len(),
        0 <= i,
    ensures
        settled(a, i, ok_count, err_count) == settled(b, i, ok_count, err_count),
    decreases a.assets.keys().len() - i,
{
    if i < a.assets.keys().len() {
        assert(alike_asset(a.assets.values()[i], b.assets.values()[i]));
        assert(local_decision(a, i) == local_decision(b, i));
        lemma_alike_settled(a, b, i + 1, ok_count, err_count);
    }
}

/// The same event takes runs that are alike to moments that are alike.
proof fn lemma_alike_step(
    strategy1: LocalSyncStrategy,
    strategy2: LocalSyncStrategy,
    before1: LocalMoment,
    before2: LocalMoment,
    event: LocalEvent,
    after1: LocalMoment,
    after2: LocalMoment,
)
    requires
        strategy1.local_path@ == strategy2.local_path@,
        before1.run == before2.run,
        before1.run.valid(before1.session),
        alike_session(before1.session, before2.session),
        local_step(strategy1, before1.run, before1.session, event, after1.run, after1.session),
        local_step(strategy2, before2.run, before2.session, event, after2.run, after2.session),
    ensures
        after1.run == after2.run,
        alike_session(after1.session, after2.session),
{
    let run = before1.run;
    let i = run.index;
    let a = before1.session;
    let b = before2.session;
    if i < a.assets.values().len() {
        assert(alike_asset(a.assets.values()[i], b.assets.values()[i]));
        let key = a.target.key@;
        assert(alike_session(after1.session, after2.session)) by {
            assert forall|j: int| 0 <= j < after1.session.assets.values().len() implies alike_asset(
                #[trigger] after1.session.assets.values()[j],
                after2.session.assets.values()[j],
            ) by {
                assert(alike_asset(a.assets.values()[j], b.assets.values()[j]));
                if j == i {
                    let new1 = after1.session.assets.values()[i].targets@;
                    let new2 = after2.session.assets.values()[i].targets@;
                    let old1 = a.assets.values()[i].targets@;
                    let old2 = b.assets.values()[i].targets@;
                    assert(new1.dom() =~= new2.dom());
                    assert forall|k: Seq<char>| #[trigger]
                        new1.contains_key(k) implies alike_target(new1[k], new2[k]) by {
                        if old1.contains_key(k) {
                            assert(alike_target(old1[k], old2[k]));
                        }
                    }
                }
            }
        }
        lemma_alike_settled(after1.session, after2.session, i + 1, run.ok_count, run.err_count);
        lemma_alike_settled(after1.session, after2.session, i + 1, run.ok_count + 1, run.err_count);
        lemma_alike_settled(after1.session, after2.session, i + 1, run.ok_count, run.err_count + 1);
    }
}

/// The same answers take local runs that begin alike to ends that are alike.
proof fn lemma_alike_histories(
    strategy1: LocalSyncStrategy,
    strategy2: LocalSyncStrategy,
    moments1: Seq<LocalMoment>,
    moments2: Seq<LocalMoment>,
    events: Seq<LocalEvent>,
    k: int,
)
    requires
        strategy1.local_path@ == strategy2.local_path@,
        local_history(strategy1, moments1, events),
        local_history(strategy2, moments2, events),
        well_ordered(moments1[0].session),
        alike_session(moments1[0].session, moments2[0].session),
        0 <= k < moments1.len(),
    ensures
        moments1[k].run == moments2[k].run,
        alike_session(moments1[k].session, moments2[k].session),
    decreases k,
{
    if k == 0 {
        lemma_alike_settled(moments1[0].session, moments2[0].session, 0, 0, 0);
    } else {
        lemma_alike_histories(strategy1, strategy2, moments1, moments2, events, k - 1);
        lemma_local_progress(strategy1, moments1, events, k - 1);
        let event = events[k - 1];
        lemma_alike_step(
            strategy1,
            strategy2,
            moments1[k - 1],
            moments2[k - 1],
            event,
            moments1[k],
            moments2[k],
        );
    }
}

/// The same event takes syncs that are alike to stages that are alike.
proof fn lemma_alike_flow_step(
    force: bool,
    before1: SyncStage,
    before2: SyncStage,
    event: SyncEvent,
    after1: SyncStage,
    after2: SyncStage,
)
    requires
        alike_stage(before1, before2),
        ordered_stage(before1),
        ordered_stage(before2),
        ordered_stage(after1),
        ordered_stage(after2),
        flow_step(force, before1, event, after1),
        flow_step(force, before2, event, after2),
    ensures
        alike_stage(after1, after2),
{
    match (before1, event) {
        (SyncStage::Open { setup }, SyncEvent::StateRead(Ok(_))) => {
            lemma_alike_by_map(after1->Find_session, after2->Find_session);
        },
        (SyncStage::Find { session }, SyncEvent::Walked(Ok(found))) => {
            let session2 = before2->Find_session;
            lemma_alike_maps(session, session2);
            lemma_alike_found(session.assets@, session2.assets@, found@);
            lemma_alike_by_map(after1->Sync_session, after2->Sync_session);
        },
        (SyncStage::Sync { session }, SyncEvent::Synced) => {
            let session2 = before2->Sync_session;
            let state1 = after1->Write_state;
            let state2 = after2->Write_state;
            lemma_alike_maps(session, session2);
            assert forall|ident: Seq<char>| #[trigger]
                state1.assets@.contains_key(ident) implies alike_targets(
                state1.assets@[ident].targets@,
                state2.assets@[ident].targets@,
            ) by {
                assert(session.assets@.dom().contains(ident));
                assert(session.assets@.contains_key(ident));
                assert(session2.assets@.dom().contains(ident));
                assert(session2.assets@.contains_key(ident));
                assert(alike_asset(session.assets@[ident], session2.assets@[ident]));
            }
        },
        _ => {},
    }
}

/// The course of a sync into Studio's content folder, with the local run that
/// syncs its assets.
pub struct LocalCourse {
    pub course: SyncCourse,
    pub moments: Seq<LocalMoment>,
    pub local_events: Seq<LocalEvent>,
}

impl LocalCourse {
    /// Whether the assets are synced by this course's local run between
    /// reaching stage `k` and leaving it.
    pub open spec fn synced_at(self, strategy: LocalSyncStrategy, k: int) -> bool {
        &&& self.course.reached[k] matches SyncStage::Sync { session: before }
        &&& self.course.left[k] matches SyncStage::Sync { session: after }
        &&& local_history(strategy, self.moments, self.local_events)
        &&& self.moments[0].session == before
        &&& self.moments.last().session == after
        &&& self.moments.last().run.stage is Finished
    }

    /// Whether this is the course of a sync from its beginning on.
    pub open spec fn valid(self, force: bool, strategy: LocalSyncStrategy) -> bool {
        &&& self.course.valid(force)
        &&& forall|k: int|
            0 <= k < self.course.reached.len() ==> ordered_stage(#[trigger] self.course.reached[k])
        &&& forall|k: int|
            0 <= k < self.course.events.len() ==> if self.course.reached[k] is Sync
                && #[trigger] self.course.events[k] is Synced {
                self.synced_at(strategy, k)
            } else {
                self.course.left[k] == self.course.reached[k]
            }
    }
}

proof fn lemma_alike_courses(
    force: bool,
    strategy1: LocalSyncStrategy,
    strategy2: LocalSyncStrategy,
    first: LocalCourse,
    second: LocalCourse,
    k: int,
)
    requires
        strategy1.local_path@ == strategy2.local_path@,
        first.valid(force, strategy1),
        second.valid(force, strategy2),
        first.course.events == second.course.events,
        first.local_events == second.local_events,
        alike_stage(first.course.reached[0], second.course.reached[0]),
        0 <= k < first.course.reached.len(),
    ensures
        alike_stage(first.course.reached[k], second.course.reached[k]),
    decreases k,
{
    if k > 0 {
        let n = k - 1;
        lemma_alike_courses(force, strategy1, strategy2, first, second, n);
        let event = first.course.events[n];
        let left1 = first.course.left[n];
        let left2 = second.course.left[n];
        assert(second.course.events[n] == event);
        assert(ordered_stage(first.course.reached[n]));
        assert(ordered_stage(second.course.reached[n]));
        assert(ordered_stage(first.course.reached[k]));
        assert(ordered_stage(second.course.reached[k]));
        if first.course.reached[n] is Sync && event is Synced {
            assert(first.synced_at(strategy1, n));
            assert(second.synced_at(strategy2, n));
            let last = first.moments.len() - 1;
            lemma_alike_histories(
                strategy1,
                strategy2,
                first.moments,
                second.moments,
                first.local_events,
                last,
            );
            lemma_local_progress(strategy1, first.moments, first.local_events, last);
            lemma_local_progress(strategy2, second.moments, second.local_events, last);
        }
        assert(flow_step(force, left1, event, first.course.reached[k]));
        assert(flow_step(force, left2, event, second.course.reached[k]));
        lemma_alike_flow_step(
            force,
            left1,
            left2,
            event,
            first.course.reached[k],
            second.course.reached[k],
        );
    }
}

/// A sync into Studio's content folder always begins, whatever the command line
/// says, and copies to the folder `.runway` below the project.
pub proof fn law_local_syncs_always_begin<S>(
    options: SyncOptions<S>,
    config: Config,
    target: TargetConfig,
    begun: Result<SyncFlow, SyncError>,
)
    requires
        target.target_type is Local,
        begins(options, config, target, begun),
    ensures
        begun matches Ok(flow) && flow.strategy matches StrategyChoice::Local { local_path }
            && local_path@ == path_joined(config.platform, config.root_path@, ".runway"@),
{
}

/// A sync into Studio's content folder does not depend on what the command line
/// says about uploads: it begins whether or not there is an API key or a
/// creator, copies to the folder `.runway` below the project, and, as long as
/// the same happens outside, goes through the same stages to the same state and
/// the same outcome.
pub proof fn law_local_syncs_need_no_upload_options<S, T>(
    options1: SyncOptions<S>,
    options2: SyncOptions<T>,
    config: Config,
    target: TargetConfig,
    begun1: Result<SyncFlow, SyncError>,
    begun2: Result<SyncFlow, SyncError>,
    strategy1: LocalSyncStrategy,
    strategy2: LocalSyncStrategy,
    first: LocalCourse,
    second: LocalCourse,
    k: int,
)
    requires
        target.target_type is Local,
        options1.force == options2.force,
        begins(options1, config, target, begun1),
        begins(options2, config, target, begun2),
        begun1 matches Ok(flow) ==> first.course.reached[0] == flow.stage && (
        flow.strategy matches StrategyChoice::Local { local_path } ==> strategy1.local_path@
            == local_path@),
        begun2 matches Ok(flow) ==> second.course.reached[0] == flow.stage && (
        flow.strategy matches StrategyChoice::Local { local_path } ==> strategy2.local_path@
            == local_path@),
        first.valid(options1.force, strategy1),
        second.valid(options2.force, strategy2),
        first.course.events == second.course.events,
        first.local_events == second.local_events,
        0 <= k < first.course.reached.len(),
    ensures
        begun1 is Ok,
        begun2 is Ok,
        strategy1.local_path@ == path_joined(config.platform, config.root_path@, ".runway"@),
        strategy2.local_path@ == path_joined(config.platform, config.root_path@, ".runway"@),
        alike_stage(first.course.reached[k], second.course.reached[k]),
{
    law_local_syncs_always_begin(options1, config, target, begun1);
    law_local_syncs_always_begin(options2, config, target, begun2);
    lemma_alike_courses(options1.force, strategy1, strategy2, first, second, k);
}

} // verus!

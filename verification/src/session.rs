//! A sync session: the assets that were found, and what became of them.
use crate::asset::{Asset, AssetIdent};
use crate::config::{Config, SyncOptions, TargetConfig};
use crate::error::{raise_error, RbxCloudError, SessionError, StateError, SyncError};
use crate::hash::{asset_hash, generate_asset_hash};
use crate::ordered_map::{increasing, OrderedMap};
use crate::state::{copy_targets, AssetState, State, TargetState};
use vstd::prelude::*;

verus! {

/// One run of a sync to one target.
pub struct SyncSession {
    pub config: Config,
    pub target: TargetConfig,
    pub prev_state: State,
    pub force_sync: bool,
    /// The assets, by the text of their identifiers.
    pub assets: OrderedMap<Asset>,
    /// Errors encountered and ignored during syncing.
    pub errors: Vec<SessionError>,
}

/// Whether an asset has to be synced.
pub enum SyncDecision {
    Sync,
    Skip,
    /// Only if there is no file at `path`.
    CheckPath { path: String },
}

/// Whether an asset has to be synced, as a value.
pub enum DecisionModel {
    Sync,
    Skip,
    CheckPath { path: Seq<char> },
}

impl View for SyncDecision {
    type V = DecisionModel;

    open spec fn view(&self) -> DecisionModel {
        match *self {
            SyncDecision::Sync => DecisionModel::Sync,
            SyncDecision::Skip => DecisionModel::Skip,
            SyncDecision::CheckPath { path } => DecisionModel::CheckPath { path: path@ },
        }
    }
}

impl DecisionModel {
    /// Whether an asset is synced, given whether there is a file at its last
    /// known path.
    pub open spec fn needs_sync(self, path_exists: bool) -> bool {
        match self {
            DecisionModel::Sync => true,
            DecisionModel::Skip => false,
            DecisionModel::CheckPath { path } => !path_exists,
        }
    }
}

/// Whether an asset has to be synced to a target: always if that is forced, if
/// nothing is known of it there, or if its contents have changed. Where its
/// last known path counts, also if there is none or no file is there.
pub open spec fn decision(
    force: bool,
    known: Map<Seq<char>, AssetState>,
    ident: Seq<char>,
    target_key: Seq<char>,
    hash: Seq<char>,
    check_local_path: bool,
) -> DecisionModel {
    if force || !known.contains_key(ident) || !known[ident].targets@.contains_key(target_key) {
        DecisionModel::Sync
    } else {
        let last = known[ident].targets@[target_key];
        if last.hash@ != hash {
            DecisionModel::Sync
        } else if !check_local_path {
            DecisionModel::Skip
        } else {
            match last.local_path {
                Some(path) => DecisionModel::CheckPath { path: path@ },
                None => DecisionModel::Sync,
            }
        }
    }
}

/// Decides whether an asset has to be synced.
pub fn decide(
    force: bool,
    prev_state: &State,
    ident: &str,
    target_key: &str,
    hash: &String,
    check_local_path: bool,
) -> (r: SyncDecision)
    ensures
        r@ == decision(
            force,
            prev_state.assets@,
            ident@,
            target_key@,
            hash@,
            check_local_path,
        ),
{
    if force {
        return SyncDecision::Sync;
    }
    match prev_state.assets.get(ident) {
        Some(prev) => match prev.targets.get(target_key) {
            Some(last) => {
                if last.hash != *hash {
                    SyncDecision::Sync
                } else if check_local_path {
                    match &last.local_path {
                        Some(path) => SyncDecision::CheckPath { path: path.clone() },
                        None => SyncDecision::Sync,
                    }
                } else {
                    SyncDecision::Skip
                }
            },
            None => SyncDecision::Sync,
        },
        None => SyncDecision::Sync,
    }
}

/// What is decided about the asset at position `i`.
pub open spec fn asset_decision(
    force: bool,
    assets: OrderedMap<Asset>,
    prev_state: State,
    target: TargetConfig,
    check_local_path: bool,
    i: int,
) -> DecisionModel {
    decision(
        force,
        prev_state.assets@,
        assets.keys()[i],
        target.key@,
        assets.values()[i].hash@,
        check_local_path,
    )
}

/// The targets of an asset that earlier syncs know about.
pub open spec fn known_targets(known: Map<Seq<char>, AssetState>, ident: Seq<char>) -> Map<
    Seq<char>,
    TargetState,
> {
    if known.contains_key(ident) {
        known[ident].targets@
    } else {
        Map::empty()
    }
}

/// A file that turned out to be an asset and has yet to be read.
pub struct PendingAsset {
    pub ident: AssetIdent,
    pub path: String,
}

/// What the directory walk came across.
pub enum WalkItem {
    /// An entry that the walk could not deal with.
    Failed(ignore::Error),
    /// An entry that was processed: an asset, nothing, or an error.
    Entry(Result<Option<Asset>, SyncError>),
}

/// `errors` with what went wrong at an entry behind them.
pub open spec fn errors_after(errors: Seq<SessionError>, item: WalkItem) -> Seq<SessionError> {
    match item {
        WalkItem::Failed(e) => errors.push(SessionError::Walk(e)),
        WalkItem::Entry(Err(e)) => errors.push(SessionError::Sync(e)),
        WalkItem::Entry(Ok(_)) => errors,
    }
}

/// `assets` with the asset that an entry turned out to be.
pub open spec fn assets_after(assets: Map<Seq<char>, Asset>, item: WalkItem) -> Map<
    Seq<char>,
    Asset,
> {
    match item {
        WalkItem::Entry(Ok(Some(asset))) => assets.insert(asset.ident.text@, asset),
        _ => assets,
    }
}

/// `errors` with what went wrong at each entry behind them, in order.
pub open spec fn errors_found(errors: Seq<SessionError>, found: Seq<WalkItem>) -> Seq<SessionError>
    decreases found.len(),
{
    if found.len() == 0 {
        errors
    } else {
        errors_after(errors_found(errors, found.drop_last()), found.last())
    }
}

/// `assets` with the assets that were found, a later one in place of an
/// earlier one of the same identifier.
pub open spec fn assets_found(assets: Map<Seq<char>, Asset>, found: Seq<WalkItem>) -> Map<
    Seq<char>,
    Asset,
>
    decreases found.len(),
{
    if found.len() == 0 {
        assets
    } else {
        assets_after(assets_found(assets, found.drop_last()), found.last())
    }
}

/// Whether `known` holds, for each of the assets and for no others, what
/// stands at its targets.
pub open spec fn records(known: Map<Seq<char>, AssetState>, assets: Map<Seq<char>, Asset>) -> bool {
    &&& known.dom() == assets.dom()
    &&& forall|k: Seq<char>|
        assets.contains_key(k) ==> (#[trigger] known[k]).targets@ == assets[k].targets@
}

/// Whether two assets are the same file with the same hash.
pub open spec fn same_file(a: Asset, b: Asset) -> bool {
    &&& a.ident == b.ident
    &&& a.path == b.path
    &&& a.hash == b.hash
}

/// Whether `after` differs from `before` at most in the asset at position `i`,
/// which is still the same file, and in its errors.
pub open spec fn only_asset_changed(before: SyncSession, after: SyncSession, i: int) -> bool {
    &&& after.same_setup(before)
    &&& after.assets.keys() == before.assets.keys()
    &&& after.assets.values().len() == before.assets.values().len()
    &&& same_file(after.assets.values()[i], before.assets.values()[i])
    &&& forall|j: int|
        0 <= j < before.assets.values().len() && j != i ==> #[trigger] after.assets.values()[j]
            == before.assets.values()[j]
}

/// Whether `after` is `before` with one more error.
pub open spec fn only_error_added(
    before: SyncSession,
    after: SyncSession,
    error: SyncError,
) -> bool {
    &&& after.same_setup(before)
    &&& after.assets == before.assets
    &&& after.errors@ == before.errors@.push(SessionError::Sync(error))
}

/// Whether `after` is `before` with `contents` in the asset at position `i`.
pub open spec fn contents_stored(
    before: SyncSession,
    after: SyncSession,
    i: int,
    contents: Vec<u8>,
) -> bool {
    &&& only_asset_changed(before, after, i)
    &&& after.errors == before.errors
    &&& after.assets.values()[i].contents == contents
    &&& after.assets.values()[i].targets == before.assets.values()[i].targets
}

/// Changing what is known of an asset leaves it under its own identifier.
pub proof fn lemma_still_valid(before: SyncSession, after: SyncSession, i: int)
    requires
        only_asset_changed(before, after, i),
        before.assets.keys().len() == before.assets.values().len(),
    ensures
        before.valid() ==> after.valid(),
{
    if before.valid() {
        assert forall|k: Seq<char>| #[trigger]
            after.assets@.contains_key(k) implies after.assets@[k].ident.text@ == k by {
            assert(before.assets@.contains_key(k));
            let j = before.assets.keys().index_of(k);
            assert(before.assets.keys()[j] == k);
        }
    }
}

/// Whether `asset` is the file `pending` with the contents `contents`, their hash,
/// and what earlier syncs know of its targets.
pub open spec fn loaded_from(
    known: Map<Seq<char>, AssetState>,
    pending: PendingAsset,
    contents: Vec<u8>,
    asset: Asset,
) -> bool {
    &&& asset.ident == pending.ident
    &&& asset.path == pending.path
    &&& asset.contents == contents
    &&& asset.hash@ == asset_hash(contents@)
    &&& asset.targets@ == known_targets(known, pending.ident.text@)
}

/// How many assets were synced, failed and were left alone.
pub struct SyncSummary {
    pub synced: usize,
    pub failed: usize,
    pub skipped: usize,
}

/// Whether `chosen` are the positions of the assets that have to be synced, in
/// ascending order.
pub open spec fn picks(
    force: bool,
    assets: OrderedMap<Asset>,
    prev_state: State,
    target: TargetConfig,
    check_local_path: bool,
    path_exists: Seq<bool>,
    chosen: Seq<usize>,
) -> bool {
    &&& forall|a: int, b: int| 0 <= a < b < chosen.len() ==> chosen[a] < chosen[b]
    &&& forall|i: usize|
        #![trigger chosen.contains(i)]
        chosen.contains(i) <==> i < assets.keys().len() && asset_decision(
            force,
            assets,
            prev_state,
            target,
            check_local_path,
            i as int,
        ).needs_sync(path_exists[i as int])
}

/// Whether a summary of `count` assets says how many were synced and how many
/// failed, and takes the others to be left alone.
pub open spec fn sums_up(
    summary: SyncSummary,
    count: nat,
    ok_count: usize,
    err_count: usize,
) -> bool {
    &&& summary.synced == ok_count
    &&& summary.failed == err_count
    &&& summary.skipped == count - ok_count - err_count
}

/// Whether a session with `errors` comes out as `outcome`.
pub open spec fn comes_to(errors: Seq<SessionError>, outcome: Result<(), SyncError>) -> bool {
    match outcome {
        Ok(_) => errors.len() == 0,
        Err(SyncError::HadErrors { error_count }) => errors.len() > 0 && error_count
            == errors.len(),
        Err(_) => false,
    }
}

/// Whether a file comes to `r`, given how it is identified.
pub open spec fn identified_as(
    path: String,
    ident: Result<AssetIdent, RbxCloudError>,
    r: Result<PendingAsset, SyncError>,
) -> bool {
    match (ident, r) {
        (Ok(ident), Ok(pending)) => pending.ident == ident && pending.path == path,
        (Err(source), Err(e)) => e == (SyncError::Unsupported { path, source }),
        _ => false,
    }
}

impl SyncSession {
    /// Whether each asset stands under the text of its own identifier.
    pub open spec fn valid(self) -> bool {
        forall|k: Seq<char>| #[trigger]
            self.assets@.contains_key(k) ==> self.assets@[k].ident.text@ == k
    }

    /// Whether `other` differs at most in its assets and errors.
    pub open spec fn same_setup(self, other: SyncSession) -> bool {
        &&& self.config == other.config
        &&& self.target == other.target
        &&& self.prev_state == other.prev_state
        &&& self.force_sync == other.force_sync
    }

    /// Opens a session, given what came of reading the state of earlier
    /// syncs.
    pub fn new<S>(
        options: &SyncOptions<S>,
        config: Config,
        target: TargetConfig,
        read: Result<State, StateError>,
    ) -> (r: Result<Self, SyncError>)
        ensures
            match read {
                Ok(prev_state) => {
                    &&& r matches Ok(session)
                    &&& session.config == config
                    &&& session.target == target
                    &&& session.prev_state == prev_state
                    &&& session.force_sync == options.force
                    &&& session.assets@ == Map::<Seq<char>, Asset>::empty()
                    &&& session.errors@ == Seq::<SessionError>::empty()
                    &&& session.valid()
                },
                Err(source) => r == Err::<SyncSession, SyncError>(SyncError::State { source }),
            },
    {
        let prev_state = match read {
            Ok(state) => state,
            Err(source) => {
                return Err(SyncError::State { source });
            },
        };
        Ok(
            SyncSession {
                config,
                target,
                prev_state,
                force_sync: options.force,
                assets: OrderedMap::new(),
                errors: Vec::new(),
            },
        )
    }

    /// Notes an error down, and goes on.
    pub fn raise_error(&mut self, error: SessionError)
        ensures
            final(self).errors@ == old(self).errors@.push(error),
            final(self).assets == old(self).assets,
            final(self).same_setup(*old(self)),
    {
        raise_error(error, &mut self.errors);
    }

    /// Tells whether an entry of the directory walk is to be identified, given
    /// whether it is a directory: only a file is.
    pub fn classify_entry(is_dir: Result<bool, ignore::Error>) -> (r: Result<bool, SyncError>)
        ensures
            match is_dir {
                Err(source) => r == Err::<bool, SyncError>(SyncError::Ignore { source }),
                Ok(dir) => r == Ok::<bool, SyncError>(!dir),
            },
    {
        match is_dir {
            Err(source) => Err(SyncError::Ignore { source }),
            Ok(dir) => Ok(!dir),
        }
    }

    /// The file at `path` as an asset that is to be read, given how it is
    /// identified.
    pub fn identify_entry(path: String, ident: Result<AssetIdent, RbxCloudError>) -> (r: Result<
        PendingAsset,
        SyncError,
    >)
        ensures
            identified_as(path, ident, r),
            match ident {
                Err(source) => r == Err::<PendingAsset, SyncError>(
                    SyncError::Unsupported { path, source },
                ),
                Ok(ident) => r == Ok::<PendingAsset, SyncError>(PendingAsset { ident, path }),
            },
    {
        match ident {
            Err(source) => Err(SyncError::Unsupported { path, source }),
            Ok(ident) => Ok(PendingAsset { ident, path }),
        }
    }

    /// The asset that a file holds, given its contents and their hash. What
    /// earlier syncs know of its targets stays known.
    pub fn loaded_asset(
        prev_state: &State,
        pending: PendingAsset,
        contents: Vec<u8>,
        hash: String,
    ) -> (r: Asset)
        ensures
            r.ident == pending.ident,
            r.path == pending.path,
            r.contents == contents,
            r.hash == hash,
            r.targets@ == known_targets(prev_state.assets@, pending.ident.text@),
            prev_state.assets@.contains_key(pending.ident.text@) ==> r.targets@
                == prev_state.assets@[pending.ident.text@].targets@,
            !prev_state.assets@.contains_key(pending.ident.text@) ==> r.targets@ == Map::<
                Seq<char>,
                TargetState,
            >::empty(),
    {
        let targets = match prev_state.assets.get(pending.ident.text.as_str()) {
            Some(prev) => copy_targets(&prev.targets),
            None => OrderedMap::new(),
        };
        Asset { ident: pending.ident, path: pending.path, hash, contents, targets }
    }

    /// Makes an asset of a file, given what came of reading it.
    pub fn process_entry(
        prev_state: &State,
        pending: PendingAsset,
        read: Result<Vec<u8>, std::io::Error>,
    ) -> (r: Result<Asset, SyncError>)
        ensures
            match read {
                Ok(contents) => {
                    &&& r matches Ok(asset)
                    &&& loaded_from(prev_state.assets@, pending, contents, asset)
                    &&& asset.ident == pending.ident
                    &&& asset.path == pending.path
                    &&& asset.contents == contents
                    &&& asset.hash@ == asset_hash(contents@)
                    &&& asset.targets@ == known_targets(prev_state.assets@, pending.ident.text@)
                },
                Err(source) => r == Err::<Asset, SyncError>(SyncError::Io { source }),
            },
    {
        match read {
            Ok(contents) => {
                let hash = generate_asset_hash(contents.as_slice());
                Ok(SyncSession::loaded_asset(prev_state, pending, contents, hash))
            },
            Err(source) => Err(SyncError::Io { source }),
        }
    }

    /// Takes in one thing that the directory walk came across.
    pub fn accept_item(&mut self, item: WalkItem)
        requires
            old(self).valid(),
        ensures
            final(self).assets@ == assets_after(old(self).assets@, item),
            final(self).errors@ == errors_after(old(self).errors@, item),
            final(self).same_setup(*old(self)),
            final(self).valid(),
    {
        match item {
            WalkItem::Failed(e) => self.raise_error(SessionError::Walk(e)),
            WalkItem::Entry(Ok(Some(asset))) => {
                let key = asset.ident.text.clone();
                self.assets.insert(key, asset);
            },
            WalkItem::Entry(Ok(None)) => {},
            WalkItem::Entry(Err(e)) => self.raise_error(SessionError::Sync(e)),
        }
    }

    /// Takes in what the directory walk came across, in order. Errors at
    /// single entries are noted down.
    pub fn find_assets(&mut self, found: Vec<WalkItem>)
        requires
            old(self).valid(),
        ensures
            final(self).assets@ == assets_found(old(self).assets@, found@),
            final(self).errors@ == errors_found(old(self).errors@, found@),
            final(self).same_setup(*old(self)),
            final(self).valid(),
    {
        let ghost items = found@;
        let ghost start = *self;
        for item in rest: found
            invariant
                rest.seq() == items,
                self.valid(),
                self.assets@ == assets_found(start.assets@, items.take(rest.index() as int)),
                self.errors@ == errors_found(start.errors@, items.take(rest.index() as int)),
                self.same_setup(start),
        {
            assert(items.take(rest.index() + 1).drop_last() =~= items.take(rest.index() as int));
            self.accept_item(item);
        }
        assert(items.take(items.len() as int) =~= items);
    }

    /// The positions of the assets that have to be synced, in the order of
    /// their identifiers. `path_exists` says of each asset whether there is a
    /// file at its last known path.
    pub fn iter_needs_sync(
        force: bool,
        assets: &OrderedMap<Asset>,
        prev_state: &State,
        target: &TargetConfig,
        check_local_path: bool,
        path_exists: &Vec<bool>,
    ) -> (r: Vec<usize>)
        requires
            path_exists.len() == assets.keys().len(),
        ensures
            picks(force, *assets, *prev_state, *target, check_local_path, path_exists@, r@),
            increasing(assets.keys()),
            forall|a: int, b: int| 0 <= a < b < r@.len() ==> r@[a] < r@[b],
            forall|i: usize|
                #![trigger r@.contains(i)]
                r@.contains(i) <==> i < assets.keys().len() && asset_decision(
                    force,
                    *assets,
                    *prev_state,
                    *target,
                    check_local_path,
                    i as int,
                ).needs_sync(path_exists@[i as int]),
    {
        let mut r: Vec<usize> = Vec::new();
        let count: usize = assets.len();
        let mut i: usize = 0;
        while i < count
            invariant
                count == assets.keys().len(),
                count == assets.values().len(),
                path_exists.len() == count,
                i <= count,
                forall|a: int, b: int| 0 <= a < b < r@.len() ==> r@[a] < r@[b],
                forall|a: int| 0 <= a < r@.len() ==> r@[a] < i,
                forall|j: usize|
                    #![trigger r@.contains(j)]
                    r@.contains(j) <==> j < i && asset_decision(
                        force,
                        *assets,
                        *prev_state,
                        *target,
                        check_local_path,
                        j as int,
                    ).needs_sync(path_exists@[j as int]),
            decreases count - i,
        {
            let ghost before = r@;
            let choice = decide(
                force,
                prev_state,
                assets.key_at(i).as_str(),
                target.key.as_str(),
                &assets.value_at(i).hash,
                check_local_path,
            );
            assert(choice@ == asset_decision(
                force,
                *assets,
                *prev_state,
                *target,
                check_local_path,
                i as int,
            ));
            let chosen = match choice {
                SyncDecision::Sync => true,
                SyncDecision::Skip => false,
                SyncDecision::CheckPath { .. } => !path_exists[i],
            };
            if chosen {
                r.push(i);
                assert(r@[r@.len() - 1] == i);
                assert forall|j: usize|
                    #![trigger r@.contains(j)]
                    r@.contains(j) <==> before.contains(j) || j == i by {
                    if before.contains(j) {
                        let a = before.index_of(j);
                        assert(r@[a] == j);
                    }
                }
            }
            assert(!before.contains(i));
            i = i + 1;
        }
        r
    }

    /// The state that a next sync starts from: what stands at the targets of
    /// each asset.
    pub fn write_state(&self) -> (r: State)
        ensures
            records(r.assets@, self.assets@),
    {
        let mut assets: OrderedMap<AssetState> = OrderedMap::new();
        let count: usize = self.assets.len();
        let mut i: usize = 0;
        while i < count
            invariant
                count == self.assets.keys().len(),
                count == self.assets.values().len(),
                i <= count,
                forall|k: Seq<char>| #[trigger]
                    assets@.contains_key(k) <==> self.assets.keys().take(i as int).contains(k),
                forall|k: Seq<char>| #[trigger]
                    assets@.contains_key(k) ==> self.assets@.contains_key(k) && assets@[k].targets@
                        == self.assets@[k].targets@,
            decreases count - i,
        {
            let ghost before = assets@;
            let key = self.assets.key_at(i);
            let asset = self.assets.value_at(i);
            assets.insert(key.clone(), AssetState { targets: copy_targets(&asset.targets) });
            assert forall|k: Seq<char>| #[trigger]
                assets@.contains_key(k) <==> self.assets.keys().take(i + 1).contains(k) by {
                let now = self.assets.keys().take(i + 1);
                assert(now =~= self.assets.keys().take(i as int).push(key@));
                assert(now[i as int] == key@);
                if self.assets.keys().take(i as int).contains(k) {
                    let at = self.assets.keys().take(i as int).index_of(k);
                    assert(now[at] == k);
                }
            }
            i = i + 1;
        }
        assert(self.assets.keys().take(i as int) =~= self.assets.keys());
        assert(assets@.dom() =~= self.assets@.dom());
        State { assets }
    }

    /// Puts the contents that were made ready for use in place of those that the
    /// asset at position `index` has.
    pub fn store_prepared(&mut self, index: usize, contents: Vec<u8>)
        requires
            index < old(self).assets.keys().len(),
        ensures
            contents_stored(*old(self), *final(self), index as int, contents),
            old(self).valid() ==> final(self).valid(),
    {
        let asset = self.assets.value_mut(index);
        asset.contents = contents;
        proof {
            lemma_still_valid(*old(self), *self, index as int);
        }
    }

    /// Sums a sync up, given how many assets were synced and how many failed.
    pub fn perform_sync(&self, ok_count: usize, err_count: usize) -> (r: SyncSummary)
        requires
            ok_count + err_count <= self.assets.keys().len(),
        ensures
            sums_up(r, self.assets.keys().len(), ok_count, err_count),
            r.synced == ok_count,
            r.failed == err_count,
            r.synced + r.failed + r.skipped == self.assets.keys().len(),
    {
        let skipped: usize = self.assets.len() - ok_count - err_count;
        SyncSummary { synced: ok_count, failed: err_count, skipped }
    }

    /// How the session as a whole came out.
    pub fn finish(&self) -> (r: Result<(), SyncError>)
        ensures
            comes_to(self.errors@, r),
            self.errors@.len() == 0 ==> r == Ok::<(), SyncError>(()),
            self.errors@.len() > 0 ==> r == Err::<(), SyncError>(
                SyncError::HadErrors { error_count: self.errors.len() },
            ),
    {
        if self.errors.is_empty() {
            Ok(())
        } else {
            Err(SyncError::HadErrors { error_count: self.errors.len() })
        }
    }
}

} // verus!

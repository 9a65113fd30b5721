//! What earlier syncs left behind: for each asset, what stands at each target.
use crate::ordered_map::OrderedMap;
use vstd::prelude::*;

verus! {

/// What was last synced of one asset to one target.
pub struct TargetState {
    /// Hash of the contents that were synced.
    pub hash: String,
    /// Where the asset can be found from inside Roblox.
    pub id: String,
    /// The file that a local sync wrote.
    pub local_path: Option<String>,
}

impl Clone for TargetState {
    fn clone(&self) -> (r: Self)
        ensures
            r == *self,
    {
        let local_path = match &self.local_path {
            Some(path) => Some(path.clone()),
            None => None,
        };
        TargetState { hash: self.hash.clone(), id: self.id.clone(), local_path }
    }
}

/// What is known of one asset, by target key.
pub struct AssetState {
    pub targets: OrderedMap<TargetState>,
}

/// What is known of all assets, by the text of their identifiers.
pub struct State {
    pub assets: OrderedMap<AssetState>,
}

impl Default for State {
    fn default() -> (r: Self)
        ensures
            r.assets@ == Map::<Seq<char>, AssetState>::empty(),
    {
        State { assets: OrderedMap::new() }
    }
}

/// Copies what is known of an asset's targets.
pub fn copy_targets(targets: &OrderedMap<TargetState>) -> (r: OrderedMap<TargetState>)
    ensures
        r@ == targets@,
        r.keys() == targets.keys(),
        r.values() == targets.values(),
{
    let r = targets.clone();
    assert(r.values() =~= targets.values());
    r
}

} // verus!

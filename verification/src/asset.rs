//! Assets and how they are identified.
use crate::ordered_map::OrderedMap;
use crate::state::TargetState;
use vstd::prelude::*;

verus! {

/// The kinds of asset that can be uploaded.
#[derive(Clone, Copy, Debug, PartialEq, Eq, Structural)]
pub enum AssetType {
    AudioMp3,
    AudioOgg,
    DecalPng,
    DecalJpeg,
    DecalBmp,
    DecalTga,
    ModelFbx,
}

impl AssetType {
    /// Whether this is an image, which Roblox wraps in a decal.
    pub open spec fn decal(self) -> bool {
        self is DecalPng || self is DecalJpeg || self is DecalBmp || self is DecalTga
    }

    /// Whether this is a sound.
    pub open spec fn audio(self) -> bool {
        self is AudioMp3 || self is AudioOgg
    }

    /// Tells whether this is an image.
    pub fn is_decal(&self) -> (r: bool)
        ensures
            r == self.decal(),
    {
        matches!(
            self,
            AssetType::DecalBmp | AssetType::DecalPng | AssetType::DecalJpeg | AssetType::DecalTga
        )
    }

    /// Tells whether this is a sound.
    pub fn is_audio(&self) -> (r: bool)
        ensures
            r == self.audio(),
    {
        matches!(self, AssetType::AudioMp3 | AssetType::AudioOgg)
    }
}

/// Identifies an asset among those of a project.
pub struct AssetIdent {
    /// The path below the project's root, by which assets are told apart and
    /// ordered.
    pub text: String,
    /// The last part of that path, which names the asset when it is uploaded.
    pub last_component: String,
    /// What kind of asset this is.
    pub asset_type: AssetType,
}

impl Clone for AssetIdent {
    fn clone(&self) -> (r: Self)
        ensures
            r == *self,
    {
        AssetIdent {
            text: self.text.clone(),
            last_component: self.last_component.clone(),
            asset_type: self.asset_type,
        }
    }
}

/// A file that takes part in a sync.
pub struct Asset {
    pub ident: AssetIdent,
    /// Where the file is.
    pub path: String,
    /// Hash of the contents as they were read.
    pub hash: String,
    pub contents: Vec<u8>,
    /// What stands at each target, by target key.
    pub targets: OrderedMap<TargetState>,
}

} // verus!

use vstd::prelude::*;

verus! {

/// An owner of assets. The value `NULL_ACCOUNT` stands for "no owner" and is
/// never a real account.
pub type AccountId = u64;

/// The identifier of an asset: a fixed-size digest of its payload, derived by
/// the host's collision-resistant hash.
pub type AssetId = u128;

/// The distinguished account meaning that an asset has no owner.
pub const NULL_ACCOUNT: AccountId = 0;

/// An asset: its identifier and its serialized descriptive payload.
pub struct Asset {
    pub id: AssetId,
    pub info: Vec<u8>,
}

impl Asset {
    /// A copy of this asset.
    pub fn duplicate(&self) -> (r: Asset)
        ensures
            r.id == self.id,
            r.info@ == self.info@,
    {
        let info = self.info.clone();
        assert(info@ =~= self.info@);
        Asset { id: self.id, info }
    }
}

/// The errors that the registry and its callers report.
#[derive(Debug, PartialEq, Eq, Structural, Clone, Copy)]
pub enum Error {
    /// A mint was attempted for an identifier that already has an owner.
    AssetExists,
    /// A burn or transfer targets an identifier with no current owner.
    NonexistentAsset,
    /// The caller is not the recorded owner of the asset.
    NotAssetOwner,
    /// The global ceiling on live assets has been reached.
    TooManyAssets,
    /// The account already holds as many assets as one account may.
    TooManyAssetsForAccount,
}

/// A notification of a completed operation.
#[derive(Debug, PartialEq, Eq, Structural, Clone, Copy)]
pub enum Event {
    /// The asset was burned.
    Burned(AssetId),
    /// The asset was minted to the account.
    Minted(AssetId, AccountId),
    /// The asset was transferred to the account.
    Transferred(AssetId, AccountId),
}

} // verus!

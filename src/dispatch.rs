use vstd::prelude::*;
use crate::registry::Registry;
use crate::types::{AccountId, Asset, AssetId, Error, Event, NULL_ACCOUNT};

verus! {

impl Registry {
    /// Mints on behalf of the privileged administrator, whose authority the
    /// host has already checked, and reports the `Minted` event.
    pub fn admin_mint(&mut self, owner: AccountId, id: AssetId, info: Vec<u8>) -> (r: Result<
        Event,
        Error,
    >)
        requires
            old(self).wf(),
            owner != NULL_ACCOUNT,
        ensures
            final(self).wf(),
            old(self)@.mint_outcome(owner, id) is Ok ==> r == Ok::<Event, Error>(
                Event::Minted(id, owner),
            ) && old(self)@.minted(final(self)@, owner, (Asset { id: id, info: info })),
            old(self)@.mint_outcome(owner, id) is Err ==> r == Err::<Event, Error>(
                old(self)@.mint_outcome(owner, id)->Err_0,
            ) && final(self)@ == old(self)@,
    {
        match self.mint(owner, id, info) {
            Ok(minted) => Ok(Event::Minted(minted, owner)),
            Err(e) => Err(e),
        }
    }

    /// Burns `id` on behalf of the signed account `who`, which must be its
    /// owner, and reports the `Burned` event.
    pub fn owner_burn(&mut self, who: AccountId, id: AssetId) -> (r: Result<Event, Error>)
        requires
            old(self).wf(),
            who != NULL_ACCOUNT,
        ensures
            final(self).wf(),
            old(self)@.owner(id) != who ==> r == Err::<Event, Error>(Error::NotAssetOwner)
                && final(self)@ == old(self)@,
            old(self)@.owner(id) == who ==> r == Ok::<Event, Error>(Event::Burned(id))
                && old(self)@.burned_from(final(self)@, id),
    {
        if self.owner_of(id) != who {
            return Err(Error::NotAssetOwner);
        }
        match self.burn(id) {
            Ok(()) => Ok(Event::Burned(id)),
            Err(e) => Err(e),
        }
    }

    /// Moves `id` to `dest` on behalf of the signed account `who`, which must
    /// be its owner, and reports the `Transferred` event.
    pub fn owner_transfer(&mut self, who: AccountId, dest: AccountId, id: AssetId) -> (r: Result<
        Event,
        Error,
    >)
        requires
            old(self).wf(),
            who != NULL_ACCOUNT,
            dest != NULL_ACCOUNT,
        ensures
            final(self).wf(),
            old(self)@.owner(id) != who ==> r == Err::<Event, Error>(Error::NotAssetOwner)
                && final(self)@ == old(self)@,
            old(self)@.owner(id) == who && old(self)@.count(dest) >= old(self)@.user_limit ==> r
                == Err::<Event, Error>(Error::TooManyAssetsForAccount) && final(self)@ == old(
                self,
            )@,
            old(self)@.owner(id) == who && old(self)@.count(dest) < old(self)@.user_limit ==> r
                == Ok::<Event, Error>(Event::Transferred(id, dest)) && old(self)@.transferred(
                final(self)@,
                dest,
                id,
            ),
    {
        if self.owner_of(id) != who {
            return Err(Error::NotAssetOwner);
        }
        match self.transfer(dest, id) {
            Ok(()) => Ok(Event::Transferred(id, dest)),
            Err(e) => Err(e),
        }
    }
}

} // verus!

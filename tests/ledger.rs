use commodities::{AccountId, AssetId, Error, Event, Registry, NULL_ACCOUNT};

const ALICE: AccountId = 1;
const BOB: AccountId = 2;
const CAROL: AccountId = 3;

fn ids_of(r: &Registry, a: AccountId) -> Vec<AssetId> {
    r.assets_for_account(a).iter().map(|x| x.id).collect()
}

fn check_counters(r: &Registry, accounts: &[AccountId]) {
    let mut sum: u128 = 0;
    for &a in accounts {
        let n = r.total_for_account(a);
        assert_eq!(n as usize, r.assets_for_account(a).len());
        sum += n as u128;
    }
    assert_eq!(r.total(), sum);
}

#[test]
fn scenario_gems() {
    let mut r = Registry::new(10, 5);
    let id1: AssetId = 0x6765_6d31;
    let id2: AssetId = 0x6765_6d32;
    assert_eq!(r.mint(ALICE, id1, b"gem1".to_vec()), Ok(id1));
    assert_eq!(r.total(), 1);
    assert_eq!(r.mint(ALICE, id2, b"gem2".to_vec()), Ok(id2));
    assert_eq!(r.total(), 2);
    assert_eq!(r.total_for_account(ALICE), 2);
    assert_eq!(r.transfer(BOB, id1), Ok(()));
    assert_eq!(r.owner_of(id1), BOB);
    assert_eq!(r.total_for_account(ALICE), 1);
    assert_eq!(r.total_for_account(BOB), 1);
    assert_eq!(r.burn(id2), Ok(()));
    assert_eq!(r.total(), 1);
    assert_eq!(r.burned(), 1);
    assert_eq!(r.total_for_account(ALICE), 0);
    assert_eq!(r.owner_burn(ALICE, id1), Err(Error::NotAssetOwner));
    assert_eq!(r.owner_of(id1), BOB);
    assert_eq!(r.total(), 1);
}

#[test]
fn mint_twice_is_rejected() {
    let mut r = Registry::new(10, 5);
    assert_eq!(r.mint(ALICE, 42, b"p".to_vec()), Ok(42));
    assert_eq!(r.mint(ALICE, 42, b"p".to_vec()), Err(Error::AssetExists));
    assert_eq!(r.mint(BOB, 42, b"p".to_vec()), Err(Error::AssetExists));
    assert_eq!(r.total(), 1);
    assert_eq!(r.total_for_account(ALICE), 1);
    assert_eq!(r.total_for_account(BOB), 0);
    assert_eq!(r.owner_of(42), ALICE);
}

#[test]
fn existence_checked_before_ceilings() {
    let mut r = Registry::new(1, 1);
    assert_eq!(r.mint(ALICE, 5, vec![5]), Ok(5));
    assert_eq!(r.mint(ALICE, 5, vec![5]), Err(Error::AssetExists));
}

#[test]
fn account_ceiling_checked_before_global() {
    let mut r = Registry::new(1, 1);
    assert_eq!(r.mint(ALICE, 5, vec![5]), Ok(5));
    assert_eq!(r.mint(ALICE, 6, vec![6]), Err(Error::TooManyAssetsForAccount));
    assert_eq!(r.mint(BOB, 6, vec![6]), Err(Error::TooManyAssets));
}

#[test]
fn counters_stay_consistent() {
    let mut r = Registry::new(100, 10);
    let all = [ALICE, BOB, CAROL];
    for id in 1..=6u128 {
        let owner = if id % 2 == 0 { ALICE } else { BOB };
        assert_eq!(r.mint(owner, id, vec![id as u8]), Ok(id));
        check_counters(&r, &all);
    }
    assert_eq!(r.transfer(CAROL, 2), Ok(()));
    check_counters(&r, &all);
    assert_eq!(r.transfer(CAROL, 3), Ok(()));
    check_counters(&r, &all);
    assert_eq!(r.burn(4), Ok(()));
    check_counters(&r, &all);
    assert_eq!(r.burn(3), Ok(()));
    check_counters(&r, &all);
    assert_eq!(r.transfer(ALICE, 5), Ok(()));
    check_counters(&r, &all);
    assert_eq!(r.total(), 4);
    assert_eq!(r.burned(), 2);
}

#[test]
fn ownership_round_trip() {
    let mut r = Registry::new(10, 5);
    assert_eq!(r.mint(ALICE, 77, b"info".to_vec()), Ok(77));
    assert_eq!(r.owner_of(77), ALICE);
    assert_eq!(ids_of(&r, ALICE), vec![77]);
    assert_eq!(r.transfer(BOB, 77), Ok(()));
    assert_eq!(r.owner_of(77), BOB);
    assert!(!ids_of(&r, ALICE).contains(&77));
    assert_eq!(ids_of(&r, BOB), vec![77]);
    let held = r.assets_for_account(BOB);
    assert_eq!(held[0].info, b"info".to_vec());
    assert_eq!(r.total(), 1);
    assert_eq!(r.burned(), 0);
}

#[test]
fn burn_removes_completely() {
    let mut r = Registry::new(10, 5);
    assert_eq!(r.mint(ALICE, 8, vec![8]), Ok(8));
    assert_eq!(r.mint(ALICE, 9, vec![9]), Ok(9));
    assert_eq!(r.burn(8), Ok(()));
    assert_eq!(r.owner_of(8), NULL_ACCOUNT);
    assert_eq!(ids_of(&r, ALICE), vec![9]);
    assert!(!ids_of(&r, BOB).contains(&8));
    assert_eq!(r.total(), 1);
    assert_eq!(r.burned(), 1);
    // a burned identifier may be minted again
    assert_eq!(r.mint(BOB, 8, vec![8]), Ok(8));
    assert_eq!(r.owner_of(8), BOB);
}

#[test]
fn global_ceiling() {
    let mut r = Registry::new(3, 5);
    for id in 1..=3u128 {
        assert_eq!(r.mint(ALICE, id, vec![]), Ok(id));
    }
    assert_eq!(r.mint(BOB, 4, vec![]), Err(Error::TooManyAssets));
    assert_eq!(r.total(), 3);
    assert_eq!(r.total_for_account(BOB), 0);
    assert_eq!(r.owner_of(4), NULL_ACCOUNT);
    assert_eq!(r.commodity_limit(), 3);
    assert_eq!(r.burn(1), Ok(()));
    assert_eq!(r.mint(BOB, 4, vec![]), Ok(4));
}

#[test]
fn account_ceiling_on_mint_and_transfer() {
    let mut r = Registry::new(100, 2);
    assert_eq!(r.user_commodity_limit(), 2);
    assert_eq!(r.mint(ALICE, 1, vec![]), Ok(1));
    assert_eq!(r.mint(ALICE, 2, vec![]), Ok(2));
    assert_eq!(r.mint(ALICE, 3, vec![]), Err(Error::TooManyAssetsForAccount));
    assert_eq!(r.mint(BOB, 3, vec![]), Ok(3));
    assert_eq!(r.transfer(ALICE, 3), Err(Error::TooManyAssetsForAccount));
    assert_eq!(r.owner_of(3), BOB);
    assert_eq!(r.total_for_account(ALICE), 2);
    assert_eq!(r.total_for_account(BOB), 1);
}

#[test]
fn nonexistent_targets() {
    let mut r = Registry::new(10, 5);
    assert_eq!(r.burn(1), Err(Error::NonexistentAsset));
    assert_eq!(r.transfer(BOB, 1), Err(Error::NonexistentAsset));
    assert_eq!(r.mint(ALICE, 1, vec![]), Ok(1));
    assert_eq!(r.burn(1), Ok(()));
    assert_eq!(r.burn(1), Err(Error::NonexistentAsset));
    assert_eq!(r.transfer(BOB, 1), Err(Error::NonexistentAsset));
    assert_eq!(r.total(), 0);
    assert_eq!(r.burned(), 1);
    assert_eq!(r.total_for_account(BOB), 0);
}

#[test]
fn collections_sorted_by_identifier() {
    let mut r = Registry::new(10, 10);
    for id in [50u128, 10, 40, 20, 30] {
        assert_eq!(r.mint(ALICE, id, vec![id as u8]), Ok(id));
    }
    assert_eq!(ids_of(&r, ALICE), vec![10, 20, 30, 40, 50]);
    for id in [40u128, 10, 30] {
        assert_eq!(r.transfer(BOB, id), Ok(()));
    }
    assert_eq!(ids_of(&r, ALICE), vec![20, 50]);
    assert_eq!(ids_of(&r, BOB), vec![10, 30, 40]);
    assert_eq!(r.burn(30), Ok(()));
    assert_eq!(ids_of(&r, BOB), vec![10, 40]);
    let held = r.assets_for_account(BOB);
    assert_eq!(held[1].info, vec![40u8]);
}

#[test]
fn self_transfer_changes_nothing() {
    let mut r = Registry::new(10, 2);
    assert_eq!(r.mint(ALICE, 1, vec![]), Ok(1));
    assert_eq!(r.transfer(ALICE, 1), Ok(()));
    assert_eq!(r.owner_of(1), ALICE);
    assert_eq!(r.total_for_account(ALICE), 1);
    assert_eq!(ids_of(&r, ALICE), vec![1]);
    assert_eq!(r.mint(ALICE, 2, vec![]), Ok(2));
    assert_eq!(r.transfer(ALICE, 1), Err(Error::TooManyAssetsForAccount));
}

#[test]
fn empty_registry() {
    let r = Registry::new(0, 0);
    assert_eq!(r.total(), 0);
    assert_eq!(r.burned(), 0);
    assert_eq!(r.total_for_account(ALICE), 0);
    assert!(r.assets_for_account(ALICE).is_empty());
    assert_eq!(r.owner_of(1), NULL_ACCOUNT);
}

#[test]
fn zero_ceilings_reject_every_mint() {
    let mut r = Registry::new(0, 1);
    assert_eq!(r.mint(ALICE, 1, vec![]), Err(Error::TooManyAssets));
    let mut r = Registry::new(1, 0);
    assert_eq!(r.mint(ALICE, 1, vec![]), Err(Error::TooManyAssetsForAccount));
}

#[test]
fn largest_identifier_and_ceiling() {
    let mut r = Registry::new(u128::MAX, u64::MAX);
    assert_eq!(r.mint(ALICE, u128::MAX, vec![]), Ok(u128::MAX));
    assert_eq!(r.mint(ALICE, 0, vec![]), Ok(0));
    assert_eq!(ids_of(&r, ALICE), vec![0, u128::MAX]);
    assert_eq!(r.transfer(BOB, u128::MAX), Ok(()));
    assert_eq!(r.owner_of(u128::MAX), BOB);
}

#[test]
fn dispatch_events() {
    let mut r = Registry::new(10, 5);
    assert_eq!(r.admin_mint(ALICE, 3, vec![3]), Ok(Event::Minted(3, ALICE)));
    assert_eq!(r.admin_mint(BOB, 3, vec![3]), Err(Error::AssetExists));
    assert_eq!(r.owner_transfer(BOB, CAROL, 3), Err(Error::NotAssetOwner));
    assert_eq!(r.owner_transfer(ALICE, CAROL, 3), Ok(Event::Transferred(3, CAROL)));
    assert_eq!(r.owner_of(3), CAROL);
    assert_eq!(r.owner_burn(ALICE, 3), Err(Error::NotAssetOwner));
    assert_eq!(r.owner_burn(CAROL, 9), Err(Error::NotAssetOwner));
    assert_eq!(r.owner_burn(CAROL, 3), Ok(Event::Burned(3)));
    assert_eq!(r.owner_of(3), NULL_ACCOUNT);
    assert_eq!(r.burned(), 1);
}

#[test]
fn dispatch_transfer_to_full_account() {
    let mut r = Registry::new(10, 1);
    assert_eq!(r.admin_mint(ALICE, 1, vec![]), Ok(Event::Minted(1, ALICE)));
    assert_eq!(r.admin_mint(BOB, 2, vec![]), Ok(Event::Minted(2, BOB)));
    assert_eq!(r.owner_transfer(ALICE, BOB, 1), Err(Error::TooManyAssetsForAccount));
    assert_eq!(r.owner_of(1), ALICE);
}

use cumulus_primitives_utility::asset::{AssetId, Fungibility, MultiAsset};
use cumulus_primitives_utility::holding::{FungibleEntry, Holding, NonFungibleEntry};
use cumulus_primitives_utility::location::Location;

fn id(parents: u8, interior: Vec<u8>) -> AssetId {
    AssetId::Concrete(Location { parents, interior: interior.into_iter().map(|j| vec![j]).collect() })
}

fn sample() -> Holding {
    Holding {
        fungible: vec![
            FungibleEntry { id: id(1, vec![]), amount: 100 },
            FungibleEntry { id: AssetId::Abstract(vec![9, 9]), amount: 3 },
        ],
        non_fungible: vec![NonFungibleEntry { id: id(0, vec![4]), instance: vec![40] }],
    }
}

#[test]
fn first_asset_prefers_fungible() {
    assert_eq!(sample().first_asset(), Some(MultiAsset { id: id(1, vec![]), fun: Fungibility::Fungible(100) }));
}

#[test]
fn first_asset_falls_back_to_non_fungible() {
    let h = Holding { fungible: vec![], non_fungible: vec![NonFungibleEntry { id: id(0, vec![4]), instance: vec![40] }] };
    assert_eq!(h.first_asset(), Some(MultiAsset { id: id(0, vec![4]), fun: Fungibility::NonFungible(vec![40]) }));
    assert_eq!(Holding::new().first_asset(), None);
}

#[test]
fn checked_sub_partial_amount() {
    let r = sample().checked_sub(&MultiAsset { id: AssetId::Abstract(vec![9, 9]), fun: Fungibility::Fungible(2) });
    let mut expected = sample();
    expected.fungible[1].amount = 1;
    assert_eq!(r, Ok(expected));
}

#[test]
fn checked_sub_whole_amount_removes_entry() {
    let r = sample().checked_sub(&MultiAsset { id: id(1, vec![]), fun: Fungibility::Fungible(100) });
    let mut expected = sample();
    expected.fungible.remove(0);
    assert_eq!(r, Ok(expected));
}

#[test]
fn checked_sub_too_much_fails_unchanged() {
    let r = sample().checked_sub(&MultiAsset { id: id(1, vec![]), fun: Fungibility::Fungible(101) });
    assert_eq!(r, Err(sample()));
}

#[test]
fn checked_sub_absent_asset_fails_even_for_zero() {
    let r = sample().checked_sub(&MultiAsset { id: id(2, vec![]), fun: Fungibility::Fungible(0) });
    assert_eq!(r, Err(sample()));
}

#[test]
fn checked_sub_non_fungible() {
    let r = sample().checked_sub(&MultiAsset { id: id(0, vec![4]), fun: Fungibility::NonFungible(vec![40]) });
    let mut expected = sample();
    expected.non_fungible.clear();
    assert_eq!(r, Ok(expected));
    let r = sample().checked_sub(&MultiAsset { id: id(0, vec![4]), fun: Fungibility::NonFungible(vec![41]) });
    assert_eq!(r, Err(sample()));
}

#[test]
fn asset_ids_compare_by_content() {
    assert!(id(1, vec![3, 4]).same_as(&id(1, vec![3, 4])));
    assert!(!id(1, vec![3, 4]).same_as(&id(1, vec![3])));
    assert!(!id(1, vec![]).same_as(&AssetId::Abstract(vec![])));
    assert!(AssetId::Abstract(vec![1]).same_as(&AssetId::Abstract(vec![1])));
    assert_eq!(id(2, vec![5]).duplicate(), id(2, vec![5]));
}

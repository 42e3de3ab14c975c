use cumulus_primitives_utility::fees::{Mint, XcmFeesToAccount};
use cumulus_primitives_utility::asset::{AssetId, Fungibility, MultiAsset};
use cumulus_primitives_utility::location::Location;
use cumulus_primitives_utility::router::{ParentAsUmp, SendError};

#[test]
fn parent_is_recognised() {
    assert!(Location::parent().contains_parents_only(1));
    assert!(!Location { parents: 1, interior: vec![vec![0, 232, 3]] }.contains_parents_only(1));
    assert!(!Location { parents: 2, interior: vec![] }.contains_parents_only(1));
    assert!(Location { parents: 2, interior: vec![] }.contains_parents_only(2));
}

#[test]
fn message_for_parent_goes_upward() {
    let r: Result<Vec<u8>, SendError<&str, ()>> = ParentAsUmp::upward_payload(
        Location::parent(),
        "transfer",
        |_d: &Location, m: &str| Some(format!("v3:{}", m)),
        |v: String| v.into_bytes(),
    );
    assert_eq!(r, Ok(b"v3:transfer".to_vec()));
}

#[test]
fn message_for_sibling_is_refused() {
    let dest = Location { parents: 1, interior: vec![vec![0, 208, 7]] };
    let r: Result<Vec<u8>, SendError<&str, ()>> = ParentAsUmp::upward_payload(
        dest.clone(),
        "transfer",
        |_d: &Location, _m: &str| -> Option<String> { panic!("must not be wrapped") },
        |v: String| v.into_bytes(),
    );
    assert_eq!(r, Err(SendError::CannotReachDestination(dest, "transfer")));
}

#[test]
fn message_for_this_chain_is_refused() {
    let here = Location { parents: 0, interior: vec![] };
    let r: Result<Vec<u8>, SendError<u32, ()>> = ParentAsUmp::upward_payload(
        here.clone(),
        7u32,
        |_d: &Location, m: u32| Some(m),
        |v: u32| vec![v as u8],
    );
    assert_eq!(r, Err(SendError::CannotReachDestination(here, 7)));
}

#[test]
fn unversionable_message_is_unsupported() {
    let r: Result<Vec<u8>, SendError<u32, ()>> = ParentAsUmp::upward_payload(
        Location::parent(),
        7u32,
        |_d: &Location, _m: u32| None::<u32>,
        |v: u32| vec![v as u8],
    );
    assert_eq!(r, Err(SendError::DestinationUnsupported));
}

#[test]
fn queue_answer_is_mapped() {
    assert_eq!(ParentAsUmp::transport_outcome::<u32, &str>(Ok(())), Ok(()));
    assert_eq!(ParentAsUmp::transport_outcome::<u32, &str>(Err("queue full")), Err(SendError::Transport("queue full")));
}

fn revenue(amount: u128) -> MultiAsset {
    MultiAsset { id: AssetId::Concrete(Location::parent()), fun: Fungibility::Fungible(amount) }
}

#[test]
fn revenue_is_minted_to_receiver() {
    let r = XcmFeesToAccount::take_revenue(
        &revenue(55),
        |a: &MultiAsset| match &a.fun {
            Fungibility::Fungible(b) => Some((1u32, *b)),
            Fungibility::NonFungible(_) => None,
        },
        || Some("treasury"),
    );
    assert_eq!(r, Some(Mint { asset_id: 1u32, receiver: "treasury", amount: 55 }));
}

#[test]
fn revenue_without_receiver_or_amount_is_not_minted() {
    assert_eq!(XcmFeesToAccount::take_revenue_quoted(Some((1u32, 55)), None::<&str>), None);
    assert_eq!(XcmFeesToAccount::take_revenue_quoted(Some((1u32, 0)), Some("treasury")), None);
    assert_eq!(XcmFeesToAccount::take_revenue_quoted(None::<(u32, u128)>, Some("treasury")), None);
    let r = XcmFeesToAccount::take_revenue(
        &revenue(5),
        |_a: &MultiAsset| None::<(u32, u128)>,
        || -> Option<&str> { panic!("receiver must not be asked") },
    );
    assert_eq!(r, None);
}

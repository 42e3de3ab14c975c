use cumulus_primitives_utility::asset::{AssetId, Fungibility, MultiAsset};
use cumulus_primitives_utility::holding::{FungibleEntry, Holding, NonFungibleEntry};
use cumulus_primitives_utility::location::Location;
use cumulus_primitives_utility::trader::{FeeQuote, TakeFirstAssetTrader, TraderError};

fn here_asset_id() -> AssetId {
    AssetId::Concrete(Location { parents: 1, interior: vec![] })
}

fn other_asset_id() -> AssetId {
    AssetId::Concrete(Location { parents: 0, interior: vec![vec![0, 50], vec![7]] })
}

fn payment(entries: Vec<(AssetId, u128)>) -> Holding {
    Holding {
        fungible: entries.into_iter().map(|(id, amount)| FungibleEntry { id, amount }).collect(),
        non_fungible: vec![],
    }
}

fn fungible(id: AssetId, amount: u128) -> MultiAsset {
    MultiAsset { id, fun: Fungibility::Fungible(amount) }
}

#[test]
fn buy_weight_charges_first_asset() {
    let mut trader = TakeFirstAssetTrader::new();
    let pay = payment(vec![(here_asset_id(), 1000), (other_asset_id(), 5)]);
    let unused = trader.buy_weight_quoted::<()>(400, pay, FeeQuote::Charged(Some(300))).unwrap();
    assert_eq!(unused, payment(vec![(here_asset_id(), 700), (other_asset_id(), 5)]));
    assert_eq!(trader.weight_outstanding(), Some(400));
    assert_eq!(trader.outstanding_revenue(), Some(fungible(here_asset_id(), 300)));
}

#[test]
fn buy_weight_exact_amount_empties_entry() {
    let mut trader = TakeFirstAssetTrader::new();
    let pay = payment(vec![(here_asset_id(), 300), (other_asset_id(), 5)]);
    let unused = trader.buy_weight_quoted::<()>(10, pay, FeeQuote::Charged(Some(300))).unwrap();
    assert_eq!(unused, payment(vec![(other_asset_id(), 5)]));
}

#[test]
fn buy_weight_twice_is_not_withdrawable() {
    let mut trader = TakeFirstAssetTrader::new();
    let pay = payment(vec![(here_asset_id(), 1000)]);
    assert!(trader.buy_weight_quoted::<()>(400, pay.clone(), FeeQuote::Charged(Some(300))).is_ok());
    let r = trader.buy_weight_quoted::<()>(100, pay, FeeQuote::Charged(Some(10)));
    assert_eq!(r, Err(TraderError::NotWithdrawable));
    assert_eq!(trader.weight_outstanding(), Some(400));
    assert_eq!(trader.outstanding_revenue(), Some(fungible(here_asset_id(), 300)));
}

#[test]
fn buy_weight_empty_payment() {
    let mut trader = TakeFirstAssetTrader::new();
    let r = trader.buy_weight_quoted::<()>(1, Holding::new(), FeeQuote::Charged(Some(1)));
    assert_eq!(r, Err(TraderError::AssetNotFound));
    assert_eq!(trader.weight_outstanding(), None);
}

#[test]
fn buy_weight_unmatched_asset() {
    let mut trader = TakeFirstAssetTrader::new();
    let r = trader.buy_weight_quoted::<()>(1, payment(vec![(here_asset_id(), 10)]), FeeQuote::Unmatched);
    assert_eq!(r, Err(TraderError::AssetNotFound));
    assert_eq!(trader.weight_outstanding(), None);
}

#[test]
fn buy_weight_charger_error_passes_through() {
    let mut trader = TakeFirstAssetTrader::new();
    let r = trader.buy_weight_quoted(1, payment(vec![(here_asset_id(), 10)]), FeeQuote::ChargeFailed("no price"));
    assert_eq!(r, Err(TraderError::Charge("no price")));
    assert_eq!(trader.weight_outstanding(), None);
}

#[test]
fn buy_weight_balance_overflow() {
    let mut trader = TakeFirstAssetTrader::new();
    let r = trader.buy_weight_quoted::<()>(1, payment(vec![(here_asset_id(), 10)]), FeeQuote::Charged(None));
    assert_eq!(r, Err(TraderError::Overflow));
}

#[test]
fn buy_weight_insufficient_payment() {
    let mut trader = TakeFirstAssetTrader::new();
    let r = trader.buy_weight_quoted::<()>(1, payment(vec![(here_asset_id(), 10)]), FeeQuote::Charged(Some(11)));
    assert_eq!(r, Err(TraderError::TooExpensive));
    assert_eq!(trader.weight_outstanding(), None);
}

#[test]
fn buy_weight_abstract_asset_too_expensive() {
    let mut trader = TakeFirstAssetTrader::new();
    let pay = payment(vec![(AssetId::Abstract(vec![1, 2, 3]), 10)]);
    let r = trader.buy_weight_quoted::<()>(1, pay, FeeQuote::Charged(Some(1)));
    assert_eq!(r, Err(TraderError::TooExpensive));
}

#[test]
fn buy_weight_non_fungible_first_too_expensive() {
    let mut trader = TakeFirstAssetTrader::new();
    let pay = Holding { fungible: vec![], non_fungible: vec![NonFungibleEntry { id: here_asset_id(), instance: vec![3] }] };
    let r = trader.buy_weight_quoted::<()>(1, pay, FeeQuote::Charged(Some(1)));
    assert_eq!(r, Err(TraderError::TooExpensive));
}

#[test]
fn buy_weight_calls_matcher_and_charger() {
    let mut trader = TakeFirstAssetTrader::new();
    let pay = payment(vec![(here_asset_id(), 1000)]);
    let r = trader.buy_weight(
        250,
        pay,
        |a: &MultiAsset| if a.id == here_asset_id() { Some(7u32) } else { None },
        |id: u32, w: u64| -> Result<Option<u128>, ()> { Ok(Some((id as u128) * (w as u128) / 10)) },
    );
    assert_eq!(r, Ok(payment(vec![(here_asset_id(), 825)])));
    assert_eq!(trader.outstanding_revenue(), Some(fungible(here_asset_id(), 175)));
}

#[test]
fn buy_weight_with_unknown_asset_skips_charger() {
    let mut trader = TakeFirstAssetTrader::new();
    let pay = payment(vec![(other_asset_id(), 1000)]);
    let r = trader.buy_weight(
        250,
        pay,
        |_a: &MultiAsset| None::<u32>,
        |_id: u32, _w: u64| -> Result<Option<u128>, ()> { panic!("the charger must not be asked") },
    );
    assert_eq!(r, Err(TraderError::AssetNotFound));
}

#[test]
fn refund_without_purchase_is_none() {
    let mut trader = TakeFirstAssetTrader::new();
    assert_eq!(trader.refund_weight_quoted(100, Some((10, 5))), None);
    assert_eq!(trader.weight_outstanding(), None);
    assert_eq!(trader.refund_request(100), None);
}

#[test]
fn refund_partial_weight() {
    let mut trader = TakeFirstAssetTrader::new();
    trader.buy_weight_quoted::<()>(400, payment(vec![(here_asset_id(), 1000)]), FeeQuote::Charged(Some(400))).unwrap();
    assert_eq!(trader.refund_request(100), Some((fungible(here_asset_id(), 400), 100)));
    let refund = trader.refund_weight_quoted(100, Some((400, 100)));
    assert_eq!(refund, Some(fungible(here_asset_id(), 100)));
    assert_eq!(trader.weight_outstanding(), Some(300));
    assert_eq!(trader.outstanding_revenue(), Some(fungible(here_asset_id(), 300)));
}

#[test]
fn refund_is_clamped_to_outstanding_weight() {
    let mut trader = TakeFirstAssetTrader::new();
    trader.buy_weight_quoted::<()>(400, payment(vec![(here_asset_id(), 1000)]), FeeQuote::Charged(Some(400))).unwrap();
    assert_eq!(trader.refund_request(1000), Some((fungible(here_asset_id(), 400), 400)));
    let refund = trader.refund_weight(
        1000,
        |a: &MultiAsset| match &a.fun {
            Fungibility::Fungible(b) => Some(((), *b)),
            Fungibility::NonFungible(_) => None,
        },
        |_id: (), w: u64| Some(w as u128),
    );
    assert_eq!(refund, Some(fungible(here_asset_id(), 400)));
    assert_eq!(trader.weight_outstanding(), Some(0));
    assert_eq!(trader.outstanding_revenue(), Some(fungible(here_asset_id(), 0)));
}

#[test]
fn refund_worth_more_than_outstanding_saturates() {
    let mut trader = TakeFirstAssetTrader::new();
    trader.buy_weight_quoted::<()>(400, payment(vec![(here_asset_id(), 1000)]), FeeQuote::Charged(Some(400))).unwrap();
    let refund = trader.refund_weight_quoted(50, Some((400, 900)));
    assert_eq!(refund, Some(fungible(here_asset_id(), 900)));
    assert_eq!(trader.weight_outstanding(), Some(350));
    assert_eq!(trader.outstanding_revenue(), Some(fungible(here_asset_id(), 0)));
}

#[test]
fn refund_of_nothing_updates_state_but_returns_none() {
    let mut trader = TakeFirstAssetTrader::new();
    trader.buy_weight_quoted::<()>(400, payment(vec![(here_asset_id(), 1000)]), FeeQuote::Charged(Some(400))).unwrap();
    let refund = trader.refund_weight_quoted(40, Some((400, 0)));
    assert_eq!(refund, None);
    assert_eq!(trader.weight_outstanding(), Some(360));
    assert_eq!(trader.outstanding_revenue(), Some(fungible(here_asset_id(), 400)));
}

#[test]
fn refund_failed_quote_changes_nothing() {
    let mut trader = TakeFirstAssetTrader::new();
    trader.buy_weight_quoted::<()>(400, payment(vec![(here_asset_id(), 1000)]), FeeQuote::Charged(Some(400))).unwrap();
    assert_eq!(trader.refund_weight_quoted(100, None), None);
    assert_eq!(trader.weight_outstanding(), Some(400));
    let refund = trader.refund_weight(100, |_a: &MultiAsset| None::<((), u128)>, |_id: (), _w: u64| Some(1));
    assert_eq!(refund, None);
    assert_eq!(trader.outstanding_revenue(), Some(fungible(here_asset_id(), 400)));
}

#[test]
fn refunds_in_series_never_exceed_purchase() {
    let mut trader = TakeFirstAssetTrader::new();
    trader.buy_weight_quoted::<()>(100, payment(vec![(here_asset_id(), 1000)]), FeeQuote::Charged(Some(300))).unwrap();
    let mut refunded_weight = 0u64;
    let mut refunded_amount = 0u128;
    for _ in 0..5 {
        let before = trader.weight_outstanding().unwrap();
        let refund = trader.refund_weight(
            30,
            |a: &MultiAsset| match &a.fun {
                Fungibility::Fungible(b) => Some(((), *b)),
                Fungibility::NonFungible(_) => None,
            },
            |_id: (), w: u64| Some(3 * w as u128),
        );
        if let Some(MultiAsset { fun: Fungibility::Fungible(n), .. }) = refund {
            refunded_amount += n;
        }
        refunded_weight += before - trader.weight_outstanding().unwrap();
    }
    assert_eq!(refunded_weight, 100);
    assert_eq!(refunded_amount, 300);
    assert_eq!(trader.weight_outstanding(), Some(0));
    assert_eq!(trader.outstanding_revenue(), Some(fungible(here_asset_id(), 0)));
}

//! A weight trader that charges for execution in the first asset of the
//! payment and refunds unused weight in the same asset.
use vstd::prelude::*;
use crate::asset::{AssetId, AssetIdView, Fungibility, FungibilityView, MultiAsset, MultiAssetView};
use crate::holding::{fungible_amount, lemma_checked_sub_fungible, Holding, HoldingView};

verus! {

/// What is recorded after weight was bought: the weight bought minus the
/// weight already refunded, and the asset paid for it minus what was already
/// refunded.
#[derive(Clone, Debug, PartialEq, Eq)]
pub struct AssetTraderRefunder {
    pub weight_outstanding: u64,
    pub outstanding_concrete_asset: MultiAsset,
}

/// The mathematical value of an [`AssetTraderRefunder`].
pub struct RefunderView {
    pub weight_outstanding: u64,
    pub outstanding_concrete_asset: MultiAssetView,
}

impl View for AssetTraderRefunder {
    type V = RefunderView;

    open spec fn view(&self) -> RefunderView {
        RefunderView {
            weight_outstanding: self.weight_outstanding,
            outstanding_concrete_asset: self.outstanding_concrete_asset@,
        }
    }
}

/// Charges for execution in the first asset of those offered as payment. Only
/// a fungible asset that a location defines can pay. The weight bought and the
/// amount paid are kept for later refunds; weight can be bought once only.
#[derive(Debug)]
pub struct TakeFirstAssetTrader {
    refunder: Option<AssetTraderRefunder>,
}

impl View for TakeFirstAssetTrader {
    type V = Option<RefunderView>;

    closed spec fn view(&self) -> Option<RefunderView> {
        match self.refunder {
            Some(r) => Some(r@),
            None => None,
        }
    }
}

/// Why buying weight failed. `Charge` carries the error of the fee charger.
#[derive(PartialEq, Eq, Debug)]
pub enum TraderError<E> {
    NotWithdrawable,
    AssetNotFound,
    Overflow,
    TooExpensive,
    Charge(E),
}

/// What the matcher and the fee charger said of the first payment asset: the
/// matcher did not recognise it; or the charger failed; or the charger asked
/// for a balance, `None` where that balance does not fit in a `u128`.
pub enum FeeQuote<E> {
    Unmatched,
    ChargeFailed(E),
    Charged(Option<u128>),
}

/// The trader's state and the result after buying `weight` with `payment`,
/// given what the matcher and the fee charger said of the first payment asset.
pub open spec fn buy_weight_outcome<E>(
    state: Option<RefunderView>,
    weight: u64,
    payment: HoldingView,
    quote: FeeQuote<E>,
) -> (Option<RefunderView>, Result<HoldingView, TraderError<E>>) {
    if state is Some {
        (state, Err(TraderError::NotWithdrawable))
    } else if payment.asset_list().len() == 0 {
        (state, Err(TraderError::AssetNotFound))
    } else {
        let first = payment.asset_list()[0];
        match quote {
            FeeQuote::Unmatched => (state, Err(TraderError::AssetNotFound)),
            FeeQuote::ChargeFailed(e) => (state, Err(TraderError::Charge(e))),
            FeeQuote::Charged(amount) => {
                if !first.is_concrete_fungible() {
                    (state, Err(TraderError::TooExpensive))
                } else {
                    match amount {
                        None => (state, Err(TraderError::Overflow)),
                        Some(a) => {
                            let required = MultiAssetView { id: first.id, fun: FungibilityView::Fungible(a) };
                            match payment.checked_sub(required) {
                                Ok(unused) => (
                                    Some(RefunderView { weight_outstanding: weight, outstanding_concrete_asset: required }),
                                    Ok(unused),
                                ),
                                Err(_) => (state, Err(TraderError::TooExpensive)),
                            }
                        },
                    }
                }
            },
        }
    }
}

/// The value of a result of buying weight.
pub open spec fn buy_result_view<E>(r: Result<Holding, TraderError<E>>) -> Result<HoldingView, TraderError<E>> {
    match r {
        Ok(h) => Ok(h@),
        Err(e) => Err(e),
    }
}

/// `quote` is what a matcher and a fee charger may say of `first` when weight
/// `weight` is bought: the matcher is asked about the asset, and where it
/// recognises it, the charger is asked about the local identity it gave.
pub open spec fn buy_quote_possible<Id, E, M, C>(
    matcher: M,
    charger: C,
    first: MultiAssetView,
    weight: u64,
    quote: FeeQuote<E>,
) -> bool where
    M: FnOnce(&MultiAsset) -> Option<Id>,
    C: FnOnce(Id, u64) -> Result<Option<u128>, E>,
 {
    exists|a: MultiAsset|
        #![trigger a@]
        a@ == first && match quote {
            FeeQuote::Unmatched => call_ensures(matcher, (&a,), None::<Id>),
            FeeQuote::ChargeFailed(e) => exists|id: Id|
                call_ensures(matcher, (&a,), Some(id)) && call_ensures(charger, (id, weight), Err::<Option<u128>, E>(e)),
            FeeQuote::Charged(x) => exists|id: Id|
                call_ensures(matcher, (&a,), Some(id)) && call_ensures(charger, (id, weight), Ok::<Option<u128>, E>(x)),
        }
}

/// The trader's state and the refund after refunding `weight`, given what the
/// matcher said of the outstanding asset (its balance) and what the fee
/// charger said the refunded weight is worth: `None` where either failed.
pub open spec fn refund_weight_outcome(
    state: Option<RefunderView>,
    weight: u64,
    quote: Option<(u128, u128)>,
) -> (Option<RefunderView>, Option<MultiAssetView>) {
    match state {
        None => (state, None),
        Some(r) => match quote {
            None => (state, None),
            Some((outstanding_balance, asset_balance)) => {
                let w = refund_weight_clamp(weight, r.weight_outstanding);
                let rest = if outstanding_balance >= asset_balance {
                    (outstanding_balance - asset_balance) as u128
                } else {
                    0u128
                };
                let id = r.outstanding_concrete_asset.id;
                (
                    Some(RefunderView {
                        weight_outstanding: (r.weight_outstanding - w) as u64,
                        outstanding_concrete_asset: MultiAssetView { id, fun: FungibilityView::Fungible(rest) },
                    }),
                    if asset_balance > 0 {
                        Some(MultiAssetView { id, fun: FungibilityView::Fungible(asset_balance) })
                    } else {
                        None
                    },
                )
            },
        },
    }
}

/// The weight actually refunded: no more than is outstanding.
pub open spec fn refund_weight_clamp(weight: u64, outstanding: u64) -> u64 {
    if weight <= outstanding { weight } else { outstanding }
}

/// The value of an optional asset.
pub open spec fn asset_option_view(r: Option<MultiAsset>) -> Option<MultiAssetView> {
    match r {
        Some(a) => Some(a@),
        None => None,
    }
}

/// `quote` is what a matcher and a fee charger may say when `weight` is
/// refunded against the outstanding asset `outstanding`.
pub open spec fn refund_quote_possible<Id, M, C>(
    matcher: M,
    charger: C,
    outstanding: MultiAssetView,
    weight: u64,
    quote: Option<(u128, u128)>,
) -> bool where
    M: FnOnce(&MultiAsset) -> Option<(Id, u128)>,
    C: FnOnce(Id, u64) -> Option<u128>,
 {
    exists|a: MultiAsset|
        #![trigger a@]
        a@ == outstanding && match quote {
            None => call_ensures(matcher, (&a,), None::<(Id, u128)>) || exists|id: Id, b: u128|
                call_ensures(matcher, (&a,), Some((id, b))) && call_ensures(charger, (id, weight), None::<u128>),
            Some((b, c)) => exists|id: Id|
                call_ensures(matcher, (&a,), Some((id, b))) && call_ensures(charger, (id, weight), Some(c)),
        }
}

impl TakeFirstAssetTrader {
    /// A trader that has bought nothing.
    pub fn new() -> (r: TakeFirstAssetTrader)
        ensures
            r@ is None,
    {
        TakeFirstAssetTrader { refunder: None }
    }

    /// Buys `weight` with the first asset of `payment`, given what the matcher
    /// and the fee charger said of that asset. Returns the unused payment.
    pub fn buy_weight_quoted<E>(&mut self, weight: u64, payment: Holding, quote: FeeQuote<E>) -> (r: Result<
        Holding,
        TraderError<E>,
    >)
        ensures
            final(self)@ == buy_weight_outcome(old(self)@, weight, payment@, quote).0,
            buy_result_view(r) == buy_weight_outcome(old(self)@, weight, payment@, quote).1,
    {
        if self.refunder.is_some() {
            return Err(TraderError::NotWithdrawable);
        }
        let first = match payment.first_asset() {
            Some(a) => a,
            None => return Err(TraderError::AssetNotFound),
        };
        let amount = match quote {
            FeeQuote::Unmatched => return Err(TraderError::AssetNotFound),
            FeeQuote::ChargeFailed(e) => return Err(TraderError::Charge(e)),
            FeeQuote::Charged(amount) => amount,
        };
        match (&first.id, &first.fun) {
            (AssetId::Concrete(_), Fungibility::Fungible(_)) => {
                let a = match amount {
                    Some(a) => a,
                    None => return Err(TraderError::Overflow),
                };
                let required = MultiAsset { id: first.id, fun: Fungibility::Fungible(a) };
                match payment.checked_sub(&required) {
                    Ok(unused) => {
                        self.refunder = Some(
                            AssetTraderRefunder { weight_outstanding: weight, outstanding_concrete_asset: required },
                        );
                        Ok(unused)
                    },
                    Err(_) => Err(TraderError::TooExpensive),
                }
            },
            _ => Err(TraderError::TooExpensive),
        }
    }
    /// Buys `weight` with the first asset of `payment`: the matcher is asked
    /// about that asset, and where it recognises it, the fee charger is asked
    /// what `weight` costs in the local asset it named. Returns the unused
    /// payment.
    pub fn buy_weight<Id, E, M, C>(&mut self, weight: u64, payment: Holding, matcher: M, charger: C) -> (r:
        Result<Holding, TraderError<E>>) where
        M: FnOnce(&MultiAsset) -> Option<Id>,
        C: FnOnce(Id, u64) -> Result<Option<u128>, E>,

        requires
            forall|a: &MultiAsset| matcher.requires((a,)),
            forall|id: Id| charger.requires((id, weight)),
        ensures
            exists|q: FeeQuote<E>|
                #![trigger buy_weight_outcome(old(self)@, weight, payment@, q)]
                {
                    &&& (old(self)@ is None && payment@.asset_list().len() > 0 ==> buy_quote_possible(
                        matcher,
                        charger,
                        payment@.asset_list()[0],
                        weight,
                        q,
                    ))
                    &&& final(self)@ == buy_weight_outcome(old(self)@, weight, payment@, q).0
                    &&& buy_result_view(r) == buy_weight_outcome(old(self)@, weight, payment@, q).1
                },
    {
        if self.refunder.is_some() {
            return self.buy_weight_quoted(weight, payment, FeeQuote::Unmatched);
        }
        let first = match payment.first_asset() {
            Some(a) => a,
            None => return self.buy_weight_quoted(weight, payment, FeeQuote::Unmatched),
        };
        let quote = match matcher(&first) {
            None => FeeQuote::Unmatched,
            Some(id) => match charger(id, weight) {
                Err(e) => FeeQuote::ChargeFailed(e),
                Ok(x) => FeeQuote::Charged(x),
            },
        };
        assert(buy_quote_possible(matcher, charger, payment@.asset_list()[0], weight, quote)) by {
            assert(first@ == payment@.asset_list()[0]);
        }
        self.buy_weight_quoted(weight, payment, quote)
    }

    /// The asset to ask the matcher about, and the weight to ask the fee
    /// charger about, when `weight` is refunded: the outstanding asset, and
    /// `weight` but no more than is outstanding. `None` where nothing was
    /// bought.
    pub fn refund_request(&self, weight: u64) -> (r: Option<(MultiAsset, u64)>)
        ensures
            match (r, self@) {
                (Some((a, w)), Some(s)) => a@ == s.outstanding_concrete_asset && w == refund_weight_clamp(
                    weight,
                    s.weight_outstanding,
                ),
                (None, None) => true,
                _ => false,
            },
    {
        match &self.refunder {
            Some(r) => {
                let w = if weight <= r.weight_outstanding { weight } else { r.weight_outstanding };
                Some((r.outstanding_concrete_asset.duplicate(), w))
            },
            None => None,
        }
    }

    /// Refunds `weight`, given the balance that the matcher read from the
    /// outstanding asset and what the fee charger said the refunded weight is
    /// worth (`None` where either failed). Returns the asset refunded, if any.
    pub fn refund_weight_quoted(&mut self, weight: u64, quote: Option<(u128, u128)>) -> (r: Option<MultiAsset>)
        ensures
            final(self)@ == refund_weight_outcome(old(self)@, weight, quote).0,
            asset_option_view(r) == refund_weight_outcome(old(self)@, weight, quote).1,
    {
        let (weight_outstanding, id) = match &self.refunder {
            None => return None,
            Some(r) => (r.weight_outstanding, r.outstanding_concrete_asset.id.duplicate()),
        };
        let (outstanding_balance, asset_balance) = match quote {
            None => return None,
            Some(q) => q,
        };
        let w = if weight <= weight_outstanding { weight } else { weight_outstanding };
        let rest = if outstanding_balance >= asset_balance { outstanding_balance - asset_balance } else { 0 };
        let refund_id = id.duplicate();
        self.refunder = Some(
            AssetTraderRefunder {
                weight_outstanding: weight_outstanding - w,
                outstanding_concrete_asset: MultiAsset { id, fun: Fungibility::Fungible(rest) },
            },
        );
        if asset_balance > 0 {
            Some(MultiAsset { id: refund_id, fun: Fungibility::Fungible(asset_balance) })
        } else {
            None
        }
    }

    /// Refunds `weight`: the matcher is asked about the outstanding asset, and
    /// where it recognises it, the fee charger is asked what the refunded
    /// weight (no more than is outstanding) is worth in the local asset it
    /// named. Returns the asset refunded, if any.
    pub fn refund_weight<Id, M, C>(&mut self, weight: u64, matcher: M, charger: C) -> (r: Option<MultiAsset>) where
        M: FnOnce(&MultiAsset) -> Option<(Id, u128)>,
        C: FnOnce(Id, u64) -> Option<u128>,

        requires
            forall|a: &MultiAsset| matcher.requires((a,)),
            forall|id: Id, w: u64| charger.requires((id, w)),
        ensures
            exists|q: Option<(u128, u128)>|
                #![trigger refund_weight_outcome(old(self)@, weight, q)]
                {
                    &&& (old(self)@ matches Some(s) ==> refund_quote_possible(
                        matcher,
                        charger,
                        s.outstanding_concrete_asset,
                        refund_weight_clamp(weight, s.weight_outstanding),
                        q,
                    ))
                    &&& final(self)@ == refund_weight_outcome(old(self)@, weight, q).0
                    &&& asset_option_view(r) == refund_weight_outcome(old(self)@, weight, q).1
                },
    {
        let (asset, w) = match self.refund_request(weight) {
            None => return self.refund_weight_quoted(weight, None),
            Some(req) => req,
        };
        let quote = match matcher(&asset) {
            None => None,
            Some((id, outstanding_balance)) => match charger(id, w) {
                None => None,
                Some(asset_balance) => Some((outstanding_balance, asset_balance)),
            },
        };
        self.refund_weight_quoted(weight, quote)
    }

    /// The weight bought and not yet refunded, if weight was bought.
    pub fn weight_outstanding(&self) -> (r: Option<u64>)
        ensures
            r == match self@ {
                Some(s) => Some(s.weight_outstanding),
                None => None,
            },
    {
        match &self.refunder {
            Some(r) => Some(r.weight_outstanding),
            None => None,
        }
    }

    /// What goes to the revenue handler when the trader is dropped: the asset
    /// still outstanding, if weight was bought.
    pub fn outstanding_revenue(&self) -> (r: Option<MultiAsset>)
        ensures
            asset_option_view(r) == match self@ {
                Some(s) => Some(s.outstanding_concrete_asset),
                None => None,
            },
    {
        match &self.refunder {
            Some(r) => Some(r.outstanding_concrete_asset.duplicate()),
            None => None,
        }
    }
}

/// Weight can be bought once only: after a purchase succeeded, every further
/// purchase fails with `NotWithdrawable` and leaves the trader as it is.
pub proof fn lemma_buy_weight_once<E>(
    state: Option<RefunderView>,
    weight: u64,
    payment: HoldingView,
    quote: FeeQuote<E>,
    next_weight: u64,
    next_payment: HoldingView,
    next_quote: FeeQuote<E>,
)
    requires
        buy_weight_outcome(state, weight, payment, quote).1 is Ok,
    ensures
        buy_weight_outcome(state, weight, payment, quote).0 is Some,
        buy_weight_outcome(buy_weight_outcome(state, weight, payment, quote).0, next_weight, next_payment, next_quote)
            == (buy_weight_outcome(state, weight, payment, quote).0, Err::<HoldingView, TraderError<E>>(
            TraderError::NotWithdrawable,
        )),
{
}

/// A purchase that fails leaves the trader as it was.
pub proof fn lemma_buy_weight_failure_keeps_state<E>(
    state: Option<RefunderView>,
    weight: u64,
    payment: HoldingView,
    quote: FeeQuote<E>,
)
    requires
        buy_weight_outcome(state, weight, payment, quote).1 is Err,
    ensures
        buy_weight_outcome(state, weight, payment, quote).0 == state,
{
}

/// A purchase that succeeds was paid in the first payment asset, which is a
/// fungible one that a location defines, with the amount that the fee charger
/// asked. The trader records the weight bought and that asset and amount, and
/// the unused payment is the payment less exactly that amount: a well-formed
/// register whose other holdings are as they were.
pub proof fn lemma_buy_weight_splits_payment<E>(weight: u64, payment: HoldingView, quote: FeeQuote<E>)
    requires
        payment.wf(),
        buy_weight_outcome(None, weight, payment, quote).1 is Ok,
    ensures
        ({
            let first = payment.asset_list()[0];
            let outcome = buy_weight_outcome(None, weight, payment, quote);
            let unused = outcome.1->Ok_0;
            &&& payment.asset_list().len() > 0
            &&& first.is_concrete_fungible()
            &&& quote matches FeeQuote::Charged(Some(a)) && {
                &&& outcome.0 == Some(
                    RefunderView {
                        weight_outstanding: weight,
                        outstanding_concrete_asset: MultiAssetView { id: first.id, fun: FungibilityView::Fungible(a) },
                    },
                )
                &&& unused.wf()
                &&& fungible_amount(unused.fungible, first.id) + a == fungible_amount(payment.fungible, first.id)
                &&& forall|o: AssetIdView|
                    o != first.id ==> #[trigger] fungible_amount(unused.fungible, o) == fungible_amount(
                        payment.fungible,
                        o,
                    )
                &&& unused.non_fungible == payment.non_fungible
            }
        }),
{
    let first = payment.asset_list()[0];
    let a = quote->Charged_0->Some_0;
    lemma_checked_sub_fungible(payment, first.id, a);
}

/// A refund where nothing was bought refunds nothing and changes nothing.
pub proof fn lemma_refund_without_purchase(weight: u64, quote: Option<(u128, u128)>)
    ensures
        refund_weight_outcome(None, weight, quote) == (None::<RefunderView>, None::<MultiAssetView>),
{
}

/// A refund lowers the outstanding weight by the weight refunded, which is no
/// more than asked and no more than was outstanding; where the matcher or the
/// fee charger failed, nothing changes. The outstanding asset and the refund
/// stay in the asset that was paid.
pub proof fn lemma_refund_weight_bounded(state: RefunderView, weight: u64, quote: Option<(u128, u128)>)
    ensures
        ({
            let outcome = refund_weight_outcome(Some(state), weight, quote);
            &&& outcome.0 matches Some(next) && {
                &&& next.weight_outstanding <= state.weight_outstanding
                &&& state.weight_outstanding - next.weight_outstanding <= weight
                &&& quote is Some ==> state.weight_outstanding - next.weight_outstanding == refund_weight_clamp(
                    weight,
                    state.weight_outstanding,
                )
                &&& quote is None ==> next == state
                &&& next.outstanding_concrete_asset.id == state.outstanding_concrete_asset.id
            }
            &&& outcome.1 matches Some(refund) ==> refund.id == state.outstanding_concrete_asset.id
                && refund.fun is Fungible
        }),
{
}

/// The trader after a series of refunds, each a weight and what the matcher
/// and fee charger said for it.
pub open spec fn refund_series(state: Option<RefunderView>, steps: Seq<(u64, Option<(u128, u128)>)>) -> Option<
    RefunderView,
>
    decreases steps.len(),
{
    if steps.len() == 0 {
        state
    } else {
        refund_series(refund_weight_outcome(state, steps[0].0, steps[0].1).0, steps.drop_first())
    }
}

/// The weight refunded in all by a series of refunds: at each step, the fall
/// in the outstanding weight.
pub open spec fn refund_series_weight(state: Option<RefunderView>, steps: Seq<(u64, Option<(u128, u128)>)>) -> int
    decreases steps.len(),
{
    if steps.len() == 0 {
        0
    } else {
        let next = refund_weight_outcome(state, steps[0].0, steps[0].1).0;
        let fall: int = match (state, next) {
            (Some(a), Some(b)) => a.weight_outstanding - b.weight_outstanding,
            _ => 0,
        };
        fall + refund_series_weight(next, steps.drop_first())
    }
}

/// However many refunds follow a purchase, the weight refunded in all is what
/// was outstanding less what still is, so never more than the weight bought;
/// and the outstanding asset stays the asset paid.
pub proof fn lemma_refunds_never_exceed_purchase(state: RefunderView, steps: Seq<(u64, Option<(u128, u128)>)>)
    ensures
        refund_series(Some(state), steps) matches Some(last) && {
            &&& last.weight_outstanding <= state.weight_outstanding
            &&& refund_series_weight(Some(state), steps) == state.weight_outstanding - last.weight_outstanding
            &&& 0 <= refund_series_weight(Some(state), steps) <= state.weight_outstanding
            &&& last.outstanding_concrete_asset.id == state.outstanding_concrete_asset.id
        },
    decreases steps.len(),
{
    if steps.len() > 0 {
        lemma_refund_weight_bounded(state, steps[0].0, steps[0].1);
        let next = refund_weight_outcome(Some(state), steps[0].0, steps[0].1).0->Some_0;
        lemma_refunds_never_exceed_purchase(next, steps.drop_first());
    }
}

/// Where the matcher reads the outstanding asset's own amount and the refund
/// is worth no more than that, a refund splits the outstanding amount: what is
/// refunded and what stays outstanding add up to what was outstanding.
pub proof fn lemma_refund_conserves_amount(state: RefunderView, weight: u64, outstanding: u128, refund: u128)
    requires
        state.outstanding_concrete_asset.fun == FungibilityView::Fungible(outstanding),
        refund <= outstanding,
    ensures
        ({
            let outcome = refund_weight_outcome(Some(state), weight, Some((outstanding, refund)));
            let refunded: u128 = match outcome.1 {
                Some(a) => a.fun->Fungible_0,
                None => 0,
            };
            &&& outcome.0 matches Some(next) && next.outstanding_concrete_asset.fun matches FungibilityView::Fungible(
                rest,
            ) && rest + refunded == outstanding
            &&& outcome.1 matches Some(a) ==> a.fun is Fungible
        }),
{
}

/// What the trader records is always a fungible asset that a location defines.
pub open spec fn outstanding_is_concrete_fungible(state: Option<RefunderView>) -> bool {
    state matches Some(r) ==> r.outstanding_concrete_asset.is_concrete_fungible()
}

/// Buying and refunding keep the recorded asset a fungible asset that a
/// location defines; a new trader records nothing.
pub proof fn lemma_outstanding_stays_concrete_fungible<E>(
    state: Option<RefunderView>,
    weight: u64,
    payment: HoldingView,
    buy_quote: FeeQuote<E>,
    refund_quote: Option<(u128, u128)>,
)
    requires
        outstanding_is_concrete_fungible(state),
    ensures
        outstanding_is_concrete_fungible(None),
        outstanding_is_concrete_fungible(buy_weight_outcome(state, weight, payment, buy_quote).0),
        outstanding_is_concrete_fungible(refund_weight_outcome(state, weight, refund_quote).0),
{
}

/// A fee charger whose price for weight is additive: the price of two weights
/// together is the sum of their prices.
pub open spec fn additive_price(price: spec_fn(u64) -> u128) -> bool {
    forall|x: u64, y: u64|
        #![trigger price(x), price(y)]
        x + y <= u64::MAX ==> price((x + y) as u64) == price(x) + price(y)
}

/// The amount of a fungible asset (zero for a non-fungible one).
pub open spec fn fungible_amount_of(a: MultiAssetView) -> u128 {
    match a.fun {
        FungibilityView::Fungible(n) => n,
        FungibilityView::NonFungible(_) => 0,
    }
}

/// The trader and the total amount refunded after refunding each weight of
/// `weights` in turn, where the matcher reads the outstanding asset's own
/// amount and the fee charger prices weight by `price`.
pub open spec fn priced_refunds(state: Option<RefunderView>, weights: Seq<u64>, price: spec_fn(u64) -> u128) -> (
    Option<RefunderView>,
    int,
)
    decreases weights.len(),
{
    if weights.len() == 0 {
        (state, 0)
    } else {
        let quote = match state {
            Some(r) => Some(
                (
                    fungible_amount_of(r.outstanding_concrete_asset),
                    price(refund_weight_clamp(weights[0], r.weight_outstanding)),
                ),
            ),
            None => None,
        };
        let step = refund_weight_outcome(state, weights[0], quote);
        let refunded: int = match step.1 {
            Some(a) => fungible_amount_of(a) as int,
            None => 0,
        };
        let rest = priced_refunds(step.0, weights.drop_first(), price);
        (rest.0, refunded + rest.1)
    }
}

/// With an additive price, what a series of refunds gives back plus the price
/// of the weight still outstanding is the price of the weight outstanding
/// before.
proof fn lemma_priced_refunds_balance(state: RefunderView, weights: Seq<u64>, price: spec_fn(u64) -> u128)
    requires
        additive_price(price),
    ensures
        priced_refunds(Some(state), weights, price).0 matches Some(last) && priced_refunds(
            Some(state),
            weights,
            price,
        ).1 + price(last.weight_outstanding) == price(state.weight_outstanding),
    decreases weights.len(),
{
    if weights.len() > 0 {
        let w = refund_weight_clamp(weights[0], state.weight_outstanding);
        let left = (state.weight_outstanding - w) as u64;
        assert(price((w + left) as u64) == price(w) + price(left));
        let next = refund_weight_outcome(
            Some(state),
            weights[0],
            Some((fungible_amount_of(state.outstanding_concrete_asset), price(w))),
        ).0->Some_0;
        lemma_priced_refunds_balance(next, weights.drop_first(), price);
    }
}

/// Where the fee charger prices weight additively, and the matcher reads the
/// outstanding asset's own amount, the refunds that follow a purchase give
/// back in total no more than was paid for it, however many there are.
pub proof fn lemma_refunds_never_exceed_payment<E>(
    weight: u64,
    payment: HoldingView,
    price: spec_fn(u64) -> u128,
    refunds: Seq<u64>,
)
    requires
        additive_price(price),
        buy_weight_outcome(None, weight, payment, FeeQuote::<E>::Charged(Some(price(weight)))).1 is Ok,
    ensures
        ({
            let bought = buy_weight_outcome(None, weight, payment, FeeQuote::<E>::Charged(Some(price(weight)))).0;
            &&& bought matches Some(r) && fungible_amount_of(r.outstanding_concrete_asset) == price(weight)
            &&& 0 <= priced_refunds(bought, refunds, price).1 <= price(weight)
        }),
{
    let bought = buy_weight_outcome(None, weight, payment, FeeQuote::<E>::Charged(Some(price(weight)))).0;
    let r = bought->Some_0;
    lemma_priced_refunds_balance(r, refunds, price);
    lemma_priced_refunds_nonnegative(bought, refunds, price);
}

/// A series of refunds gives back a non-negative amount.
proof fn lemma_priced_refunds_nonnegative(
    state: Option<RefunderView>,
    weights: Seq<u64>,
    price: spec_fn(u64) -> u128,
)
    ensures
        priced_refunds(state, weights, price).1 >= 0,
    decreases weights.len(),
{
    if weights.len() > 0 {
        let quote = match state {
            Some(r) => Some(
                (
                    fungible_amount_of(r.outstanding_concrete_asset),
                    price(refund_weight_clamp(weights[0], r.weight_outstanding)),
                ),
            ),
            None => None,
        };
        lemma_priced_refunds_nonnegative(refund_weight_outcome(state, weights[0], quote).0, weights.drop_first(), price);
    }
}

/// A fresh trader offered a payment whose first entry is an amount `n` of a
/// fungible asset that a location defines, wherever that location is, and
/// charged `a <= n` of it, buys the weight: it records the weight and `a` of
/// that asset, and returns the payment with `a` taken off that entry (the
/// entry gone where nothing is left of it).
pub proof fn lemma_buy_weight_succeeds<E>(weight: u64, payment: HoldingView, a: u128)
    requires
        payment.fungible.len() > 0,
        payment.fungible[0].0 is Concrete,
        a <= payment.fungible[0].1,
    ensures
        ({
            let id = payment.fungible[0].0;
            let n = payment.fungible[0].1;
            let outcome = buy_weight_outcome(None, weight, payment, FeeQuote::<E>::Charged(Some(a)));
            &&& outcome.0 == Some(
                RefunderView {
                    weight_outstanding: weight,
                    outstanding_concrete_asset: MultiAssetView { id, fun: FungibilityView::Fungible(a) },
                },
            )
            &&& outcome.1 matches Ok(unused) && {
                &&& unused.non_fungible == payment.non_fungible
                &&& a == n ==> unused.fungible == payment.fungible.drop_first()
                &&& a < n ==> unused.fungible == payment.fungible.update(0, (id, (n - a) as u128))
            }
        }),
{
    let id = payment.fungible[0].0;
    let list = payment.asset_list();
    assert(list[0] == MultiAssetView { id, fun: FungibilityView::Fungible(payment.fungible[0].1) });
    assert(crate::holding::is_first_key(payment.fungible, id, 0));
    let c = choose|c: int| crate::holding::is_first_key(payment.fungible, id, c);
    assert(c == 0);
    let outcome = buy_weight_outcome(None, weight, payment, FeeQuote::<E>::Charged(Some(a)));
    if a == payment.fungible[0].1 {
        assert(payment.fungible.remove(0) =~= payment.fungible.drop_first());
    }
}

/// A refund never counts more weight than asked or than outstanding: after a
/// refund for which the matcher and the fee charger answered, the outstanding
/// weight is what it was less the weight asked, or zero where more was asked
/// than was outstanding; and the fee charger is asked about exactly that
/// weight, the smaller of the two.
pub proof fn lemma_refund_weight_is_minimum(state: RefunderView, weight: u64, quote: (u128, u128))
    ensures
        weight <= state.weight_outstanding ==> refund_weight_clamp(weight, state.weight_outstanding) == weight,
        weight >= state.weight_outstanding ==> refund_weight_clamp(weight, state.weight_outstanding)
            == state.weight_outstanding,
        refund_weight_outcome(Some(state), weight, Some(quote)).0 matches Some(next)
            && next.weight_outstanding == if weight <= state.weight_outstanding {
            state.weight_outstanding - weight
        } else {
            0
        },
{
}

/// Why a purchase fails: a trader that already bought refuses with
/// `NotWithdrawable`; an empty payment, or a first asset the matcher does not
/// recognise, gives `AssetNotFound`; the fee charger's own error is passed
/// on; a first asset that is not a fungible one defined by a location gives
/// `TooExpensive`; a price that does not fit in a `u128` gives `Overflow`;
/// and a price above what the payment holds of that asset gives
/// `TooExpensive`. In every case the trader is left as it was.
pub proof fn lemma_buy_weight_failures<E>(
    state: Option<RefunderView>,
    weight: u64,
    payment: HoldingView,
    quote: FeeQuote<E>,
)
    ensures
        ({
            let outcome = buy_weight_outcome(state, weight, payment, quote);
            let list = payment.asset_list();
            &&& state is Some ==> outcome == (state, Err::<HoldingView, TraderError<E>>(TraderError::NotWithdrawable))
            &&& state is None && list.len() == 0 ==> outcome.1 == Err::<HoldingView, TraderError<E>>(TraderError::AssetNotFound)
            &&& state is None && list.len() > 0 ==> {
                &&& quote is Unmatched ==> outcome.1 == Err::<HoldingView, TraderError<E>>(TraderError::AssetNotFound)
                &&& quote matches FeeQuote::ChargeFailed(e) ==> outcome.1 == Err::<HoldingView, TraderError<E>>(TraderError::Charge(e))
                &&& quote is Charged && !(list[0].id is Concrete && list[0].fun is Fungible) ==> outcome.1
                    == Err::<HoldingView, TraderError<E>>(TraderError::TooExpensive)
                &&& quote == FeeQuote::<E>::Charged(None) && list[0].id is Concrete && list[0].fun is Fungible
                    ==> outcome.1 == Err::<HoldingView, TraderError<E>>(TraderError::Overflow)
                &&& (quote is Charged && quote->Charged_0 is Some && payment.wf() && list[0].id is Concrete
                    && list[0].fun is Fungible && list[0].fun->Fungible_0 < quote->Charged_0->Some_0) ==> outcome.1 == Err::<
                    HoldingView,
                    TraderError<E>,
                >(TraderError::TooExpensive)
            }
            &&& outcome.1 is Err ==> outcome.0 == state
        }),
{
    let list = payment.asset_list();
    if state is None && list.len() > 0 && payment.wf() && list[0].id is Concrete && payment.fungible.len() > 0 {
        let id = payment.fungible[0].0;
        assert(list[0].id == id);
        assert(crate::holding::is_first_key(payment.fungible, id, 0));
        let c = choose|c: int| crate::holding::is_first_key(payment.fungible, id, c);
        assert(c == 0);
    }
}

/// What a refund gives back and keeps: where the matcher read balance `b`
/// and the fee charger priced the refunded weight at `c`, the refund is `c`
/// of the paid asset (nothing where `c` is zero), and what stays outstanding
/// of that asset is `b` less `c`, or zero where `c` exceeds `b`.
pub proof fn lemma_refund_amounts(state: RefunderView, weight: u64, b: u128, c: u128)
    ensures
        ({
            let outcome = refund_weight_outcome(Some(state), weight, Some((b, c)));
            let id = state.outstanding_concrete_asset.id;
            &&& c > 0 ==> outcome.1 == Some(MultiAssetView { id, fun: FungibilityView::Fungible(c) })
            &&& c == 0 ==> outcome.1 is None
            &&& outcome.0 matches Some(next) && next.outstanding_concrete_asset == MultiAssetView {
                id,
                fun: FungibilityView::Fungible(if c <= b { (b - c) as u128 } else { 0 }),
            }
        }),
{
}

} // verus!

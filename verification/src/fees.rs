//! Depositing collected execution fees into an account.
use vstd::prelude::*;
use crate::asset::MultiAsset;

verus! {

/// An instruction to mint `amount` of the local asset `asset_id` into the
/// account `receiver`.
#[derive(Clone, Debug, PartialEq, Eq)]
pub struct Mint<Id, Account> {
    pub asset_id: Id,
    pub receiver: Account,
    pub amount: u128,
}

/// Takes the revenue of execution fees and mints it, as the local asset that
/// the matcher names, into the receiving account, where there is one.
pub struct XcmFeesToAccount;

/// The mint owed, given what the matcher said of the revenue (the local asset
/// and the amount) and the receiving account: none where the matcher did not
/// recognise the revenue, where there is no receiver, or where the amount is
/// zero.
pub open spec fn revenue_mint<Id, Account>(matched: Option<(Id, u128)>, receiver: Option<Account>) -> Option<
    Mint<Id, Account>,
> {
    match matched {
        None => None,
        Some((asset_id, amount)) => match receiver {
            None => None,
            Some(account) => if amount != 0 {
                Some(Mint { asset_id, receiver: account, amount })
            } else {
                None
            },
        },
    }
}

impl XcmFeesToAccount {
    /// The mint owed for revenue that the matcher read as `matched`, with the
    /// receiving account `receiver`.
    pub fn take_revenue_quoted<Id, Account>(matched: Option<(Id, u128)>, receiver: Option<Account>) -> (r: Option<
        Mint<Id, Account>,
    >)
        ensures
            r == revenue_mint(matched, receiver),
    {
        match matched {
            None => None,
            Some((asset_id, amount)) => match receiver {
                None => None,
                Some(account) => if amount != 0 {
                    Some(Mint { asset_id, receiver: account, amount })
                } else {
                    None
                },
            },
        }
    }

    /// The mint owed for `revenue`: the matcher is asked about the revenue,
    /// and where it recognises it, `receiver` is asked for the receiving
    /// account.
    pub fn take_revenue<Id, Account, M, G>(revenue: &MultiAsset, matcher: M, receiver: G) -> (r: Option<
        Mint<Id, Account>,
    >) where
        M: FnOnce(&MultiAsset) -> Option<(Id, u128)>,
        G: FnOnce() -> Option<Account>,

        requires
            matcher.requires((revenue,)),
            receiver.requires(()),
        ensures
            exists|matched: Option<(Id, u128)>, account: Option<Account>|
                #![trigger revenue_mint(matched, account)]
                {
                    &&& call_ensures(matcher, (revenue,), matched)
                    &&& (matched is Some ==> call_ensures(receiver, (), account))
                    &&& r == revenue_mint(matched, account)
                },
    {
        let matched = matcher(revenue);
        match matched {
            None => {
                let r = Self::take_revenue_quoted(matched, None::<Account>);
                r
            },
            Some(m) => {
                let account = receiver();
                Self::take_revenue_quoted(Some(m), account)
            },
        }
    }
}

/// The mint carries exactly what the matcher read: where the revenue was
/// recognised as a non-zero amount `n` of `asset_id` and there is a receiving
/// account, `n` of `asset_id` is minted into it; otherwise nothing is minted.
pub proof fn lemma_mint_is_matched_amount<Id, Account>(
    matched: Option<(Id, u128)>,
    receiver: Option<Account>,
)
    ensures
        (matched matches Some((asset_id, n)) && n != 0 && receiver matches Some(account)) ==> revenue_mint(
            matched,
            receiver,
        ) == Some(Mint { asset_id: matched->Some_0.0, receiver: receiver->Some_0, amount: matched->Some_0.1 }),
        revenue_mint(matched, receiver) is Some ==> (matched is Some && receiver is Some && matched->Some_0.1 != 0),
{
}

} // verus!

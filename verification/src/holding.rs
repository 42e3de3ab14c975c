//! The holding register: the assets that a message execution holds.
use vstd::prelude::*;
use crate::asset::{AssetId, AssetIdView, Fungibility, FungibilityView, MultiAsset, MultiAssetView};
use crate::location::{bytes_copy, bytes_equal};

verus! {

/// An amount of one fungible asset.
#[derive(Clone, Debug, PartialEq, Eq)]
pub struct FungibleEntry {
    pub id: AssetId,
    pub amount: u128,
}

/// One instance of a non-fungible asset.
#[derive(Clone, Debug, PartialEq, Eq)]
pub struct NonFungibleEntry {
    pub id: AssetId,
    pub instance: Vec<u8>,
}

/// The assets held: amounts of fungible assets, then instances of
/// non-fungible ones, each part in the order in which the register keeps it.
#[derive(Clone, Debug, PartialEq, Eq)]
pub struct Holding {
    pub fungible: Vec<FungibleEntry>,
    pub non_fungible: Vec<NonFungibleEntry>,
}

/// The mathematical value of a [`Holding`].
pub struct HoldingView {
    pub fungible: Seq<(AssetIdView, u128)>,
    pub non_fungible: Seq<(AssetIdView, Seq<u8>)>,
}

impl View for Holding {
    type V = HoldingView;

    open spec fn view(&self) -> HoldingView {
        HoldingView {
            fungible: self.fungible@.map_values(|e: FungibleEntry| (e.id@, e.amount)),
            non_fungible: self.non_fungible@.map_values(|e: NonFungibleEntry| (e.id@, e.instance@)),
        }
    }
}

/// `i` is the first position of `s` whose key is `k`.
pub open spec fn is_first_key<K, V>(s: Seq<(K, V)>, k: K, i: int) -> bool {
    &&& 0 <= i < s.len()
    &&& s[i].0 == k
    &&& forall|j: int| 0 <= j < i ==> s[j].0 != k
}

/// `i` is the first position of `s` that holds `x`.
pub open spec fn is_first_entry<T>(s: Seq<T>, x: T, i: int) -> bool {
    &&& 0 <= i < s.len()
    &&& s[i] == x
    &&& forall|j: int| 0 <= j < i ==> s[j] != x
}

/// No key occurs twice in `s`.
pub open spec fn keys_distinct<K, V>(s: Seq<(K, V)>) -> bool {
    forall|i: int, j: int| 0 <= i < s.len() && 0 <= j < s.len() && i != j ==> s[i].0 != s[j].0
}

/// No entry occurs twice in `s`.
pub open spec fn entries_distinct<T>(s: Seq<T>) -> bool {
    forall|i: int, j: int| 0 <= i < s.len() && 0 <= j < s.len() && i != j ==> s[i] != s[j]
}

/// The amount of the fungible asset `id` held (zero where it is not held).
pub open spec fn fungible_amount(s: Seq<(AssetIdView, u128)>, id: AssetIdView) -> u128 {
    if exists|i: int| is_first_key(s, id, i) {
        s[choose|i: int| is_first_key(s, id, i)].1
    } else {
        0
    }
}

impl HoldingView {
    /// What a register keeps: each fungible asset once, each instance once.
    pub open spec fn wf(self) -> bool {
        &&& keys_distinct(self.fungible)
        &&& entries_distinct(self.non_fungible)
    }

    /// The register as a list of assets: the fungible ones, then the
    /// non-fungible ones.
    pub open spec fn asset_list(self) -> Seq<MultiAssetView> {
        self.fungible.map_values(
            |e: (AssetIdView, u128)| MultiAssetView { id: e.0, fun: FungibilityView::Fungible(e.1) },
        ) + self.non_fungible.map_values(
            |e: (AssetIdView, Seq<u8>)| MultiAssetView { id: e.0, fun: FungibilityView::NonFungible(e.1) },
        )
    }

    /// The register with `asset` taken out of it, or the register unchanged as
    /// the error where it does not hold that much.
    pub open spec fn checked_sub(self, asset: MultiAssetView) -> Result<HoldingView, HoldingView> {
        match asset.fun {
            FungibilityView::Fungible(amount) => {
                if exists|i: int| is_first_key(self.fungible, asset.id, i) {
                    let i = choose|i: int| is_first_key(self.fungible, asset.id, i);
                    let balance = self.fungible[i].1;
                    if balance >= amount {
                        let rest = (balance - amount) as u128;
                        Ok(HoldingView {
                            fungible: if rest == 0 {
                                self.fungible.remove(i)
                            } else {
                                self.fungible.update(i, (asset.id, rest))
                            },
                            non_fungible: self.non_fungible,
                        })
                    } else {
                        Err(self)
                    }
                } else {
                    Err(self)
                }
            },
            FungibilityView::NonFungible(instance) => {
                if exists|i: int| is_first_entry(self.non_fungible, (asset.id, instance), i) {
                    let i = choose|i: int| is_first_entry(self.non_fungible, (asset.id, instance), i);
                    Ok(HoldingView { fungible: self.fungible, non_fungible: self.non_fungible.remove(i) })
                } else {
                    Err(self)
                }
            },
        }
    }
}

impl Holding {
    /// An empty register.
    pub fn new() -> (r: Holding)
        ensures
            r@.fungible.len() == 0,
            r@.non_fungible.len() == 0,
    {
        Holding { fungible: Vec::new(), non_fungible: Vec::new() }
    }

    /// The first asset of the register's asset list, if it holds any.
    pub fn first_asset(&self) -> (r: Option<MultiAsset>)
        ensures
            match r {
                Some(a) => self@.asset_list().len() > 0 && a@ == self@.asset_list()[0],
                None => self@.asset_list().len() == 0,
            },
    {
        if self.fungible.len() > 0 {
            let e = &self.fungible[0];
            Some(MultiAsset { id: e.id.duplicate(), fun: Fungibility::Fungible(e.amount) })
        } else if self.non_fungible.len() > 0 {
            let e = &self.non_fungible[0];
            Some(MultiAsset { id: e.id.duplicate(), fun: Fungibility::NonFungible(bytes_copy(&e.instance)) })
        } else {
            None
        }
    }

    /// Position of the first fungible entry for `id`.
    fn find_fungible(&self, id: &AssetId) -> (r: Option<usize>)
        ensures
            match r {
                Some(i) => is_first_key(self@.fungible, id@, i as int),
                None => !exists|i: int| is_first_key(self@.fungible, id@, i),
            },
    {
        let n = self.fungible.len();
        let mut i: usize = 0;
        while i < n
            invariant
                n == self.fungible.len(),
                i <= n,
                forall|j: int| 0 <= j < i ==> self@.fungible[j].0 != id@,
            decreases n - i,
        {
            if self.fungible[i].id.same_as(id) {
                return Some(i);
            }
            i = i + 1;
        }
        None
    }

    /// Position of the first non-fungible entry `(id, instance)`.
    fn find_non_fungible(&self, id: &AssetId, instance: &Vec<u8>) -> (r: Option<usize>)
        ensures
            match r {
                Some(i) => is_first_entry(self@.non_fungible, (id@, instance@), i as int),
                None => !exists|i: int| is_first_entry(self@.non_fungible, (id@, instance@), i),
            },
    {
        let n = self.non_fungible.len();
        let mut i: usize = 0;
        while i < n
            invariant
                n == self.non_fungible.len(),
                i <= n,
                forall|j: int| 0 <= j < i ==> self@.non_fungible[j] != (id@, instance@),
            decreases n - i,
        {
            if bytes_equal(&self.non_fungible[i].instance, instance) && self.non_fungible[i].id.same_as(id) {
                return Some(i);
            }
            i = i + 1;
        }
        None
    }

    /// Takes `asset` out of the register: `Ok` with what is left where the
    /// register holds at least that much of it, else `Err` with the register
    /// unchanged.
    pub fn checked_sub(self, asset: &MultiAsset) -> (r: Result<Holding, Holding>)
        ensures
            match (r, self@.checked_sub(asset@)) {
                (Ok(h), Ok(v)) => h@ == v,
                (Err(h), Err(v)) => h@ == v,
                _ => false,
            },
    {
        let mut h = self;
        match &asset.fun {
            Fungibility::Fungible(amount) => {
                let amount = *amount;
                match h.find_fungible(&asset.id) {
                    None => Err(h),
                    Some(i) => {
                        proof {
                            let c = choose|k: int| is_first_key(h@.fungible, asset.id@, k);
                            assert(c == i as int);
                        }
                        let balance = h.fungible[i].amount;
                        if balance >= amount {
                            let ghost old_f = h@.fungible;
                            let e = h.fungible.remove(i);
                            let rest = balance - amount;
                            if rest != 0 {
                                h.fungible.insert(i, FungibleEntry { id: e.id, amount: rest });
                                assert(h@.fungible =~= old_f.update(i as int, (asset.id@, rest)));
                            } else {
                                assert(h@.fungible =~= old_f.remove(i as int));
                            }
                            Ok(h)
                        } else {
                            Err(h)
                        }
                    },
                }
            },
            Fungibility::NonFungible(instance) => {
                match h.find_non_fungible(&asset.id, instance) {
                    None => Err(h),
                    Some(i) => {
                        proof {
                            let c = choose|k: int| is_first_entry(h@.non_fungible, (asset.id@, instance@), k);
                            assert(c == i as int);
                        }
                        let ghost old_n = h@.non_fungible;
                        h.non_fungible.remove(i);
                        assert(h@.non_fungible =~= old_n.remove(i as int));
                        Ok(h)
                    },
                }
            },
        }
    }
}

/// In a sequence whose keys are distinct, a position holding key `k` is the
/// first one, and the amount held for `k` is the one there.
proof fn lemma_key_position<V>(s: Seq<(AssetIdView, V)>, k: AssetIdView, i: int)
    requires
        keys_distinct(s),
        0 <= i < s.len(),
        s[i].0 == k,
    ensures
        is_first_key(s, k, i),
        (choose|c: int| is_first_key(s, k, c)) == i,
{
    assert(is_first_key(s, k, i));
    let c = choose|c: int| is_first_key(s, k, c);
    assert(is_first_key(s, k, c));
    if c < i {
        assert(s[c].0 == k);
    } else if c > i {
        assert(s[i].0 != k);
    }
}

/// A key that no position holds has no first position.
proof fn lemma_key_absent<V>(s: Seq<(AssetIdView, V)>, k: AssetIdView)
    requires
        forall|j: int| 0 <= j < s.len() ==> s[j].0 != k,
    ensures
        !exists|i: int| is_first_key(s, k, i),
{
}

/// Taking an amount of a fungible asset out of a well-formed register
/// succeeds exactly where the register holds the asset, at least that much of
/// it. Then the register stays well formed, the amount held of that asset
/// falls by exactly the amount taken, and nothing else changes. Otherwise the
/// register comes back unchanged.
pub proof fn lemma_checked_sub_fungible(h: HoldingView, id: AssetIdView, amount: u128)
    requires
        h.wf(),
    ensures
        h.checked_sub(MultiAssetView { id, fun: FungibilityView::Fungible(amount) }) is Ok <==> (exists|i: int|
            0 <= i < h.fungible.len() && h.fungible[i].0 == id) && fungible_amount(h.fungible, id) >= amount,
        h.checked_sub(MultiAssetView { id, fun: FungibilityView::Fungible(amount) }) matches Ok(h2) ==> {
            &&& h2.wf()
            &&& fungible_amount(h2.fungible, id) + amount == fungible_amount(h.fungible, id)
            &&& forall|o: AssetIdView| o != id ==> #[trigger] fungible_amount(h2.fungible, o) == fungible_amount(h.fungible, o)
            &&& h2.non_fungible == h.non_fungible
        },
        h.checked_sub(MultiAssetView { id, fun: FungibilityView::Fungible(amount) }) matches Err(h2) ==> h2 == h,
{
    let a = MultiAssetView { id, fun: FungibilityView::Fungible(amount) };
    let s = h.fungible;
    if exists|i: int| 0 <= i < s.len() && s[i].0 == id {
        let i = choose|i: int| 0 <= i < s.len() && s[i].0 == id;
        lemma_key_position(s, id, i);
        if s[i].1 >= amount {
            let rest = (s[i].1 - amount) as u128;
            let h2 = h.checked_sub(a)->Ok_0;
            if rest == 0 {
                let t = s.remove(i);
                assert(h2.fungible == t);
                assert(keys_distinct(t)) by {
                    assert forall|x: int, y: int| 0 <= x < t.len() && 0 <= y < t.len() && x != y implies t[x].0 != t[y].0 by {
                        let xx = if x < i { x } else { x + 1 };
                        let yy = if y < i { y } else { y + 1 };
                        assert(t[x] == s[xx]);
                        assert(t[y] == s[yy]);
                    }
                }
                assert forall|j: int| 0 <= j < t.len() implies t[j].0 != id by {
                    let jj = if j < i { j } else { j + 1 };
                    assert(t[j] == s[jj]);
                }
                lemma_key_absent(t, id);
                assert forall|o: AssetIdView| o != id implies #[trigger] fungible_amount(t, o) == fungible_amount(s, o) by {
                    if exists|j: int| 0 <= j < s.len() && s[j].0 == o {
                        let j = choose|j: int| 0 <= j < s.len() && s[j].0 == o;
                        lemma_key_position(s, o, j);
                        assert(j != i);
                        let jt = if j < i { j } else { j - 1 };
                        assert(t[jt] == s[j]);
                        lemma_key_position(t, o, jt);
                    } else {
                        lemma_key_absent(s, o);
                        assert forall|j: int| 0 <= j < t.len() implies t[j].0 != o by {
                            let jj = if j < i { j } else { j + 1 };
                            assert(t[j] == s[jj]);
                        }
                        lemma_key_absent(t, o);
                    }
                }
            } else {
                let t = s.update(i, (id, rest));
                assert(h2.fungible == t);
                assert(keys_distinct(t)) by {
                    assert forall|x: int, y: int| 0 <= x < t.len() && 0 <= y < t.len() && x != y implies t[x].0 != t[y].0 by {
                        assert(t[x].0 == s[x].0);
                        assert(t[y].0 == s[y].0);
                    }
                }
                lemma_key_position(t, id, i);
                assert forall|o: AssetIdView| o != id implies #[trigger] fungible_amount(t, o) == fungible_amount(s, o) by {
                    if exists|j: int| 0 <= j < s.len() && s[j].0 == o {
                        let j = choose|j: int| 0 <= j < s.len() && s[j].0 == o;
                        lemma_key_position(s, o, j);
                        assert(t[j] == s[j]);
                        lemma_key_position(t, o, j);
                    } else {
                        lemma_key_absent(s, o);
                        assert forall|j: int| 0 <= j < t.len() implies t[j].0 != o by {
                            assert(t[j].0 == s[j].0);
                        }
                        lemma_key_absent(t, o);
                    }
                }
            }
        }
    } else {
        lemma_key_absent(s, id);
    }
}

/// Taking an instance of a non-fungible asset out of a well-formed register
/// succeeds exactly where the register holds that instance. Then the instance
/// is no longer held, every other instance still is, the fungible holdings are
/// as they were and the register stays well formed. Otherwise the register
/// comes back unchanged.
pub proof fn lemma_checked_sub_non_fungible(h: HoldingView, id: AssetIdView, instance: Seq<u8>)
    requires
        h.wf(),
    ensures
        h.checked_sub(MultiAssetView { id, fun: FungibilityView::NonFungible(instance) }) is Ok <==> h.non_fungible.contains(
            (id, instance),
        ),
        h.checked_sub(MultiAssetView { id, fun: FungibilityView::NonFungible(instance) }) matches Ok(h2) ==> {
            &&& h2.wf()
            &&& !h2.non_fungible.contains((id, instance))
            &&& forall|e: (AssetIdView, Seq<u8>)|
                e != (id, instance) ==> (#[trigger] h2.non_fungible.contains(e) <==> h.non_fungible.contains(e))
            &&& h2.fungible == h.fungible
        },
        h.checked_sub(MultiAssetView { id, fun: FungibilityView::NonFungible(instance) }) matches Err(h2) ==> h2 == h,
{
    let a = MultiAssetView { id, fun: FungibilityView::NonFungible(instance) };
    let s = h.non_fungible;
    let x = (id, instance);
    if s.contains(x) {
        let i = choose|i: int| 0 <= i < s.len() && s[i] == x;
        assert(is_first_entry(s, x, i));
        let c = choose|c: int| is_first_entry(s, x, c);
        assert(c == i);
        let t = s.remove(i);
        assert(h.checked_sub(a)->Ok_0.non_fungible == t);
        assert forall|e: (AssetIdView, Seq<u8>)| e != x implies (#[trigger] t.contains(e) <==> s.contains(e)) by {
            if s.contains(e) {
                let j = choose|j: int| 0 <= j < s.len() && s[j] == e;
                let jt = if j < i { j } else { j - 1 };
                assert(t[jt] == s[j]);
            }
            if t.contains(e) {
                let j = choose|j: int| 0 <= j < t.len() && t[j] == e;
                let jj = if j < i { j } else { j + 1 };
                assert(t[j] == s[jj]);
            }
        }
        assert(!t.contains(x)) by {
            if t.contains(x) {
                let j = choose|j: int| 0 <= j < t.len() && t[j] == x;
                let jj = if j < i { j } else { j + 1 };
                assert(t[j] == s[jj]);
            }
        }
        assert(entries_distinct(t)) by {
            assert forall|p: int, q: int| 0 <= p < t.len() && 0 <= q < t.len() && p != q implies t[p] != t[q] by {
                let pp = if p < i { p } else { p + 1 };
                let qq = if q < i { q } else { q + 1 };
                assert(t[p] == s[pp]);
                assert(t[q] == s[qq]);
            }
        }
    } else {
        assert(!exists|i: int| is_first_entry(s, x, i));
    }
}

} // verus!

//! Asset identities and amounts.
use vstd::prelude::*;
use crate::location::{bytes_copy, bytes_equal, Location, LocationView};

verus! {

/// What an asset is: one that a location defines, or an opaque byte string.
#[derive(Clone, Debug, PartialEq, Eq)]
pub enum AssetId {
    Concrete(Location),
    Abstract(Vec<u8>),
}

/// The mathematical value of an [`AssetId`].
pub enum AssetIdView {
    Concrete(LocationView),
    Abstract(Seq<u8>),
}

impl View for AssetId {
    type V = AssetIdView;

    open spec fn view(&self) -> AssetIdView {
        match self {
            AssetId::Concrete(l) => AssetIdView::Concrete(l@),
            AssetId::Abstract(b) => AssetIdView::Abstract(b@),
        }
    }
}

/// How much of an asset: an amount of a fungible one, or one instance of a
/// non-fungible one. An instance is held as its encoding.
#[derive(Clone, Debug, PartialEq, Eq)]
pub enum Fungibility {
    Fungible(u128),
    NonFungible(Vec<u8>),
}

/// The mathematical value of a [`Fungibility`].
pub enum FungibilityView {
    Fungible(u128),
    NonFungible(Seq<u8>),
}

impl View for Fungibility {
    type V = FungibilityView;

    open spec fn view(&self) -> FungibilityView {
        match self {
            Fungibility::Fungible(a) => FungibilityView::Fungible(*a),
            Fungibility::NonFungible(i) => FungibilityView::NonFungible(i@),
        }
    }
}

impl Fungibility {
    /// A copy of this amount or instance.
    pub fn duplicate(&self) -> (r: Fungibility)
        ensures
            r@ == self@,
    {
        match self {
            Fungibility::Fungible(a) => Fungibility::Fungible(*a),
            Fungibility::NonFungible(i) => Fungibility::NonFungible(bytes_copy(i)),
        }
    }
}

/// An asset together with how much of it.
#[derive(Clone, Debug, PartialEq, Eq)]
pub struct MultiAsset {
    pub id: AssetId,
    pub fun: Fungibility,
}

/// The mathematical value of a [`MultiAsset`].
pub struct MultiAssetView {
    pub id: AssetIdView,
    pub fun: FungibilityView,
}

impl View for MultiAsset {
    type V = MultiAssetView;

    open spec fn view(&self) -> MultiAssetView {
        MultiAssetView { id: self.id@, fun: self.fun@ }
    }
}

impl MultiAssetView {
    /// A fungible asset that a location defines.
    pub open spec fn is_concrete_fungible(self) -> bool {
        self.id is Concrete && self.fun is Fungible
    }
}

impl AssetId {
    /// Whether two asset identities are the same.
    pub fn same_as(&self, other: &AssetId) -> (r: bool)
        ensures
            r == (self@ == other@),
    {
        match (self, other) {
            (AssetId::Concrete(a), AssetId::Concrete(b)) => a.same_as(b),
            (AssetId::Abstract(a), AssetId::Abstract(b)) => bytes_equal(a, b),
            _ => false,
        }
    }

    /// A copy of this identity.
    pub fn duplicate(&self) -> (r: AssetId)
        ensures
            r@ == self@,
    {
        match self {
            AssetId::Concrete(l) => AssetId::Concrete(l.duplicate()),
            AssetId::Abstract(b) => AssetId::Abstract(bytes_copy(b)),
        }
    }
}

impl MultiAsset {
    /// A copy of this asset.
    pub fn duplicate(&self) -> (r: MultiAsset)
        ensures
            r@ == self@,
    {
        MultiAsset { id: self.id.duplicate(), fun: self.fun.duplicate() }
    }
}

} // verus!

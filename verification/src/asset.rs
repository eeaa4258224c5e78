use vstd::prelude::*;

verus! {

/// Classification of a financial asset in the portfolio.
#[derive(Debug, Clone, Copy, PartialEq, Eq, Structural)]
pub enum AssetType {
    /// Equities / shares.
    Share,
    /// Fixed income securities.
    Bond,
    /// Digital assets and cryptocurrencies.
    Crypto,
}

/// The display label of an asset class.
pub open spec fn asset_label(a: AssetType) -> Seq<char> {
    match a {
        AssetType::Share => "Share"@,
        AssetType::Bond => "Bond"@,
        AssetType::Crypto => "Crypto"@,
    }
}

impl AssetType {
    /// Renders the asset class as its display label ("Share", "Bond" or "Crypto").
    pub fn to_string(&self) -> (s: String)
        ensures
            s@ == asset_label(*self),
    {
        match self {
            AssetType::Share => String::from_str("Share"),
            AssetType::Bond => String::from_str("Bond"),
            AssetType::Crypto => String::from_str("Crypto"),
        }
    }
}

/// Distinct asset classes have distinct labels, so a label names its class.
pub proof fn lemma_asset_label_injective(a: AssetType, b: AssetType)
    ensures
        asset_label(a) == asset_label(b) <==> a == b,
{
    reveal_strlit("Share");
    reveal_strlit("Bond");
    reveal_strlit("Crypto");
    assert("Share"@.len() == 5);
    assert("Bond"@.len() == 4);
    assert("Crypto"@.len() == 6);
    assert("Share"@[0] != "Crypto"@[0]);
}

} // verus!

use position_and_risk_engine::AssetType;

#[test]
fn asset_type_labels() {
    assert_eq!(AssetType::Share.to_string(), "Share");
    assert_eq!(AssetType::Bond.to_string(), "Bond");
    assert_eq!(AssetType::Crypto.to_string(), "Crypto");
}

#[test]
fn asset_type_labels_are_distinct() {
    let all = [AssetType::Share, AssetType::Bond, AssetType::Crypto];
    for a in all {
        for b in all {
            assert_eq!(a.to_string() == b.to_string(), a == b);
        }
    }
}

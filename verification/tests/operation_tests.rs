use iroha2_longevity_load::operation::Operation;

#[test]
fn every_label_parses_to_its_variant() {
    assert_eq!(
        Operation::from_label("RegisterAccount"),
        Some(Operation::RegisterAccount)
    );
    assert_eq!(
        Operation::from_label("RegisterDomain"),
        Some(Operation::RegisterDomain)
    );
    assert_eq!(
        Operation::from_label("RegisterAssetQuantity"),
        Some(Operation::RegisterAssetQuantity)
    );
    assert_eq!(
        Operation::from_label("RegisterAssetBigQuantity"),
        Some(Operation::RegisterAssetBigQuantity)
    );
    assert_eq!(
        Operation::from_label("RegisterAssetFixed"),
        Some(Operation::RegisterAssetFixed)
    );
    assert_eq!(
        Operation::from_label("RegisterAssetStore"),
        Some(Operation::RegisterAssetStore)
    );
    assert_eq!(
        Operation::from_label("TransferAsset"),
        Some(Operation::TransferAsset)
    );
    assert_eq!(Operation::from_label("MintAsset"), Some(Operation::MintAsset));
}

#[test]
fn unknown_labels_are_refused() {
    assert_eq!(Operation::from_label(""), None);
    assert_eq!(Operation::from_label("registeraccount"), None);
    assert_eq!(Operation::from_label("RegisterAccount "), None);
    assert_eq!(Operation::from_label("BurnAsset"), None);
}

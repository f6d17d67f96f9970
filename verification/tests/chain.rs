use bench_clients::chain::Chain;

#[test]
fn named_chains_go_by_their_names() {
    assert_eq!(Chain::Named(1).to_text(), "mainnet");
    assert_eq!(Chain::Named(11155111).to_text(), "sepolia");
    assert_eq!(Chain::Named(17000).to_text(), "holesky");
    assert_eq!(Chain::Named(5).to_text(), "goerli");
    assert_eq!(Chain::Named(10).to_text(), "optimism");
    assert_eq!(Chain::Named(8453).to_text(), "base");
    assert_eq!(Chain::Named(987654321987).to_text(), "987654321987");
}

#[test]
fn bare_ids_go_by_their_numbers() {
    assert_eq!(Chain::Id(1).to_text(), "1");
    assert_eq!(Chain::Id(11155111).to_text(), "11155111");
    assert_eq!(Chain::Id(u64::MAX).to_text(), "18446744073709551615");
}

#[test]
fn four_names_belong_to_one_id_each() {
    for named in alloy_chains::NamedChain::iter() {
        let id = named as u64;
        let name = Chain::Named(id).to_text();
        assert_eq!(name, named.to_string());
        assert_eq!(name == "mainnet", id == 1);
        assert_eq!(name == "sepolia", id == 11155111);
        assert_eq!(name == "holesky", id == 17000);
        assert_eq!(name == "goerli", id == 5);
    }
}

use hippocampus::ProviderRegistry;

#[test]
fn registry_routes_by_name_and_default() {
    let reg = ProviderRegistry::new("main".to_string())
        .register("main".to_string(), 1)
        .register("backup".to_string(), 2)
        .register("main".to_string(), 3);
    assert_eq!(reg.get(None), Some(&3));
    assert_eq!(reg.get(Some("backup")), Some(&2));
    assert_eq!(reg.get(Some("other")), None);
    let empty: ProviderRegistry<u8> = ProviderRegistry::new("x".to_string());
    assert_eq!(empty.get(None), None);
}

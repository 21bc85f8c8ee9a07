use mqtt_publisher::registration::BaseAsset;

fn text(s: &str) -> Option<String> {
    Some(s.to_string())
}

#[test]
fn a_coin_base_is_consistent() {
    let base = BaseAsset {
        account_address: text("0x1"),
        module_name: text("aptos_coin"),
        struct_name: text("AptosCoin"),
        name_generic: None,
    };
    assert!(base.is_consistent());
}

#[test]
fn a_generic_base_is_consistent() {
    let base = BaseAsset { account_address: None, module_name: None, struct_name: None, name_generic: text("barrel") };
    assert!(base.is_consistent());
}

#[test]
fn a_generic_name_beside_a_part_of_a_coin_type_is_not_consistent() {
    let generic = BaseAsset { account_address: None, module_name: None, struct_name: None, name_generic: text("barrel") };
    assert!(!BaseAsset { account_address: text("0x1"), ..generic.clone() }.is_consistent());
    assert!(!BaseAsset { module_name: text("m"), ..generic.clone() }.is_consistent());
    assert!(!BaseAsset { struct_name: text("S"), ..generic.clone() }.is_consistent());
}

#[test]
fn no_name_at_all_is_consistent() {
    let base = BaseAsset { account_address: None, module_name: None, struct_name: None, name_generic: None };
    assert!(base.is_consistent());
}

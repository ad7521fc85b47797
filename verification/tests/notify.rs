use wallet_session::notify::Notification;

#[test]
fn accounts_changed_on_the_wire() {
    let n = Notification::AccountsChanged {
        address: "0xf39Fd6e51aad88F6F4ce6aB8827279cffFb92266".to_string(),
    };
    assert_eq!(
        n.to_wire(),
        "{\"method\":\"accountsChanged\",\"params\":[\"0xf39Fd6e51aad88F6F4ce6aB8827279cffFb92266\"]}"
    );
}

#[test]
fn chain_changed_on_the_wire() {
    let n = Notification::ChainChanged { chain_id: 31337, network_version: "anvil".to_string() };
    assert_eq!(
        n.to_wire(),
        "{\"method\":\"chainChanged\",\"params\":{\"chainId\":\"0x7a69\",\"networkVersion\":\"anvil\"}}"
    );
}

#[test]
fn chain_changed_with_a_name_that_needs_escapes() {
    let n = Notification::ChainChanged { chain_id: 0, network_version: "a\"b\\\n".to_string() };
    assert_eq!(
        n.to_wire(),
        "{\"method\":\"chainChanged\",\"params\":{\"chainId\":\"0x0\",\"networkVersion\":\"a\\\"b\\\\\\n\"}}"
    );
}

#[test]
fn wire_text_reads_back_as_the_notification() {
    let n = Notification::ChainChanged { chain_id: 5, network_version: "goerli \"test\"".to_string() };
    let value: serde_json::Value = serde_json::from_str(&n.to_wire()).unwrap();
    assert_eq!(value["method"], serde_json::Value::String("chainChanged".to_string()));
    assert_eq!(value["params"]["chainId"], serde_json::Value::String("0x5".to_string()));
    assert_eq!(
        value["params"]["networkVersion"],
        serde_json::Value::String("goerli \"test\"".to_string())
    );
    assert_eq!(serde_json::to_string(&value).unwrap(), n.to_wire());

    let n = Notification::AccountsChanged { address: "0xAb".to_string() };
    let value: serde_json::Value = serde_json::from_str(&n.to_wire()).unwrap();
    assert_eq!(value["method"], serde_json::Value::String("accountsChanged".to_string()));
    assert_eq!(
        value["params"],
        serde_json::Value::Array(vec![serde_json::Value::String("0xAb".to_string())])
    );
    assert_eq!(serde_json::to_string(&value).unwrap(), n.to_wire());
}

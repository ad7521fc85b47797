use wallet_session::descriptors::NetworkSet;
use wallet_session::network::Network;

fn net(name: &str, chain_id: u32, rpc_url: &str) -> Network {
    Network {
        name: name.to_string(),
        chain_id,
        rpc_url: rpc_url.to_string(),
        currency: "ETH".to_string(),
        decimals: 18,
    }
}

#[test]
fn mainnet_descriptor() {
    let n = Network::mainnet();
    assert_eq!(n.name, "mainnet");
    assert_eq!(n.chain_id, 1);
    assert_eq!(n.rpc_url, "https://eth-mainnet.g.alchemy.com/v2/rTwL6BTDDWkP3tZJUc_N6shfCSR5hsTs");
    assert_eq!(n.currency, "ETH");
    assert_eq!(n.decimals, 18);
}

#[test]
fn goerli_descriptor() {
    let n = Network::goerli();
    assert_eq!(n.name, "goerli");
    assert_eq!(n.chain_id, 5);
    assert_eq!(n.rpc_url, "https://eth-goerli.g.alchemy.com/v2/rTwL6BTDDWkP3tZJUc_N6shfCSR5hsTs");
    assert_eq!(n.currency, "ETH");
    assert_eq!(n.decimals, 18);
}

#[test]
fn anvil_descriptor() {
    let n = Network::anvil();
    assert_eq!(n.name, "anvil");
    assert_eq!(n.chain_id, 31337);
    assert_eq!(n.rpc_url, "http://localhost:8545");
    assert_eq!(n.currency, "ETH");
    assert_eq!(n.decimals, 18);
}

#[test]
fn chain_id_hex_of_the_built_in_networks() {
    assert_eq!(Network::mainnet().chain_id_hex(), "0x1");
    assert_eq!(Network::goerli().chain_id_hex(), "0x5");
    assert_eq!(Network::anvil().chain_id_hex(), "0x7a69");
}

#[test]
fn chain_id_hex_of_the_extremes() {
    assert_eq!(net("zero", 0, "").chain_id_hex(), "0x0");
    assert_eq!(net("max", u32::MAX, "").chain_id_hex(), "0xffffffff");
}

#[test]
fn label_is_chain_id_hyphen_name() {
    assert_eq!(Network::mainnet().to_string(), "1-mainnet");
    assert_eq!(Network::anvil().to_string(), "31337-anvil");
}

#[test]
fn clone_keeps_every_field() {
    let n = net("local", 1337, "http://127.0.0.1:8545");
    assert_eq!(n.clone(), n);
}

#[test]
fn empty_set_finds_nothing() {
    let set = NetworkSet::new();
    assert_eq!(set.len(), 0);
    assert!(set.get(&"mainnet".to_string()).is_none());
    assert!(!set.contains(&"mainnet".to_string()));
    assert!(set.find_by_chain_id(1).is_none());
    assert!(set.to_vec().is_empty());
}

#[test]
fn set_finds_by_name() {
    let set = NetworkSet::from_list(&vec![Network::mainnet(), Network::anvil()]);
    assert_eq!(set.len(), 2);
    assert_eq!(set.get(&"anvil".to_string()), Some(&Network::anvil()));
    assert_eq!(set.get(&"mainnet".to_string()), Some(&Network::mainnet()));
    assert!(set.get(&"goerli".to_string()).is_none());
    assert!(set.contains(&"anvil".to_string()));
    assert!(!set.contains(&"Anvil".to_string()));
}

#[test]
fn later_duplicate_overwrites_earlier() {
    let set = NetworkSet::from_list(&vec![
        net("a", 1, "first"),
        net("b", 2, "second"),
        net("a", 3, "third"),
    ]);
    assert_eq!(set.len(), 2);
    assert_eq!(set.get(&"a".to_string()), Some(&net("a", 3, "third")));
    assert_eq!(set.to_vec(), vec![net("a", 3, "third"), net("b", 2, "second")]);
}

#[test]
fn insert_replaces_in_place_or_appends() {
    let mut set = NetworkSet::new();
    set.insert(net("a", 1, "x"));
    set.insert(net("b", 2, "y"));
    set.insert(net("a", 9, "z"));
    set.insert(net("c", 3, "w"));
    assert_eq!(set.to_vec(), vec![net("a", 9, "z"), net("b", 2, "y"), net("c", 3, "w")]);
}

#[test]
fn search_by_chain_id_takes_the_first_in_order() {
    let set = NetworkSet::from_list(&vec![
        net("one", 7, "x"),
        net("two", 8, "y"),
        net("three", 8, "z"),
    ]);
    assert_eq!(set.find_by_chain_id(8), Some(&net("two", 8, "y")));
    assert_eq!(set.find_by_chain_id(7), Some(&net("one", 7, "x")));
    assert!(set.find_by_chain_id(9).is_none());
}

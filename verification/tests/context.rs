use tokio::sync::mpsc::{unbounded_channel, UnboundedReceiver};
use wallet_session::context::{ContextInner, Snapshot};
use wallet_session::error::{Error, WalletField};
use wallet_session::network::Network;
use wallet_session::notify::Notification;
use wallet_session::peers::{Delivery, PeerAddr};
use wallet_session::wallet::Wallet;

const PHRASE: &str = "test test test test test test test test test test test junk";
const TEMPLATE: &str = "m/44'/60'/0'/0";
const FIRST: &str = "0xf39Fd6e51aad88F6F4ce6aB8827279cffFb92266";
const SECOND: &str = "0x70997970C51812dc3A010C7d01b50e0d17dc79C8";

fn peer(n: u32) -> PeerAddr {
    PeerAddr::V4 { octets: 0x0a00_0000 + n, port: 9000 }
}

fn net(name: &str, chain_id: u32) -> Network {
    Network {
        name: name.to_string(),
        chain_id,
        rpc_url: format!("http://{}.example", name),
        currency: "ETH".to_string(),
        decimals: 18,
    }
}

fn wallet(idx: u32, chain_id: u32) -> Wallet {
    Wallet::new(PHRASE.to_string(), TEMPLATE.to_string(), idx, chain_id).unwrap()
}

fn session_with_peer() -> (ContextInner, UnboundedReceiver<serde_json::Value>) {
    let mut session = ContextInner::new().unwrap();
    let (tx, rx) = unbounded_channel();
    session.add_peer(peer(1), tx);
    (session, rx)
}

fn texts(rx: &mut UnboundedReceiver<serde_json::Value>) -> Vec<String> {
    let mut all = Vec::new();
    while let Ok(v) = rx.try_recv() {
        all.push(serde_json::to_string(&v).unwrap());
    }
    all
}

#[test]
fn new_session_has_the_defaults() {
    let session = ContextInner::new().unwrap();
    assert_eq!(session.current_network(), "mainnet");
    assert_eq!(
        session.networks().to_vec(),
        vec![Network::mainnet(), Network::goerli(), Network::anvil()]
    );
    assert_eq!(session.wallet().checksummed_address(), FIRST);
    assert_eq!(session.wallet().signer().chain_id(), 1);
    assert_eq!(session.peers().len(), 0);
    assert_eq!(session.get_current_network(), Ok(Network::mainnet()));
}

#[test]
fn switch_to_anvil_broadcasts_chain_changed() {
    let mut session = ContextInner::restore(Snapshot {
        mnemonic: PHRASE.to_string(),
        derivation_path: TEMPLATE.to_string(),
        idx: 0,
        current_network: "mainnet".to_string(),
        networks: vec![Network::mainnet(), Network::anvil()],
    })
    .unwrap();
    let (tx, mut rx) = unbounded_channel();
    session.add_peer(peer(1), tx);
    let outcome = session.set_current_network("anvil".to_string()).unwrap().unwrap();
    let text =
        "{\"method\":\"chainChanged\",\"params\":{\"chainId\":\"0x7a69\",\"networkVersion\":\"anvil\"}}";
    assert_eq!(outcome.message, text);
    assert_eq!(outcome.deliveries, vec![Delivery { peer: peer(1), accepted: true }]);
    assert_eq!(texts(&mut rx), vec![text.to_string()]);
    assert_eq!(session.current_network(), "anvil");
    assert_eq!(session.get_current_network(), Ok(Network::anvil()));
}

#[test]
fn switch_across_chains_derives_the_signer_again() {
    let (mut session, mut rx) = session_with_peer();
    let before = session.get_signer();
    let outcome = session.set_current_network("goerli".to_string()).unwrap();
    assert!(outcome.is_some());
    let after = session.get_signer();
    assert_eq!(after.chain_id(), 5);
    assert_eq!(after.key(), before.key());
    assert_eq!(after.address(), before.address());
    let derived = Wallet::build_signer(PHRASE, TEMPLATE, 0, 5).unwrap();
    assert_eq!(after.key(), derived.key());
    assert_eq!(after.address(), derived.address());
    assert_eq!(after.chain_id(), derived.chain_id());
    assert_eq!(
        texts(&mut rx),
        vec!["{\"method\":\"chainChanged\",\"params\":{\"chainId\":\"0x5\",\"networkVersion\":\"goerli\"}}"
            .to_string()]
    );
}

#[test]
fn switch_within_a_chain_is_silent() {
    let (mut session, mut rx) = session_with_peer();
    session.set_networks(vec![Network::mainnet(), net("mirror", 1), Network::anvil()]);
    let before = session.get_signer();
    let outcome = session.set_current_network("mirror".to_string());
    assert!(matches!(outcome, Ok(None)));
    assert_eq!(session.current_network(), "mirror");
    let after = session.get_signer();
    assert_eq!(after.key(), before.key());
    assert_eq!(after.chain_id(), before.chain_id());
    assert!(texts(&mut rx).is_empty());
}

#[test]
fn switch_to_the_active_network_is_silent() {
    let (mut session, mut rx) = session_with_peer();
    assert!(matches!(session.set_current_network("mainnet".to_string()), Ok(None)));
    assert!(texts(&mut rx).is_empty());
}

#[test]
fn switch_to_an_unknown_network_fails_and_changes_nothing() {
    let (mut session, mut rx) = session_with_peer();
    let r = session.set_current_network("does-not-exist".to_string());
    assert_eq!(r.err(), Some(Error::NetworkNotFound));
    assert_eq!(session.current_network(), "mainnet");
    assert_eq!(session.get_signer().chain_id(), 1);
    assert!(texts(&mut rx).is_empty());
}

#[test]
fn switch_by_chain_id_selects_the_matching_descriptor() {
    let (mut session, mut rx) = session_with_peer();
    let outcome = session.set_current_network_by_id(31337).unwrap();
    assert!(outcome.is_some());
    assert_eq!(session.current_network(), "anvil");
    assert_eq!(session.get_current_network().unwrap().chain_id, 31337);
    assert_eq!(session.get_signer().chain_id(), 31337);
    assert_eq!(
        texts(&mut rx),
        vec!["{\"method\":\"chainChanged\",\"params\":{\"chainId\":\"0x7a69\",\"networkVersion\":\"anvil\"}}"
            .to_string()]
    );
}

#[test]
fn switch_by_chain_id_takes_the_first_of_several() {
    let mut session = ContextInner::new().unwrap();
    session.set_networks(vec![Network::mainnet(), net("a", 77), net("b", 77)]);
    session.set_current_network_by_id(77).unwrap();
    assert_eq!(session.current_network(), "a");
}

#[test]
fn switch_by_an_unknown_chain_id_fails_and_changes_nothing() {
    let (mut session, mut rx) = session_with_peer();
    let r = session.set_current_network_by_id(424242);
    assert_eq!(r.err(), Some(Error::NetworkNotFound));
    assert_eq!(session.current_network(), "mainnet");
    assert!(texts(&mut rx).is_empty());
    let mut empty = ContextInner::new().unwrap();
    empty.set_networks(vec![]);
    assert_eq!(empty.set_current_network_by_id(1).err(), Some(Error::NetworkNotFound));
}

#[test]
fn wallet_with_the_same_address_is_silent() {
    let (mut session, mut rx) = session_with_peer();
    let outcome = session.set_wallet(wallet(0, 5));
    assert!(outcome.is_none());
    assert!(texts(&mut rx).is_empty());
    assert_eq!(session.wallet().signer().chain_id(), 5);
}

#[test]
fn wallet_with_another_address_broadcasts_accounts_changed() {
    let (mut session, mut rx) = session_with_peer();
    let outcome = session.set_wallet(wallet(1, 1)).unwrap();
    let text = format!("{{\"method\":\"accountsChanged\",\"params\":[\"{}\"]}}", SECOND);
    assert_eq!(outcome.message, text);
    assert_eq!(outcome.deliveries, vec![Delivery { peer: peer(1), accepted: true }]);
    let got: Vec<serde_json::Value> = {
        let mut all = Vec::new();
        while let Ok(v) = rx.try_recv() {
            all.push(v);
        }
        all
    };
    assert_eq!(got.len(), 1);
    assert_eq!(got[0]["params"][0], serde_json::Value::String(SECOND.to_string()));
    assert_eq!(session.wallet().checksummed_address(), SECOND);
    assert_eq!(session.wallet().idx(), 1);
}

#[test]
fn set_networks_replaces_the_whole_set() {
    let mut session = ContextInner::new().unwrap();
    session.set_networks(vec![net("x", 10), net("y", 11), net("x", 12)]);
    assert_eq!(session.networks().to_vec(), vec![net("x", 12), net("y", 11)]);
    assert_eq!(session.current_network(), "mainnet");
    assert_eq!(session.get_current_network(), Err(Error::NetworkNotFound));
}

#[test]
fn switch_after_the_active_network_was_taken_out_tells_the_peers() {
    let (mut session, mut rx) = session_with_peer();
    session.set_networks(vec![net("x", 1)]);
    let outcome = session.set_current_network("x".to_string()).unwrap();
    assert!(outcome.is_some());
    assert_eq!(session.get_current_network(), Ok(net("x", 1)));
    assert_eq!(
        texts(&mut rx),
        vec!["{\"method\":\"chainChanged\",\"params\":{\"chainId\":\"0x1\",\"networkVersion\":\"x\"}}"
            .to_string()]
    );
}

#[test]
fn broadcast_from_the_session_reaches_the_peers() {
    let (mut session, mut rx1) = session_with_peer();
    let (tx2, rx2) = unbounded_channel();
    session.add_peer(peer(2), tx2);
    drop(rx2);
    let n = Notification::AccountsChanged { address: FIRST.to_string() };
    let outcome = session.broadcast(&n);
    assert_eq!(outcome.message, n.to_wire());
    assert_eq!(
        outcome.deliveries,
        vec![
            Delivery { peer: peer(1), accepted: true },
            Delivery { peer: peer(2), accepted: false },
        ]
    );
    assert_eq!(texts(&mut rx1), vec![n.to_wire()]);
    session.remove_peer(peer(2));
    assert_eq!(session.peers().len(), 1);
    assert!(session.peers().contains(peer(1)));
}

#[test]
fn transition_with_a_closed_peer_still_takes_place() {
    let (mut session, rx) = session_with_peer();
    drop(rx);
    let outcome = session.set_current_network("anvil".to_string()).unwrap().unwrap();
    assert_eq!(outcome.refused(), vec![peer(1)]);
    assert_eq!(session.current_network(), "anvil");
    assert_eq!(session.get_signer().chain_id(), 31337);
}

#[test]
fn snapshot_holds_the_stored_part() {
    let mut session = ContextInner::new().unwrap();
    session.set_wallet(wallet(3, 1));
    session.set_current_network("goerli".to_string()).unwrap();
    let snapshot = session.snapshot();
    assert_eq!(snapshot.mnemonic, PHRASE);
    assert_eq!(snapshot.derivation_path, TEMPLATE);
    assert_eq!(snapshot.idx, 3);
    assert_eq!(snapshot.current_network, "goerli");
    assert_eq!(snapshot.networks, vec![Network::mainnet(), Network::goerli(), Network::anvil()]);
}

#[test]
fn restored_session_has_the_same_address() {
    let (mut session, _rx) = session_with_peer();
    session.set_wallet(wallet(1, 1));
    session.set_current_network("anvil".to_string()).unwrap();
    let restored = ContextInner::restore(session.snapshot()).unwrap();
    assert_eq!(restored.wallet().checksummed_address(), session.wallet().checksummed_address());
    assert_eq!(restored.get_signer().key(), session.get_signer().key());
    assert_eq!(restored.get_signer().chain_id(), 31337);
    assert_eq!(restored.current_network(), "anvil");
    assert_eq!(restored.networks().to_vec(), session.networks().to_vec());
    assert_eq!(restored.peers().len(), 0);
}

#[test]
fn stored_part_without_a_wallet_field_is_refused() {
    let m = || Some(PHRASE.to_string());
    let p = || Some(TEMPLATE.to_string());
    let make = |m, p, i| Snapshot::from_fields(m, p, i, "mainnet".to_string(), vec![Network::mainnet()]);
    assert_eq!(make(None, None, None).err(), Some(Error::MissingField(WalletField::Mnemonic)));
    assert_eq!(make(None, p(), Some(1)).err(), Some(Error::MissingField(WalletField::Mnemonic)));
    assert_eq!(make(m(), None, Some(1)).err(), Some(Error::MissingField(WalletField::DerivationPath)));
    assert_eq!(make(m(), p(), None).err(), Some(Error::MissingField(WalletField::Idx)));
    let snapshot = make(m(), p(), Some(2)).unwrap();
    assert_eq!(snapshot.mnemonic, PHRASE);
    assert_eq!(snapshot.derivation_path, TEMPLATE);
    assert_eq!(snapshot.idx, 2);
    assert_eq!(snapshot.current_network, "mainnet");
    assert_eq!(snapshot.networks, vec![Network::mainnet()]);
}

#[test]
fn restore_fails_where_the_active_network_is_not_stored() {
    let r = ContextInner::restore(Snapshot {
        mnemonic: PHRASE.to_string(),
        derivation_path: TEMPLATE.to_string(),
        idx: 0,
        current_network: "gone".to_string(),
        networks: vec![Network::mainnet()],
    });
    assert_eq!(r.err(), Some(Error::NetworkNotFound));
}

#[test]
fn restore_fails_where_the_wallet_cannot_be_derived() {
    let r = ContextInner::restore(Snapshot {
        mnemonic: "no phrase".to_string(),
        derivation_path: TEMPLATE.to_string(),
        idx: 0,
        current_network: "mainnet".to_string(),
        networks: vec![Network::mainnet()],
    });
    assert!(matches!(r, Err(Error::Derivation(_))));
}

#[test]
fn last_of_several_switches_decides_and_each_is_told_in_turn() {
    let (mut session, mut rx) = session_with_peer();
    for name in ["anvil", "goerli", "mainnet", "anvil"] {
        session.set_current_network(name.to_string()).unwrap();
    }
    assert_eq!(session.current_network(), "anvil");
    assert_eq!(session.get_signer().chain_id(), 31337);
    let got = texts(&mut rx);
    let ids: Vec<&str> = vec!["0x7a69", "0x5", "0x1", "0x7a69"];
    assert_eq!(got.len(), 4);
    for (text, id) in got.iter().zip(ids) {
        assert!(text.contains(&format!("\"chainId\":\"{}\"", id)));
    }
}

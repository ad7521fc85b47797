use tokio::sync::mpsc::{unbounded_channel, UnboundedReceiver};
use wallet_session::notify::Notification;
use wallet_session::peers::{Broadcast, Delivery, PeerAddr, PeerRegistry};

fn v4(last: u32, port: u16) -> PeerAddr {
    PeerAddr::V4 { octets: 0x7f00_0000 + last, port }
}

fn notice() -> Notification {
    Notification::ChainChanged { chain_id: 5, network_version: "goerli".to_string() }
}

fn expected() -> serde_json::Value {
    let mut params = serde_json::Map::new();
    params.insert("chainId".to_string(), serde_json::Value::String("0x5".to_string()));
    params.insert("networkVersion".to_string(), serde_json::Value::String("goerli".to_string()));
    let mut object = serde_json::Map::new();
    object.insert("method".to_string(), serde_json::Value::String("chainChanged".to_string()));
    object.insert("params".to_string(), serde_json::Value::Object(params));
    serde_json::Value::Object(object)
}

fn received(rx: &mut UnboundedReceiver<serde_json::Value>) -> Vec<serde_json::Value> {
    let mut all = Vec::new();
    while let Ok(v) = rx.try_recv() {
        all.push(v);
    }
    all
}

#[test]
fn new_registry_is_empty() {
    let registry = PeerRegistry::new();
    assert_eq!(registry.len(), 0);
    assert!(!registry.contains(v4(1, 80)));
    let outcome = registry.broadcast(&notice());
    assert!(outcome.deliveries.is_empty());
    assert_eq!(outcome.message, notice().to_wire());
}

#[test]
fn broadcast_reaches_every_peer_once() {
    let mut registry = PeerRegistry::new();
    let (tx1, mut rx1) = unbounded_channel();
    let (tx2, mut rx2) = unbounded_channel();
    registry.add_peer(v4(1, 80), tx1);
    registry.add_peer(v4(2, 80), tx2);
    let outcome = registry.broadcast(&notice());
    assert_eq!(
        outcome.deliveries,
        vec![
            Delivery { peer: v4(1, 80), accepted: true },
            Delivery { peer: v4(2, 80), accepted: true },
        ]
    );
    assert!(outcome.refused().is_empty());
    assert_eq!(received(&mut rx1), vec![expected()]);
    assert_eq!(received(&mut rx2), vec![expected()]);
}

#[test]
fn closed_channel_holds_up_no_other_peer() {
    let mut registry = PeerRegistry::new();
    let (tx1, rx1) = unbounded_channel();
    let (tx2, mut rx2) = unbounded_channel();
    let (tx3, mut rx3) = unbounded_channel();
    registry.add_peer(v4(1, 80), tx1);
    registry.add_peer(v4(2, 80), tx2);
    registry.add_peer(v4(3, 80), tx3);
    drop(rx1);
    rx3.close();
    let outcome = registry.broadcast(&notice());
    assert_eq!(
        outcome.deliveries,
        vec![
            Delivery { peer: v4(1, 80), accepted: false },
            Delivery { peer: v4(2, 80), accepted: true },
            Delivery { peer: v4(3, 80), accepted: false },
        ]
    );
    assert_eq!(outcome.refused(), vec![v4(1, 80), v4(3, 80)]);
    assert_eq!(received(&mut rx2), vec![expected()]);
}

#[test]
fn peer_added_twice_keeps_its_place_and_gets_the_new_channel() {
    let mut registry = PeerRegistry::new();
    let (tx1, mut rx1) = unbounded_channel();
    let (tx2, mut rx2) = unbounded_channel();
    let (tx3, mut rx3) = unbounded_channel();
    registry.add_peer(v4(1, 80), tx1);
    registry.add_peer(v4(2, 80), tx2);
    registry.add_peer(v4(1, 80), tx3);
    assert_eq!(registry.len(), 2);
    let outcome = registry.broadcast(&notice());
    assert_eq!(
        outcome.deliveries,
        vec![
            Delivery { peer: v4(1, 80), accepted: true },
            Delivery { peer: v4(2, 80), accepted: true },
        ]
    );
    assert!(received(&mut rx1).is_empty());
    assert_eq!(received(&mut rx2).len(), 1);
    assert_eq!(received(&mut rx3).len(), 1);
}

#[test]
fn removed_peer_is_sent_nothing() {
    let mut registry = PeerRegistry::new();
    let (tx1, mut rx1) = unbounded_channel();
    let (tx2, mut rx2) = unbounded_channel();
    let (tx3, mut rx3) = unbounded_channel();
    registry.add_peer(v4(1, 80), tx1);
    registry.add_peer(v4(2, 80), tx2);
    registry.add_peer(v4(3, 80), tx3);
    registry.remove_peer(v4(2, 80));
    registry.remove_peer(v4(9, 80));
    assert_eq!(registry.len(), 2);
    assert!(registry.contains(v4(1, 80)));
    assert!(!registry.contains(v4(2, 80)));
    let outcome = registry.broadcast(&notice());
    assert_eq!(
        outcome.deliveries,
        vec![
            Delivery { peer: v4(1, 80), accepted: true },
            Delivery { peer: v4(3, 80), accepted: true },
        ]
    );
    assert_eq!(received(&mut rx1).len(), 1);
    assert!(received(&mut rx2).is_empty());
    assert_eq!(received(&mut rx3).len(), 1);
}

#[test]
fn peers_differ_by_port_and_by_family() {
    let mut registry = PeerRegistry::new();
    let (tx1, _rx1) = unbounded_channel();
    let (tx2, _rx2) = unbounded_channel();
    let (tx3, _rx3) = unbounded_channel();
    registry.add_peer(PeerAddr::V4 { octets: 1, port: 80 }, tx1);
    registry.add_peer(PeerAddr::V4 { octets: 1, port: 81 }, tx2);
    registry.add_peer(PeerAddr::V6 { segments: 1, port: 80, flowinfo: 0, scope_id: 0 }, tx3);
    assert_eq!(registry.len(), 3);
    assert!(!registry.contains(PeerAddr::V6 { segments: 1, port: 80, flowinfo: 0, scope_id: 1 }));
}

#[test]
fn each_peer_gets_the_broadcasts_in_order() {
    let mut registry = PeerRegistry::new();
    let (tx, mut rx) = unbounded_channel();
    registry.add_peer(v4(1, 80), tx);
    registry.broadcast(&Notification::AccountsChanged { address: "0x01".to_string() });
    registry.broadcast(&notice());
    let got = received(&mut rx);
    assert_eq!(got.len(), 2);
    assert_eq!(got[0]["method"], serde_json::Value::String("accountsChanged".to_string()));
    assert_eq!(got[1], expected());
}

#[test]
fn record_appends_a_delivery() {
    let mut b = Broadcast::new("text".to_string());
    assert!(b.deliveries.is_empty());
    b.record(v4(1, 80), true);
    b.record(v4(2, 80), false);
    assert_eq!(b.message, "text");
    assert_eq!(
        b.deliveries,
        vec![
            Delivery { peer: v4(1, 80), accepted: true },
            Delivery { peer: v4(2, 80), accepted: false },
        ]
    );
    assert_eq!(b.refused(), vec![v4(2, 80)]);
}

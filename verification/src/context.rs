//! The session state: the active wallet, the active network, the networks
//! that can be selected and the connected peers; and the transitions that
//! tell the peers when the address or the chain id is another one.
//!
//! Every transition is stated over `SessionView` by a function that gives
//! the state after it and one that gives the notification it sends, if any.

use vstd::prelude::*;
use crate::descriptors::{
    collect, lemma_collect_distinct, lemma_position_distinct, lemma_position_of_chain,
    lemma_position_of_name, lookup, lookup_chain, names_distinct, position_of_chain, views,
    NetworkSet,
};
use crate::network::chain_id_hex_text;
use crate::text::json_string;
use crate::error::{Error, WalletField};
use crate::network::{anvil_view, goerli_view, mainnet_view, Network, NetworkView};
use crate::notify::{wire_text, Notification, NotificationView};
use crate::peers::{without_peer, Broadcast, PeerAddr, PeerRegistry};
use crate::wallet::{
    checksum_text, derived_signer, holds_derived_signer, lemma_plain_address_injective, rebound,
    Signer, SignerView, Wallet, WalletView,
};

verus! {

/// The state of a session.
pub struct ContextInner {
    wallet: Wallet,
    current_network: String,
    networks: NetworkSet,
    peers: PeerRegistry,
}

/// What a session holds: the wallet, the name of the active network, the
/// descriptor set in its order, and the addresses of the peers in the order
/// in which they are sent to.
pub struct SessionView {
    pub wallet: WalletView,
    pub current_network: Seq<char>,
    pub networks: Seq<NetworkView>,
    pub peers: Seq<PeerAddr>,
}

/// The part of a session that is stored.
#[derive(Debug)]
pub struct Snapshot {
    pub mnemonic: String,
    pub derivation_path: String,
    pub idx: u32,
    pub current_network: String,
    pub networks: Vec<Network>,
}

/// What a `Snapshot` holds.
pub struct SnapshotView {
    pub mnemonic: Seq<char>,
    pub derivation_path: Seq<char>,
    pub idx: u32,
    pub current_network: Seq<char>,
    pub networks: Seq<NetworkView>,
}

impl View for Snapshot {
    type V = SnapshotView;

    open spec fn view(&self) -> SnapshotView {
        SnapshotView {
            mnemonic: self.mnemonic@,
            derivation_path: self.derivation_path@,
            idx: self.idx,
            current_network: self.current_network@,
            networks: views(self.networks@),
        }
    }
}

impl Snapshot {
    /// The stored part made of its fields, of which those of the wallet may
    /// be absent. An absent one is named, the first of them in the order
    /// mnemonic, derivation path, index.
    pub fn from_fields(
        mnemonic: Option<String>,
        derivation_path: Option<String>,
        idx: Option<u32>,
        current_network: String,
        networks: Vec<Network>,
    ) -> (r: Result<Snapshot, Error>)
        ensures
            mnemonic is None ==> r == Err::<Snapshot, Error>(
                Error::MissingField(WalletField::Mnemonic),
            ),
            mnemonic is Some && derivation_path is None ==> r == Err::<Snapshot, Error>(
                Error::MissingField(WalletField::DerivationPath),
            ),
            mnemonic is Some && derivation_path is Some && idx is None ==> r == Err::<
                Snapshot,
                Error,
            >(Error::MissingField(WalletField::Idx)),
            mnemonic is Some && derivation_path is Some && idx is Some ==> r == Ok::<
                Snapshot,
                Error,
            >(
                Snapshot {
                    mnemonic: mnemonic->0,
                    derivation_path: derivation_path->0,
                    idx: idx->0,
                    current_network,
                    networks,
                },
            ),
    {
        let mnemonic = match mnemonic {
            Some(m) => m,
            None => {
                return Err(Error::MissingField(WalletField::Mnemonic));
            },
        };
        let derivation_path = match derivation_path {
            Some(p) => p,
            None => {
                return Err(Error::MissingField(WalletField::DerivationPath));
            },
        };
        let idx = match idx {
            Some(i) => i,
            None => {
                return Err(Error::MissingField(WalletField::Idx));
            },
        };
        Ok(Snapshot { mnemonic, derivation_path, idx, current_network, networks })
    }
}

impl View for ContextInner {
    type V = SessionView;

    closed spec fn view(&self) -> SessionView {
        SessionView {
            wallet: self.wallet@,
            current_network: self.current_network@,
            networks: self.networks@,
            peers: self.peers.order(),
        }
    }
}

/// The descriptor of the active network, where the name of the active
/// network is one of the set.
pub open spec fn active_network(s: SessionView) -> Option<NetworkView> {
    lookup(s.networks, s.current_network)
}

/// What the peers are told when `next` takes the place of the wallet
/// `previous`: the new address with its checksum, where it is another
/// address; else nothing.
pub open spec fn wallet_notice(previous: WalletView, next: WalletView) -> Option<
    NotificationView,
> {
    if previous.signer.address == next.signer.address {
        None
    } else {
        Some(NotificationView::AccountsChanged { address: checksum_text(next.signer.address) })
    }
}

/// The session after `wallet` was made the active wallet.
pub open spec fn with_wallet(s: SessionView, wallet: WalletView) -> SessionView {
    SessionView { wallet, ..s }
}

/// Whether making `target` the active network changes the chain id: it does
/// unless the active network is one of the set and has the chain id of
/// `target`.
pub open spec fn chain_changes(s: SessionView, target: NetworkView) -> bool {
    match active_network(s) {
        Some(previous) => previous.chain_id != target.chain_id,
        None => true,
    }
}

/// The session after `target` was made the active network: the name is the
/// new one, and where the chain id changes the signer is bound to the new
/// chain id.
pub open spec fn with_network(s: SessionView, target: NetworkView) -> SessionView {
    SessionView {
        current_network: target.name,
        wallet: if chain_changes(s, target) {
            rebound(s.wallet, target.chain_id)
        } else {
            s.wallet
        },
        ..s
    }
}

/// What the peers are told when `target` is made the active network: the new
/// chain id and the name of the network, where the chain id changes; else
/// nothing.
pub open spec fn network_notice(s: SessionView, target: NetworkView) -> Option<NotificationView> {
    if chain_changes(s, target) {
        Some(
            NotificationView::ChainChanged {
                chain_id: target.chain_id,
                network_version: target.name,
            },
        )
    } else {
        None
    }
}

/// Whether `outcome` is what sending `notice` to the peers `peers` gives: no
/// broadcast where there is nothing to tell, and else one broadcast of the
/// text of the notification to each of the peers.
pub open spec fn announced(
    outcome: Option<Broadcast>,
    notice: Option<NotificationView>,
    peers: Seq<PeerAddr>,
) -> bool {
    match notice {
        None => outcome is None,
        Some(n) => outcome matches Some(b) && b.reached(wire_text(n), peers),
    }
}

/// The part of `s` that is stored.
pub open spec fn snapshot_of(s: SessionView) -> SnapshotView {
    SnapshotView {
        mnemonic: s.wallet.mnemonic,
        derivation_path: s.wallet.derivation_path,
        idx: s.wallet.idx,
        current_network: s.current_network,
        networks: s.networks,
    }
}

/// The session that a stored part gives: the descriptor set built from the
/// stored list, the stored name as the active network, the signer derived
/// for the chain id of that network, and no peer. There is none where the
/// name is not one of the set (`None`), or where the derivation fails (its
/// text).
pub open spec fn restored(snapshot: SnapshotView) -> Result<SessionView, Option<Seq<char>>> {
    let networks = collect(snapshot.networks);
    match lookup(networks, snapshot.current_network) {
        None => Err(None),
        Some(active) => match derived_signer(
            snapshot.mnemonic,
            snapshot.derivation_path,
            snapshot.idx,
            active.chain_id,
        ) {
            Ok(signer) => Ok(
                SessionView {
                    wallet: WalletView {
                        mnemonic: snapshot.mnemonic,
                        derivation_path: snapshot.derivation_path,
                        idx: snapshot.idx,
                        signer,
                    },
                    current_network: snapshot.current_network,
                    networks,
                    peers: Seq::empty(),
                },
            ),
            Err(text) => Err(Some(text)),
        },
    }
}

/// What `restore` returns for a stored part with the meaning `expected`.
pub open spec fn restore_outcome(
    r: Result<ContextInner, Error>,
    expected: Result<SessionView, Option<Seq<char>>>,
) -> bool {
    match expected {
        Ok(s) => r matches Ok(session) && session.wf() && session@ == s,
        Err(None) => r == Err::<ContextInner, Error>(Error::NetworkNotFound),
        Err(Some(text)) => r matches Err(Error::Derivation(t)) && t@ == text,
    }
}

/// The descriptor set of a new session: the main network, Goerli and Anvil.
pub open spec fn default_networks() -> Seq<NetworkView> {
    seq![mainnet_view(), goerli_view(), anvil_view()]
}

impl ContextInner {
    /// The invariant of a session: the wallet holds the signer derived from
    /// its phrase, no two descriptors have one name, and no peer stands
    /// twice.
    pub closed spec fn wf(&self) -> bool {
        &&& self.wallet.wf()
        &&& self.networks.wf()
        &&& self.peers.wf()
    }

    /// The channel of each peer.
    pub closed spec fn channels(&self) -> Map<
        PeerAddr,
        tokio::sync::mpsc::UnboundedSender<serde_json::Value>,
    > {
        self.peers.channels()
    }

    /// What the invariant says of the view.
    pub proof fn lemma_wf(&self)
        requires
            self.wf(),
        ensures
            holds_derived_signer(self@.wallet),
            names_distinct(self@.networks),
            self@.peers.no_duplicates(),
    {
    }

    /// A session with the default wallet, the three built-in networks and no
    /// peer; the main network is active. It fails only where the default
    /// wallet cannot be derived.
    pub fn new() -> (r: Result<Self, Error>)
        ensures
            match r {
                Ok(s) => {
                    &&& s.wf()
                    &&& s@.wallet.mnemonic == crate::wallet::default_mnemonic()
                    &&& s@.wallet.derivation_path == crate::wallet::default_derivation_path()
                    &&& s@.wallet.idx == 0
                    &&& s@.wallet.signer.chain_id == 1
                    &&& s@.current_network == "mainnet"@
                    &&& s@.networks == default_networks()
                    &&& s@.peers == Seq::<PeerAddr>::empty()
                },
                Err(e) => {
                    &&& e matches Error::Derivation(text)
                    &&& derived_signer(
                        crate::wallet::default_mnemonic(),
                        crate::wallet::default_derivation_path(),
                        0,
                        1,
                    ) == Err::<SignerView, Seq<char>>(text@)
                },
            },
    {
        let wallet = match Wallet::try_default() {
            Ok(w) => w,
            Err(e) => {
                return Err(e);
            },
        };
        let mut networks = NetworkSet::new();
        let ghost a = default_networks()[0];
        let ghost b = default_networks()[1];
        let ghost c = default_networks()[2];
        proof {
            reveal_strlit("mainnet");
            reveal_strlit("goerli");
            reveal_strlit("anvil");
            assert(a.name.len() == 7 && b.name.len() == 6 && c.name.len() == 5);
            lemma_position_of_name(seq![a], b.name);
            lemma_position_of_name(seq![a], c.name);
            lemma_position_of_name(seq![a, b], c.name);
        }
        networks.insert(Network::mainnet());
        assert(networks@ =~= seq![a]);
        networks.insert(Network::goerli());
        proof {
            assert(networks@ =~= seq![a, b]);
        }
        networks.insert(Network::anvil());
        proof {
            assert(networks@ =~= default_networks());
        }
        Ok(
            ContextInner {
                wallet,
                current_network: String::from_str("mainnet"),
                networks,
                peers: PeerRegistry::new(),
            },
        )
    }

    /// The active wallet.
    pub fn wallet(&self) -> (wallet: &Wallet)
        ensures
            wallet@ == self@.wallet,
    {
        &self.wallet
    }

    /// The name of the active network.
    pub fn current_network(&self) -> (name: &String)
        ensures
            name@ == self@.current_network,
    {
        &self.current_network
    }

    /// The descriptor set.
    pub fn networks(&self) -> (networks: &NetworkSet)
        ensures
            networks@ == self@.networks,
    {
        &self.networks
    }

    /// The peer registry.
    pub fn peers(&self) -> (peers: &PeerRegistry)
        ensures
            peers.order() == self@.peers,
            peers.channels() == self.channels(),
    {
        &self.peers
    }

    /// Registers `peer` with its channel. A peer that is registered already
    /// keeps its place and gets the new channel.
    pub fn add_peer(
        &mut self,
        peer: PeerAddr,
        snd: tokio::sync::mpsc::UnboundedSender<serde_json::Value>,
    )
        requires
            old(self).wf(),
        ensures
            final(self).wf(),
            final(self).channels() == old(self).channels().insert(peer, snd),
            final(self)@ == (SessionView {
                peers: if old(self)@.peers.contains(peer) {
                    old(self)@.peers
                } else {
                    old(self)@.peers.push(peer)
                },
                ..old(self)@
            }),
    {
        self.peers.add_peer(peer, snd);
    }

    /// Removes `peer`, if it is registered.
    pub fn remove_peer(&mut self, peer: PeerAddr)
        requires
            old(self).wf(),
        ensures
            final(self).wf(),
            final(self).channels() == old(self).channels().remove(peer),
            final(self)@ == (SessionView {
                peers: without_peer(old(self)@.peers, peer),
                ..old(self)@
            }),
    {
        self.peers.remove_peer(peer);
    }

    /// Sends `msg` to every peer. A channel that does not take it is noted in
    /// the outcome and holds up no other peer.
    pub fn broadcast(&self, msg: &Notification) -> (outcome: Broadcast)
        ensures
            outcome.reached(wire_text(msg@), self@.peers),
    {
        self.peers.broadcast(msg)
    }

    /// Makes `wallet` the active wallet. The peers are told the new address
    /// where it is not the address of the wallet before.
    pub fn set_wallet(&mut self, wallet: Wallet) -> (outcome: Option<Broadcast>)
        requires
            old(self).wf(),
            wallet.wf(),
        ensures
            final(self).wf(),
            final(self).channels() == old(self).channels(),
            final(self)@ == with_wallet(old(self)@, wallet@),
            announced(outcome, wallet_notice(old(self)@.wallet, wallet@), old(self)@.peers),
    {
        let previous_address = self.wallet.checksummed_address();
        self.wallet = wallet;
        let new_address = self.wallet.checksummed_address();
        proof {
            if previous_address@ == new_address@ {
                lemma_plain_address_injective(
                    old(self)@.wallet.signer.address,
                    wallet@.signer.address,
                );
            }
        }
        if previous_address != new_address {
            let notice = Notification::AccountsChanged { address: new_address };
            Some(self.peers.broadcast(&notice))
        } else {
            None
        }
    }

    /// Makes the network called `new_current_network` the active one. Where
    /// its chain id is not that of the network that was active, the signer
    /// is derived again for the new chain id and the peers are told the new
    /// chain id. Where no network has the name, nothing changes.
    pub fn set_current_network(&mut self, new_current_network: String) -> (r: Result<
        Option<Broadcast>,
        Error,
    >)
        requires
            old(self).wf(),
        ensures
            final(self).wf(),
            final(self).channels() == old(self).channels(),
            match lookup(old(self)@.networks, new_current_network@) {
                None => {
                    &&& r == Err::<Option<Broadcast>, Error>(Error::NetworkNotFound)
                    &&& final(self)@ == old(self)@
                },
                Some(target) => {
                    &&& target.name == new_current_network@
                    &&& active_network(final(self)@) == Some(target)
                    &&& r matches Ok(outcome)
                    &&& announced(outcome, network_notice(old(self)@, target), old(self)@.peers)
                    &&& final(self)@ == with_network(old(self)@, target)
                    &&& chain_changes(old(self)@, target) ==> derived_signer(
                        old(self)@.wallet.mnemonic,
                        old(self)@.wallet.derivation_path,
                        old(self)@.wallet.idx,
                        target.chain_id,
                    ) == Ok::<SignerView, Seq<char>>(final(self)@.wallet.signer)
                },
            },
    {
        let target = match self.networks.get(&new_current_network) {
            Some(n) => n.clone(),
            None => {
                return Err(Error::NetworkNotFound);
            },
        };
        let previous_chain_id = match self.networks.get(&self.current_network) {
            Some(previous) => Some(previous.chain_id),
            None => None,
        };
        proof {
            lemma_position_of_name(self@.networks, new_current_network@);
        }
        self.current_network = new_current_network;
        let changed = match previous_chain_id {
            Some(id) => id != target.chain_id,
            None => true,
        };
        if changed {
            self.wallet.update_chain_id(target.chain_id);
            let notice = Notification::ChainChanged {
                chain_id: target.chain_id,
                network_version: target.name,
            };
            Ok(Some(self.peers.broadcast(&notice)))
        } else {
            Ok(None)
        }
    }

    /// Makes the first network of the set with chain id `new_chain_id` the
    /// active one, as `set_current_network` does with its name. Where no
    /// network has the chain id, nothing changes.
    pub fn set_current_network_by_id(&mut self, new_chain_id: u32) -> (r: Result<
        Option<Broadcast>,
        Error,
    >)
        requires
            old(self).wf(),
        ensures
            final(self).wf(),
            final(self).channels() == old(self).channels(),
            match lookup_chain(old(self)@.networks, new_chain_id) {
                None => {
                    &&& r == Err::<Option<Broadcast>, Error>(Error::NetworkNotFound)
                    &&& final(self)@ == old(self)@
                },
                Some(target) => {
                    &&& target.chain_id == new_chain_id
                    &&& active_network(final(self)@) == Some(target)
                    &&& r matches Ok(outcome)
                    &&& announced(outcome, network_notice(old(self)@, target), old(self)@.peers)
                    &&& final(self)@ == with_network(old(self)@, target)
                    &&& chain_changes(old(self)@, target) ==> derived_signer(
                        old(self)@.wallet.mnemonic,
                        old(self)@.wallet.derivation_path,
                        old(self)@.wallet.idx,
                        target.chain_id,
                    ) == Ok::<SignerView, Seq<char>>(final(self)@.wallet.signer)
                },
            },
    {
        let name = match self.networks.find_by_chain_id(new_chain_id) {
            Some(n) => n.name.clone(),
            None => {
                return Err(Error::NetworkNotFound);
            },
        };
        proof {
            lemma_position_of_chain(self@.networks, new_chain_id);
            lemma_position_distinct(
                self@.networks,
                position_of_chain(self@.networks, new_chain_id)->0,
            );
        }
        self.set_current_network(name)
    }

    /// Replaces the descriptor set by the one built from `networks`: of two
    /// entries with one name the later one stays. The name of the active
    /// network stays what it is, whether or not the new set has it: a caller
    /// who takes it out follows with a switch.
    pub fn set_networks(&mut self, networks: Vec<Network>)
        requires
            old(self).wf(),
        ensures
            final(self).wf(),
            final(self).channels() == old(self).channels(),
            final(self)@ == (SessionView { networks: collect(views(networks@)), ..old(self)@ }),
    {
        self.networks = NetworkSet::from_list(&networks);
    }

    /// The descriptor of the active network, where the name of the active
    /// network is one of the set.
    pub fn get_current_network(&self) -> (r: Result<Network, Error>)
        ensures
            match active_network(self@) {
                Some(n) => r matches Ok(network) && network@ == n,
                None => r == Err::<Network, Error>(Error::NetworkNotFound),
            },
    {
        match self.networks.get(&self.current_network) {
            Some(n) => Ok(n.clone()),
            None => Err(Error::NetworkNotFound),
        }
    }

    /// The signer of the active wallet.
    pub fn get_signer(&self) -> (signer: Signer)
        ensures
            signer@ == self@.wallet.signer,
    {
        self.wallet.signer().clone()
    }

    /// The part of the session that is stored: of the wallet the phrase, the
    /// template and the index, but not the key; the name of the active
    /// network; the descriptor set. The peers are not part of it.
    pub fn snapshot(&self) -> (snapshot: Snapshot)
        ensures
            snapshot@ == snapshot_of(self@),
    {
        Snapshot {
            mnemonic: self.wallet.mnemonic().clone(),
            derivation_path: self.wallet.derivation_path().clone(),
            idx: self.wallet.idx(),
            current_network: self.current_network.clone(),
            networks: self.networks.to_vec(),
        }
    }

    /// The session that a stored part gives. The signer is derived for the
    /// chain id of the stored active network. Where the stored name is not in
    /// the stored set, or the derivation fails, there is no session.
    pub fn restore(snapshot: Snapshot) -> (r: Result<Self, Error>)
        ensures
            restore_outcome(r, restored(snapshot@)),
    {
        let networks = NetworkSet::from_list(&snapshot.networks);
        let chain_id = match networks.get(&snapshot.current_network) {
            Some(active) => active.chain_id,
            None => {
                return Err(Error::NetworkNotFound);
            },
        };
        let wallet = match Wallet::new(
            snapshot.mnemonic,
            snapshot.derivation_path,
            snapshot.idx,
            chain_id,
        ) {
            Ok(w) => w,
            Err(e) => {
                return Err(e);
            },
        };
        Ok(
            ContextInner {
                wallet,
                current_network: snapshot.current_network,
                networks,
                peers: PeerRegistry::new(),
            },
        )
    }
}

/// A wallet switch that keeps the address tells the peers nothing. One that
/// changes it tells them the new address with its checksum, and nothing
/// else.
pub proof fn lemma_wallet_switch(previous: WalletView, next: WalletView)
    ensures
        previous.signer.address == next.signer.address ==> wallet_notice(previous, next) is None,
        previous.signer.address != next.signer.address ==> wallet_notice(previous, next) == Some(
            NotificationView::AccountsChanged { address: checksum_text(next.signer.address) },
        ),
        wallet_notice(previous, next) matches Some(n) ==> wire_text(n)
            == "{\"method\":\"accountsChanged\",\"params\":["@ + json_string(
            checksum_text(next.signer.address),
        ) + "]}"@,
{
}

/// A network switch that keeps the chain id tells the peers nothing and
/// leaves the wallet, and so the key of its signer, as it was.
pub proof fn lemma_switch_within_chain(s: SessionView, target: NetworkView)
    requires
        active_network(s) matches Some(previous) && previous.chain_id == target.chain_id,
    ensures
        network_notice(s, target) is None,
        with_network(s, target).wallet == s.wallet,
        with_network(s, target).current_network == target.name,
{
}

/// A network switch that changes the chain id tells the peers the new chain
/// id, in hexadecimal after `0x`, and the name of the new network, and
/// nothing else. After it the signer is the one derived from the same
/// phrase, template and index for the new chain id; its key and its address
/// are what they were.
pub proof fn lemma_switch_across_chains(s: SessionView, target: NetworkView)
    requires
        holds_derived_signer(s.wallet),
        active_network(s) matches Some(previous) ==> previous.chain_id != target.chain_id,
    ensures
        network_notice(s, target) == Some(
            NotificationView::ChainChanged {
                chain_id: target.chain_id,
                network_version: target.name,
            },
        ),
        wire_text(network_notice(s, target)->0)
            == "{\"method\":\"chainChanged\",\"params\":{\"chainId\":"@ + json_string(
            chain_id_hex_text(target.chain_id),
        ) + ",\"networkVersion\":"@ + json_string(target.name) + "}}"@,
        derived_signer(s.wallet.mnemonic, s.wallet.derivation_path, s.wallet.idx, target.chain_id)
            == Ok::<SignerView, Seq<char>>(with_network(s, target).wallet.signer),
        holds_derived_signer(with_network(s, target).wallet),
        with_network(s, target).wallet.signer.key == s.wallet.signer.key,
        with_network(s, target).wallet.signer.address == s.wallet.signer.address,
        with_network(s, target).wallet.signer.chain_id == target.chain_id,
{
}

/// Deriving the signer again for the chain id it has changes nothing, and
/// deriving it twice for one chain id gives what deriving it once gives.
pub proof fn lemma_rederivation(w: WalletView, chain_id: u32)
    requires
        holds_derived_signer(w),
    ensures
        rebound(w, w.signer.chain_id) == w,
        rebound(rebound(w, chain_id), chain_id) == rebound(w, chain_id),
        holds_derived_signer(rebound(w, chain_id)),
{
}

/// A switch to a network of the set leaves a session whose active network is
/// that network: the name of the active network is one of the set after every
/// switch that takes place.
pub proof fn lemma_switch_resolves(s: SessionView, name: Seq<char>)
    requires
        names_distinct(s.networks),
        lookup(s.networks, name) is Some,
    ensures
        lookup(s.networks, name)->0.name == name,
        active_network(with_network(s, lookup(s.networks, name)->0)) == lookup(s.networks, name),
{
    lemma_position_of_name(s.networks, name);
}

/// A search by chain id finds a network that has the chain id and that is
/// found under its own name; it finds none only where no network of the set
/// has the chain id.
pub proof fn lemma_lookup_chain(networks: Seq<NetworkView>, chain_id: u32)
    requires
        names_distinct(networks),
    ensures
        match lookup_chain(networks, chain_id) {
            Some(target) => target.chain_id == chain_id && lookup(networks, target.name) == Some(
                target,
            ),
            None => forall|i: int| 0 <= i < networks.len() ==> networks[i].chain_id != chain_id,
        },
{
    lemma_position_of_chain(networks, chain_id);
    if position_of_chain(networks, chain_id) is Some {
        lemma_position_distinct(networks, position_of_chain(networks, chain_id)->0);
    }
}

/// Storing a session and restoring it gives the session back, without its
/// peers and with the signer bound to the chain id of the active network:
/// the same phrase, template and index, the same key and the same address.
pub proof fn lemma_restore_snapshot(s: SessionView)
    requires
        holds_derived_signer(s.wallet),
        names_distinct(s.networks),
        active_network(s) is Some,
    ensures
        restored(snapshot_of(s)) == Ok::<SessionView, Option<Seq<char>>>(
            SessionView {
                wallet: rebound(s.wallet, active_network(s)->0.chain_id),
                peers: Seq::empty(),
                ..s
            },
        ),
        restored(snapshot_of(s))->Ok_0.wallet.signer.address == s.wallet.signer.address,
        restored(snapshot_of(s))->Ok_0.wallet.signer.key == s.wallet.signer.key,
{
    lemma_collect_distinct(s.networks);
}

/// Of two switches one after the other, each to a network of the set, the
/// second decides the active network, and what it tells the peers depends on
/// the state that the first one left.
pub proof fn lemma_switches_in_turn(s: SessionView, first: Seq<char>, second: Seq<char>)
    requires
        names_distinct(s.networks),
        lookup(s.networks, first) is Some,
        lookup(s.networks, second) is Some,
    ensures
        ({
            let a = lookup(s.networks, first)->0;
            let b = lookup(s.networks, second)->0;
            let between = with_network(s, a);
            let after = with_network(between, b);
            &&& after.current_network == second
            &&& active_network(after) == Some(b)
            &&& network_notice(between, b) is Some <==> a.chain_id != b.chain_id
        }),
{
    lemma_switch_resolves(s, first);
    let a = lookup(s.networks, first)->0;
    lemma_switch_resolves(with_network(s, a), second);
}

} // verus!

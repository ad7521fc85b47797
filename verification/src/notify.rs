//! The notifications that peers receive, and their text on the wire.

use vstd::prelude::*;
use crate::network::chain_id_hex_text;
use crate::text::{json_string, push_hex, push_json_string};

verus! {

/// What peers are told when the session changes.
#[derive(Debug)]
pub enum Notification {
    /// The active wallet has another address: the new one, with its checksum.
    AccountsChanged { address: String },
    /// The active network has another chain id: the new id, and the name of
    /// the new network.
    ChainChanged { chain_id: u32, network_version: String },
}

/// What a `Notification` holds.
pub enum NotificationView {
    AccountsChanged { address: Seq<char> },
    ChainChanged { chain_id: u32, network_version: Seq<char> },
}

impl View for Notification {
    type V = NotificationView;

    open spec fn view(&self) -> NotificationView {
        match *self {
            Notification::AccountsChanged { address } => NotificationView::AccountsChanged {
                address: address@,
            },
            Notification::ChainChanged {
                chain_id,
                network_version,
            } => NotificationView::ChainChanged { chain_id, network_version: network_version@ },
        }
    }
}

/// The JSON text of a notification: an object with the members `method` and
/// `params`, in this order and without white space. An `accountsChanged`
/// carries an array with the address; a `chainChanged` carries an object with
/// `chainId`, the id in hexadecimal after `0x`, and `networkVersion`.
pub open spec fn wire_text(n: NotificationView) -> Seq<char> {
    match n {
        NotificationView::AccountsChanged { address } => {
            "{\"method\":\"accountsChanged\",\"params\":["@ + json_string(address) + "]}"@
        },
        NotificationView::ChainChanged { chain_id, network_version } => {
            "{\"method\":\"chainChanged\",\"params\":{\"chainId\":"@ + json_string(
                chain_id_hex_text(chain_id),
            ) + ",\"networkVersion\":"@ + json_string(network_version) + "}}"@
        },
    }
}

impl Notification {
    /// The text of the notification on the wire.
    pub fn to_wire(&self) -> (text: String)
        ensures
            text@ == wire_text(self@),
    {
        match self {
            Notification::AccountsChanged { address } => {
                let mut text = String::from_str("{\"method\":\"accountsChanged\",\"params\":[");
                push_json_string(&mut text, address.as_str());
                text.append("]}");
                assert(text@ =~= wire_text(self@));
                text
            },
            Notification::ChainChanged { chain_id, network_version } => {
                let mut hex = String::new();
                hex.push('0');
                hex.push('x');
                push_hex(&mut hex, *chain_id);
                assert(hex@ =~= chain_id_hex_text(*chain_id));
                let mut text = String::from_str(
                    "{\"method\":\"chainChanged\",\"params\":{\"chainId\":",
                );
                push_json_string(&mut text, hex.as_str());
                text.append(",\"networkVersion\":");
                push_json_string(&mut text, network_version.as_str());
                text.append("}}");
                assert(text@ =~= wire_text(self@));
                text
            },
        }
    }
}

} // verus!

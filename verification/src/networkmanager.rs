//! NetworkManager connectivity readings.
//!
//! NetworkManager exposes an overall state plus a primary connection. Its type,
//! and on Wi-Fi the network name, normalize with the state into a [`Network`].

use crate::text;
use crate::widget::{Network, NetworkState, NetworkView};
use vstd::prelude::*;

verus! {

/// The state of a link by its connection type.
pub open spec fn link_state(conn_type: Option<Seq<char>>) -> NetworkState {
    if conn_type == Some("802-3-ethernet"@) {
        NetworkState::Wired
    } else if conn_type == Some("802-11-wireless"@) {
        NetworkState::Wireless
    } else {
        NetworkState::Unknown
    }
}

/// The connectivity NetworkManager's overall state and connection type stand for.
pub open spec fn nm_state_of(nm_state: u32, conn_type: Option<Seq<char>>) -> NetworkState {
    if nm_state == 10 || nm_state == 20 || nm_state == 30 {
        NetworkState::Disconnected
    } else if nm_state == 40 || nm_state == 50 || nm_state == 60 || nm_state == 70 {
        link_state(conn_type)
    } else {
        NetworkState::Unknown
    }
}

/// Normalize NetworkManager's overall state and the primary connection's type
/// into a [`Network`] snapshot.
///
/// `nm_state` follows NetworkManager's `NMState` enum: `10` asleep, `20`
/// disconnected, `30` disconnecting all read as offline; `40` connecting and
/// `50`/`60`/`70` connected (local/site/global) are classified by `conn_type`;
/// `0` unknown, or anything a future NetworkManager might add, is unknown. The
/// `ssid` is kept only on a wireless link.
pub fn network_from_nm(nm_state: u32, conn_type: Option<&str>, ssid: Option<&str>) -> (network:
    Network)
    ensures
        network@ == NetworkView::of(
            nm_state_of(nm_state, text::optional_str(conn_type)),
            text::optional_str(ssid),
        ),
{
    let state: NetworkState = match nm_state {
        // Asleep, disconnected, or tearing the connection down: offline.
        10 | 20 | 30 => NetworkState::Disconnected,
        // Connecting or connected (local/site/global): classify by link type.
        40 | 50 | 60 | 70 => connection_state(conn_type),
        // Unknown (0) or any value a future NetworkManager might add.
        _ => NetworkState::Unknown,
    };
    Network::new(state, ssid)
}

/// Map an active connection's `Type` string to a connected [`NetworkState`].
///
/// Only the two link kinds the bar distinguishes are recognized; an absent or
/// unrecognized type degrades to unknown rather than guessing.
pub fn connection_state(conn_type: Option<&str>) -> (state: NetworkState)
    ensures
        state == link_state(text::optional_str(conn_type)),
{
    match conn_type {
        Some(kind) => if text::same(kind, "802-3-ethernet") {
            NetworkState::Wired
        } else if text::same(kind, "802-11-wireless") {
            NetworkState::Wireless
        } else {
            NetworkState::Unknown
        },
        None => NetworkState::Unknown,
    }
}

/// Whether an object path names an object: NetworkManager writes `/` for none.
pub fn names_object(path: &str) -> (named: bool)
    ensures
        named == (path@ != "/"@),
{
    !text::same(path, "/")
}

/// Whether the network name of a connection is worth looking up: it is on Wi-Fi.
pub fn has_ssid(conn_type: &str) -> (wireless: bool)
    ensures
        wireless == (conn_type@ == "802-11-wireless"@),
{
    text::same(conn_type, "802-11-wireless")
}

/// A network name is shown exactly on a connected Wi-Fi link.
pub proof fn lemma_only_wifi_shows_a_name(
    nm_state: u32,
    conn_type: Option<Seq<char>>,
    ssid: Option<Seq<char>>,
)
    ensures
        NetworkView::of(nm_state_of(nm_state, conn_type), ssid).ssid is Some <==> ssid is Some && (
        nm_state == 40 || nm_state == 50 || nm_state == 60 || nm_state == 70) && conn_type == Some(
            "802-11-wireless"@,
        ),
{
    reveal_strlit("802-11-wireless");
    reveal_strlit("802-3-ethernet");
    assert("802-11-wireless"@.len() != "802-3-ethernet"@.len());
}

/// Follows NetworkManager's connectivity.
pub struct NetworkProducer;

impl NetworkProducer {
    /// Create a NetworkManager connectivity producer.
    pub fn new() -> (producer: Self)
        ensures
            producer == NetworkProducer,
    {
        NetworkProducer
    }

    /// What the producer is called in logs.
    pub fn name(&self) -> (name: String)
        ensures
            name@ == "networkmanager"@,
    {
        "networkmanager".to_owned()
    }
}

impl Default for NetworkProducer {
    fn default() -> (producer: Self)
        ensures
            producer == NetworkProducer,
    {
        NetworkProducer::new()
    }
}

/// A link is wired or wireless exactly by the type of its connection, while there is one;
/// asleep, disconnected or disconnecting there is none, whatever the type.
pub proof fn lemma_a_link_is_what_its_type_says(
    nm_state: u32,
    conn_type: Option<&str>,
    ssid: Option<&str>,
    network: Network,
)
    requires
        call_ensures(network_from_nm, (nm_state, conn_type, ssid), network),
    ensures
        ({
            let down = nm_state == 10 || nm_state == 20 || nm_state == 30;
            let up = nm_state == 40 || nm_state == 50 || nm_state == 60 || nm_state == 70;
            let wired = conn_type is Some && conn_type->0@ == "802-3-ethernet"@;
            let wireless = conn_type is Some && conn_type->0@ == "802-11-wireless"@;
            &&& network@.state == NetworkState::Disconnected <==> down
            &&& network@.state == NetworkState::Wired <==> up && wired
            &&& network@.state == NetworkState::Wireless <==> up && wireless
            &&& network@.ssid is Some <==> up && wireless && ssid is Some
            &&& network@.ssid is Some ==> network@.ssid->0 == ssid->0@
        }),
{
    reveal_strlit("802-3-ethernet");
    reveal_strlit("802-11-wireless");
    assert("802-3-ethernet"@.len() == 14 && "802-11-wireless"@.len() == 15);
}

/// A name is looked up exactly on Wi-Fi, and `/` names no object.
pub proof fn lemma_names_are_looked_up_on_wifi(
    conn_type: &str,
    wireless: bool,
    state: NetworkState,
    path: &str,
    named: bool,
)
    requires
        call_ensures(has_ssid, (conn_type,), wireless),
        call_ensures(connection_state, (Some(conn_type),), state),
        call_ensures(names_object, (path,), named),
    ensures
        wireless <==> conn_type@ == "802-11-wireless"@,
        wireless <==> state == NetworkState::Wireless,
        named <==> path@ != "/"@,
{
    reveal_strlit("802-3-ethernet");
    reveal_strlit("802-11-wireless");
    assert("802-3-ethernet"@.len() == 14 && "802-11-wireless"@.len() == 15);
}

} // verus!

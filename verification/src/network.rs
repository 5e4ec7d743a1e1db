//! The actions of the network view: which interface or Wi-Fi network a
//! selected row stands for, what is copied from it, and the `nmcli` command
//! run for it.
use vstd::prelude::*;

use crate::labels::{shown_address, NetworkInterface};
use crate::text::{chars_of, string_of};

verus! {

/// What is copied from the selected interface.
#[derive(Debug, Clone, Copy, PartialEq, Eq, Structural)]
pub enum NetworkCopyValue {
    /// Its first IPv4 address, else its first IPv6 address.
    Ip,
    /// Its hardware address.
    Mac,
}

/// The Wi-Fi network that row `row` of the network list shows: the list
/// holds the interfaces, then a DNS row when there are DNS servers, then a
/// heading when there are networks, then the networks.
pub open spec fn wifi_row_network(row: nat, interfaces: nat, has_dns: bool, networks: nat) -> Option<
    nat,
> {
    let first = interfaces + (if has_dns {
        1nat
    } else {
        0nat
    }) + (if networks > 0 {
        1nat
    } else {
        0nat
    });
    if row >= first && row - first < networks {
        Some((row - first) as nat)
    } else {
        None
    }
}

/// The index of the Wi-Fi network shown by row `row`, if it shows one.
pub fn wifi_network_index(row: usize, interfaces: usize, has_dns: bool, networks: usize) -> (r:
    Option<usize>)
    ensures
        r matches Some(i) ==> wifi_row_network(
            row as nat,
            interfaces as nat,
            has_dns,
            networks as nat,
        ) == Some(i as nat),
        r is None ==> wifi_row_network(row as nat, interfaces as nat, has_dns, networks as nat) is None,
{
    let extra: usize = (if has_dns {
        1
    } else {
        0
    }) + (if networks > 0 {
        1
    } else {
        0
    });
    if row < extra || row - extra < interfaces {
        return None;
    }
    let index = row - extra - interfaces;
    if index < networks {
        Some(index)
    } else {
        None
    }
}

/// The value copied from an interface: its shown address, or its hardware
/// address; `None` when it has none.
pub open spec fn copied_value(x: NetworkInterface, mac: Option<Seq<char>>, which: NetworkCopyValue) -> Option<
    Seq<char>,
> {
    match which {
        NetworkCopyValue::Ip => if x.ipv4_addresses.len() > 0 || x.ipv6_addresses.len() > 0 {
            Some(shown_address(x))
        } else {
            None
        },
        NetworkCopyValue::Mac => mac,
    }
}

/// The value copied from interface `x` whose hardware address is `mac`.
pub fn network_copy_value(x: &NetworkInterface, mac: Option<&str>, which: NetworkCopyValue) -> (r:
    Option<String>)
    ensures
        match r {
            Some(v) => copied_value(*x, crate::preferences::opt_view(mac), which) == Some(v@),
            None => copied_value(*x, crate::preferences::opt_view(mac), which) is None,
        },
{
    match which {
        NetworkCopyValue::Ip => {
            if x.ipv4_addresses.len() > 0 {
                Some(string_of(&chars_of(x.ipv4_addresses[0].as_str())))
            } else if x.ipv6_addresses.len() > 0 {
                Some(string_of(&chars_of(x.ipv6_addresses[0].as_str())))
            } else {
                None
            }
        },
        NetworkCopyValue::Mac => match mac {
            Some(m) => Some(m.to_owned()),
            None => None,
        },
    }
}

/// The views of the arguments of a command.
pub open spec fn arg_views(v: Seq<String>) -> Seq<Seq<char>> {
    Seq::new(v.len(), |i: int| v[i]@)
}

/// The `nmcli` arguments that disconnect the interface `name`.
pub fn disconnect_args(name: &str) -> (r: Vec<String>)
    ensures
        arg_views(r@) == seq!["device"@, "disconnect"@, name@],
{
    let r = vec!["device".to_owned(), "disconnect".to_owned(), name.to_owned()];
    assert(arg_views(r@) =~= seq!["device"@, "disconnect"@, name@]);
    r
}

/// The `nmcli` arguments that connect to the Wi-Fi network `ssid`; `--`
/// comes before the name so that an SSID such as `-w` is not read as an
/// option.
pub fn connect_wifi_args(ssid: &str) -> (r: Vec<String>)
    ensures
        arg_views(r@) == seq!["dev"@, "wifi"@, "connect"@, "--"@, ssid@],
{
    let r = vec![
        "dev".to_owned(),
        "wifi".to_owned(),
        "connect".to_owned(),
        "--".to_owned(),
        ssid.to_owned(),
    ];
    assert(arg_views(r@) =~= seq!["dev"@, "wifi"@, "connect"@, "--"@, ssid@]);
    r
}

/// A row of the network view's list.
#[derive(Debug, Clone, Copy, PartialEq, Eq, Structural)]
pub enum NetworkRow {
    /// The "Ethernet" heading.
    EthernetHeader,
    /// The wired interface with this index among all interfaces.
    Ethernet(usize),
    /// The "Wi-Fi" heading.
    WifiHeader,
    /// The Wi-Fi network with this index.
    Wifi(usize),
    /// The "No Wi-Fi networks found" row.
    NoWifi,
    /// The "Active VPN" heading.
    VpnHeader,
    /// The VPN connection with this index.
    Vpn(usize),
}

/// The rows of the wired interfaces among interfaces whose wireless flags
/// are `wireless`, in order.
pub open spec fn wired_rows(wireless: Seq<bool>) -> Seq<NetworkRow>
    decreases wireless.len(),
{
    if wireless.len() == 0 {
        Seq::empty()
    } else {
        wired_rows(wireless.drop_last()) + if wireless.last() {
            Seq::empty()
        } else {
            seq![NetworkRow::Ethernet((wireless.len() - 1) as usize)]
        }
    }
}

/// The rows of the network list: the wired interfaces under an "Ethernet"
/// heading when there are any; the "Wi-Fi" heading and the networks, or a
/// "No Wi-Fi networks found" row; then an "Active VPN" heading and the VPN
/// connections when there are any.
pub open spec fn network_rows_spec(wireless: Seq<bool>, networks: nat, vpns: nat) -> Seq<
    NetworkRow,
> {
    let eth = wired_rows(wireless);
    (if eth.len() > 0 {
        seq![NetworkRow::EthernetHeader] + eth
    } else {
        Seq::empty()
    }) + seq![NetworkRow::WifiHeader] + Seq::new(networks, |i: int| NetworkRow::Wifi(i as usize))
        + (if networks == 0 {
        seq![NetworkRow::NoWifi]
    } else {
        Seq::empty()
    }) + (if vpns > 0 {
        seq![NetworkRow::VpnHeader]
    } else {
        Seq::empty()
    }) + Seq::new(vpns, |i: int| NetworkRow::Vpn(i as usize))
}

/// Appends `n` rows made from the indices `0..n` by `wifi` (else VPN rows).
fn push_indexed(rows: &mut Vec<NetworkRow>, n: usize, wifi: bool)
    ensures
        final(rows)@ == old(rows)@ + Seq::new(
            n as nat,
            |i: int|
                if wifi {
                    NetworkRow::Wifi(i as usize)
                } else {
                    NetworkRow::Vpn(i as usize)
                },
        ),
{
    let ghost start = rows@;
    let mut j: usize = 0;
    while j < n
        invariant
            j <= n,
            rows@ == start + Seq::new(
                j as nat,
                |i: int|
                    if wifi {
                        NetworkRow::Wifi(i as usize)
                    } else {
                        NetworkRow::Vpn(i as usize)
                    },
            ),
        decreases n - j,
    {
        rows.push(
            if wifi {
                NetworkRow::Wifi(j)
            } else {
                NetworkRow::Vpn(j)
            },
        );
        j = j + 1;
        assert(rows@ =~= start + Seq::new(
            j as nat,
            |i: int|
                if wifi {
                    NetworkRow::Wifi(i as usize)
                } else {
                    NetworkRow::Vpn(i as usize)
                },
        ));
    }
}

/// The rows of the network list for interfaces whose wireless flags are
/// `wireless`, `networks` Wi-Fi networks and `vpns` VPN connections.
pub fn network_rows(wireless: &[bool], networks: usize, vpns: usize) -> (rows: Vec<NetworkRow>)
    ensures
        rows@ == network_rows_spec(wireless@, networks as nat, vpns as nat),
{
    let mut eth: Vec<NetworkRow> = Vec::new();
    let mut i: usize = 0;
    while i < wireless.len()
        invariant
            i <= wireless.len(),
            eth@ == wired_rows(wireless@.take(i as int)),
        decreases wireless.len() - i,
    {
        assert(wireless@.take(i + 1).drop_last() =~= wireless@.take(i as int));
        if !wireless[i] {
            eth.push(NetworkRow::Ethernet(i));
        }
        i = i + 1;
    }
    assert(wireless@.take(wireless.len() as int) =~= wireless@);
    let mut rows: Vec<NetworkRow> = Vec::new();
    if eth.len() > 0 {
        rows.push(NetworkRow::EthernetHeader);
        let mut k: usize = 0;
        while k < eth.len()
            invariant
                k <= eth.len(),
                rows@ == seq![NetworkRow::EthernetHeader] + eth@.take(k as int),
            decreases eth.len() - k,
        {
            rows.push(eth[k]);
            k = k + 1;
            assert(rows@ =~= seq![NetworkRow::EthernetHeader] + eth@.take(k as int));
        }
        assert(eth@.take(eth.len() as int) =~= eth@);
    }
    rows.push(NetworkRow::WifiHeader);
    push_indexed(&mut rows, networks, true);
    if networks == 0 {
        rows.push(NetworkRow::NoWifi);
    }
    if vpns > 0 {
        rows.push(NetworkRow::VpnHeader);
    }
    push_indexed(&mut rows, vpns, false);
    proof {
        let w = |i: int| NetworkRow::Wifi(i as usize);
        let v = |i: int| NetworkRow::Vpn(i as usize);
        assert(Seq::new(
            networks as nat,
            |i: int|
                if true {
                    NetworkRow::Wifi(i as usize)
                } else {
                    NetworkRow::Vpn(i as usize)
                },
        ) =~= Seq::new(networks as nat, w));
        assert(Seq::new(
            vpns as nat,
            |i: int|
                if false {
                    NetworkRow::Wifi(i as usize)
                } else {
                    NetworkRow::Vpn(i as usize)
                },
        ) =~= Seq::new(vpns as nat, v));
    }
    assert(rows@ =~= network_rows_spec(wireless@, networks as nat, vpns as nat));
    rows
}

/// The rows of the wired interfaces are all interface rows.
pub proof fn lemma_wired_rows_are_interfaces(wireless: Seq<bool>)
    ensures
        wired_rows(wireless).len() <= wireless.len(),
        forall|k: int|
            0 <= k < wired_rows(wireless).len() ==> #[trigger] wired_rows(wireless)[k] is Ethernet,
    decreases wireless.len(),
{
    if wireless.len() > 0 {
        lemma_wired_rows_are_interfaces(wireless.drop_last());
    }
}

/// The row numbering that the connect action reads (interfaces, a DNS row,
/// a heading, then the networks) matches the rows the list shows whenever the
/// rows before the networks are as many in both: then a row shows network
/// `i` exactly when the action reads it as network `i`.
pub proof fn lemma_wifi_row_numbering(wireless: Seq<bool>, has_dns: bool, networks: nat, vpns: nat)
    requires
        networks <= usize::MAX,
        (if wired_rows(wireless).len() > 0 {
            wired_rows(wireless).len() + 1
        } else {
            0
        }) == wireless.len() + (if has_dns {
            1int
        } else {
            0int
        }),
    ensures
        forall|p: int|
            0 <= p < network_rows_spec(wireless, networks, vpns).len() ==> (#[trigger] network_rows_spec(
                wireless,
                networks,
                vpns,
            )[p] matches NetworkRow::Wifi(i) <==> wifi_row_network(
                p as nat,
                wireless.len(),
                has_dns,
                networks,
            ) is Some) && (network_rows_spec(wireless, networks, vpns)[p] matches NetworkRow::Wifi(
                i,
            ) ==> wifi_row_network(p as nat, wireless.len(), has_dns, networks) == Some(i as nat)),
{
    lemma_wired_rows_are_interfaces(wireless);
    let rows = network_rows_spec(wireless, networks, vpns);
    let eth = wired_rows(wireless);
    let head: Seq<NetworkRow> = if eth.len() > 0 {
        seq![NetworkRow::EthernetHeader] + eth
    } else {
        Seq::empty()
    };
    let first = head.len() + 1;
    let wifi = Seq::new(networks, |i: int| NetworkRow::Wifi(i as usize));
    let tail = (if networks == 0 {
        seq![NetworkRow::NoWifi]
    } else {
        Seq::empty()
    }) + (if vpns > 0 {
        seq![NetworkRow::VpnHeader]
    } else {
        Seq::empty()
    }) + Seq::new(vpns, |i: int| NetworkRow::Vpn(i as usize));
    assert(rows =~= head + seq![NetworkRow::WifiHeader] + wifi + tail);
    assert forall|p: int| 0 <= p < rows.len() implies (#[trigger] rows[p] matches NetworkRow::Wifi(
        i,
    ) <==> wifi_row_network(p as nat, wireless.len(), has_dns, networks) is Some) && (
    rows[p] matches NetworkRow::Wifi(i) ==> wifi_row_network(
        p as nat,
        wireless.len(),
        has_dns,
        networks,
    ) == Some(i as nat)) by {
        if p < head.len() {
            if eth.len() > 0 && p > 0 {
                assert(rows[p] == eth[p - 1]);
            }
            assert(!(rows[p] is Wifi));
        } else if p == head.len() {
            assert(rows[p] == NetworkRow::WifiHeader);
        } else if p < first + networks {
            assert(rows[p] == wifi[p - first]);
        } else {
            let q = p - first - networks;
            assert(rows[p] == tail[q]);
            assert(!(tail[q] is Wifi));
        }
    }
}

} // verus!

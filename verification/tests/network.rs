use zeshicast::labels::NetworkInterface;
use zeshicast::network::{
    connect_wifi_args, disconnect_args, network_copy_value, network_rows, wifi_network_index, NetworkCopyValue,
    NetworkRow,
};

fn iface(v4: &[&str], v6: &[&str]) -> NetworkInterface {
    NetworkInterface {
        name: "wlan0".to_string(),
        state: "up".to_string(),
        is_wireless: true,
        ipv4_addresses: v4.iter().map(|s| s.to_string()).collect(),
        ipv6_addresses: v6.iter().map(|s| s.to_string()).collect(),
    }
}

#[test]
fn wifi_rows_follow_interfaces_dns_and_heading() {
    assert_eq!(wifi_network_index(4, 2, true, 3), Some(0));
    assert_eq!(wifi_network_index(6, 2, true, 3), Some(2));
    assert_eq!(wifi_network_index(7, 2, true, 3), None);
    assert_eq!(wifi_network_index(3, 2, true, 3), None);
    assert_eq!(wifi_network_index(3, 2, false, 3), Some(0));
    assert_eq!(wifi_network_index(2, 2, false, 0), None);
}

#[test]
fn copied_network_values() {
    let x = iface(&["10.0.0.2/24"], &["fe80::1"]);
    assert_eq!(network_copy_value(&x, None, NetworkCopyValue::Ip).as_deref(), Some("10.0.0.2/24"));
    let y = iface(&[], &["fe80::1"]);
    assert_eq!(network_copy_value(&y, None, NetworkCopyValue::Ip).as_deref(), Some("fe80::1"));
    let z = iface(&[], &[]);
    assert_eq!(network_copy_value(&z, Some("aa:bb"), NetworkCopyValue::Ip), None);
    assert_eq!(network_copy_value(&z, Some("aa:bb"), NetworkCopyValue::Mac).as_deref(), Some("aa:bb"));
    assert_eq!(disconnect_args("eth0"), vec!["device", "disconnect", "eth0"]);
    assert_eq!(connect_wifi_args("Home"), vec!["dev", "wifi", "connect", "--", "Home"]);
}

#[test]
fn ssid_that_looks_like_an_option_is_not_read_as_one() {
    assert_eq!(connect_wifi_args("-w"), vec!["dev", "wifi", "connect", "--", "-w"]);
}

#[test]
fn network_list_rows() {
    assert_eq!(
        network_rows(&[false, true, false], 2, 1),
        vec![
            NetworkRow::EthernetHeader,
            NetworkRow::Ethernet(0),
            NetworkRow::Ethernet(2),
            NetworkRow::WifiHeader,
            NetworkRow::Wifi(0),
            NetworkRow::Wifi(1),
            NetworkRow::VpnHeader,
            NetworkRow::Vpn(0),
        ]
    );
    assert_eq!(
        network_rows(&[true], 0, 0),
        vec![NetworkRow::WifiHeader, NetworkRow::NoWifi]
    );
}

#[test]
fn connect_row_numbering_matches_the_list_for_wired_links_with_dns() {
    let rows = network_rows(&[false], 2, 0);
    for (p, row) in rows.iter().enumerate() {
        let read = wifi_network_index(p, 1, true, 2);
        match row {
            NetworkRow::Wifi(i) => assert_eq!(read, Some(*i)),
            _ => assert_eq!(read, None),
        }
    }
}

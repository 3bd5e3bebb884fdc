use autodns::windows_dns::{adapter_json_shape, set_dns_script, windows_adapters, JsonShape, WindowsDnsRow};
use serde_json::Value;

fn row_from_value(v: &Value) -> WindowsDnsRow {
    WindowsDnsRow {
        interface_index: v["InterfaceIndex"].as_u64().expect("index") as u32,
        interface_alias: v["InterfaceAlias"].as_str().expect("alias").to_string(),
        interface_guid: v["InterfaceGuid"].as_str().map(|g| g.to_string()),
        address_family: v["AddressFamily"].as_u64().expect("family") as u8,
        server_addresses: v["ServerAddresses"]
            .as_array()
            .map(|list| list.iter().map(|s| s.as_str().expect("server").to_string()).collect()),
    }
}

fn rows_from_json(raw: &str) -> Vec<WindowsDnsRow> {
    let (shape, text) = adapter_json_shape(raw);
    match shape {
        JsonShape::Empty => Vec::new(),
        JsonShape::List => {
            let value: Value = serde_json::from_str(&text).expect("parse adapter list");
            value.as_array().expect("array").iter().map(row_from_value).collect()
        }
        JsonShape::Single => {
            let value: Value = serde_json::from_str(&text).expect("parse adapter");
            vec![row_from_value(&value)]
        }
    }
}

#[test]
fn parses_single_adapter_with_alias() {
    let json = r#"{"InterfaceIndex":12,"InterfaceAlias":"Ethernet","InterfaceGuid":"{ABC}","AddressFamily":2,"ServerAddresses":["223.5.5.5","119.29.29.29"]}"#;

    let adapters = windows_adapters(&rows_from_json(json));

    assert_eq!(adapters.len(), 1);
    assert_eq!(adapters[0].id, "{ABC}");
    assert_eq!(adapters[0].name, "Ethernet");
    assert_eq!(adapters[0].dns_servers, vec!["223.5.5.5", "119.29.29.29"]);
    assert_eq!(adapters[0].interface_index, Some(12));
}

#[test]
fn parses_adapter_array_and_filters_ipv6_rows() {
    let json = r#"[
        {"InterfaceIndex":8,"InterfaceAlias":"WLAN","InterfaceGuid":"","AddressFamily":2,"ServerAddresses":null},
        {"InterfaceIndex":8,"InterfaceAlias":"WLAN","InterfaceGuid":"","AddressFamily":23,"ServerAddresses":["2400:3200::1"]}
    ]"#;

    let adapters = windows_adapters(&rows_from_json(json));

    assert_eq!(adapters.len(), 1);
    assert_eq!(adapters[0].id, "8");
    assert!(adapters[0].dns_servers.is_empty());
}

#[test]
fn builds_reset_script_without_server_addresses() {
    let script = set_dns_script(3, &Vec::new());

    assert!(script.contains("-InterfaceIndex 3"));
    assert!(script.contains("-ResetServerAddresses"));
    assert!(!script.contains("-ServerAddresses"));
}

#[test]
fn builds_utf8_json_server_script() {
    let servers = vec!["127.0.0.1".to_string(), "223.5.5.5".to_string()];
    let script = set_dns_script(5, &servers);

    assert!(script.contains("[System.Text.UTF8Encoding]"));
    assert!(script.contains("ConvertFrom-Json"));
    assert!(script.contains(r#"["127.0.0.1","223.5.5.5"]"#));
    assert!(script.contains("-InterfaceIndex 5"));
}

#[test]
fn blank_adapter_output_has_no_rows() {
    assert_eq!(adapter_json_shape("  \n ").0, JsonShape::Empty);
    assert!(windows_adapters(&rows_from_json("   ")).is_empty());
}

#[test]
fn adapter_without_guid_is_named_by_index_and_flags_virtual_alias() {
    let rows = vec![WindowsDnsRow {
        interface_index: 41,
        interface_alias: "WireGuard Tunnel".to_string(),
        interface_guid: None,
        address_family: 2,
        server_addresses: Some(vec!["10.0.0.1".to_string()]),
    }];
    let adapters = windows_adapters(&rows);
    assert_eq!(adapters[0].id, "41");
    assert_eq!(adapters[0].kind, "windows");
    assert_eq!(adapters[0].status, "unknown");
    assert!(adapters[0].virtual_adapter);
    assert!(!adapters[0].managed);
}

#[test]
fn script_servers_are_json_escaped() {
    let servers = vec!["a\"b\\c".to_string(), "\u{1}".to_string()];
    let script = set_dns_script(7, &servers);
    assert_eq!(
        script,
        "\n[Console]::OutputEncoding = [System.Text.UTF8Encoding]::new($false)\n$OutputEncoding = [System.Text.UTF8Encoding]::new($false)\n$servers = ConvertFrom-Json -InputObject '[\"a\\\"b\\\\c\",\"\\u0001\"]'\nSet-DnsClientServerAddress -InterfaceIndex 7 -ServerAddresses $servers\n"
    );
}

use vector_screen::system::wifi::WifiManager;

#[test]
fn test_scan_command() {
    let cmd = WifiManager::scan_command();
    assert_eq!(cmd, "nmcli -t -f SSID,SIGNAL,SECURITY dev wifi list");
}

#[test]
fn test_connect_command() {
    let cmd = WifiManager::connect_command("MyNetwork", "s3cret");
    assert_eq!(cmd, "nmcli dev wifi connect \"MyNetwork\" password \"s3cret\"");
}

#[test]
fn test_connect_command_special_chars() {
    let cmd = WifiManager::connect_command("Net with spaces!", "p@ss!word#1");
    assert_eq!(cmd, "nmcli dev wifi connect \"Net with spaces!\" password \"p@ss!word#1\"");
}

#[test]
fn test_disconnect_command() {
    let cmd = WifiManager::disconnect_command("wlan0");
    assert_eq!(cmd, "nmcli dev disconnect wlan0");
}

#[test]
fn test_parse_scan_output_multiple() {
    let sample = "\
HomeWiFi:85:WPA2
OfficeNet:72:WPA1 WPA2
Guest:40:
CafeOpen:55:OWE";

    let networks = WifiManager::parse_scan_output(sample);
    assert_eq!(networks.len(), 4);

    assert_eq!(networks[0].ssid, "HomeWiFi");
    assert_eq!(networks[0].signal_strength, 85);
    assert_eq!(networks[0].security, "WPA2");
    assert!(!networks[0].connected);

    assert_eq!(networks[1].ssid, "OfficeNet");
    assert_eq!(networks[1].signal_strength, 72);
    assert_eq!(networks[1].security, "WPA1 WPA2");

    assert_eq!(networks[2].ssid, "Guest");
    assert_eq!(networks[2].signal_strength, 40);
    assert_eq!(networks[2].security, "");

    assert_eq!(networks[3].ssid, "CafeOpen");
    assert_eq!(networks[3].signal_strength, 55);
    assert_eq!(networks[3].security, "OWE");
}

#[test]
fn test_parse_scan_output_single() {
    let sample = "MyNet:99:WPA2";
    let networks = WifiManager::parse_scan_output(sample);
    assert_eq!(networks.len(), 1);
    assert_eq!(networks[0].ssid, "MyNet");
    assert_eq!(networks[0].signal_strength, 99);
}

#[test]
fn test_parse_scan_output_empty() {
    let networks = WifiManager::parse_scan_output("");
    assert!(networks.is_empty());
}

#[test]
fn test_parse_scan_output_skips_blank_lines() {
    let sample = "Net1:80:WPA2\n\n\nNet2:60:WPA1";
    let networks = WifiManager::parse_scan_output(sample);
    assert_eq!(networks.len(), 2);
    assert_eq!(networks[0].ssid, "Net1");
    assert_eq!(networks[1].ssid, "Net2");
}

#[test]
fn test_parse_scan_output_skips_hidden_networks() {
    let sample = ":0:WPA2\nVisible:70:WPA2";
    let networks = WifiManager::parse_scan_output(sample);
    assert_eq!(networks.len(), 1);
    assert_eq!(networks[0].ssid, "Visible");
}

#[test]
fn test_parse_scan_output_skips_malformed_lines() {
    let sample = "OnlyTwoFields:50\nGoodNet:80:WPA2";
    let networks = WifiManager::parse_scan_output(sample);
    assert_eq!(networks.len(), 1);
    assert_eq!(networks[0].ssid, "GoodNet");
}

#[test]
fn test_parse_scan_output_non_numeric_signal() {
    let sample = "BadSignal:abc:WPA2";
    let networks = WifiManager::parse_scan_output(sample);
    assert_eq!(networks.len(), 1);
    assert_eq!(networks[0].signal_strength, 0);
}

#[test]
fn wifi_parse_signs_trimming_and_crlf() {
    let sample = "  A:-42:WPA2:extra \r\nB:+7:\r\nC:99999999999:x\nD:-:y";
    let networks = WifiManager::parse_scan_output(sample);
    assert_eq!(networks.len(), 4);
    assert_eq!(networks[0].ssid, "A");
    assert_eq!(networks[0].signal_strength, -42);
    assert_eq!(networks[0].security, "WPA2:extra");
    assert_eq!(networks[1].signal_strength, 7);
    assert_eq!(networks[1].security, "");
    assert_eq!(networks[2].signal_strength, 0);
    assert_eq!(networks[3].signal_strength, 0);
}

#[test]
fn wifi_parse_agrees_with_std_parsing() {
    for field in ["0", "-0", "+0", "2147483647", "2147483648", "-2147483648", "-2147483649", "", "+", "-", "1 2", "12a", "007"] {
        let line = format!("N:{}:S", field);
        let networks = WifiManager::parse_scan_output(&line);
        assert_eq!(networks.len(), 1);
        assert_eq!(networks[0].signal_strength, field.parse::<i32>().unwrap_or(0), "field {:?}", field);
    }
}

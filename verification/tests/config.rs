use tailcloak::config::Config;
use tailcloak::mac::MacAddr;

fn mac(s: &str) -> MacAddr {
    s.parse().expect("valid test MAC")
}

#[test]
fn add_trusted_gateway_reports_novelty() {
    let mut config = Config::default();
    assert!(config.add_trusted_gateway(mac("d8:ec:e5:af:d0:29"))); // newly added
    assert!(!config.add_trusted_gateway(mac("d8:ec:e5:af:d0:29"))); // already present
    assert_eq!(config.trusted_gateway_macs.len(), 1);
}

#[test]
fn remove_trusted_gateway_reports_presence() {
    let mut config = Config::default();
    config.add_trusted_gateway(mac("d8:ec:e5:af:d0:29"));
    assert!(config.remove_trusted_gateway(mac("d8:ec:e5:af:d0:29"))); // was present
    assert!(!config.remove_trusted_gateway(mac("d8:ec:e5:af:d0:29"))); // already gone
    assert!(config.trusted_gateway_macs.is_empty());
}

#[test]
fn show_trusted_formats_a_single_mac() {
    // Multi-element order is unspecified (HashSet), so assert on one entry.
    let mut config = Config::default();
    config.add_trusted_gateway(mac("d8:ec:e5:af:d0:29"));
    assert_eq!(config.show_trusted(), "d8:ec:e5:af:d0:29");
}

#[test]
fn show_trusted_lists_every_mac_once() {
    let mut config = Config::default();
    config.add_trusted_gateway(mac("d8:ec:e5:af:d0:29"));
    config.add_trusted_gateway(mac("00:11:22:33:44:55"));
    let shown = config.show_trusted();
    assert!(
        shown == "d8:ec:e5:af:d0:29, 00:11:22:33:44:55"
            || shown == "00:11:22:33:44:55, d8:ec:e5:af:d0:29"
    );
}

#[test]
fn show_trusted_of_empty_config_is_empty() {
    assert_eq!(Config::new().show_trusted(), "");
}

#[test]
fn add_then_remove_restores_trusted_set() {
    let mut config = Config::default();
    config.add_trusted_gateway(mac("00:11:22:33:44:55"));
    let before = config.trusted_gateway_macs.clone();
    assert!(config.add_trusted_gateway(mac("d8:ec:e5:af:d0:29")));
    assert!(config.remove_trusted_gateway(mac("d8:ec:e5:af:d0:29")));
    assert_eq!(config.trusted_gateway_macs, before);
}

#[test]
fn other_gateways_are_unaffected() {
    let mut config = Config::default();
    config.add_trusted_gateway(mac("00:11:22:33:44:55"));
    config.add_trusted_gateway(mac("d8:ec:e5:af:d0:29"));
    config.remove_trusted_gateway(mac("d8:ec:e5:af:d0:29"));
    assert!(config.is_trusted(mac("00:11:22:33:44:55")));
    assert!(!config.is_trusted(mac("d8:ec:e5:af:d0:29")));
}

#[test]
fn listed_gateways_rebuild_the_same_config() {
    let mut config = Config::default();
    config.add_trusted_gateway(mac("d8:ec:e5:af:d0:29"));
    config.add_trusted_gateway(mac("00:11:22:33:44:55"));
    let listed = config.trusted_macs();
    assert_eq!(listed.len(), 2);
    let rebuilt = Config::from_macs(&listed);
    assert_eq!(rebuilt.trusted_gateway_macs, config.trusted_gateway_macs);
}

#[test]
fn from_macs_drops_duplicates() {
    let macs = vec![mac("d8:ec:e5:af:d0:29"), mac("D8:EC:E5:AF:D0:29")];
    let config = Config::from_macs(&macs);
    assert_eq!(config.trusted_gateway_macs.len(), 1);
    assert!(config.is_trusted(mac("d8:ec:e5:af:d0:29")));
}

#[test]
fn saved_texts_load_back_as_the_same_config() {
    let mut config = Config::default();
    config.add_trusted_gateway(mac("d8:ec:e5:af:d0:29"));
    config.add_trusted_gateway(mac("00:11:22:33:44:55"));
    let texts = config.to_texts();
    assert_eq!(texts.len(), 2);
    let loaded = Config::from_texts(&texts).unwrap();
    assert_eq!(loaded.trusted_gateway_macs, config.trusted_gateway_macs);
}

use tondi_seeder::constants::{is_valid_max_addresses, is_valid_network_suffix, is_valid_port, is_valid_protocol_version, is_valid_thread_count};
use tondi_seeder::dns_seed_config::DnsSeedConfig;
use tondi_seeder::tondi_protocol::{default_port_of, network_name, select_network, NetworkChoice};

#[test]
fn test_dns_seed_config() {
    let config = DnsSeedConfig::default();

    assert!(!config.get_mainnet_servers().is_empty());
    assert!(config
        .get_mainnet_servers()
        .contains(&"seeder1.tondid.net".to_string()));

    let testnet_10 = config.get_testnet_servers(10);
    assert!(testnet_10.is_some());
    assert!(!testnet_10.unwrap().is_empty());

    let testnet_11 = config.get_testnet_servers(11);
    assert!(testnet_11.is_some());
    assert!(!testnet_11.unwrap().is_empty());
}

#[test]
fn test_add_remove_servers() {
    let mut config = DnsSeedConfig::default();
    let initial_count = config.get_mainnet_servers().len();

    config.add_mainnet_server("test.example.com".to_string());
    assert_eq!(config.get_mainnet_servers().len(), initial_count + 1);
    assert!(config
        .get_mainnet_servers()
        .contains(&"test.example.com".to_string()));

    config.remove_mainnet_server("test.example.com");
    assert_eq!(config.get_mainnet_servers().len(), initial_count);
    assert!(!config
        .get_mainnet_servers()
        .contains(&"test.example.com".to_string()));
}

#[test]
fn seed_servers_are_not_listed_twice() {
    let mut config = DnsSeedConfig::default();
    let n = config.get_mainnet_servers().len();
    config.add_mainnet_server("seeder1.tondid.net".to_string());
    assert_eq!(config.get_mainnet_servers().len(), n);
    assert_eq!(config.get_mainnet_servers().len(), 8);
    assert!(config.get_testnet_servers(12).is_none());
    config.add_testnet_server(12, "a.example".to_string());
    config.add_testnet_server(12, "a.example".to_string());
    assert_eq!(config.get_testnet_servers(12).unwrap().len(), 1);
    config.remove_testnet_server(12, "a.example");
    assert_eq!(config.get_testnet_servers(12).unwrap().len(), 0);
    config.remove_testnet_server(13, "a.example");
    assert!(config.get_testnet_servers(13).is_none());
    assert_eq!(config.get_testnet_servers(10).unwrap()[0], "seed.testnet.tondi.org");
}

#[test]
fn constants_validation() {
    assert!(!is_valid_port(1023));
    assert!(is_valid_port(1024));
    assert!(is_valid_port(65535));
    assert!(!is_valid_thread_count(0));
    assert!(is_valid_thread_count(1));
    assert!(is_valid_thread_count(8));
    assert!(is_valid_thread_count(32));
    assert!(!is_valid_thread_count(33));
    assert!(is_valid_network_suffix(99));
    assert!(!is_valid_network_suffix(100));
    assert!(is_valid_protocol_version(0));
    assert!(is_valid_protocol_version(65535));
    assert!(!is_valid_max_addresses(0));
    assert!(is_valid_max_addresses(10000));
    assert!(!is_valid_max_addresses(10001));
}

#[test]
fn network_selection() {
    assert_eq!(select_network(false, 11), NetworkChoice::Mainnet);
    assert_eq!(select_network(true, 0), NetworkChoice::Testnet(10));
    assert_eq!(select_network(true, 11), NetworkChoice::Testnet(11));
    assert_eq!(select_network(true, 10), NetworkChoice::Testnet(10));
    assert_eq!(select_network(true, 42), NetworkChoice::Testnet(42));
}

#[test]
fn seed_servers_by_network() {
    let config = DnsSeedConfig::default();
    assert_eq!(config.seed_servers_for(NetworkChoice::Mainnet).len(), 8);
    assert_eq!(config.seed_servers_for(NetworkChoice::Mainnet)[0], "seeder.tondid.net");
    assert_eq!(config.seed_servers_for(select_network(true, 0)), config.get_testnet_servers(10).unwrap());
    assert_eq!(config.seed_servers_for(NetworkChoice::Testnet(11)).len(), 2);
    assert!(config.seed_servers_for(NetworkChoice::Testnet(12)).is_empty());
    assert!(config.seed_servers_for(NetworkChoice::Testnet(70_000)).is_empty());
}

#[test]
fn default_ports_by_network() {
    assert_eq!(default_port_of(select_network(false, 0)), Some(16111));
    assert_eq!(default_port_of(select_network(true, 0)), Some(16211));
    assert_eq!(default_port_of(select_network(true, 11)), Some(16311));
    assert_eq!(default_port_of(select_network(true, 12)), None);
}

#[test]
fn test_consensus_config_creation() {
    let mainnet_name = network_name(select_network(false, 0));
    println!("Mainnet network name: '{}'", mainnet_name);
    assert!(mainnet_name == "tondi-mainnet");

    let testnet_name = network_name(select_network(true, 0));
    println!("Testnet network name: '{}'", testnet_name);
    assert!(testnet_name == "tondi-testnet-10");

    let testnet11_name = network_name(select_network(true, 10));
    println!("Testnet10 network name: '{}'", testnet11_name);
    assert!(testnet11_name == "tondi-testnet-10");
}

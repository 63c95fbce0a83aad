use usbackup::agent::{
    belongs_to_device, device_key, has_usb_bus, missing_tool_message, on_device_connected, parse_user_choice,
    required_tools, uuid_for_devnode, ConnectDecision, PartitionEntry,
};
use usbackup::models::{AppConfig, DeviceAction, DeviceConfig};

fn dev(action: DeviceAction) -> DeviceConfig {
    DeviceConfig {
        name: "K".to_string(),
        vendor_id: 0x1a2b,
        product_id: 0x00ff,
        uuid: None,
        action,
        backup_rules: vec![],
        signature: None,
    }
}

#[test]
fn key_format() {
    assert_eq!(device_key(0x1a2b, 0x00ff), "1a2b:00ff");
    assert_eq!(device_key(0, 0xffff), "0000:ffff");
    assert_eq!(device_key(0x0781, 0x5567), format!("{:04x}:{:04x}", 0x0781, 0x5567));
}

#[test]
fn connect_decisions() {
    let mut config = AppConfig::default();
    assert_eq!(on_device_connected(&config, 0x1a2b, 0x00ff), ConnectDecision::Configure);
    config.insert_device("0000:0001".to_string(), dev(DeviceAction::Whitelist));
    config.insert_device("1a2b:00ff".to_string(), dev(DeviceAction::Whitelist));
    assert_eq!(on_device_connected(&config, 0x1a2b, 0x00ff), ConnectDecision::Backup(1));
    config.insert_device("1a2b:00ff".to_string(), dev(DeviceAction::IgnoreForever));
    assert_eq!(config.devices().len(), 2);
    assert_eq!(on_device_connected(&config, 0x1a2b, 0x00ff), ConnectDecision::Ignore);
    config.insert_device("1a2b:00ff".to_string(), dev(DeviceAction::AskEachTime));
    assert_eq!(on_device_connected(&config, 0x1a2b, 0x00ff), ConnectDecision::Ignore);
}

#[test]
fn user_choices() {
    assert_eq!(parse_user_choice("1\n"), DeviceAction::Whitelist);
    assert_eq!(parse_user_choice("  2 \n"), DeviceAction::IgnoreForever);
    assert_eq!(parse_user_choice("3\n"), DeviceAction::AskEachTime);
    assert_eq!(parse_user_choice(""), DeviceAction::AskEachTime);
    assert_eq!(parse_user_choice("12"), DeviceAction::AskEachTime);
}

#[test]
fn usb_bus() {
    assert!(!has_usb_bus(&vec![]));
    assert!(!has_usb_bus(&vec![None, Some("ata".to_string())]));
    assert!(has_usb_bus(&vec![None, Some("usb".to_string())]));
}

#[test]
fn uuid_lookup() {
    let entries = vec![
        PartitionEntry { devnode: "/dev/sda1".to_string(), fs_uuid: Some("AAA".to_string()) },
        PartitionEntry { devnode: "/dev/sdb1".to_string(), fs_uuid: None },
        PartitionEntry { devnode: "/dev/sdb1".to_string(), fs_uuid: Some("BBB".to_string()) },
    ];
    assert_eq!(uuid_for_devnode(&entries, "/dev/sda1"), Some("AAA".to_string()));
    assert_eq!(uuid_for_devnode(&entries, "/dev/sdb1"), None);
    assert_eq!(uuid_for_devnode(&entries, "/dev/sdc1"), None);
}

#[test]
fn tools() {
    assert_eq!(required_tools(), vec!["rsync", "udisksctl"]);
    assert_eq!(
        missing_tool_message("rsync"),
        "L'outil 'rsync' est requis mais n'est pas installé."
    );
}

#[test]
fn insert_device_keeps_keys_unique() {
    let mut config = AppConfig::new(vec!["u".to_string()], "k".to_string());
    config.insert_device("a".to_string(), dev(DeviceAction::Whitelist));
    config.insert_device("b".to_string(), dev(DeviceAction::Whitelist));
    config.insert_device("a".to_string(), dev(DeviceAction::IgnoreForever));
    let keys: Vec<&str> = config.devices().iter().map(|(k, _)| k.as_str()).collect();
    assert_eq!(keys, vec!["a", "b"]);
    assert_eq!(config.devices()[0].1.action, DeviceAction::IgnoreForever);
    assert_eq!(config.approved_uuids(), &vec!["u".to_string()]);
    assert_eq!(config.secret_key(), "k");
}

#[test]
fn partition_belongs_to_device() {
    let ids = vec![
        (None, None),
        (Some("0781".to_string()), Some("5567".to_string())),
    ];
    assert!(belongs_to_device(&ids, 0x0781, 0x5567));
    assert!(!belongs_to_device(&ids, 0x0781, 0x5568));
    assert!(!belongs_to_device(&vec![(Some("0781".to_string()), None)], 0x0781, 0x5567));
    assert!(!belongs_to_device(&vec![], 0x0781, 0x5567));
}

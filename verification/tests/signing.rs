use usbackup::models::{BackupRule, DeviceAction, DeviceConfig};
use usbackup::signing::{hex_encode, sign_config, sign_payload, verify_signature};

fn sample_device() -> DeviceConfig {
    DeviceConfig {
        name: "Clé USB".to_string(),
        vendor_id: 0x0781,
        product_id: 0x5567,
        uuid: Some("1234-ABCD".to_string()),
        action: DeviceAction::Whitelist,
        backup_rules: vec![BackupRule {
            source_path: "/home/u/Documents".to_string(),
            destination_path: "backups/pc".to_string(),
            exclude: vec!["*.tmp".to_string(), "node_modules/".to_string()],
            delete_missing: true,
            incremental: false,
            post_backup_script: None,
            unmount_after: false,
        }],
        signature: None,
    }
}

#[test]
fn hex_encode_lowercase_pairs() {
    assert_eq!(hex_encode(&[0x00, 0xff, 0x1a, 0x09]), "00ff1a09");
    assert_eq!(hex_encode(&[]), "");
}

#[test]
fn sign_payload_is_hmac_sha256_hex() {
    let sig = sign_payload("The quick brown fox jumps over the lazy dog", "key");
    assert_eq!(sig, "f7bc83f430538424b13298e6aa6fb143ef4d59a14946175997479dbc2d1a3cd8");
    assert_eq!(sig.len(), 64);
}

#[test]
fn sign_payload_depends_on_key_and_payload() {
    let a = sign_payload("payload", "k1");
    assert_ne!(a, sign_payload("payload", "k2"));
    assert_ne!(a, sign_payload("payload2", "k1"));
    assert_ne!(a, "payload");
}

#[test]
fn signed_config_verifies() {
    let mut dev = sample_device();
    let payload = "name = \"Clé USB\"";
    sign_config(&mut dev, payload, "secret");
    assert_eq!(dev.signature, Some(sign_payload(payload, "secret")));
    assert_eq!(dev.name, "Clé USB");
    assert_eq!(dev.backup_rules.len(), 1);
    assert!(verify_signature(&dev, payload, "secret"));
}

#[test]
fn wrong_key_or_payload_is_refused() {
    let mut dev = sample_device();
    sign_config(&mut dev, "payload", "secret");
    assert!(!verify_signature(&dev, "payload", "other"));
    assert!(!verify_signature(&dev, "payload tampered", "secret"));
}

#[test]
fn unsigned_config_is_refused() {
    let dev = sample_device();
    assert!(!verify_signature(&dev, "payload", "secret"));
}

#[test]
fn forged_signature_is_refused() {
    let mut dev = sample_device();
    dev.signature = Some("00".repeat(32));
    assert!(!verify_signature(&dev, "payload", "secret"));
}

#[test]
fn unsigned_copy_clears_only_signature() {
    let mut dev = sample_device();
    sign_config(&mut dev, "p", "k");
    let copy = dev.unsigned_copy();
    assert_eq!(copy.signature, None);
    assert_eq!(copy.name, dev.name);
    assert_eq!(copy.vendor_id, dev.vendor_id);
    assert_eq!(copy.product_id, dev.product_id);
    assert_eq!(copy.uuid, dev.uuid);
    assert_eq!(copy.action, dev.action);
    assert_eq!(copy.backup_rules[0].exclude, dev.backup_rules[0].exclude);
    assert_eq!(copy.backup_rules[0].source_path, dev.backup_rules[0].source_path);
}

#[test]
fn signature_matches_exactly() {
    let mut dev = sample_device();
    assert!(!usbackup::signing::signature_matches(&dev, ""));
    dev.signature = Some("abc".to_string());
    assert!(usbackup::signing::signature_matches(&dev, "abc"));
    assert!(!usbackup::signing::signature_matches(&dev, "ABC"));
    assert!(!usbackup::signing::signature_matches(&dev, "abcd"));
}

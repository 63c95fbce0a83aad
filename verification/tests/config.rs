use usbackup::models::{default_delete, AppConfig, BackupRule};
use usbackup::notifications::{notify_backup_error, notify_backup_start, notify_backup_success};
use usbackup::storage::{ensure_secret_key, generate_default_config, new_secret_key};

fn is_key(s: &str) -> bool {
    s.len() == 64 && s.chars().all(|c| c.is_ascii_digit() || ('a'..='f').contains(&c))
}

#[test]
fn default_delete_mirrors() {
    assert!(default_delete());
}

#[test]
fn default_app_config_is_empty() {
    let c = AppConfig::default();
    assert!(c.approved_uuids().is_empty());
    assert!(c.secret_key().is_empty());
    assert!(c.devices().is_empty());
}

#[test]
fn secret_key_generated_when_missing() {
    let mut c = AppConfig::new(vec!["u".to_string()], String::new());
    assert_eq!(ensure_secret_key(&mut c), Ok(true));
    assert!(is_key(c.secret_key()));
    assert_eq!(c.approved_uuids(), &vec!["u".to_string()]);
}

#[test]
fn secret_key_kept_when_present() {
    let mut c = AppConfig::default();
    c.set_secret_key("abc".to_string());
    assert_eq!(ensure_secret_key(&mut c), Ok(false));
    assert_eq!(c.secret_key(), "abc");
}

#[test]
fn default_config_has_key() {
    let c = generate_default_config().expect("random source available");
    assert!(is_key(c.secret_key()));
    assert!(c.devices().is_empty());
    assert!(c.approved_uuids().is_empty());
    let a = new_secret_key().expect("random source available");
    let b = new_secret_key().expect("random source available");
    assert!(is_key(&a) && is_key(&b));
    assert_ne!(a, b);
}

#[test]
fn notices() {
    let s = notify_backup_start("Clé");
    assert_eq!(s.summary, "🚀 Backup Started");
    assert_eq!(s.body, "Starting backup for device: Clé");
    let ok = notify_backup_success("Clé");
    assert_eq!(ok.summary, "✅ Backup Complete");
    assert_eq!(ok.body, "Backup successfully finished for: Clé");
    let e = notify_backup_error("Clé", "disk full");
    assert_eq!(e.summary, "❌ Backup Failed");
    assert_eq!(e.body, "Error during backup of Clé: disk full");
}

#[test]
fn rule_copy_keeps_everything() {
    let r = BackupRule {
        source_path: "/s".to_string(),
        destination_path: "d".to_string(),
        exclude: vec!["x".to_string()],
        delete_missing: false,
        incremental: true,
        post_backup_script: Some("echo done".to_string()),
        unmount_after: true,
    };
    let c = r.copy();
    assert_eq!(c.source_path, r.source_path);
    assert_eq!(c.destination_path, r.destination_path);
    assert_eq!(c.exclude, r.exclude);
    assert_eq!(c.delete_missing, r.delete_missing);
    assert_eq!(c.incremental, r.incremental);
    assert_eq!(c.post_backup_script, r.post_backup_script);
    assert_eq!(c.unmount_after, r.unmount_after);
}

#[test]
fn clock_text_shape() {
    let t = usbackup::clock::local_time("%H:%M:%S");
    let b = t.as_bytes();
    assert_eq!(b.len(), 8);
    assert_eq!(b[2], b':');
    assert_eq!(b[5], b':');
    for i in [0, 1, 3, 4, 6, 7] {
        assert!(b[i].is_ascii_digit());
    }
}

#[test]
fn signature_is_64_hex() {
    let s = usbackup::signing::sign_payload("", "");
    assert_eq!(s.len(), 64);
    assert!(is_key(&s));
}

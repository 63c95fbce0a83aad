use usbackup::backup::{
    backup_outcome, failure_log_content, find_device_mount, gitignore_candidates,
    invalid_signature_notice, is_absolute_destination, is_device_mount, log_entry, log_file_name,
    mount_not_found_notice, rsync_failure_notice, sanitize_destination, select_mount,
    should_unmount, DiskInfo, name_heuristic, join_name, any_failed, run_outcome, RuleResult,
};
use usbackup::agent::PartitionEntry;
use usbackup::backup::partition_holds_uuid;
use usbackup::models::{BackupRule, DeviceAction, DeviceConfig};

fn disk(name: &str, mount: &str) -> DiskInfo {
    DiskInfo {
        name: name.to_string(),
        mount_point: mount.to_string(),
        file_system: "ext4".to_string(),
        total_space: 0,
    }
}

fn device(name: &str, uuid: Option<&str>) -> DeviceConfig {
    DeviceConfig {
        name: name.to_string(),
        vendor_id: 1,
        product_id: 2,
        uuid: uuid.map(|u| u.to_string()),
        action: DeviceAction::Whitelist,
        backup_rules: vec![],
        signature: None,
    }
}

fn rule(unmount: bool) -> BackupRule {
    BackupRule {
        source_path: "/src".to_string(),
        destination_path: "dst".to_string(),
        exclude: vec![],
        delete_missing: true,
        incremental: false,
        post_backup_script: None,
        unmount_after: unmount,
    }
}

#[test]
fn sanitize_strips_root_and_traversal() {
    assert_eq!(sanitize_destination("/../etc//a..b..."), "__/etc//a__b__.");
    assert_eq!(sanitize_destination("///backups/pc"), "backups/pc");
    assert_eq!(sanitize_destination("a/./b"), "a/./b");
    assert_eq!(sanitize_destination(""), "");
    assert_eq!(sanitize_destination("...."), "____");
}

#[test]
fn absolute_destination_detected() {
    assert!(is_absolute_destination("/mnt"));
    assert!(!is_absolute_destination("mnt"));
    assert!(!is_absolute_destination(""));
}

#[test]
fn select_mount_by_name_case_insensitive() {
    let disks = vec![disk("sda1", "/"), disk("sdb1", "/mnt/MYKEY"), disk("sdc1", "/media/x")];
    assert_eq!(select_mount(&device("mykey", None), &disks, &vec![]), Some(1));
}

#[test]
fn select_mount_by_disk_name() {
    let disks = vec![disk("sda1", "/"), disk("Backup-Disk", "/mnt/a")];
    assert_eq!(select_mount(&device("backup", None), &disks, &vec![]), Some(1));
}

#[test]
fn select_mount_removable_media() {
    let disks = vec![disk("sda1", "/"), disk("sdb1", "/run/media/u/X")];
    assert_eq!(select_mount(&device("zzz", None), &disks, &vec![]), Some(1));
}

#[test]
fn select_mount_none() {
    let disks = vec![disk("sda1", "/"), disk("sda2", "/home")];
    assert_eq!(select_mount(&device("zzz", None), &disks, &vec![]), None);
}

fn part(node: &str, uuid: Option<&str>) -> PartitionEntry {
    PartitionEntry { devnode: node.to_string(), fs_uuid: uuid.map(|u| u.to_string()) }
}

#[test]
fn select_mount_uuid_must_be_on_the_disk() {
    let disks = vec![
        disk("/dev/sda1", "/"),
        disk("/dev/sdb1", "/mnt/data"),
        disk("/dev/sdc1", "/run/media/u/KEY"),
    ];
    let parts = vec![part("/dev/sdc1", None), part("/dev/sdb1", Some("AB-12"))];
    // The partition carrying the UUID is the disk mounted at /mnt/data.
    assert_eq!(select_mount(&device("zzz", Some("AB-12")), &disks, &parts), Some(1));
    // No USB partition carries this UUID: the media heuristic decides.
    assert_eq!(select_mount(&device("zzz", Some("CD-34")), &disks, &parts), Some(2));
    // The UUID seen on a partition does not make `/` the device.
    let disks2 = vec![disk("/dev/sda1", "/"), disk("/dev/sdc1", "/run/media/u/KEY")];
    let parts2 = vec![part("/dev/sdc1", Some("U"))];
    assert_eq!(select_mount(&device("zzz", Some("U")), &disks2, &parts2), Some(1));
}

#[test]
fn device_mount_rules() {
    assert!(!is_device_mount("/", true));
    assert!(!is_device_mount("/boot/efi", true));
    assert!(!is_device_mount("/home", true));
    assert!(!is_device_mount("/run/user/1000", true));
    assert!(is_device_mount("/run/media/u/KEY", false));
    assert!(is_device_mount("/media/KEY", false));
    assert!(is_device_mount("/mnt/key", true));
    assert!(!is_device_mount("/mnt/key", false));
}

#[test]
fn find_device_mount_checks_each_disk() {
    let disks = vec![
        disk("/dev/sda1", "/"),
        disk("/dev/sdb1", "/mnt/x"),
        disk("/dev/sdc1", "/mnt/y"),
        disk("/dev/sdd1", "/media/k"),
    ];
    // /mnt/x is not the partition with the UUID; /mnt/y is.
    let parts = vec![part("/dev/sdc1", Some("U")), part("/dev/sdb1", Some("V"))];
    assert_eq!(find_device_mount(&disks, &parts, "U"), Some(2));
    // No disk carries the UUID: only the media directory qualifies.
    assert_eq!(find_device_mount(&disks, &parts, "W"), Some(3));
    // A system mount is never taken, even when it is the partition.
    let sys = vec![disk("/dev/sda1", "/home/u")];
    assert_eq!(find_device_mount(&sys, &vec![part("/dev/sda1", Some("U"))], "U"), None);
    assert!(partition_holds_uuid(&parts, "/dev/sdc1", "U"));
    assert!(!partition_holds_uuid(&parts, "/dev/sdc1", "V"));
}

#[test]
fn should_unmount_any_rule() {
    assert!(!should_unmount(&vec![]));
    assert!(!should_unmount(&vec![rule(false), rule(false)]));
    assert!(should_unmount(&vec![rule(false), rule(true)]));
}

#[test]
fn outcome_notices() {
    let ok = backup_outcome("Key", false);
    assert_eq!(ok.summary, "✅ Backup Complete");
    assert_eq!(ok.body, "Backup successfully finished for: Key");
    let ko = backup_outcome("Key", true);
    assert_eq!(ko.summary, "❌ Backup Failed");
    assert_eq!(
        ko.body,
        "Error during backup of Key: Certaines synchronisations ont échoué. Vérifiez les logs."
    );
    assert_eq!(
        mount_not_found_notice("Key").body,
        "Error during backup of Key: Impossible de localiser le point de montage du disque."
    );
    assert_eq!(
        invalid_signature_notice("Key").body,
        "Error during backup of Key: Signature de configuration invalide ! Backup annulée par sécurité."
    );
    assert_eq!(
        rsync_failure_notice("Key", 23).body,
        "Error during backup of Key: Erreur rsync (code 23). Consultez les logs."
    );
    assert_eq!(
        rsync_failure_notice("Key", -1).body,
        "Error during backup of Key: Erreur rsync (code -1). Consultez les logs."
    );
}

#[test]
fn log_names_and_entries() {
    assert_eq!(log_file_name("My Key 2"), "My_Key_2.log");
    assert_eq!(log_file_name(""), ".log");
    assert_eq!(
        log_entry("2024-01-02 03:04:05", "/src", "out"),
        "\n--- [2024-01-02 03:04:05] Source: /src ---\nout\n---------------------------\n"
    );
    assert_eq!(failure_log_content(-1, "err\n"), "FAILED (code -1)\nerr\n");
    assert_eq!(failure_log_content(2147483647, ""), "FAILED (code 2147483647)\n");
    assert_eq!(failure_log_content(-2147483648, ""), "FAILED (code -2147483648)\n");
}

#[test]
fn gitignore_candidates_source_then_parent() {
    assert_eq!(
        gitignore_candidates("/home/u/src"),
        vec!["/home/u/src/.gitignore".to_string(), "/home/u/.gitignore".to_string()]
    );
    assert_eq!(
        gitignore_candidates("docs"),
        vec!["docs/.gitignore".to_string(), ".gitignore".to_string()]
    );
    assert_eq!(gitignore_candidates("/"), vec!["/.gitignore".to_string()]);
    assert_eq!(
        gitignore_candidates("/a/b/"),
        vec!["/a/b/.gitignore".to_string(), "/a/.gitignore".to_string()]
    );
}

#[test]
fn name_heuristic_parts() {
    assert!(name_heuristic("key", "/mnt/key", "sdb1", "/mnt/KEY"));
    assert!(name_heuristic("key", "/mnt/x", "my-key", "/mnt/x"));
    assert!(name_heuristic("zzz", "/media/u/k", "sdb1", "/media/u/k"));
    assert!(!name_heuristic("zzz", "/mnt/x", "sdb1", "/mnt/x"));
}

#[test]
fn join_name_like_path_join() {
    assert_eq!(join_name("/a", "b"), "/a/b");
    assert_eq!(join_name("/a/", "b"), "/a/b");
    assert_eq!(join_name("", "b"), "b");
    assert_eq!(
        join_name("/x/y", ".gitignore"),
        std::path::Path::new("/x/y").join(".gitignore").to_string_lossy()
    );
}

#[test]
fn run_outcome_from_results() {
    use_results();
}

fn use_results() {
    let all_ok = vec![RuleResult::Succeeded, RuleResult::Succeeded];
    assert!(!any_failed(&all_ok));
    assert_eq!(run_outcome("K", &all_ok).summary, "✅ Backup Complete");
    assert_eq!(run_outcome("K", &vec![]).body, "Backup successfully finished for: K");
    let some_bad = vec![RuleResult::Succeeded, RuleResult::RsyncFailed(23)];
    assert!(any_failed(&some_bad));
    let n = run_outcome("K", &some_bad);
    assert_eq!(n.summary, "❌ Backup Failed");
    assert_eq!(
        n.body,
        "Error during backup of K: Certaines synchronisations ont échoué. Vérifiez les logs."
    );
    assert!(any_failed(&vec![RuleResult::SourceMissing]));
}

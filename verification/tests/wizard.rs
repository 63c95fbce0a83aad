use usbackup::agent::PartitionEntry;
use usbackup::backup::DiskInfo;
use usbackup::models::DeviceAction;
use usbackup::wizard::{
    add_custom_pattern, add_template_patterns, build_rules, chosen_mount_point, common_source_dirs,
    destination_folder, is_candidate_mount, mount_label, new_device_config, offered_disks,
    preset_exclusions,
};

#[test]
fn candidate_mounts() {
    assert!(is_candidate_mount("/media/u/KEY", true));
    assert!(!is_candidate_mount("/media/u/KEY", false));
    assert!(!is_candidate_mount("/", true));
    assert!(!is_candidate_mount("/home", true));
    assert!(is_candidate_mount("/home/u/mnt", true));
    assert!(!is_candidate_mount("/boot/efi", true));
    assert!(!is_candidate_mount("", true));
}

fn disk(name: &str, mount: &str) -> DiskInfo {
    DiskInfo {
        name: name.to_string(),
        mount_point: mount.to_string(),
        file_system: "vfat".to_string(),
        total_space: 8 * 1024 * 1024 * 1024,
    }
}

fn part(devnode: &str, uuid: Option<&str>) -> PartitionEntry {
    PartitionEntry { devnode: devnode.to_string(), fs_uuid: uuid.map(|u| u.to_string()) }
}

#[test]
fn disk_label() {
    let d = DiskInfo {
        name: "sdb1".to_string(),
        mount_point: "/media/u/KEY".to_string(),
        file_system: "vfat".to_string(),
        total_space: 16 * 1024 * 1024 * 1024 + 5,
    };
    assert_eq!(mount_label(&d), "sdb1 (16 GB) on /media/u/KEY");
}

#[test]
fn offered_disks_test_the_uuid_per_disk() {
    let disks = vec![
        disk("/dev/sda1", "/"),
        disk("/dev/sdc1", "/media/u/OTHER"),
        disk("/dev/sdb1", "/media/u/KEY"),
        disk("/dev/sdb2", "/boot/efi"),
        disk("/dev/sdb1", "/run/media/u/KEY2"),
    ];
    let parts = vec![
        part("/dev/sdc1", Some("OTHER-UUID")),
        part("/dev/sdb1", Some("UU-ID")),
        part("/dev/sdb2", Some("UU-ID")),
    ];
    let offered = offered_disks(&disks, &parts, "UU-ID");
    let mounts: Vec<&str> = offered.iter().map(|d| d.mount_point.as_str()).collect();
    assert_eq!(mounts, vec!["/media/u/KEY", "/run/media/u/KEY2"]);
    assert!(offered_disks(&disks, &parts, "NONE").is_empty());
    assert!(offered_disks(&disks, &vec![], "UU-ID").is_empty());
}

#[test]
fn chosen_mount_point_is_the_disk_picked() {
    let offered = vec![disk("/dev/sdb1", "/media/a on b"), disk("/dev/sdc1", " on x")];
    assert_eq!(chosen_mount_point(&offered, 0), "/media/a on b");
    assert_eq!(chosen_mount_point(&offered, 1), " on x");
}

#[test]
fn template_patterns_are_appended() {
    let mut excl = vec!["*.tmp".to_string()];
    add_template_patterns(&mut excl, vec!["target/".to_string(), "*.log".to_string()]);
    assert_eq!(excl, vec!["*.tmp", "target/", "*.log"]);
    add_template_patterns(&mut excl, vec![]);
    assert_eq!(excl.len(), 3);
}

#[test]
fn custom_patterns_until_empty() {
    let mut excl = preset_exclusions();
    let n = excl.len();
    assert!(add_custom_pattern(&mut excl, "build/**".to_string()));
    assert_eq!(excl.len(), n + 1);
    assert_eq!(excl[n], "build/**");
    assert!(!add_custom_pattern(&mut excl, String::new()));
    assert_eq!(excl.len(), n + 1);
    assert!(add_custom_pattern(&mut excl, " ".to_string()));
    assert_eq!(excl[n + 1], " ");
}

#[test]
fn destination_folder_relative() {
    assert_eq!(destination_folder("//backups/pc"), "backups/pc");
    assert_eq!(destination_folder("backups/default"), "backups/default");
}

#[test]
fn rules_for_chosen_sources() {
    let sources = vec!["/h/Documents".to_string(), "/h/Pictures".to_string()];
    let excl = vec!["*.tmp".to_string()];
    let rules = build_rules(&sources, &vec![1, 0], "/m/backups", &excl, false);
    assert_eq!(rules.len(), 2);
    assert_eq!(rules[0].source_path, "/h/Pictures");
    assert_eq!(rules[1].source_path, "/h/Documents");
    assert_eq!(rules[0].destination_path, "/m/backups");
    assert_eq!(rules[0].exclude, excl);
    assert!(!rules[0].delete_missing);
    assert!(!rules[0].incremental);
    assert!(rules[0].post_backup_script.is_none());
    assert!(!rules[0].unmount_after);
}

#[test]
fn new_device_is_whitelisted_unsigned() {
    let c = new_device_config("Key", 1, 2, "UU-ID", vec![]);
    assert_eq!(c.name, "Key");
    assert_eq!(c.vendor_id, 1);
    assert_eq!(c.product_id, 2);
    assert_eq!(c.uuid, Some("UU-ID".to_string()));
    assert_eq!(c.action, DeviceAction::Whitelist);
    assert!(c.signature.is_none());
}

#[test]
fn offered_sources() {
    assert_eq!(
        common_source_dirs(),
        vec!["Documents", "Pictures", "Desktop", "Music", "Videos", "Projects"]
    );
}

#[test]
fn documented_presets() {
    assert_eq!(
        preset_exclusions(),
        vec![
            "node_modules/", "npm-debug.log*", "__pycache__", ".venv", "target/", ".DS_Store",
            "Thumbs.db", "*.raw", "*.cr2", "*.nef", "*.tmp", "*.bak",
        ]
    );
}

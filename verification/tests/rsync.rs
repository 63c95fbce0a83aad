use usbackup::models::BackupRule;
use usbackup::rsync::{parse_progress, parse_u64, rsync_args, word_percent};

fn chars(s: &str) -> Vec<char> {
    s.chars().collect()
}

#[test]
fn args_full() {
    let rule = BackupRule {
        source_path: "/home/u/Docs".to_string(),
        destination_path: "d".to_string(),
        exclude: vec!["*.tmp".to_string(), "target/".to_string()],
        delete_missing: true,
        incremental: true,
        post_backup_script: None,
        unmount_after: false,
    };
    let args = rsync_args(
        &rule,
        &Some("/home/u/Docs/.gitignore".to_string()),
        &Some("/media/k/d/latest".to_string()),
        "/media/k/d/2024-01-01_00-00-00",
    );
    assert_eq!(
        args,
        vec![
            "-avzP",
            "--delete",
            "--exclude=*.tmp",
            "--exclude=target/",
            "--exclude-from=/home/u/Docs/.gitignore",
            "--link-dest=/media/k/d/latest",
            "/home/u/Docs",
            "/media/k/d/2024-01-01_00-00-00",
        ]
    );
}

#[test]
fn args_minimal() {
    let rule = BackupRule {
        source_path: "/s".to_string(),
        destination_path: "d".to_string(),
        exclude: vec![],
        delete_missing: false,
        incremental: false,
        post_backup_script: None,
        unmount_after: false,
    };
    assert_eq!(rsync_args(&rule, &None, &None, "/m/d"), vec!["-avzP", "/s", "/m/d"]);
}

#[test]
fn progress_from_rsync_line() {
    assert_eq!(parse_progress("     32,768   45%    0.00kB/s    0:00:00"), Some(45));
    assert_eq!(parse_progress("sending incremental file list"), None);
    assert_eq!(parse_progress("10% then 20%"), Some(20));
    assert_eq!(parse_progress("20% then x%"), Some(20));
    assert_eq!(parse_progress("100%%"), Some(100));
    assert_eq!(parse_progress("\t+7%\u{a0}"), Some(7));
    assert_eq!(parse_progress("99999999999999999999%"), None);
    assert_eq!(parse_progress(""), None);
}

#[test]
fn word_percent_cases() {
    assert_eq!(word_percent(&chars("45%")), Some(45));
    assert_eq!(word_percent(&chars("45")), None);
    assert_eq!(word_percent(&chars("4%5")), None);
    assert_eq!(word_percent(&chars("%")), None);
}

#[test]
fn parse_u64_like_from_str() {
    assert_eq!(parse_u64(&chars("0")), Some(0));
    assert_eq!(parse_u64(&chars("+12")), Some(12));
    assert_eq!(parse_u64(&chars("18446744073709551615")), Some(u64::MAX));
    assert_eq!(parse_u64(&chars("18446744073709551616")), None);
    assert_eq!(parse_u64(&chars("")), None);
    assert_eq!(parse_u64(&chars("+")), None);
    assert_eq!(parse_u64(&chars("-1")), None);
    assert_eq!(parse_u64(&chars("1a")), None);
    for s in ["0", "+12", "18446744073709551615", "", "+", "-1", "1a", "007"] {
        assert_eq!(parse_u64(&chars(s)), s.parse::<u64>().ok());
    }
}

use usbackup::models::AppConfig;
use usbackup::tui::{event_message, is_quit_key, log_color, LogColor, TuiApp, TuiEvent};

fn app() -> TuiApp {
    let config = AppConfig::new(vec![], "k".to_string());
    TuiApp::new(config)
}

#[test]
fn new_app_has_start_entry() {
    let a = app();
    assert_eq!(a.logs, vec!["Service de surveillance démarré...".to_string()]);
    assert_eq!(a.config.secret_key(), "k");
}

#[test]
fn log_keeps_last_twenty() {
    let mut a = app();
    for i in 0..25 {
        a.add_log_at("12:00:00", &format!("m{}", i));
    }
    assert_eq!(a.logs.len(), 20);
    assert_eq!(a.logs[19], "[12:00:00] m24");
    assert_eq!(a.logs[0], "[12:00:00] m5");
}

#[test]
fn log_grows_below_limit() {
    let mut a = app();
    a.add_log_at("09:30:00", "hello");
    assert_eq!(a.logs.len(), 2);
    assert_eq!(a.logs[1], "[09:30:00] hello");
}

#[test]
fn add_log_stamps_with_clock() {
    let mut a = app();
    a.add_log("hello".to_string());
    let last = a.logs.last().unwrap();
    assert!(last.starts_with('['));
    assert!(last.ends_with("] hello"));
    assert_eq!(last.len(), "[00:00:00] hello".len());
    let b = last.as_bytes();
    assert_eq!(b[3], b':');
    assert_eq!(b[6], b':');
    assert!(b[1].is_ascii_digit() && b[8].is_ascii_digit());
}

#[test]
fn events_are_logged() {
    assert_eq!(event_message(&TuiEvent::DeviceConnected("K".into())), "[+] Appareil : K");
    assert_eq!(event_message(&TuiEvent::BackupStarted("K".into())), "[...] Backup : K");
    assert_eq!(event_message(&TuiEvent::BackupSuccess("K".into())), "[OK] Succès : K");
    assert_eq!(event_message(&TuiEvent::Log("free".into())), "free");
    let mut a = app();
    a.apply_event(&TuiEvent::BackupSuccess("K".into()));
    assert!(a.logs[1].ends_with("] [OK] Succès : K"));
}

#[test]
fn colours() {
    assert_eq!(log_color("[10:00:00] [OK] Succès : K"), LogColor::Green);
    assert_eq!(log_color("[10:00:00] [...] Backup : K"), LogColor::Cyan);
    assert_eq!(log_color("[10:00:00] [+] Appareil : K"), LogColor::White);
    assert_eq!(log_color("[OK] [...]"), LogColor::Green);
}

#[test]
fn quit_key() {
    assert!(is_quit_key('q'));
    assert!(!is_quit_key('Q'));
}

//! Desktop notifications about backups: the text of each notice. Showing it
//! on the desktop is left to the caller.
use vstd::prelude::*;
use crate::text::concat;

verus! {

/// A desktop notification to show: its title and its text.
#[derive(Clone, Debug)]
pub struct NotificationRequest {
    pub summary: String,
    pub body: String,
}

/// The notice that a backup of `device_name` starts.
pub fn notify_backup_start(device_name: &str) -> (n: NotificationRequest)
    ensures
        n.summary@ == "🚀 Backup Started"@,
        n.body@ == "Starting backup for device: "@ + device_name@,
{
    NotificationRequest {
        summary: "🚀 Backup Started".to_owned(),
        body: concat("Starting backup for device: ", device_name),
    }
}

/// The notice that a backup of `device_name` finished without error.
pub fn notify_backup_success(device_name: &str) -> (n: NotificationRequest)
    ensures
        n.summary@ == "✅ Backup Complete"@,
        n.body@ == "Backup successfully finished for: "@ + device_name@,
{
    NotificationRequest {
        summary: "✅ Backup Complete".to_owned(),
        body: concat("Backup successfully finished for: ", device_name),
    }
}

/// The notice that a backup of `device_name` failed with `error`.
pub fn notify_backup_error(device_name: &str, error: &str) -> (n: NotificationRequest)
    ensures
        n.summary@ == "❌ Backup Failed"@,
        n.body@ == "Error during backup of "@ + device_name@ + ": "@ + error@,
{
    let mut v: Vec<char> = Vec::new();
    crate::text::push_str(&mut v, "Error during backup of ");
    crate::text::push_str(&mut v, device_name);
    crate::text::push_str(&mut v, ": ");
    crate::text::push_str(&mut v, error);
    NotificationRequest {
        summary: "❌ Backup Failed".to_owned(),
        body: crate::text::string_from(v.as_slice()),
    }
}

} // verus!

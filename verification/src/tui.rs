//! The state behind the terminal dashboard: a rolling activity log of the
//! most recent entries, and how each entry is coloured.
use vstd::prelude::*;
use crate::models::AppConfig;
use crate::text::{chars_of, contains, push_str, string_from};

verus! {

/// How many entries the activity log keeps.
pub const MAX_LOG_ENTRIES: usize = 20;

/// Something that happened, reported to the dashboard.
#[derive(Clone, Debug)]
pub enum TuiEvent {
    DeviceConnected(String),
    BackupStarted(String),
    BackupSuccess(String),
    Log(String),
}

/// The dashboard's state.
pub struct TuiApp {
    pub logs: Vec<String>,
    pub config: AppConfig,
}

/// The colour an entry is shown in.
#[derive(Clone, Copy, Debug, PartialEq, Eq, Structural)]
pub enum LogColor {
    Green,
    Cyan,
    White,
}

/// A log entry: the time in brackets, then the message.
pub open spec fn log_line(stamp: Seq<char>, message: Seq<char>) -> Seq<char> {
    "["@ + stamp + "] "@ + message
}

/// The log after appending `entry`: the oldest entry is dropped once there
/// are more than `MAX_LOG_ENTRIES`.
pub open spec fn appended(logs: Seq<Seq<char>>, entry: Seq<char>) -> Seq<Seq<char>> {
    let pushed = logs.push(entry);
    if pushed.len() > MAX_LOG_ENTRIES {
        pushed.drop_first()
    } else {
        pushed
    }
}

/// The message an event is logged with.
pub open spec fn event_message_spec(ev: TuiEvent) -> Seq<char> {
    match ev {
        TuiEvent::DeviceConnected(name) => "[+] Appareil : "@ + name@,
        TuiEvent::BackupStarted(name) => "[...] Backup : "@ + name@,
        TuiEvent::BackupSuccess(name) => "[OK] Succès : "@ + name@,
        TuiEvent::Log(msg) => msg@,
    }
}

/// The colour of an entry: green for a success, cyan for a backup in
/// progress, white otherwise.
pub open spec fn log_color_spec(line: Seq<char>) -> LogColor {
    if crate::text::contains_seq(line, "[OK]"@) {
        LogColor::Green
    } else if crate::text::contains_seq(line, "[...]"@) {
        LogColor::Cyan
    } else {
        LogColor::White
    }
}

/// The message an event is logged with (see `event_message_spec`).
pub fn event_message(ev: &TuiEvent) -> (m: String)
    ensures
        m@ == event_message_spec(*ev),
{
    match ev {
        TuiEvent::DeviceConnected(name) => crate::text::concat("[+] Appareil : ", name.as_str()),
        TuiEvent::BackupStarted(name) => crate::text::concat("[...] Backup : ", name.as_str()),
        TuiEvent::BackupSuccess(name) => crate::text::concat("[OK] Succès : ", name.as_str()),
        TuiEvent::Log(msg) => msg.clone(),
    }
}

/// The colour of an entry (see `log_color_spec`).
pub fn log_color(line: &str) -> (c: LogColor)
    ensures
        c == log_color_spec(line@),
{
    let v = chars_of(line);
    if contains(&v, &chars_of("[OK]")) {
        LogColor::Green
    } else if contains(&v, &chars_of("[...]")) {
        LogColor::Cyan
    } else {
        LogColor::White
    }
}

/// Whether a key press quits the dashboard.
pub fn is_quit_key(c: char) -> (b: bool)
    ensures
        b == (c == 'q'),
{
    c == 'q'
}

impl TuiApp {
    /// A dashboard over `config`, its log holding the start-up entry.
    pub fn new(config: AppConfig) -> (app: TuiApp)
        ensures
            crate::models::strings_view(app.logs@) == seq!["Service de surveillance démarré..."@],
            app.config == config,
    {
        let mut logs: Vec<String> = Vec::new();
        logs.push("Service de surveillance démarré...".to_owned());
        assert(crate::models::strings_view(logs@) =~= seq!["Service de surveillance démarré..."@]);
        TuiApp { logs, config }
    }

    /// Appends `message` stamped with `stamp` (see `appended`).
    pub fn add_log_at(&mut self, stamp: &str, message: &str)
        ensures
            crate::models::strings_view(final(self).logs@) == appended(crate::models::strings_view(old(self).logs@), log_line(stamp@, message@)),
            final(self).config == old(self).config,
    {
        let mut v: Vec<char> = chars_of("[");
        push_str(&mut v, stamp);
        push_str(&mut v, "] ");
        push_str(&mut v, message);
        let entry = string_from(v.as_slice());
        let ghost before = crate::models::strings_view(self.logs@);
        self.logs.push(entry);
        assert(crate::models::strings_view(self.logs@) =~= before.push(log_line(stamp@, message@)));
        if self.logs.len() > MAX_LOG_ENTRIES {
            let ghost pushed = crate::models::strings_view(self.logs@);
            self.logs.remove(0);
            assert(crate::models::strings_view(self.logs@) =~= pushed.drop_first());
        }
    }

    /// Appends `message` stamped with the current clock time as `HH:MM:SS`.
    /// The time is the clock's, so only the stamp's shape is known.
    pub fn add_log(&mut self, message: String)
        ensures
            exists|stamp: Seq<char>|
                crate::clock::is_clock_text(stamp) && crate::models::strings_view(final(self).logs@) == appended(crate::models::strings_view(old(self).logs@), log_line(stamp, message@)),
            final(self).config == old(self).config,
    {
        let stamp = crate::clock::local_time("%H:%M:%S");
        self.add_log_at(stamp.as_str(), message.as_str());
    }

    /// Logs an event with its message (see `event_message_spec`), stamped with
    /// the current clock time as `HH:MM:SS`.
    pub fn apply_event(&mut self, ev: &TuiEvent)
        ensures
            exists|stamp: Seq<char>|
                crate::clock::is_clock_text(stamp) && crate::models::strings_view(final(self).logs@) == appended(crate::models::strings_view(old(self).logs@), log_line(stamp, event_message_spec(*ev))),
            final(self).config == old(self).config,
    {
        let m = event_message(ev);
        self.add_log(m);
    }
}

/// The activity log never grows past `MAX_LOG_ENTRIES`, and the newest entry
/// is always last, with the entries before it kept in order.
pub proof fn lemma_log_bounded(logs: Seq<Seq<char>>, entry: Seq<char>)
    requires
        logs.len() <= MAX_LOG_ENTRIES,
    ensures
        appended(logs, entry).len() <= MAX_LOG_ENTRIES,
        appended(logs, entry).last() == entry,
        appended(logs, entry).len() == if logs.len() == MAX_LOG_ENTRIES { logs.len() } else { logs.len() + 1 },
        forall|i: int|
            0 <= i < appended(logs, entry).len() - 1 ==> #[trigger] appended(logs, entry)[i]
                == logs[i + logs.len() + 1 - appended(logs, entry).len()],
{
}

} // verus!

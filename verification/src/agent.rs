//! The agent's decisions when a USB device appears: how the device is keyed
//! in the configuration, what to do with it, and how partitions are recognised.
use vstd::prelude::*;
use crate::models::{AppConfig, DeviceAction};
use crate::text::{chars_of, string_from, trim};

verus! {

/// `{:04x}` of a 16-bit value: four lower-case hex digits, zero-padded.
pub open spec fn hex4(n: u16) -> Seq<char> {
    seq![
        crate::signing::hex_digit((n / 4096) as u8),
        crate::signing::hex_digit(((n / 256) % 16) as u8),
        crate::signing::hex_digit(((n / 16) % 16) as u8),
        crate::signing::hex_digit((n % 16) as u8),
    ]
}

/// The key of a device in the configuration: `vvvv:pppp`.
pub open spec fn device_key_spec(vendor_id: u16, product_id: u16) -> Seq<char> {
    hex4(vendor_id) + seq![':'] + hex4(product_id)
}

fn nibble(n: u16) -> (c: char)
    requires
        n < 16,
    ensures
        c == crate::signing::hex_digit(n as u8),
{
    let b = n as u8;
    if b < 10 {
        (b + 48u8) as char
    } else {
        (b + 87u8) as char
    }
}

fn push_hex4(v: &mut Vec<char>, n: u16)
    ensures
        final(v)@ == old(v)@ + hex4(n),
{
    v.push(nibble(n / 4096));
    v.push(nibble((n / 256) % 16));
    v.push(nibble((n / 16) % 16));
    v.push(nibble(n % 16));
    assert(final(v)@ =~= old(v)@ + hex4(n));
}

/// See `device_key_spec`.
pub fn device_key(vendor_id: u16, product_id: u16) -> (k: String)
    ensures
        k@ == device_key_spec(vendor_id, product_id),
{
    let mut v: Vec<char> = Vec::new();
    push_hex4(&mut v, vendor_id);
    v.push(':');
    push_hex4(&mut v, product_id);
    assert(v@ =~= device_key_spec(vendor_id, product_id));
    string_from(v.as_slice())
}

/// The device known under `key`, if any (keys are unique).
pub fn find_device(config: &AppConfig, key: &str) -> (r: Option<usize>)
    ensures
        crate::models::keys_unique(config@.devices),
        match r {
            Some(i) => i < config@.devices.len() && config@.devices[i as int].0 == key@,
            None => forall|j: int| 0 <= j < config@.devices.len() ==> (#[trigger] config@.devices[j]).0 != key@,
        },
{
    let devices = config.devices();
    let k = key.to_owned();
    let mut i: usize = 0;
    while i < devices.len()
        invariant
            0 <= i <= devices@.len(),
            k@ == key@,
            crate::models::entries_view(devices@) == config@.devices,
            crate::models::keys_unique(config@.devices),
            forall|j: int| 0 <= j < i ==> (#[trigger] config@.devices[j]).0 != key@,
        decreases devices.len() - i,
    {
        assert(config@.devices[i as int].0 == devices@[i as int].0@);
        if devices[i].0 == k {
            return Some(i);
        }
        i = i + 1;
    }
    None
}

/// What to do with a device that was just plugged in.
#[derive(Clone, Copy, Debug, PartialEq, Eq, Structural)]
pub enum ConnectDecision {
    /// Back up the configured device at this index of `devices`.
    Backup(usize),
    /// The device is unknown: offer to configure it.
    Configure,
    /// The device is known and not to be backed up on sight.
    Ignore,
}

/// Known and whitelisted: back it up; known otherwise: nothing; unknown: configure.
pub fn on_device_connected(config: &AppConfig, vendor_id: u16, product_id: u16) -> (d: ConnectDecision)
    ensures
        crate::models::keys_unique(config@.devices),
        match d {
            ConnectDecision::Backup(i) => i < config@.devices.len()
                && config@.devices[i as int].0 == device_key_spec(vendor_id, product_id)
                && config@.devices[i as int].1.action == DeviceAction::Whitelist,
            ConnectDecision::Configure => forall|j: int| 0 <= j < config@.devices.len() ==> (#[trigger] config@.devices[j]).0 != device_key_spec(vendor_id, product_id),
            ConnectDecision::Ignore => exists|i: int| 0 <= i < config@.devices.len()
                && config@.devices[i].0 == device_key_spec(vendor_id, product_id)
                && config@.devices[i].1.action != DeviceAction::Whitelist,
        },
{
    let key = device_key(vendor_id, product_id);
    match find_device(config, key.as_str()) {
        Some(i) => {
            let devices = config.devices();
            assert(config@.devices[i as int].1.action == devices@[i as int].1.action);
            if devices[i].1.action == DeviceAction::Whitelist {
                ConnectDecision::Backup(i)
            } else {
                ConnectDecision::Ignore
            }
        },
        None => ConnectDecision::Configure,
    }
}

/// The user's answer to "what to do with this device": `1` whitelists, `2`
/// ignores forever, anything else asks again next time (surrounding
/// whitespace ignored).
pub open spec fn user_choice_spec(input: Seq<char>) -> DeviceAction {
    if crate::text::trim_ws(input) == seq!['1'] {
        DeviceAction::Whitelist
    } else if crate::text::trim_ws(input) == seq!['2'] {
        DeviceAction::IgnoreForever
    } else {
        DeviceAction::AskEachTime
    }
}

/// See `user_choice_spec`.
pub fn parse_user_choice(input: &str) -> (a: DeviceAction)
    ensures
        a == user_choice_spec(input@),
{
    let t = trim(&chars_of(input));
    if t.len() == 1 && t[0] == '1' {
        assert(t@ =~= seq!['1']);
        DeviceAction::Whitelist
    } else if t.len() == 1 && t[0] == '2' {
        assert(t@ =~= seq!['2']);
        DeviceAction::IgnoreForever
    } else {
        assert(t@ != seq!['1'] && t@ != seq!['2']) by {
            if t@ == seq!['1'] || t@ == seq!['2'] {
                assert(t@.len() == 1);
            }
        }
        DeviceAction::AskEachTime
    }
}

/// Whether a device sits on the USB bus: some device on its chain of parents
/// reports `ID_BUS=usb`.
pub fn has_usb_bus(buses: &Vec<Option<String>>) -> (b: bool)
    ensures
        b == exists|i: int| 0 <= i < buses@.len() && crate::models::opt_view(#[trigger] buses@[i]) == Some("usb"@),
{
    let usb = "usb".to_owned();
    let mut i: usize = 0;
    while i < buses.len()
        invariant
            0 <= i <= buses@.len(),
            usb@ == "usb"@,
            forall|k: int| 0 <= k < i ==> crate::models::opt_view(#[trigger] buses@[k]) != Some("usb"@),
        decreases buses.len() - i,
    {
        match &buses[i] {
            Some(b) => {
                if *b == usb {
                    assert(crate::models::opt_view(buses@[i as int]) == Some("usb"@));
                    return true;
                }
            },
            None => {},
        }
        i = i + 1;
    }
    false
}

/// Whether a block device belongs to the USB device `vendor_id:product_id`:
/// some device on its chain of parents reports `ID_VENDOR_ID` and
/// `ID_MODEL_ID` equal to the ids in four-digit lower-case hex.
pub open spec fn belongs_to_spec(ids: Seq<(Option<String>, Option<String>)>, vendor_id: u16, product_id: u16) -> bool {
    exists|i: int|
        0 <= i < ids.len() && crate::models::opt_view((#[trigger] ids[i]).0) == Some(hex4(vendor_id))
            && crate::models::opt_view(ids[i].1) == Some(hex4(product_id))
}

/// See `belongs_to_spec`; `ids` holds the (`ID_VENDOR_ID`, `ID_MODEL_ID`)
/// properties of the block device and each of its parents.
pub fn belongs_to_device(ids: &Vec<(Option<String>, Option<String>)>, vendor_id: u16, product_id: u16) -> (b: bool)
    ensures
        b == belongs_to_spec(ids@, vendor_id, product_id),
{
    let mut v: Vec<char> = Vec::new();
    push_hex4(&mut v, vendor_id);
    let vendor = string_from(v.as_slice());
    let mut p: Vec<char> = Vec::new();
    push_hex4(&mut p, product_id);
    let product = string_from(p.as_slice());
    assert(vendor@ =~= hex4(vendor_id));
    assert(product@ =~= hex4(product_id));
    let mut i: usize = 0;
    while i < ids.len()
        invariant
            0 <= i <= ids@.len(),
            vendor@ == hex4(vendor_id),
            product@ == hex4(product_id),
            forall|k: int|
                0 <= k < i ==> !(crate::models::opt_view((#[trigger] ids@[k]).0) == Some(hex4(vendor_id))
                    && crate::models::opt_view(ids@[k].1) == Some(hex4(product_id))),
        decreases ids.len() - i,
    {
        let e = &ids[i];
        match (&e.0, &e.1) {
            (Some(a), Some(b)) => {
                if *a == vendor && *b == product {
                    return true;
                }
            },
            _ => {},
        }
        i = i + 1;
    }
    false
}

/// A block device seen by udev: its device node and its filesystem UUID.
#[derive(Clone, Debug)]
pub struct PartitionEntry {
    pub devnode: String,
    pub fs_uuid: Option<String>,
}

/// Entry `i` is the first whose device node is `devnode`.
pub open spec fn is_first_node(entries: Seq<PartitionEntry>, devnode: Seq<char>, i: int) -> bool {
    &&& 0 <= i < entries.len()
    &&& entries[i].devnode@ == devnode
    &&& forall|j: int| 0 <= j < i ==> (#[trigger] entries[j]).devnode@ != devnode
}

/// The filesystem UUID of the first block device whose node is `devnode`;
/// `None` when there is no such device or it has no UUID.
pub fn uuid_for_devnode(entries: &Vec<PartitionEntry>, devnode: &str) -> (r: Option<String>)
    ensures
        match r {
            Some(u) => exists|i: int| is_first_node(entries@, devnode@, i) && crate::models::opt_view(
                #[trigger] entries@[i].fs_uuid,
            ) == Some(u@),
            None => forall|i: int| is_first_node(entries@, devnode@, i) ==> (#[trigger] entries@[i]).fs_uuid is None,
        },
{
    let node = devnode.to_owned();
    let mut i: usize = 0;
    while i < entries.len()
        invariant
            0 <= i <= entries@.len(),
            node@ == devnode@,
            forall|j: int| 0 <= j < i ==> (#[trigger] entries@[j]).devnode@ != devnode@,
        decreases entries.len() - i,
    {
        if entries[i].devnode == node {
            assert(is_first_node(entries@, devnode@, i as int));
            assert forall|q: int| is_first_node(entries@, devnode@, q) implies q == i by {
                if q < i {
                } else if q > i {
                    assert(entries@[i as int].devnode@ == devnode@);
                }
            }
            return crate::models::copy_opt_string(&entries[i].fs_uuid);
        }
        i = i + 1;
    }
    None
}

/// The tools the agent runs and checks for at start-up.
pub fn required_tools() -> (r: Vec<String>)
    ensures
        crate::models::strings_view(r@) == seq!["rsync"@, "udisksctl"@],
{
    let mut r: Vec<String> = Vec::new();
    r.push("rsync".to_owned());
    r.push("udisksctl".to_owned());
    assert(crate::models::strings_view(r@) =~= seq!["rsync"@, "udisksctl"@]);
    r
}

/// The error reported when a required tool is missing.
pub fn missing_tool_message(tool: &str) -> (m: String)
    ensures
        m@ == "L'outil '"@ + tool@ + "' est requis mais n'est pas installé."@,
{
    let mut v = chars_of("L'outil '");
    crate::text::push_str(&mut v, tool);
    crate::text::push_str(&mut v, "' est requis mais n'est pas installé.");
    string_from(v.as_slice())
}

} // verus!

//! The configuration model: the agent's own settings and, for each device, the
//! backup rules that describe what is copied where.
use vstd::prelude::*;

verus! {

/// What the agent does when a known device is plugged in.
#[derive(Clone, Copy, Debug, PartialEq, Eq, Structural)]
pub enum DeviceAction {
    Whitelist,
    IgnoreForever,
    AskEachTime,
}

/// One folder to mirror onto the device.
#[derive(Clone, Debug)]
pub struct BackupRule {
    pub source_path: String,
    pub destination_path: String,
    pub exclude: Vec<String>,
    pub delete_missing: bool,
    pub incremental: bool,
    pub post_backup_script: Option<String>,
    pub unmount_after: bool,
}

/// The configuration stored on a device (and signed by the agent).
#[derive(Clone, Debug)]
pub struct DeviceConfig {
    pub name: String,
    pub vendor_id: u16,
    pub product_id: u16,
    pub uuid: Option<String>,
    pub action: DeviceAction,
    pub backup_rules: Vec<BackupRule>,
    pub signature: Option<String>,
}

/// The agent's own configuration. The known devices form a map: each key
/// names one device.
#[derive(Debug)]
pub struct AppConfig {
    pub(crate) approved_uuids: Vec<String>,
    pub(crate) secret_key: String,
    /// Known devices, keyed by `"vvvv:pppp"` (vendor and product id in hex).
    pub(crate) devices: Vec<(String, DeviceConfig)>,
}

/// Mathematical model of a `BackupRule`.
#[verifier::ext_equal]
pub struct BackupRuleView {
    pub source_path: Seq<char>,
    pub destination_path: Seq<char>,
    pub exclude: Seq<Seq<char>>,
    pub delete_missing: bool,
    pub incremental: bool,
    pub post_backup_script: Option<Seq<char>>,
    pub unmount_after: bool,
}

/// Mathematical model of a `DeviceConfig`.
#[verifier::ext_equal]
pub struct DeviceConfigView {
    pub name: Seq<char>,
    pub vendor_id: u16,
    pub product_id: u16,
    pub uuid: Option<Seq<char>>,
    pub action: DeviceAction,
    pub backup_rules: Seq<BackupRuleView>,
    pub signature: Option<Seq<char>>,
}

/// Mathematical model of an `AppConfig`.
#[verifier::ext_equal]
pub struct AppConfigView {
    pub approved_uuids: Seq<Seq<char>>,
    pub secret_key: Seq<char>,
    pub devices: Seq<(Seq<char>, DeviceConfigView)>,
}

/// The characters of each string, in order.
pub open spec fn strings_view(v: Seq<String>) -> Seq<Seq<char>> {
    v.map_values(|s: String| s@)
}

/// The view of an optional string.
pub open spec fn opt_view(o: Option<String>) -> Option<Seq<char>> {
    match o {
        Some(s) => Some(s@),
        None => None,
    }
}

impl View for BackupRule {
    type V = BackupRuleView;

    open spec fn view(&self) -> BackupRuleView {
        BackupRuleView {
            source_path: self.source_path@,
            destination_path: self.destination_path@,
            exclude: strings_view(self.exclude@),
            delete_missing: self.delete_missing,
            incremental: self.incremental,
            post_backup_script: opt_view(self.post_backup_script),
            unmount_after: self.unmount_after,
        }
    }
}

/// The views of a sequence of rules.
pub open spec fn rules_view(v: Seq<BackupRule>) -> Seq<BackupRuleView> {
    v.map_values(|r: BackupRule| r@)
}

impl View for DeviceConfig {
    type V = DeviceConfigView;

    open spec fn view(&self) -> DeviceConfigView {
        DeviceConfigView {
            name: self.name@,
            vendor_id: self.vendor_id,
            product_id: self.product_id,
            uuid: opt_view(self.uuid),
            action: self.action,
            backup_rules: rules_view(self.backup_rules@),
            signature: opt_view(self.signature),
        }
    }
}

/// The views of (key, device) entries.
pub open spec fn entries_view(s: Seq<(String, DeviceConfig)>) -> Seq<(Seq<char>, DeviceConfigView)> {
    s.map_values(|e: (String, DeviceConfig)| (e.0@, e.1@))
}

impl View for AppConfig {
    type V = AppConfigView;

    closed spec fn view(&self) -> AppConfigView {
        AppConfigView {
            approved_uuids: strings_view(self.approved_uuids@),
            secret_key: self.secret_key@,
            devices: entries_view(self.devices@),
        }
    }
}

/// `delete_missing` when a stored rule does not say: mirror exactly.
pub fn default_delete() -> (b: bool)
    ensures
        b,
{
    true
}

/// No key occurs twice among the devices.
pub open spec fn keys_unique(devices: Seq<(Seq<char>, DeviceConfigView)>) -> bool {
    forall|i: int, j: int| 0 <= i < j < devices.len() ==> devices[i].0 != devices[j].0
}

/// The devices after `HashMap::insert` of `dev` under `key`: the entry with
/// that key is replaced, or a new entry is added when there is none.
pub open spec fn devices_inserted(
    devices: Seq<(Seq<char>, DeviceConfigView)>,
    key: Seq<char>,
    dev: DeviceConfigView,
) -> Seq<(Seq<char>, DeviceConfigView)> {
    if exists|i: int| 0 <= i < devices.len() && devices[i].0 == key {
        devices.update(choose|i: int| 0 <= i < devices.len() && devices[i].0 == key, (key, dev))
    } else {
        devices.push((key, dev))
    }
}

impl AppConfig {
    #[verifier::type_invariant]
    spec fn keys_are_unique(self) -> bool {
        keys_unique(self@.devices)
    }

    /// A configuration with no known device.
    pub fn new(approved_uuids: Vec<String>, secret_key: String) -> (c: AppConfig)
        ensures
            c@ == (AppConfigView {
                approved_uuids: strings_view(approved_uuids@),
                secret_key: secret_key@,
                devices: Seq::empty(),
            }),
    {
        let c = AppConfig { approved_uuids, secret_key, devices: Vec::new() };
        assert(c@.devices =~= Seq::<(Seq<char>, DeviceConfigView)>::empty());
        c
    }

    /// The approved filesystem UUIDs.
    pub fn approved_uuids(&self) -> (r: &Vec<String>)
        ensures
            strings_view(r@) == self@.approved_uuids,
    {
        &self.approved_uuids
    }

    /// The secret key, as hex text (empty when none was made yet).
    pub fn secret_key(&self) -> (r: &str)
        ensures
            r@ == self@.secret_key,
    {
        self.secret_key.as_str()
    }

    /// The known devices; no key occurs twice.
    pub fn devices(&self) -> (r: &Vec<(String, DeviceConfig)>)
        ensures
            entries_view(r@) == self@.devices,
            keys_unique(self@.devices),
    {
        proof {
            use_type_invariant(self);
        }
        &self.devices
    }

    /// Replaces the secret key.
    pub fn set_secret_key(&mut self, key: String)
        ensures
            final(self)@ == (AppConfigView { secret_key: key@, ..old(self)@ }),
    {
        proof {
            use_type_invariant(&*self);
        }
        self.secret_key = key;
    }

    /// Records `dev` under `key` (`HashMap::insert`: replaces the device
    /// already known under `key`, if any).
    pub fn insert_device(&mut self, key: String, dev: DeviceConfig)
        ensures
            final(self)@ == (AppConfigView {
                devices: devices_inserted(old(self)@.devices, key@, dev@),
                ..old(self)@
            }),
    {
        proof {
            use_type_invariant(&*self);
        }
        let ghost old_devices = self@.devices;
        let ghost entry = (key@, dev@);
        let mut i: usize = 0;
        while i < self.devices.len() && self.devices[i].0 != key
            invariant
                0 <= i <= self.devices@.len(),
                old_devices == self@.devices,
                forall|j: int| 0 <= j < i ==> old_devices[j].0 != key@,
            decreases self.devices.len() - i,
        {
            i = i + 1;
        }
        if i < self.devices.len() {
            assert(old_devices[i as int].0 == key@);
            proof {
                let c = choose|q: int| 0 <= q < old_devices.len() && old_devices[q].0 == key@;
                if c != i {
                    assert(old_devices[c].0 == old_devices[i as int].0);
                }
            }
            let mut devices: Vec<(String, DeviceConfig)> = Vec::new();
            std::mem::swap(&mut devices, &mut self.devices);
            devices.set(i, (key, dev));
            assert(entries_view(devices@) =~= old_devices.update(i as int, entry));
            self.devices = devices;
        } else {
            assert(!exists|q: int| 0 <= q < old_devices.len() && old_devices[q].0 == key@);
            let mut devices: Vec<(String, DeviceConfig)> = Vec::new();
            std::mem::swap(&mut devices, &mut self.devices);
            devices.push((key, dev));
            assert(entries_view(devices@) =~= old_devices.push(entry));
            self.devices = devices;
        }
    }
}

/// Inserting a device keeps keys unique; afterwards the key holds the new
/// device, and every other key keeps its device and its place.
pub proof fn lemma_insert_device(
    devices: Seq<(Seq<char>, DeviceConfigView)>,
    key: Seq<char>,
    dev: DeviceConfigView,
)
    requires
        keys_unique(devices),
    ensures
        keys_unique(devices_inserted(devices, key, dev)),
        exists|i: int|
            0 <= i < devices_inserted(devices, key, dev).len() && devices_inserted(devices, key, dev)[i] == (key, dev),
        forall|i: int|
            0 <= i < devices.len() && devices[i].0 != key ==> devices_inserted(devices, key, dev)[i] == devices[i],
        devices_inserted(devices, key, dev).len() == devices.len() + (if exists|i: int| 0 <= i < devices.len() && devices[i].0 == key { 0int } else { 1int }),
{
    let r = devices_inserted(devices, key, dev);
    if exists|i: int| 0 <= i < devices.len() && devices[i].0 == key {
        let c = choose|i: int| 0 <= i < devices.len() && devices[i].0 == key;
        assert(r[c] == (key, dev));
        assert forall|i: int, j: int| 0 <= i < j < r.len() implies r[i].0 != r[j].0 by {
            if i != c && j != c {
                assert(r[i] == devices[i] && r[j] == devices[j]);
            } else if i == c {
                assert(r[j] == devices[j]);
                assert(devices[c].0 != devices[j].0);
            } else {
                assert(r[i] == devices[i]);
                assert(devices[i].0 != devices[c].0);
            }
        }
    } else {
        assert(r[devices.len() as int] == (key, dev));
        assert forall|i: int, j: int| 0 <= i < j < r.len() implies r[i].0 != r[j].0 by {
            if j < devices.len() {
                assert(r[i] == devices[i] && r[j] == devices[j]);
            } else {
                assert(r[i] == devices[i]);
            }
        }
    }
}

impl Default for AppConfig {
    fn default() -> (c: Self)
        ensures
            c@.approved_uuids.len() == 0,
            c@.secret_key.len() == 0,
            c@.devices.len() == 0,
    {
        AppConfig { approved_uuids: Vec::new(), secret_key: String::new(), devices: Vec::new() }
    }
}

/// A copy of an optional string.
pub fn copy_opt_string(o: &Option<String>) -> (r: Option<String>)
    ensures
        opt_view(r) == opt_view(*o),
{
    match o {
        Some(s) => Some(s.clone()),
        None => None,
    }
}

/// A copy of a list of strings.
pub fn copy_strings(v: &Vec<String>) -> (r: Vec<String>)
    ensures
        strings_view(r@) == strings_view(v@),
{
    let mut r: Vec<String> = Vec::new();
    let mut i: usize = 0;
    while i < v.len()
        invariant
            0 <= i <= v@.len(),
            r@.len() == i,
            forall|k: int| 0 <= k < i ==> #[trigger] r@[k]@ == v@[k]@,
        decreases v.len() - i,
    {
        r.push(v[i].clone());
        i = i + 1;
    }
    assert(strings_view(r@) =~= strings_view(v@));
    r
}

impl BackupRule {
    /// A copy of this rule.
    pub fn copy(&self) -> (r: BackupRule)
        ensures
            r@ == self@,
    {
        BackupRule {
            source_path: self.source_path.clone(),
            destination_path: self.destination_path.clone(),
            exclude: copy_strings(&self.exclude),
            delete_missing: self.delete_missing,
            incremental: self.incremental,
            post_backup_script: copy_opt_string(&self.post_backup_script),
            unmount_after: self.unmount_after,
        }
    }
}

/// A copy of a list of rules.
pub fn copy_rules(v: &Vec<BackupRule>) -> (r: Vec<BackupRule>)
    ensures
        rules_view(r@) == rules_view(v@),
{
    let mut r: Vec<BackupRule> = Vec::new();
    let mut i: usize = 0;
    while i < v.len()
        invariant
            0 <= i <= v@.len(),
            r@.len() == i,
            forall|k: int| 0 <= k < i ==> #[trigger] r@[k]@ == v@[k]@,
        decreases v.len() - i,
    {
        r.push(v[i].copy());
        i = i + 1;
    }
    assert(rules_view(r@) =~= rules_view(v@));
    r
}

impl DeviceConfig {
    /// The configuration with its signature field cleared: what the
    /// signature is computed over (a signature never covers itself).
    pub fn unsigned_copy(&self) -> (r: DeviceConfig)
        ensures
            r@ == (DeviceConfigView { signature: None, ..self@ }),
    {
        DeviceConfig {
            name: self.name.clone(),
            vendor_id: self.vendor_id,
            product_id: self.product_id,
            uuid: copy_opt_string(&self.uuid),
            action: self.action,
            backup_rules: copy_rules(&self.backup_rules),
            signature: None,
        }
    }
}

} // verus!

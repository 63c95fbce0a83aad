//! The decisions of a backup run: which mounted disk is the device, where on
//! it each rule writes, how the run is logged and what the user is told.
use vstd::prelude::*;
use crate::agent::PartitionEntry;
use crate::models::{BackupRule, DeviceConfig, DeviceConfigView};
use crate::notifications::{NotificationRequest, notify_backup_error, notify_backup_success};
use crate::text::{chars_of, contains, push_chars, push_str, string_from, to_lowercase};

verus! {

/// What the agent knows of one mounted disk.
#[derive(Clone, Debug)]
pub struct DiskInfo {
    pub name: String,
    pub mount_point: String,
    pub file_system: String,
    pub total_space: u64,
}

// ---------------------------------------------------------------- destination

/// `s` without its leading `c` characters (`str::trim_start_matches` with a char).
pub open spec fn trim_start_char(s: Seq<char>, c: char) -> Seq<char>
    decreases s.len(),
{
    if s.len() > 0 && s[0] == c {
        trim_start_char(s.drop_first(), c)
    } else {
        s
    }
}

/// `s` with each `..`, taken left to right without overlap, replaced by `__`
/// (`str::replace("..", "__")`).
pub open spec fn replace_dot_pairs(s: Seq<char>) -> Seq<char>
    decreases s.len(),
{
    if s.len() >= 2 && s[0] == '.' && s[1] == '.' {
        seq!['_', '_'] + replace_dot_pairs(s.skip(2))
    } else if s.len() >= 1 {
        seq![s[0]] + replace_dot_pairs(s.skip(1))
    } else {
        s
    }
}

/// The destination of a rule as it is placed under the device's mount point:
/// leading `/` removed, every `..` turned into `__`.
pub open spec fn sanitized(dest: Seq<char>) -> Seq<char> {
    replace_dot_pairs(trim_start_char(dest, '/'))
}

/// Whether a destination path is absolute (it is then made relative).
pub fn is_absolute_destination(dest: &str) -> (b: bool)
    ensures
        b == (dest@.len() > 0 && dest@[0] == '/'),
{
    let v = chars_of(dest);
    v.len() > 0 && v[0] == '/'
}

/// Strips leading `c` characters.
pub fn trim_start_matches_char(s: &str, c: char) -> (r: Vec<char>)
    ensures
        r@ == trim_start_char(s@, c),
{
    let v = chars_of(s);
    let mut i: usize = 0;
    assert(v@.skip(0) =~= v@);
    while i < v.len() && v[i] == c
        invariant
            0 <= i <= v@.len(),
            trim_start_char(v@, c) == trim_start_char(v@.skip(i as int), c),
        decreases v.len() - i,
    {
        assert(v@.skip(i as int).drop_first() =~= v@.skip(i + 1));
        i = i + 1;
    }
    let mut r: Vec<char> = Vec::new();
    let mut k: usize = i;
    while k < v.len()
        invariant
            i <= k <= v@.len(),
            r@ == v@.subrange(i as int, k as int),
        decreases v.len() - k,
    {
        r.push(v[k]);
        k = k + 1;
    }
    assert(r@ =~= v@.skip(i as int));
    r
}

/// The destination as placed under the mount point (see `sanitized`).
pub fn sanitize_destination(dest: &str) -> (r: String)
    ensures
        r@ == sanitized(dest@),
{
    let t = trim_start_matches_char(dest, '/');
    let mut out: Vec<char> = Vec::new();
    let mut i: usize = 0;
    assert(t@.skip(0) =~= t@);
    assert(out@ + replace_dot_pairs(t@) =~= replace_dot_pairs(t@));
    while i < t.len()
        invariant
            0 <= i <= t@.len(),
            out@ + replace_dot_pairs(t@.skip(i as int)) == replace_dot_pairs(t@),
        decreases t.len() - i,
    {
        let ghost rest = t@.skip(i as int);
        if i + 1 < t.len() && t[i] == '.' && t[i + 1] == '.' {
            out.push('_');
            out.push('_');
            assert(rest.skip(2) =~= t@.skip(i + 2));
            assert(out@ + replace_dot_pairs(t@.skip(i + 2)) =~= out@.drop_last().drop_last() + (seq!['_', '_'] + replace_dot_pairs(rest.skip(2))));
            i = i + 2;
        } else {
            out.push(t[i]);
            assert(rest.skip(1) =~= t@.skip(i + 1));
            assert(out@ + replace_dot_pairs(t@.skip(i + 1)) =~= out@.drop_last() + (seq![rest[0]] + replace_dot_pairs(rest.skip(1))));
            i = i + 1;
        }
    }
    assert(t@.skip(i as int) =~= Seq::<char>::empty());
    assert(out@ + replace_dot_pairs(Seq::<char>::empty()) =~= out@);
    string_from(out.as_slice())
}

proof fn lemma_trim_start_char_first(s: Seq<char>, c: char)
    ensures
        trim_start_char(s, c).len() > 0 ==> trim_start_char(s, c)[0] != c,
    decreases s.len(),
{
    if s.len() > 0 && s[0] == c {
        lemma_trim_start_char_first(s.drop_first(), c);
    }
}

proof fn lemma_replace_dot_pairs_shape(s: Seq<char>)
    ensures
        forall|k: int|
            0 <= k < replace_dot_pairs(s).len() - 1 ==> !(#[trigger] replace_dot_pairs(s)[k] == '.'
                && replace_dot_pairs(s)[k + 1] == '.'),
        replace_dot_pairs(s).len() > 0 ==> replace_dot_pairs(s)[0] == (if s.len() >= 2 && s[0]
            == '.' && s[1] == '.' {
            '_'
        } else {
            s[0]
        }),
        replace_dot_pairs(s).len() == 0 <==> s.len() == 0,
    decreases s.len(),
{
    if s.len() >= 2 && s[0] == '.' && s[1] == '.' {
        lemma_replace_dot_pairs_shape(s.skip(2));
        let r = replace_dot_pairs(s);
        let t = replace_dot_pairs(s.skip(2));
        assert(r =~= seq!['_', '_'] + t);
        assert forall|k: int| 0 <= k < r.len() - 1 implies !(#[trigger] r[k] == '.' && r[k + 1] == '.') by {
            if k >= 2 {
                assert(r[k] == t[k - 2]);
                assert(r[k + 1] == t[k - 1]);
            }
        }
    } else if s.len() >= 1 {
        let rest = s.skip(1);
        lemma_replace_dot_pairs_shape(rest);
        let r = replace_dot_pairs(s);
        let t = replace_dot_pairs(rest);
        assert(r =~= seq![s[0]] + t);
        assert forall|k: int| 0 <= k < r.len() - 1 implies !(#[trigger] r[k] == '.' && r[k + 1] == '.') by {
            if k >= 1 {
                assert(r[k] == t[k - 1]);
                assert(r[k + 1] == t[k]);
            } else {
                assert(r[1] == t[0]);
                if s[0] == '.' {
                    assert(!(rest.len() >= 1 && rest[0] == '.'));
                }
            }
        }
    }
}

/// A sanitized destination never escapes the mount point: it does not start
/// with `/` and never holds two dots in a row.
pub proof fn lemma_sanitized_is_contained(dest: Seq<char>)
    ensures
        sanitized(dest).len() > 0 ==> sanitized(dest)[0] != '/',
        forall|k: int|
            0 <= k < sanitized(dest).len() - 1 ==> !(#[trigger] sanitized(dest)[k] == '.'
                && sanitized(dest)[k + 1] == '.'),
        !crate::text::contains_seq(sanitized(dest), seq!['.', '.']),
{
    let t = trim_start_char(dest, '/');
    lemma_trim_start_char_first(dest, '/');
    lemma_replace_dot_pairs_shape(t);
    let r = sanitized(dest);
    assert forall|i: int| !crate::text::occurs_at(r, seq!['.', '.'], i) by {
        if crate::text::occurs_at(r, seq!['.', '.'], i) {
            assert(r.subrange(i, i + 2)[0] == r[i]);
            assert(r.subrange(i, i + 2)[1] == r[i + 1]);
        }
    }
}

/// Destination clean-up changes nothing but dots: the text keeps its length,
/// and a character that changes is a dot turned into `_` that has a dot next
/// to it (one of a `..` pair). A lone dot, and every other character, stays.
pub proof fn lemma_replace_dot_pairs_changes_only_pairs(s: Seq<char>)
    ensures
        replace_dot_pairs(s).len() == s.len(),
        forall|i: int| 0 <= i < s.len() ==> #[trigger] replace_dot_pairs(s)[i] == s[i] || (s[i] == '.'
            && replace_dot_pairs(s)[i] == '_' && ((i > 0 && s[i - 1] == '.') || (i + 1 < s.len() && s[i + 1] == '.'))),
    decreases s.len(),
{
    let r = replace_dot_pairs(s);
    if s.len() >= 2 && s[0] == '.' && s[1] == '.' {
        let t = s.skip(2);
        lemma_replace_dot_pairs_changes_only_pairs(t);
        assert(r =~= seq!['_', '_'] + replace_dot_pairs(t));
        assert forall|i: int| 0 <= i < s.len() implies #[trigger] r[i] == s[i] || (s[i] == '.' && r[i] == '_'
            && ((i > 0 && s[i - 1] == '.') || (i + 1 < s.len() && s[i + 1] == '.'))) by {
            if i >= 2 {
                assert(r[i] == replace_dot_pairs(t)[i - 2]);
                assert(t[i - 2] == s[i]);
                if i - 2 > 0 {
                    assert(t[i - 3] == s[i - 1]);
                }
                if i - 1 < t.len() {
                    assert(t[i - 1] == s[i + 1]);
                }
            }
        }
    } else if s.len() >= 1 {
        let t = s.skip(1);
        lemma_replace_dot_pairs_changes_only_pairs(t);
        assert(r =~= seq![s[0]] + replace_dot_pairs(t));
        assert forall|i: int| 0 <= i < s.len() implies #[trigger] r[i] == s[i] || (s[i] == '.' && r[i] == '_'
            && ((i > 0 && s[i - 1] == '.') || (i + 1 < s.len() && s[i + 1] == '.'))) by {
            if i >= 1 {
                assert(r[i] == replace_dot_pairs(t)[i - 1]);
                assert(t[i - 1] == s[i]);
                if i - 1 > 0 {
                    assert(t[i - 2] == s[i - 1]);
                }
                if i < t.len() {
                    assert(t[i] == s[i + 1]);
                }
            }
        }
    }
}

/// Text without `..` is left as it is by the dot-pair replacement.
pub proof fn lemma_replace_dot_pairs_without_pairs(s: Seq<char>)
    requires
        !crate::text::contains_seq(s, seq!['.', '.']),
    ensures
        replace_dot_pairs(s) == s,
    decreases s.len(),
{
    if s.len() >= 2 && s[0] == '.' && s[1] == '.' {
        assert(s.subrange(0, 2) =~= seq!['.', '.']);
        assert(crate::text::occurs_at(s, seq!['.', '.'], 0));
    } else if s.len() >= 1 {
        let t = s.skip(1);
        if crate::text::contains_seq(t, seq!['.', '.']) {
            let i = choose|i: int| crate::text::occurs_at(t, seq!['.', '.'], i);
            assert(s.subrange(i + 1, i + 3) =~= t.subrange(i, i + 2));
            assert(crate::text::occurs_at(s, seq!['.', '.'], i + 1));
        }
        lemma_replace_dot_pairs_without_pairs(t);
        assert(replace_dot_pairs(s) =~= seq![s[0]] + t);
        assert(seq![s[0]] + t =~= s);
    }
}

/// The replacement works piece by piece: text cut after a character that is
/// not a dot is replaced as its two parts are, one after the other.
pub proof fn lemma_replace_dot_pairs_concat(a: Seq<char>, b: Seq<char>)
    requires
        a.len() == 0 || a.last() != '.',
    ensures
        replace_dot_pairs(a + b) == replace_dot_pairs(a) + replace_dot_pairs(b),
    decreases a.len(),
{
    if a.len() == 0 {
        assert(a + b =~= b);
        assert(replace_dot_pairs(a) + replace_dot_pairs(b) =~= replace_dot_pairs(b));
    } else if a.len() >= 2 && a[0] == '.' && a[1] == '.' {
        let a2 = a.skip(2);
        assert((a + b).skip(2) =~= a2 + b);
        assert(a2.len() > 0 && a2.last() == a.last());
        lemma_replace_dot_pairs_concat(a2, b);
        assert(replace_dot_pairs(a + b) =~= seq!['_', '_'] + replace_dot_pairs(a2 + b));
        assert(replace_dot_pairs(a) =~= seq!['_', '_'] + replace_dot_pairs(a2));
        assert(replace_dot_pairs(a + b) =~= replace_dot_pairs(a) + replace_dot_pairs(b));
    } else {
        let a1 = a.skip(1);
        assert((a + b).skip(1) =~= a1 + b);
        assert((a + b)[0] == a[0]);
        if a.len() >= 2 {
            assert((a + b)[1] == a[1]);
            assert(a1.last() == a.last());
        } else {
            assert(a[0] != '.');
        }
        lemma_replace_dot_pairs_concat(a1, b);
        assert(replace_dot_pairs(a + b) =~= seq![a[0]] + replace_dot_pairs(a1 + b));
        assert(replace_dot_pairs(a) =~= seq![a[0]] + replace_dot_pairs(a1));
        assert(replace_dot_pairs(a + b) =~= replace_dot_pairs(a) + replace_dot_pairs(b));
    }
}

/// Pairs are taken from the left: text starting with `..` starts with `__`,
/// and the rest is replaced on its own.
pub proof fn lemma_replace_dot_pairs_from_left(t: Seq<char>)
    ensures
        replace_dot_pairs(seq!['.', '.'] + t) == seq!['_', '_'] + replace_dot_pairs(t),
{
    let s = seq!['.', '.'] + t;
    assert(s.skip(2) =~= t);
}

/// Trimming removes leading `c` characters and nothing else: the result is
/// what follows the first characters, all of them `c`, and it does not start
/// with `c`.
pub proof fn lemma_trim_start_char_removes_prefix(s: Seq<char>, c: char)
    ensures
        trim_start_char(s, c).len() <= s.len(),
        trim_start_char(s, c) == s.skip(s.len() - trim_start_char(s, c).len()),
        forall|j: int| 0 <= j < s.len() - trim_start_char(s, c).len() ==> #[trigger] s[j] == c,
        trim_start_char(s, c).len() > 0 ==> trim_start_char(s, c)[0] != c,
    decreases s.len(),
{
    lemma_trim_start_char_first(s, c);
    if s.len() > 0 && s[0] == c {
        let t = s.drop_first();
        lemma_trim_start_char_removes_prefix(t, c);
        let k = t.len() - trim_start_char(t, c).len();
        assert(t.skip(k) =~= s.skip(k + 1));
        assert forall|j: int| 0 <= j < k + 1 implies #[trigger] s[j] == c by {
            if j > 0 {
                assert(s[j] == t[j - 1]);
            }
        }
    } else {
        assert(s.skip(0) =~= s);
    }
}

/// A destination that is already relative and holds no `..` is placed under
/// the mount point exactly as written.
pub proof fn lemma_clean_destination_unchanged(dest: Seq<char>)
    requires
        dest.len() == 0 || dest[0] != '/',
        !crate::text::contains_seq(dest, seq!['.', '.']),
    ensures
        sanitized(dest) == dest,
{
    assert(trim_start_char(dest, '/') == dest);
    lemma_replace_dot_pairs_without_pairs(dest);
}

// ---------------------------------------------------------------- disks

/// Whether a mount point lies where removable media are mounted.
pub open spec fn is_removable_mount(mount: Seq<char>) -> bool {
    crate::text::contains_seq(mount, "/media/"@) || crate::text::contains_seq(mount, "/run/media/"@)
}

/// Among the USB partitions, the one with device node `devnode` carries the
/// filesystem UUID `uuid`.
pub open spec fn holds_uuid(partitions: Seq<PartitionEntry>, devnode: Seq<char>, uuid: Seq<char>) -> bool {
    exists|j: int|
        0 <= j < partitions.len() && (#[trigger] partitions[j]).devnode@ == devnode
            && crate::models::opt_view(partitions[j].fs_uuid) == Some(uuid)
}

/// The disk is the device's partition: its device node (the disk's name) is a
/// USB partition carrying the device's filesystem UUID.
pub open spec fn uuid_on_disk(device: DeviceConfigView, disk_name: Seq<char>, partitions: Seq<PartitionEntry>) -> bool {
    device.uuid matches Some(u) && holds_uuid(partitions, disk_name, u)
}

/// The heuristic that recognises the device among mounted disks: the disk is
/// the USB partition with the device's UUID; or, failing that, the device's
/// name appears (case-insensitively) in the disk's mount point or name, or the
/// disk is mounted under a media directory.
pub open spec fn disk_matches(device: DeviceConfigView, name: Seq<char>, mount: Seq<char>, partitions: Seq<PartitionEntry>) -> bool {
    ||| uuid_on_disk(device, name, partitions)
    ||| crate::text::contains_seq(crate::text::lowercase(mount), crate::text::lowercase(device.name))
    ||| crate::text::contains_seq(crate::text::lowercase(name), crate::text::lowercase(device.name))
    ||| is_removable_mount(mount)
}

/// Whether the USB partition with device node `devnode` carries `uuid`
/// (see `holds_uuid`).
pub fn partition_holds_uuid(partitions: &Vec<PartitionEntry>, devnode: &str, uuid: &str) -> (b: bool)
    ensures
        b == holds_uuid(partitions@, devnode@, uuid@),
{
    let mut j: usize = 0;
    while j < partitions.len()
        invariant
            0 <= j <= partitions@.len(),
            forall|k: int|
                0 <= k < j ==> !((#[trigger] partitions@[k]).devnode@ == devnode@
                    && crate::models::opt_view(partitions@[k].fs_uuid) == Some(uuid@)),
        decreases partitions.len() - j,
    {
        let p = &partitions[j];
        if crate::text::str_equals(p.devnode.as_str(), devnode) {
            match &p.fs_uuid {
                Some(u) => {
                    if crate::text::str_equals(u.as_str(), uuid) {
                        return true;
                    }
                },
                None => {},
            }
        }
        j = j + 1;
    }
    false
}

fn uuid_on_disk_exec(device: &DeviceConfig, disk_name: &str, partitions: &Vec<PartitionEntry>) -> (b: bool)
    ensures
        b == uuid_on_disk(device@, disk_name@, partitions@),
{
    match &device.uuid {
        None => false,
        Some(u) => partition_holds_uuid(partitions, disk_name, u.as_str()),
    }
}

fn str_contains(hay: &str, needle: &str) -> (b: bool)
    ensures
        b == crate::text::contains_seq(hay@, needle@),
{
    contains(&chars_of(hay), &chars_of(needle))
}

/// The device's name is compared without regard to case: a disk whose
/// lower-cased name or mount point contains the lower-cased device name is
/// taken for the device, and two device names that lower-case alike are taken
/// for the same disks.
pub proof fn lemma_name_match_ignores_case(
    device: DeviceConfigView,
    other_name: Seq<char>,
    name: Seq<char>,
    mount: Seq<char>,
    partitions: Seq<PartitionEntry>,
)
    ensures
        crate::text::contains_seq(crate::text::lowercase(mount), crate::text::lowercase(device.name))
            ==> disk_matches(device, name, mount, partitions),
        crate::text::contains_seq(crate::text::lowercase(name), crate::text::lowercase(device.name))
            ==> disk_matches(device, name, mount, partitions),
        crate::text::lowercase(other_name) == crate::text::lowercase(device.name) ==> (disk_matches(
            device,
            name,
            mount,
            partitions,
        ) <==> disk_matches(DeviceConfigView { name: other_name, ..device }, name, mount, partitions)),
{
}

/// Why a disk is taken for the device, and only why: it is the USB partition
/// carrying the device's UUID, or its lower-cased mount point or name contains
/// the lower-cased device name, or it is mounted under `/media/` or
/// `/run/media/`.
pub proof fn lemma_disk_taken_only_for_a_reason(
    device: DeviceConfigView,
    name: Seq<char>,
    mount: Seq<char>,
    partitions: Seq<PartitionEntry>,
)
    ensures
        (device.uuid matches Some(u) && holds_uuid(partitions, name, u)) ==> disk_matches(device, name, mount, partitions),
        crate::text::contains_seq(mount, "/media/"@) ==> disk_matches(device, name, mount, partitions),
        crate::text::contains_seq(mount, "/run/media/"@) ==> disk_matches(device, name, mount, partitions),
        disk_matches(device, name, mount, partitions) ==> {
            ||| (device.uuid matches Some(u) && holds_uuid(partitions, name, u))
            ||| crate::text::contains_seq(crate::text::lowercase(mount), crate::text::lowercase(device.name))
            ||| crate::text::contains_seq(crate::text::lowercase(name), crate::text::lowercase(device.name))
            ||| crate::text::contains_seq(mount, "/media/"@)
            ||| crate::text::contains_seq(mount, "/run/media/"@)
        },
{
}

/// Whether `disk` is taken for the device (see `disk_matches`).
pub fn disk_is_device(device: &DeviceConfig, disk: &DiskInfo, partitions: &Vec<PartitionEntry>) -> (b: bool)
    ensures
        b == disk_matches(device@, disk.name@, disk.mount_point@, partitions@),
{
    if uuid_on_disk_exec(device, disk.name.as_str(), partitions) {
        return true;
    }
    let dev = to_lowercase(device.name.as_str());
    let mount = to_lowercase(disk.mount_point.as_str());
    let name = to_lowercase(disk.name.as_str());
    name_heuristic(dev.as_str(), mount.as_str(), name.as_str(), disk.mount_point.as_str())
}

/// The name part of `disk_matches`, over lower-cased texts: the device's name
/// appears in the mount point or in the disk's name, or the disk is mounted
/// under a media directory.
pub fn name_heuristic(device_lower: &str, mount_lower: &str, name_lower: &str, mount: &str) -> (b: bool)
    ensures
        b == (crate::text::contains_seq(mount_lower@, device_lower@) || crate::text::contains_seq(name_lower@, device_lower@)
            || is_removable_mount(mount@)),
{
    let removable = str_contains(mount, "/media/") || str_contains(mount, "/run/media/");
    str_contains(mount_lower, device_lower) || str_contains(name_lower, device_lower) || removable
}

/// The first disk taken for the device, if any.
pub fn select_mount(device: &DeviceConfig, disks: &Vec<DiskInfo>, partitions: &Vec<PartitionEntry>) -> (r: Option<usize>)
    ensures
        match r {
            Some(i) => i < disks@.len() && disk_matches(device@, disks@[i as int].name@, disks@[i as int].mount_point@, partitions@)
                && forall|j: int| 0 <= j < i ==> !disk_matches(device@, #[trigger] disks@[j].name@, disks@[j].mount_point@, partitions@),
            None => forall|j: int| 0 <= j < disks@.len() ==> !disk_matches(device@, #[trigger] disks@[j].name@, disks@[j].mount_point@, partitions@),
        },
{
    let mut i: usize = 0;
    while i < disks.len()
        invariant
            0 <= i <= disks@.len(),
            forall|j: int| 0 <= j < i ==> !disk_matches(device@, #[trigger] disks@[j].name@, disks@[j].mount_point@, partitions@),
        decreases disks.len() - i,
    {
        if disk_is_device(device, &disks[i], partitions) {
            return Some(i);
        }
        i = i + 1;
    }
    None
}

/// Whether a mount point can be the device's when looking it up by UUID:
/// system locations (`/`, `/boot…`, `/home…`, `/run/user…`) never are; media
/// directories always are; otherwise only when the disk mounted there is the
/// partition with the UUID.
pub open spec fn device_mount_spec(mount: Seq<char>, partition_has_uuid: bool) -> bool {
    if mount == "/"@ || crate::text::has_prefix(mount, "/boot"@) || crate::text::has_prefix(mount, "/home"@)
        || crate::text::has_prefix(mount, "/run/user"@) {
        false
    } else if crate::text::has_prefix(mount, "/run/media/"@) || crate::text::has_prefix(mount, "/media/"@) {
        true
    } else {
        partition_has_uuid
    }
}

fn str_starts_with(s: &str, p: &str) -> (b: bool)
    ensures
        b == crate::text::has_prefix(s@, p@),
{
    crate::text::starts_with(&chars_of(s), &chars_of(p))
}


/// See `device_mount_spec`.
pub fn is_device_mount(mount: &str, partition_has_uuid: bool) -> (b: bool)
    ensures
        b == device_mount_spec(mount@, partition_has_uuid),
{
    if crate::text::str_equals(mount, "/") || str_starts_with(mount, "/boot") || str_starts_with(mount, "/home")
        || str_starts_with(mount, "/run/user") {
        false
    } else if str_starts_with(mount, "/run/media/") || str_starts_with(mount, "/media/") {
        true
    } else {
        partition_has_uuid
    }
}

/// Whether a disk can be the device looked up by `uuid`: its mount point
/// qualifies, the UUID test being whether the disk is the USB partition
/// carrying `uuid`.
pub open spec fn device_disk_spec(disk: DiskInfo, partitions: Seq<PartitionEntry>, uuid: Seq<char>) -> bool {
    device_mount_spec(disk.mount_point@, holds_uuid(partitions, disk.name@, uuid))
}

/// A disk found by UUID is never a system mount (`/`, `/boot…`, `/home…`,
/// `/run/user…`), and unless it is mounted under a media directory it is the
/// USB partition that carries the UUID.
pub proof fn lemma_device_disk_is_the_partition(disk: DiskInfo, partitions: Seq<PartitionEntry>, uuid: Seq<char>)
    requires
        device_disk_spec(disk, partitions, uuid),
    ensures
        disk.mount_point@ != "/"@,
        !crate::text::has_prefix(disk.mount_point@, "/boot"@),
        !crate::text::has_prefix(disk.mount_point@, "/home"@),
        !crate::text::has_prefix(disk.mount_point@, "/run/user"@),
        crate::text::has_prefix(disk.mount_point@, "/run/media/"@) || crate::text::has_prefix(disk.mount_point@, "/media/"@)
            || holds_uuid(partitions, disk.name@, uuid),
{
}

/// Through the UUID test, only the disk that is the device's own partition is
/// taken: a disk whose device node carries another UUID, or is no USB
/// partition, needs the name or media heuristic.
pub proof fn lemma_uuid_test_is_per_disk(device: DeviceConfigView, name: Seq<char>, partitions: Seq<PartitionEntry>)
    requires
        uuid_on_disk(device, name, partitions),
    ensures
        exists|j: int|
            0 <= j < partitions.len() && partitions[j].devnode@ == name
                && crate::models::opt_view(partitions[j].fs_uuid) == device.uuid,
{
}

/// The first disk that can be the device looked up by `uuid` (see `device_disk_spec`).
pub fn find_device_mount(disks: &Vec<DiskInfo>, partitions: &Vec<PartitionEntry>, uuid: &str) -> (r: Option<usize>)
    ensures
        match r {
            Some(i) => i < disks@.len() && device_disk_spec(disks@[i as int], partitions@, uuid@)
                && forall|j: int| 0 <= j < i ==> !device_disk_spec(#[trigger] disks@[j], partitions@, uuid@),
            None => forall|j: int| 0 <= j < disks@.len() ==> !device_disk_spec(#[trigger] disks@[j], partitions@, uuid@),
        },
{
    let mut i: usize = 0;
    while i < disks.len()
        invariant
            0 <= i <= disks@.len(),
            forall|j: int| 0 <= j < i ==> !device_disk_spec(#[trigger] disks@[j], partitions@, uuid@),
        decreases disks.len() - i,
    {
        let d = &disks[i];
        let has_uuid = partition_holds_uuid(partitions, d.name.as_str(), uuid);
        if is_device_mount(d.mount_point.as_str(), has_uuid) {
            return Some(i);
        }
        i = i + 1;
    }
    None
}

// ---------------------------------------------------------------- outcome

/// Whether any rule asks to unmount the device once the backup is done.
pub fn should_unmount(rules: &Vec<BackupRule>) -> (b: bool)
    ensures
        b == exists|i: int| 0 <= i < rules@.len() && #[trigger] rules@[i].unmount_after,
{
    let mut i: usize = 0;
    while i < rules.len()
        invariant
            0 <= i <= rules@.len(),
            forall|k: int| 0 <= k < i ==> !(#[trigger] rules@[k]).unmount_after,
        decreases rules.len() - i,
    {
        if rules[i].unmount_after {
            return true;
        }
        i = i + 1;
    }
    false
}

/// How one rule of a backup run ended.
#[derive(Clone, Copy, Debug, PartialEq, Eq, Structural)]
pub enum RuleResult {
    /// rsync finished successfully.
    Succeeded,
    /// The source folder does not exist.
    SourceMissing,
    /// The destination folder could not be created.
    DestinationFailed,
    /// The snapshot folder of an incremental rule could not be created.
    SnapshotFailed,
    /// rsync could not be started.
    SpawnFailed,
    /// rsync exited with this failure code (-1 when it was stopped by a signal).
    RsyncFailed(i32),
    /// Waiting for rsync failed.
    WaitFailed,
}

/// Whether some rule of the run did not succeed.
pub fn any_failed(results: &Vec<RuleResult>) -> (b: bool)
    ensures
        b == exists|i: int| 0 <= i < results@.len() && results@[i] != RuleResult::Succeeded,
{
    let mut i: usize = 0;
    while i < results.len()
        invariant
            0 <= i <= results@.len(),
            forall|k: int| 0 <= k < i ==> results@[k] == RuleResult::Succeeded,
        decreases results.len() - i,
    {
        if results[i] != RuleResult::Succeeded {
            return true;
        }
        i = i + 1;
    }
    false
}

/// The notice at the end of a run from the results of its rules: complete
/// only when every rule succeeded.
pub fn run_outcome(device_name: &str, results: &Vec<RuleResult>) -> (n: NotificationRequest)
    ensures
        (n.summary@ == "✅ Backup Complete"@) <==> forall|i: int| 0 <= i < results@.len() ==> results@[i] == RuleResult::Succeeded,
        (forall|i: int| 0 <= i < results@.len() ==> results@[i] == RuleResult::Succeeded) ==> n.body@ == "Backup successfully finished for: "@ + device_name@,
        (exists|i: int| 0 <= i < results@.len() && results@[i] != RuleResult::Succeeded) ==> n.summary@ == "❌ Backup Failed"@ && n.body@ == "Error during backup of "@
            + device_name@ + ": "@ + "Certaines synchronisations ont échoué. Vérifiez les logs."@,
{
    let failed = any_failed(results);
    let n = backup_outcome(device_name, failed);
    proof {
        reveal_strlit("✅ Backup Complete");
        reveal_strlit("❌ Backup Failed");
        assert("✅ Backup Complete"@ != "❌ Backup Failed"@) by {
            assert("✅ Backup Complete"@[0] != "❌ Backup Failed"@[0]);
        }
    }
    n
}

/// The notice at the end of a run: an error notice when any rule failed,
/// a success notice otherwise.
pub fn backup_outcome(device_name: &str, has_errors: bool) -> (n: NotificationRequest)
    ensures
        has_errors ==> n.summary@ == "❌ Backup Failed"@ && n.body@ == "Error during backup of "@
            + device_name@ + ": "@ + "Certaines synchronisations ont échoué. Vérifiez les logs."@,
        !has_errors ==> n.summary@ == "✅ Backup Complete"@ && n.body@
            == "Backup successfully finished for: "@ + device_name@,
{
    if has_errors {
        notify_backup_error(device_name, "Certaines synchronisations ont échoué. Vérifiez les logs.")
    } else {
        notify_backup_success(device_name)
    }
}

/// The notice when the device's mount point could not be found.
pub fn mount_not_found_notice(device_name: &str) -> (n: NotificationRequest)
    ensures
        n.summary@ == "❌ Backup Failed"@,
        n.body@ == "Error during backup of "@ + device_name@ + ": "@
            + "Impossible de localiser le point de montage du disque."@,
{
    notify_backup_error(device_name, "Impossible de localiser le point de montage du disque.")
}

/// The notice when a device's stored configuration fails its signature check.
pub fn invalid_signature_notice(device_name: &str) -> (n: NotificationRequest)
    ensures
        n.summary@ == "❌ Backup Failed"@,
        n.body@ == "Error during backup of "@ + device_name@ + ": "@
            + "Signature de configuration invalide ! Backup annulée par sécurité."@,
{
    notify_backup_error(device_name, "Signature de configuration invalide ! Backup annulée par sécurité.")
}

/// The notice when rsync exits with a failure code.
pub fn rsync_failure_notice(device_name: &str, code: i32) -> (n: NotificationRequest)
    ensures
        n.summary@ == "❌ Backup Failed"@,
        n.body@ == "Error during backup of "@ + device_name@ + ": "@ + ("Erreur rsync (code "@
            + crate::text::signed_decimal(code as int) + "). Consultez les logs."@),
{
    let mut v: Vec<char> = chars_of("Erreur rsync (code ");
    push_chars(&mut v, &crate::text::decimal_i32(code));
    push_str(&mut v, "). Consultez les logs.");
    let msg = string_from(v.as_slice());
    notify_backup_error(device_name, msg.as_str())
}

// ---------------------------------------------------------------- log

/// The log file of a device: its name with spaces turned into `_`, then `.log`.
pub open spec fn log_file_name_spec(device_name: Seq<char>) -> Seq<char> {
    device_name.map_values(|c: char| if c == ' ' { '_' } else { c }) + ".log"@
}

/// See `log_file_name_spec`.
pub fn log_file_name(device_name: &str) -> (r: String)
    ensures
        r@ == log_file_name_spec(device_name@),
{
    let v = chars_of(device_name);
    let mut out: Vec<char> = Vec::new();
    let mut i: usize = 0;
    while i < v.len()
        invariant
            0 <= i <= v@.len(),
            out@ == v@.take(i as int).map_values(|c: char| if c == ' ' { '_' } else { c }),
        decreases v.len() - i,
    {
        let c = v[i];
        out.push(if c == ' ' { '_' } else { c });
        assert(v@.take(i + 1) =~= v@.take(i as int).push(c));
        i = i + 1;
    }
    assert(v@.take(v@.len() as int) =~= v@);
    push_str(&mut out, ".log");
    string_from(out.as_slice())
}

/// One entry of a device's log: a dated header naming the source, the
/// content, and a closing rule.
pub open spec fn log_entry_spec(timestamp: Seq<char>, source: Seq<char>, content: Seq<char>) -> Seq<char> {
    "\n--- ["@ + timestamp + "] Source: "@ + source + " ---\n"@ + content
        + "\n---------------------------\n"@
}

/// See `log_entry_spec`.
pub fn log_entry(timestamp: &str, source: &str, content: &str) -> (r: String)
    ensures
        r@ == log_entry_spec(timestamp@, source@, content@),
{
    let mut v: Vec<char> = chars_of("\n--- [");
    push_str(&mut v, timestamp);
    push_str(&mut v, "] Source: ");
    push_str(&mut v, source);
    push_str(&mut v, " ---\n");
    push_str(&mut v, content);
    push_str(&mut v, "\n---------------------------\n");
    string_from(v.as_slice())
}

/// What is logged for a rule whose rsync failed with `code`.
pub fn failure_log_content(code: i32, error_output: &str) -> (r: String)
    ensures
        r@ == "FAILED (code "@ + crate::text::signed_decimal(code as int) + ")\n"@ + error_output@,
{
    let mut v: Vec<char> = chars_of("FAILED (code ");
    push_chars(&mut v, &crate::text::decimal_i32(code));
    push_str(&mut v, ")\n");
    push_str(&mut v, error_output);
    string_from(v.as_slice())
}

// ---------------------------------------------------------------- .gitignore

/// A name for what `std::path::Path::parent` gives for a path written as
/// text: the path without its last component, `None` for a root or an empty path.
pub uninterp spec fn path_parent(p: Seq<char>) -> Option<Seq<char>>;

/// Calls `Path::new(p).parent()`; the parent of a path given as UTF-8 text is
/// UTF-8 text, so the conversion back to a `String` keeps every character.
#[verifier::external_body]
fn parent_of(p: &str) -> (r: Option<String>)
    ensures
        crate::models::opt_view(r) == path_parent(p@),
{
    match std::path::Path::new(p).parent() {
        Some(q) => Some(q.to_string_lossy().into_owned()),
        None => None,
    }
}

/// `Path::join` of a relative file name onto `base` (Unix): a `/` is put
/// between them unless `base` is empty or already ends with `/`.
pub open spec fn join_relative(base: Seq<char>, name: Seq<char>) -> Seq<char> {
    if base.len() == 0 || base.last() == '/' {
        base + name
    } else {
        base + seq!['/'] + name
    }
}

/// `Path::join` of a relative file name (see `join_relative`).
pub fn join_name(base: &str, name: &str) -> (r: String)
    ensures
        r@ == join_relative(base@, name@),
{
    let mut v = chars_of(base);
    if v.len() > 0 && v[v.len() - 1] != '/' {
        v.push('/');
    }
    push_str(&mut v, name);
    string_from(v.as_slice())
}

/// Where a rule's `.gitignore` may be, in the order they are tried: in the
/// source folder, then in its parent.
pub open spec fn gitignore_candidates_spec(source: Seq<char>) -> Seq<Seq<char>> {
    seq![join_relative(source, ".gitignore"@)] + match path_parent(source) {
        Some(p) => seq![join_relative(p, ".gitignore"@)],
        None => Seq::empty(),
    }
}

/// See `gitignore_candidates_spec`.
pub fn gitignore_candidates(source: &str) -> (r: Vec<String>)
    ensures
        crate::models::strings_view(r@) == gitignore_candidates_spec(source@),
{
    let mut r: Vec<String> = Vec::new();
    r.push(join_name(source, ".gitignore"));
    match parent_of(source) {
        Some(p) => r.push(join_name(p.as_str(), ".gitignore")),
        None => {},
    }
    assert(crate::models::strings_view(r@) =~= gitignore_candidates_spec(source@));
    r
}

} // verus!

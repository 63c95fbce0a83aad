//! The decisions of the configuration wizard: which mounted disks are offered
//! and how they are labelled, which one was picked, the exclusions gathered,
//! and the configuration it builds.
use vstd::prelude::*;
use crate::agent::PartitionEntry;
use crate::backup::DiskInfo;
use crate::models::{BackupRule, BackupRuleView, DeviceAction, DeviceConfig, DeviceConfigView};
use crate::text::{chars_of, matches_at, push_chars, push_str, string_from};

verus! {

/// Whether a mounted disk is offered as the device: its partition carries the
/// device's UUID, and it is not the root, `/home` or a `/boot…` mount, nor unmounted.
pub open spec fn candidate_mount_spec(mount: Seq<char>, matches_uuid: bool) -> bool {
    &&& matches_uuid
    &&& !crate::text::has_prefix(mount, "/boot"@)
    &&& mount != "/"@
    &&& mount != "/home"@
    &&& mount.len() != 0
}


/// See `candidate_mount_spec`.
pub fn is_candidate_mount(mount: &str, matches_uuid: bool) -> (b: bool)
    ensures
        b == candidate_mount_spec(mount@, matches_uuid),
{
    let m = chars_of(mount);
    matches_uuid && !crate::text::starts_with(&m, &chars_of("/boot")) && !crate::text::equals(&m, &chars_of("/")) && !crate::text::equals(&m, &chars_of("/home")) && m.len() != 0
}

/// How a disk is offered: `name (N GB) on mount`, N its size in whole GiB.
pub open spec fn mount_label_spec(name: Seq<char>, total_space: u64, mount: Seq<char>) -> Seq<char> {
    name + " ("@ + crate::text::decimal((total_space / 1024 / 1024 / 1024) as nat) + " GB) on "@ + mount
}

/// See `mount_label_spec`.
pub fn mount_label(disk: &DiskInfo) -> (r: String)
    ensures
        r@ == mount_label_spec(disk.name@, disk.total_space, disk.mount_point@),
{
    let size_gb = disk.total_space / 1024 / 1024 / 1024;
    let mut v = chars_of(disk.name.as_str());
    push_str(&mut v, " (");
    push_chars(&mut v, &crate::text::decimal_u64(size_gb));
    push_str(&mut v, " GB) on ");
    push_str(&mut v, disk.mount_point.as_str());
    string_from(v.as_slice())
}

/// The disks the wizard offers: those whose mount point qualifies (see
/// `candidate_mount_spec`), the UUID test being whether the disk is the USB
/// partition carrying the device's UUID. The order of `disks` is kept.
pub open spec fn offered_disks_spec(disks: Seq<DiskInfo>, partitions: Seq<PartitionEntry>, uuid: Seq<char>) -> Seq<DiskInfo>
    decreases disks.len(),
{
    if disks.len() == 0 {
        Seq::empty()
    } else {
        let rest = offered_disks_spec(disks.drop_last(), partitions, uuid);
        let d = disks.last();
        if candidate_mount_spec(d.mount_point@, crate::backup::holds_uuid(partitions, d.name@, uuid)) {
            rest.push(d)
        } else {
            rest
        }
    }
}

/// See `offered_disks_spec`.
pub fn offered_disks(disks: &Vec<DiskInfo>, partitions: &Vec<PartitionEntry>, uuid: &str) -> (r: Vec<DiskInfo>)
    ensures
        r@ == offered_disks_spec(disks@, partitions@, uuid@),
{
    let mut r: Vec<DiskInfo> = Vec::new();
    let mut i: usize = 0;
    while i < disks.len()
        invariant
            0 <= i <= disks@.len(),
            r@ == offered_disks_spec(disks@.take(i as int), partitions@, uuid@),
        decreases disks.len() - i,
    {
        let d = &disks[i];
        assert(disks@.take(i + 1).drop_last() =~= disks@.take(i as int));
        assert(disks@.take(i + 1).last() == disks@[i as int]);
        let has_uuid = crate::backup::partition_holds_uuid(partitions, d.name.as_str(), uuid);
        if is_candidate_mount(d.mount_point.as_str(), has_uuid) {
            r.push(copy_disk(d));
        }
        i = i + 1;
    }
    assert(disks@.take(disks@.len() as int) =~= disks@);
    r
}

/// Whether the wizard offers `d` (see `offered_disks_spec`).
pub open spec fn offers(partitions: Seq<PartitionEntry>, uuid: Seq<char>) -> spec_fn(DiskInfo) -> bool {
    |d: DiskInfo| candidate_mount_spec(d.mount_point@, crate::backup::holds_uuid(partitions, d.name@, uuid))
}

/// The wizard offers exactly the qualifying disks, in the order they are
/// mounted: the offered list is the mounted disks filtered by the test, every
/// disk offered is a mounted disk that passes it, and every mounted disk that
/// passes it is offered.
pub proof fn lemma_offered_disks_are_the_qualifying_ones(
    disks: Seq<DiskInfo>,
    partitions: Seq<PartitionEntry>,
    uuid: Seq<char>,
)
    ensures
        offered_disks_spec(disks, partitions, uuid) == disks.filter(offers(partitions, uuid)),
        forall|i: int| 0 <= i < offered_disks_spec(disks, partitions, uuid).len() ==> {
            let d = #[trigger] offered_disks_spec(disks, partitions, uuid)[i];
            disks.contains(d) && candidate_mount_spec(d.mount_point@, crate::backup::holds_uuid(partitions, d.name@, uuid))
        },
        forall|i: int| 0 <= i < disks.len() && candidate_mount_spec(
            (#[trigger] disks[i]).mount_point@,
            crate::backup::holds_uuid(partitions, disks[i].name@, uuid),
        ) ==> offered_disks_spec(disks, partitions, uuid).contains(disks[i]),
    decreases disks.len(),
{
    reveal(Seq::filter);
    if disks.len() > 0 {
        lemma_offered_disks_are_the_qualifying_ones(disks.drop_last(), partitions, uuid);
    }
    let f = offers(partitions, uuid);
    let o = offered_disks_spec(disks, partitions, uuid);
    assert(o == disks.filter(f));
    assert forall|i: int| 0 <= i < o.len() implies {
        let d = #[trigger] o[i];
        disks.contains(d) && candidate_mount_spec(d.mount_point@, crate::backup::holds_uuid(partitions, d.name@, uuid))
    } by {
        disks.lemma_filter_pred(f, i);
        assert(o.contains(o[i]));
        disks.lemma_filter_contains_rev(f, o[i]);
    }
    assert forall|i: int| 0 <= i < disks.len() && candidate_mount_spec(
        (#[trigger] disks[i]).mount_point@,
        crate::backup::holds_uuid(partitions, disks[i].name@, uuid),
    ) implies o.contains(disks[i]) by {
        assert(f(disks[i]));
        disks.lemma_filter_contains(f, i);
    }
}

fn copy_disk(d: &DiskInfo) -> (r: DiskInfo)
    ensures
        r == *d,
{
    DiskInfo {
        name: d.name.clone(),
        mount_point: d.mount_point.clone(),
        file_system: d.file_system.clone(),
        total_space: d.total_space,
    }
}

/// The USB root the user chose: the mount point of the offered disk at the
/// position of the label they picked.
pub fn chosen_mount_point(offered: &Vec<DiskInfo>, selection: usize) -> (r: String)
    requires
        selection < offered@.len(),
    ensures
        r@ == offered@[selection as int].mount_point@,
{
    offered[selection].mount_point.clone()
}

/// The destination folder typed by the user, without leading `/`.
pub fn destination_folder(input: &str) -> (r: String)
    ensures
        r@ == crate::backup::trim_start_char(input@, '/'),
{
    string_from(crate::backup::trim_start_matches_char(input, '/').as_slice())
}

/// The home folders the wizard offers as sources, when they exist.
pub fn common_source_dirs() -> (r: Vec<String>)
    ensures
        crate::models::strings_view(r@) == seq!["Documents"@, "Pictures"@, "Desktop"@, "Music"@, "Videos"@, "Projects"@],
{
    let mut r: Vec<String> = Vec::new();
    r.push("Documents".to_owned());
    r.push("Pictures".to_owned());
    r.push("Desktop".to_owned());
    r.push("Music".to_owned());
    r.push("Videos".to_owned());
    r.push("Projects".to_owned());
    assert(crate::models::strings_view(r@) =~= seq!["Documents"@, "Pictures"@, "Desktop"@, "Music"@, "Videos"@, "Projects"@]);
    r
}

/// The preset exclusions the wizard offers with every rule, one group per
/// preset of the exclusion documentation: Node.js, Python, Rust,
/// macOS/Windows, images/RAW, temporary files.
pub open spec fn preset_exclusions_spec() -> Seq<Seq<char>> {
    seq![
        "node_modules/"@, "npm-debug.log*"@,
        "__pycache__"@, ".venv"@,
        "target/"@,
        ".DS_Store"@, "Thumbs.db"@,
        "*.raw"@, "*.cr2"@, "*.nef"@,
        "*.tmp"@, "*.bak"@,
    ]
}

/// See `preset_exclusions_spec`.
pub fn preset_exclusions() -> (r: Vec<String>)
    ensures
        crate::models::strings_view(r@) == preset_exclusions_spec(),
{
    let mut r: Vec<String> = Vec::new();
    r.push("node_modules/".to_owned());
    r.push("npm-debug.log*".to_owned());
    r.push("__pycache__".to_owned());
    r.push(".venv".to_owned());
    r.push("target/".to_owned());
    r.push(".DS_Store".to_owned());
    r.push("Thumbs.db".to_owned());
    r.push("*.raw".to_owned());
    r.push("*.cr2".to_owned());
    r.push("*.nef".to_owned());
    r.push("*.tmp".to_owned());
    r.push("*.bak".to_owned());
    assert(crate::models::strings_view(r@) =~= preset_exclusions_spec());
    r
}

/// The packaged default exclusions: one per line, `//` starting a comment line.
pub fn default_exclusions(content: &str) -> (r: Vec<String>)
    ensures
        crate::models::strings_view(r@) == crate::patterns::parse_patterns_spec(content@, "//"@),
{
    crate::patterns::parse_patterns(content, "//")
}

/// Adds the patterns of a downloaded `.gitignore` template after those
/// already chosen, in their order.
pub fn add_template_patterns(exclusions: &mut Vec<String>, patterns: Vec<String>)
    ensures
        crate::models::strings_view(final(exclusions)@)
            == crate::models::strings_view(old(exclusions)@) + crate::models::strings_view(patterns@),
{
    let ghost start = crate::models::strings_view(exclusions@);
    let mut i: usize = 0;
    while i < patterns.len()
        invariant
            0 <= i <= patterns@.len(),
            crate::models::strings_view(exclusions@) == start + crate::models::strings_view(patterns@).take(i as int),
        decreases patterns.len() - i,
    {
        let ghost prev = exclusions@;
        let item = patterns[i].clone();
        exclusions.push(item);
        assert(exclusions@ == prev.push(item));
        assert(crate::models::strings_view(exclusions@) =~= crate::models::strings_view(prev).push(item@));
        assert(crate::models::strings_view(patterns@).take(i + 1)
            =~= crate::models::strings_view(patterns@).take(i as int).push(patterns@[i as int]@));
        assert(crate::models::strings_view(exclusions@)
            =~= start + crate::models::strings_view(patterns@).take(i + 1));
        i = i + 1;
    }
    assert(crate::models::strings_view(patterns@).take(patterns@.len() as int) =~= crate::models::strings_view(patterns@));
}

/// One answer to the custom-pattern prompt: an empty answer ends the prompts
/// and leaves the list as it is (`false`); any other answer is added as typed
/// and the prompt is asked again (`true`).
pub fn add_custom_pattern(exclusions: &mut Vec<String>, input: String) -> (more: bool)
    ensures
        more == (input@.len() > 0),
        more ==> crate::models::strings_view(final(exclusions)@)
            == crate::models::strings_view(old(exclusions)@).push(input@),
        !more ==> final(exclusions)@ == old(exclusions)@,
{
    if input.as_str().is_empty() {
        false
    } else {
        let ghost before = exclusions@;
        exclusions.push(input);
        assert(crate::models::strings_view(exclusions@) =~= crate::models::strings_view(before).push(input@));
        true
    }
}

/// The rule the wizard writes for one chosen source.
pub open spec fn wizard_rule(source: Seq<char>, dest: Seq<char>, exclusions: Seq<Seq<char>>, delete_missing: bool) -> BackupRuleView {
    BackupRuleView {
        source_path: source,
        destination_path: dest,
        exclude: exclusions,
        delete_missing,
        incremental: false,
        post_backup_script: None,
        unmount_after: false,
    }
}

/// One rule per chosen source, in the order chosen, all with the same
/// destination, exclusions and mirroring choice.
pub fn build_rules(
    sources: &Vec<String>,
    chosen: &Vec<usize>,
    dest: &str,
    exclusions: &Vec<String>,
    delete_missing: bool,
) -> (r: Vec<BackupRule>)
    requires
        forall|k: int| 0 <= k < chosen@.len() ==> #[trigger] chosen@[k] < sources@.len(),
    ensures
        crate::models::rules_view(r@) == chosen@.map_values(|c: usize| wizard_rule(sources@[c as int]@, dest@, crate::models::strings_view(exclusions@), delete_missing)),
        r@.len() == chosen@.len(),
        forall|k: int| 0 <= k < r@.len() ==> {
            &&& (#[trigger] r@[k]).delete_missing == delete_missing
            &&& r@[k].source_path@ == sources@[chosen@[k] as int]@
            &&& r@[k].destination_path@ == dest@
            &&& crate::models::strings_view(r@[k].exclude@) == crate::models::strings_view(exclusions@)
        },
{
    let mut r: Vec<BackupRule> = Vec::new();
    let mut i: usize = 0;
    while i < chosen.len()
        invariant
            0 <= i <= chosen@.len(),
            forall|k: int| 0 <= k < chosen@.len() ==> #[trigger] chosen@[k] < sources@.len(),
            r@.len() == i,
            forall|k: int| 0 <= k < i ==> (#[trigger] r@[k])@ == wizard_rule(sources@[chosen@[k] as int]@, dest@, crate::models::strings_view(exclusions@), delete_missing),
        decreases chosen.len() - i,
    {
        let idx = chosen[i];
        r.push(BackupRule {
            source_path: sources[idx].clone(),
            destination_path: dest.to_owned(),
            exclude: crate::models::copy_strings(exclusions),
            delete_missing,
            incremental: false,
            post_backup_script: None,
            unmount_after: false,
        });
        i = i + 1;
    }
    assert(crate::models::rules_view(r@) =~= chosen@.map_values(|c: usize| wizard_rule(sources@[c as int]@, dest@, crate::models::strings_view(exclusions@), delete_missing)));
    r
}

/// Every rule the wizard builds carries the user's answers: the source picked
/// at its position, the chosen destination and exclusions, and the mirroring
/// choice as given (yes or no); it is not incremental, runs no script and
/// does not unmount.
pub proof fn lemma_rules_carry_answers(
    sources: Seq<Seq<char>>,
    chosen: Seq<usize>,
    dest: Seq<char>,
    exclusions: Seq<Seq<char>>,
    delete_missing: bool,
)
    requires
        forall|k: int| 0 <= k < chosen.len() ==> #[trigger] chosen[k] < sources.len(),
    ensures
        forall|k: int| #![trigger chosen[k]] 0 <= k < chosen.len() ==> {
            let rule = chosen.map_values(|c: usize| wizard_rule(sources[c as int], dest, exclusions, delete_missing))[k];
            &&& rule.delete_missing == delete_missing
            &&& rule.source_path == sources[chosen[k] as int]
            &&& rule.destination_path == dest
            &&& rule.exclude == exclusions
            &&& !rule.incremental
            &&& rule.post_backup_script is None
            &&& !rule.unmount_after
        },
{
}

/// The configuration of a newly set-up device: backed up on sight, with the
/// given rules, not yet signed.
pub fn new_device_config(name: &str, vendor_id: u16, product_id: u16, uuid: &str, rules: Vec<BackupRule>) -> (c: DeviceConfig)
    ensures
        c@ == (DeviceConfigView {
            name: name@,
            vendor_id,
            product_id,
            uuid: Some(uuid@),
            action: DeviceAction::Whitelist,
            backup_rules: crate::models::rules_view(rules@),
            signature: None,
        }),
{
    DeviceConfig {
        name: name.to_owned(),
        vendor_id,
        product_id,
        uuid: Some(uuid.to_owned()),
        action: DeviceAction::Whitelist,
        backup_rules: rules,
        signature: None,
    }
}

} // verus!

//! The config stage of the box init pipeline: assemble the instance
//! specification from the prepared filesystem, rootfs and guest-rootfs
//! outputs — mounts, block devices, guest entrypoint and port map.

use vstd::prelude::*;

use crate::image_config::{pair_views, ContainerImageConfig};
use crate::options::{BoxOptions, VolumeSpec};
use crate::ports::{setup_networking, spec_box_port_map, spec_dynamic_guest_ports, PortPlan};
use crate::strutil::{spec_dec_str, str_eq, u64_to_string};

verus! {

// ============================================================================
// Transports
// ============================================================================

/// A Unix-domain socket endpoint.
#[derive(Debug, Clone)]
pub struct Transport {
    pub path: String,
}

impl Transport {
    /// A transport over the Unix socket at `path`.
    pub fn unix(path: String) -> (r: Self)
        ensures
            r.path == path,
    {
        Transport { path }
    }

    /// The URI of this endpoint.
    pub open spec fn spec_uri(&self) -> Seq<char> {
        "unix://"@ + self.path@
    }

    /// Render the endpoint as a URI.
    pub fn to_uri(&self) -> (r: String)
        ensures
            r@ == self.spec_uri(),
    {
        let mut r = String::from_str("unix://");
        r.append(self.path.as_str());
        r
    }
}

// ============================================================================
// Guest entrypoint
// ============================================================================

/// The process started inside the guest.
#[derive(Debug, Clone)]
pub struct Entrypoint {
    pub executable: String,
    pub args: Vec<String>,
    pub env: Vec<(String, String)>,
}

/// `env` without the pairs keyed `k`, order kept.
pub open spec fn spec_without_key(env: Seq<(Seq<char>, Seq<char>)>, k: Seq<char>) -> Seq<
    (Seq<char>, Seq<char>),
>
    decreases env.len(),
{
    if env.len() == 0 {
        Seq::empty()
    } else {
        let front = spec_without_key(env.drop_last(), k);
        if env.last().0 == k {
            front
        } else {
            front.push(env.last())
        }
    }
}

/// `env` with the user pairs applied in order: each user pair removes any
/// pair with its key, then lands at the end.
pub open spec fn spec_override_env(
    env: Seq<(Seq<char>, Seq<char>)>,
    user: Seq<(Seq<char>, Seq<char>)>,
) -> Seq<(Seq<char>, Seq<char>)>
    decreases user.len(),
{
    if user.len() == 0 {
        env
    } else {
        spec_without_key(spec_override_env(env, user.drop_last()), user.last().0).push(user.last())
    }
}

/// Whether `env` holds a pair keyed `k`.
pub open spec fn spec_env_has_key(env: Seq<(Seq<char>, Seq<char>)>, k: Seq<char>) -> bool {
    exists|i: int| 0 <= i < env.len() && (#[trigger] env[i]).0 == k
}

/// `env` with the host's `RUST_LOG` forwarded, where set, non-empty and
/// not already present.
pub open spec fn spec_with_rust_log(
    env: Seq<(Seq<char>, Seq<char>)>,
    host: Option<Seq<char>>,
) -> Seq<(Seq<char>, Seq<char>)> {
    if !spec_env_has_key(env, "RUST_LOG"@) && (host matches Some(v) && v.len() > 0) {
        env.push(("RUST_LOG"@, host->0))
    } else {
        env
    }
}

/// Remove every pair keyed `key` from `env`, order kept.
fn env_remove_key(env: Vec<(String, String)>, key: &str) -> (r: Vec<(String, String)>)
    ensures
        pair_views(r@) == spec_without_key(pair_views(env@), key@),
{
    let n = env.len();
    let mut out: Vec<(String, String)> = Vec::new();
    proof {
        assert(pair_views(env@.take(0)) =~= Seq::<(Seq<char>, Seq<char>)>::empty());
        assert(pair_views(out@) =~= spec_without_key(pair_views(env@.take(0)), key@));
    }
    let mut i: usize = 0;
    while i < n
        invariant
            n == env@.len(),
            i <= n,
            pair_views(out@) == spec_without_key(pair_views(env@.take(i as int)), key@),
        decreases n - i,
    {
        proof {
            assert(pair_views(env@.take(i as int + 1)).drop_last() =~= pair_views(
                env@.take(i as int),
            ));
            assert(pair_views(env@.take(i as int + 1)).last() == (
                env@[i as int].0@,
                env@[i as int].1@,
            ));
        }
        let kv = &env[i];
        if !str_eq(kv.0.as_str(), key) {
            let ghost prev = out@;
            out.push((kv.0.clone(), kv.1.clone()));
            proof {
                assert(pair_views(out@) =~= pair_views(prev).push((kv.0@, kv.1@)));
            }
        }
        i += 1;
    }
    proof {
        assert(env@.take(n as int) =~= env@);
    }
    out
}

/// Whether `env` holds a pair keyed `key`.
fn env_has_key(env: &Vec<(String, String)>, key: &str) -> (r: bool)
    ensures
        r == spec_env_has_key(pair_views(env@), key@),
{
    let n = env.len();
    let mut i: usize = 0;
    while i < n
        invariant
            n == env@.len(),
            i <= n,
            forall|k: int| 0 <= k < i ==> (#[trigger] pair_views(env@)[k]).0 != key@,
        decreases n - i,
    {
        if str_eq(env[i].0.as_str(), key) {
            proof {
                assert((pair_views(env@)[i as int]).0 == key@);
            }
            return true;
        }
        i += 1;
    }
    false
}

/// Build the guest entrypoint: the guest agent binary with its listen and
/// ready-notify URIs, and the environment assembled from the init image's
/// variables, the user's variables (winning per key), and the host's
/// `RUST_LOG` where not already set.
pub fn build_guest_entrypoint(
    transport: &Transport,
    ready_transport: &Transport,
    init_env: &Vec<(String, String)>,
    options: &BoxOptions,
    host_rust_log: &Option<String>,
) -> (r: Entrypoint)
    ensures
        r.executable@ == "/usr/local/bin/boxlite-guest"@,
        r.args@.len() == 4,
        r.args@[0]@ == "--listen"@,
        r.args@[1]@ == transport.spec_uri(),
        r.args@[2]@ == "--notify"@,
        r.args@[3]@ == ready_transport.spec_uri(),
        pair_views(r.env@) == spec_with_rust_log(
            spec_override_env(pair_views(init_env@), pair_views(options.env@)),
            match host_rust_log {
                Some(s) => Some(s@),
                None => None,
            },
        ),
{
    let listen_uri = transport.to_uri();
    let ready_notify_uri = ready_transport.to_uri();

    // Start from the init image's environment.
    let mut env: Vec<(String, String)> = Vec::new();
    let ni = init_env.len();
    proof {
        assert(pair_views(env@) =~= pair_views(init_env@).take(0));
    }
    let mut i: usize = 0;
    while i < ni
        invariant
            ni == init_env@.len(),
            i <= ni,
            pair_views(env@) == pair_views(init_env@).take(i as int),
        decreases ni - i,
    {
        let kv = &init_env[i];
        let ghost prev = env@;
        env.push((kv.0.clone(), kv.1.clone()));
        proof {
            assert(pair_views(env@) =~= pair_views(prev).push((kv.0@, kv.1@)));
            assert(pair_views(prev).push((kv.0@, kv.1@)) =~= pair_views(init_env@).take(
                i as int + 1,
            ));
        }
        i += 1;
    }
    proof {
        assert(pair_views(init_env@).take(ni as int) =~= pair_views(init_env@));
    }

    // User variables win per key.
    let nu = options.env.len();
    let mut j: usize = 0;
    proof {
        assert(pair_views(options.env@).take(0) =~= Seq::<(Seq<char>, Seq<char>)>::empty());
    }
    while j < nu
        invariant
            nu == options.env@.len(),
            j <= nu,
            pair_views(env@) == spec_override_env(
                pair_views(init_env@),
                pair_views(options.env@).take(j as int),
            ),
        decreases nu - j,
    {
        proof {
            let uv = pair_views(options.env@);
            assert(uv.take(j as int + 1).drop_last() =~= uv.take(j as int));
            assert(uv.take(j as int + 1).last() == (
                options.env@[j as int].0@,
                options.env@[j as int].1@,
            ));
        }
        let kv = &options.env[j];
        env = env_remove_key(env, kv.0.as_str());
        let ghost stripped = env@;
        env.push((kv.0.clone(), kv.1.clone()));
        proof {
            assert(pair_views(env@) =~= pair_views(stripped).push((kv.0@, kv.1@)));
        }
        j += 1;
    }
    proof {
        assert(pair_views(options.env@).take(nu as int) =~= pair_views(options.env@));
    }

    // Forward the host's RUST_LOG where it is set and not overridden.
    if !env_has_key(&env, "RUST_LOG") {
        match host_rust_log {
            Some(s) => {
                if s.unicode_len() > 0 {
                    let ghost before = env@;
                    env.push((String::from_str("RUST_LOG"), s.clone()));
                    proof {
                        assert(pair_views(env@) =~= pair_views(before).push(("RUST_LOG"@, s@)));
                    }
                }
            },
            None => {},
        }
    }

    let args: Vec<String> = vec![
        String::from_str("--listen"),
        listen_uri,
        String::from_str("--notify"),
        ready_notify_uri,
    ];
    Entrypoint { executable: String::from_str("/usr/local/bin/boxlite-guest"), args, env }
}

// ============================================================================
// Mounts
// ============================================================================

/// One virtio-fs mount handed to the VMM: a tag, the host path it exposes,
/// and whether the guest sees it read-only.
#[derive(Debug, Clone)]
pub struct Mount {
    pub tag: String,
    pub host_path: String,
    pub read_only: bool,
}

/// The plain value of a mount.
pub open spec fn mount_view(m: Mount) -> (Seq<char>, Seq<char>, bool) {
    (m.tag@, m.host_path@, m.read_only)
}

/// The plain values of a mount list.
pub open spec fn mount_views(ms: Seq<Mount>) -> Seq<(Seq<char>, Seq<char>, bool)> {
    ms.map_values(|m: Mount| mount_view(m))
}

/// The mounts of an instance, in order.
#[derive(Debug, Clone)]
pub struct Mounts {
    pub mounts: Vec<Mount>,
}

impl Mounts {
    /// No mounts.
    pub fn new() -> (r: Self)
        ensures
            r.mounts@.len() == 0,
    {
        Mounts { mounts: Vec::new() }
    }

    /// Append a mount.
    pub fn add(&mut self, tag: &str, host_path: String, read_only: bool)
        ensures
            mount_views(final(self).mounts@) == mount_views(old(self).mounts@).push(
                (tag@, host_path@, read_only),
            ),
    {
        let ghost prev = self.mounts@;
        self.mounts.push(Mount { tag: String::from_str(tag), host_path, read_only });
        proof {
            assert(mount_views(self.mounts@) =~= mount_views(prev).push(
                (tag@, self.mounts@.last().host_path@, self.mounts@.last().read_only),
            ));
        }
    }
}

// ============================================================================
// Rootfs preparation results and user volumes
// ============================================================================

/// What the rootfs stage produced.
#[derive(Debug, Clone)]
pub enum RootfsPrepResult {
    /// All layers merged into one directory.
    Merged(String),
    /// A layers directory plus a writable overlay.
    Layers { layers_dir: String, overlay_dir: String },
    /// The rootfs lives in a base disk image of the given virtual size.
    DiskImage { base_disk_path: String, disk_size: u64 },
}

/// A user volume with its assigned mount tag.
#[derive(Debug, Clone)]
pub struct ResolvedVolume {
    pub tag: String,
    pub host_path: String,
    pub read_only: bool,
}

/// The mounts the user's volumes denote, with their assigned tags.
pub open spec fn spec_resolved_volumes(volumes: Seq<VolumeSpec>) -> Seq<(Seq<char>, Seq<char>, bool)> {
    Seq::new(
        volumes.len(),
        |i: int| ("vol"@ + spec_dec_str(i), volumes[i].host_path@, volumes[i].read_only),
    )
}

/// Assign each user volume the mount tag `vol<index>`.
pub fn resolve_user_volumes(volumes: &Vec<VolumeSpec>) -> (r: Vec<ResolvedVolume>)
    ensures
        r@.len() == volumes@.len(),
        spec_volume_mounts(r@) == spec_resolved_volumes(volumes@),
        forall|i: int|
            0 <= i < r@.len() ==> {
                &&& (#[trigger] r@[i]).tag@ == "vol"@ + spec_dec_str(i)
                &&& r@[i].host_path@ == volumes@[i].host_path@
                &&& r@[i].read_only == volumes@[i].read_only
            },
{
    let n = volumes.len();
    let mut r: Vec<ResolvedVolume> = Vec::new();
    let mut i: usize = 0;
    while i < n
        invariant
            n == volumes@.len(),
            i <= n,
            r@.len() == i,
            forall|k: int|
                0 <= k < i ==> {
                    &&& (#[trigger] r@[k]).tag@ == "vol"@ + spec_dec_str(k)
                    &&& r@[k].host_path@ == volumes@[k].host_path@
                    &&& r@[k].read_only == volumes@[k].read_only
                },
        decreases n - i,
    {
        let mut tag = String::from_str("vol");
        let num = u64_to_string(i as u64);
        tag.append(num.as_str());
        let v = &volumes[i];
        r.push(ResolvedVolume { tag, host_path: v.host_path.clone(), read_only: v.read_only });
        i += 1;
    }
    proof {
        assert(spec_volume_mounts(r@) =~= spec_resolved_volumes(volumes@));
    }
    r
}

/// The mounts the rootfs preparation contributes: the merged directory
/// read-write, the layers directory read-only, or none for a disk-backed
/// rootfs.
pub open spec fn spec_rootfs_mounts(rootfs_result: &RootfsPrepResult) -> Seq<
    (Seq<char>, Seq<char>, bool),
> {
    match rootfs_result {
        RootfsPrepResult::Merged(path) => seq![("rootfs"@, path@, false)],
        RootfsPrepResult::Layers { layers_dir, .. } => seq![("layers"@, layers_dir@, true)],
        RootfsPrepResult::DiskImage { .. } => Seq::empty(),
    }
}

/// The plain values of resolved volumes as mounts.
pub open spec fn spec_volume_mounts(vols: Seq<ResolvedVolume>) -> Seq<(Seq<char>, Seq<char>, bool)> {
    vols.map_values(|v: ResolvedVolume| (v.tag@, v.host_path@, v.read_only))
}

/// Assemble the instance's mounts: the writable directory under the tag
/// `rw`, the rootfs mount where the strategy needs one, then the user
/// volumes. The caller fixes the writable directory's permissions first.
pub fn build_volume_config(
    rw_dir: String,
    rootfs_result: &RootfsPrepResult,
    user_volumes: &Vec<ResolvedVolume>,
) -> (r: Mounts)
    ensures
        mount_views(r.mounts@) == seq![("rw"@, rw_dir@, false)] + spec_rootfs_mounts(rootfs_result)
            + spec_volume_mounts(user_volumes@),
{
    let ghost rw_view = rw_dir@;
    let mut mounts = Mounts::new();
    mounts.add("rw", rw_dir, false);
    match rootfs_result {
        RootfsPrepResult::Merged(path) => {
            mounts.add("rootfs", path.clone(), false);
        },
        RootfsPrepResult::Layers { layers_dir, .. } => {
            mounts.add("layers", layers_dir.clone(), true);
        },
        RootfsPrepResult::DiskImage { .. } => {},
    }
    let ghost base = mount_views(mounts.mounts@);
    proof {
        assert(base =~= seq![("rw"@, rw_view, false)] + spec_rootfs_mounts(rootfs_result));
        assert(spec_volume_mounts(user_volumes@).take(0) =~= Seq::<(Seq<char>, Seq<char>, bool)>::empty());
        assert(base + spec_volume_mounts(user_volumes@).take(0) =~= base);
    }
    let n = user_volumes.len();
    let mut i: usize = 0;
    while i < n
        invariant
            n == user_volumes@.len(),
            i <= n,
            mount_views(mounts.mounts@) == base + spec_volume_mounts(user_volumes@).take(i as int),
        decreases n - i,
    {
        let v = &user_volumes[i];
        mounts.add(v.tag.as_str(), v.host_path.clone(), v.read_only);
        proof {
            assert(mount_views(mounts.mounts@) =~= base + spec_volume_mounts(
                user_volumes@,
            ).take(i as int + 1));
        }
        i += 1;
    }
    proof {
        assert(spec_volume_mounts(user_volumes@).take(n as int) =~= spec_volume_mounts(
            user_volumes@,
        ));
    }
    mounts
}

} // verus!

use vstd::prelude::*;

verus! {

// ============================================================================
// Block devices
// ============================================================================

/// On-disk format of a disk image.
#[derive(Debug, Clone, Copy, PartialEq, Eq, Structural)]
pub enum DiskFormat {
    Raw,
    Qcow2,
    Ext4,
}

/// One virtio-blk device: the image on the host and the device path the
/// guest sees.
#[derive(Debug, Clone)]
pub struct BlockDevice {
    pub path: String,
    pub format: DiskFormat,
    pub device_path: String,
}

/// The guest device path of the disk at position `i`: `/dev/vda`,
/// `/dev/vdb`, and so on.
pub open spec fn spec_device_path(i: int) -> Seq<char> {
    "/dev/vd"@.push((('a' as int) + i) as char)
}

/// The device path literal for position `i`.
fn device_path_str(i: usize) -> (r: &'static str)
    requires
        i < 26,
    ensures
        r@ == spec_device_path(i as int),
{
    proof {
        reveal_strlit("/dev/vd");
        reveal_strlit("/dev/vda");
        reveal_strlit("/dev/vdb");
        reveal_strlit("/dev/vdc");
        reveal_strlit("/dev/vdd");
        reveal_strlit("/dev/vde");
        reveal_strlit("/dev/vdf");
        reveal_strlit("/dev/vdg");
        reveal_strlit("/dev/vdh");
        reveal_strlit("/dev/vdi");
        reveal_strlit("/dev/vdj");
        reveal_strlit("/dev/vdk");
        reveal_strlit("/dev/vdl");
        reveal_strlit("/dev/vdm");
        reveal_strlit("/dev/vdn");
        reveal_strlit("/dev/vdo");
        reveal_strlit("/dev/vdp");
        reveal_strlit("/dev/vdq");
        reveal_strlit("/dev/vdr");
        reveal_strlit("/dev/vds");
        reveal_strlit("/dev/vdt");
        reveal_strlit("/dev/vdu");
        reveal_strlit("/dev/vdv");
        reveal_strlit("/dev/vdw");
        reveal_strlit("/dev/vdx");
        reveal_strlit("/dev/vdy");
        reveal_strlit("/dev/vdz");
    }
    let r: &'static str = match i {
        0 => "/dev/vda",
        1 => "/dev/vdb",
        2 => "/dev/vdc",
        3 => "/dev/vdd",
        4 => "/dev/vde",
        5 => "/dev/vdf",
        6 => "/dev/vdg",
        7 => "/dev/vdh",
        8 => "/dev/vdi",
        9 => "/dev/vdj",
        10 => "/dev/vdk",
        11 => "/dev/vdl",
        12 => "/dev/vdm",
        13 => "/dev/vdn",
        14 => "/dev/vdo",
        15 => "/dev/vdp",
        16 => "/dev/vdq",
        17 => "/dev/vdr",
        18 => "/dev/vds",
        19 => "/dev/vdt",
        20 => "/dev/vdu",
        21 => "/dev/vdv",
        22 => "/dev/vdw",
        23 => "/dev/vdx",
        24 => "/dev/vdy",
        _ => "/dev/vdz",
    };
    proof {
        assert(r@ =~= spec_device_path(i as int));
    }
    r
}

/// Registers disks and assigns each the next guest device path, so that
/// device paths are unique within one instance.
#[derive(Debug, Clone)]
pub struct BlockDeviceManager {
    pub disks: Vec<BlockDevice>,
}

impl BlockDeviceManager {
    /// Every registered disk carries the device path of its position.
    pub open spec fn wf(&self) -> bool {
        forall|i: int|
            0 <= i < self.disks@.len() ==> (#[trigger] self.disks@[i]).device_path@
                == spec_device_path(i)
    }

    /// An empty table.
    pub fn new() -> (r: Self)
        ensures
            r.disks@.len() == 0,
            r.wf(),
    {
        BlockDeviceManager { disks: Vec::new() }
    }

    /// Register a disk; returns the guest device path assigned to it.
    pub fn add_disk(&mut self, path: String, format: DiskFormat) -> (device_path: String)
        requires
            old(self).wf(),
            old(self).disks@.len() < 26,
        ensures
            final(self).wf(),
            final(self).disks@.len() == old(self).disks@.len() + 1,
            final(self).disks@.drop_last() == old(self).disks@,
            final(self).disks@.last().path == path,
            final(self).disks@.last().format == format,
            device_path@ == spec_device_path(old(self).disks@.len() as int),
            final(self).disks@.last().device_path@ == device_path@,
    {
        let idx = self.disks.len();
        let dev = device_path_str(idx);
        let device_path = String::from_str(dev);
        self.disks.push(
            BlockDevice { path, format, device_path: String::from_str(dev) },
        );
        proof {
            assert(self.disks@.drop_last() =~= old(self).disks@);
        }
        device_path
    }

    /// Hand the registered disks out.
    pub fn build(self) -> (r: Vec<BlockDevice>)
        ensures
            r == self.disks,
    {
        self.disks
    }
}

/// Device paths in a well-formed table are unique.
pub proof fn lemma_device_paths_unique(m: &BlockDeviceManager)
    requires
        m.wf(),
        m.disks@.len() <= 26,
    ensures
        forall|i: int, j: int|
            0 <= i < j < m.disks@.len() ==> (#[trigger] m.disks@[i]).device_path@ != (
            #[trigger] m.disks@[j]).device_path@,
{
    assert forall|i: int, j: int| 0 <= i < j < m.disks@.len() implies (
    #[trigger] m.disks@[i]).device_path@ != (#[trigger] m.disks@[j]).device_path@ by {
        reveal_strlit("/dev/vd");
        assert(spec_device_path(i)[7] == (('a' as int) + i) as char);
        assert(spec_device_path(j)[7] == (('a' as int) + j) as char);
        assert(((('a' as int) + i) as char) as int == ('a' as int) + i);
        assert(((('a' as int) + j) as char) as int == ('a' as int) + j);
    }
}

// ============================================================================
// Disk planning
// ============================================================================

/// Which disks the config stage creates for a box.
#[derive(Debug, Clone)]
pub enum DiskPlan {
    /// Disk-backed rootfs: a COW child over the base disk of the given
    /// virtual size, plus a fresh data disk the guest formats.
    RootfsCow { base_disk_path: String, disk_size: u64 },
    /// A COW child of a cached qcow2 image; it arrives formatted.
    CowChild,
    /// A fresh empty data disk; the guest formats it.
    Empty,
}

/// Decide the disks to create from the rootfs preparation result and
/// whether the image cache holds a disk image. The flag says whether the
/// data disk arrives formatted (a COW child of a formatted image).
pub fn plan_disks(rootfs_result: &RootfsPrepResult, has_cached_disk_image: bool) -> (r: (
    DiskPlan,
    bool,
))
    ensures
        match rootfs_result {
            RootfsPrepResult::DiskImage { base_disk_path, disk_size } => r.0
                matches DiskPlan::RootfsCow {
                base_disk_path: b,
                disk_size: s,
            } && b@ == base_disk_path@ && s == disk_size && r.1 == false,
            _ => {
                &&& has_cached_disk_image ==> r.0 is CowChild && r.1 == true
                &&& !has_cached_disk_image ==> r.0 is Empty && r.1 == false
            },
        },
{
    match rootfs_result {
        RootfsPrepResult::DiskImage { base_disk_path, disk_size } => {
            (
                DiskPlan::RootfsCow {
                    base_disk_path: base_disk_path.clone(),
                    disk_size: *disk_size,
                },
                false,
            )
        },
        _ => {
            if has_cached_disk_image {
                (DiskPlan::CowChild, true)
            } else {
                (DiskPlan::Empty, false)
            }
        },
    }
}

// ============================================================================
// Init rootfs disk
// ============================================================================

/// The copy-on-write child disk to create for a disk-backed init rootfs.
#[derive(Debug, Clone)]
pub struct InitDiskPlan {
    /// The shared base disk the child is backed by.
    pub base_disk_path: String,
    /// The per-box child at `<box root>/init.qcow2`.
    pub child_disk_path: String,
    /// The child's virtual size: the base disk's size.
    pub size: u64,
}

/// Plan the init rootfs disk: a disk-backed strategy gets a per-box
/// copy-on-write child (so the shared base stays untouched), registered
/// as the next block device and stamped into the strategy; any other
/// strategy passes through unchanged.
pub fn plan_init_disk(
    strategy: crate::guest_rootfs::Strategy,
    box_root: String,
    base_size: u64,
    block_manager: &mut BlockDeviceManager,
) -> (r: (crate::guest_rootfs::Strategy, Option<InitDiskPlan>))
    requires
        old(block_manager).wf(),
        old(block_manager).disks@.len() < 26,
    ensures
        final(block_manager).wf(),
        !(strategy is Disk) ==> r.0 == strategy && r.1 is None && *final(block_manager) == *old(
            block_manager,
        ),
        strategy matches crate::guest_rootfs::Strategy::Disk { disk_path, .. } ==> {
            &&& (r.1 matches Some(plan) && {
                &&& plan.base_disk_path@ == disk_path@
                &&& plan.child_disk_path@ == box_root@ + "/init.qcow2"@
                &&& plan.size == base_size
            })
            &&& (r.0 matches crate::guest_rootfs::Strategy::Disk {
                disk_path: child,
                device_path: dev,
            } && child@ == box_root@ + "/init.qcow2"@ && (dev matches Some(d) && d@
                == spec_device_path(old(block_manager).disks@.len() as int)))
            &&& final(block_manager).disks@.len() == old(block_manager).disks@.len() + 1
            &&& final(block_manager).disks@.drop_last() == old(block_manager).disks@
            &&& final(block_manager).disks@.last().path@ == box_root@ + "/init.qcow2"@
            &&& final(block_manager).disks@.last().format == DiskFormat::Qcow2
        },
{
    match strategy {
        crate::guest_rootfs::Strategy::Disk { disk_path, device_path: _ } => {
            let mut child = box_root;
            child.append("/init.qcow2");
            let device_path = block_manager.add_disk(child.clone(), DiskFormat::Qcow2);
            let plan = InitDiskPlan {
                base_disk_path: disk_path,
                child_disk_path: child.clone(),
                size: base_size,
            };
            (
                crate::guest_rootfs::Strategy::Disk {
                    disk_path: child,
                    device_path: Some(device_path),
                },
                Some(plan),
            )
        },
        other => (other, None),
    }
}

// ============================================================================
// Instance specification
// ============================================================================

/// The fully resolved specification the shim receives: what to boot and
/// how to reach the guest.
#[derive(Debug, Clone)]
pub struct InstanceSpec {
    pub cpus: Option<u8>,
    pub memory_mib: Option<u32>,
    pub volumes: Mounts,
    pub disks: Vec<BlockDevice>,
    pub guest_entrypoint: Entrypoint,
    /// URI of the guest RPC listen socket.
    pub transport_uri: String,
    /// URI of the ready-notify socket.
    pub ready_transport_uri: String,
    /// Fixed and dynamic port mappings for the network backend.
    pub port_map: PortPlan,
    pub home_dir: String,
}

/// Assemble the instance specification from the prepared stage outputs.
///
/// The caller (the pipeline around this stage) has already created the
/// disks the plan of `plan_disks` names and registered them in `block_manager`.
pub fn build_instance_spec(
    options: &BoxOptions,
    container_config: &ContainerImageConfig,
    transport: &Transport,
    ready_transport: &Transport,
    rw_dir: String,
    rootfs_result: &RootfsPrepResult,
    init_env: &Vec<(String, String)>,
    host_rust_log: &Option<String>,
    block_manager: BlockDeviceManager,
    home_dir: String,
) -> (r: InstanceSpec)
    ensures
        r.cpus == options.cpus,
        r.memory_mib == options.memory_mib,
        mount_views(r.volumes.mounts@) == seq![("rw"@, rw_dir@, false)] + spec_rootfs_mounts(
            rootfs_result,
        ) + spec_resolved_volumes(options.volumes@),
        r.disks == block_manager.disks,
        r.guest_entrypoint.executable@ == "/usr/local/bin/boxlite-guest"@,
        pair_views(r.guest_entrypoint.env@) == spec_with_rust_log(
            spec_override_env(pair_views(init_env@), pair_views(options.env@)),
            match host_rust_log {
                Some(s) => Some(s@),
                None => None,
            },
        ),
        r.transport_uri@ == transport.spec_uri(),
        r.ready_transport_uri@ == ready_transport.spec_uri(),
        forall|i: int|
            0 <= i < r.port_map.fixed@.len() ==> spec_box_port_map(
                container_config,
                options,
            ).contains_pair((#[trigger] r.port_map.fixed@[i]).0, r.port_map.fixed@[i].1),
        forall|h: u16, g: u16|
            spec_box_port_map(container_config, options).contains_pair(h, g)
                ==> r.port_map.fixed@.contains((h, g)),
        r.port_map.dynamic_guest_ports@ == spec_dynamic_guest_ports(options.ports@),
        r.home_dir == home_dir,
{
    let user_volumes = resolve_user_volumes(&options.volumes);
    let volumes = build_volume_config(rw_dir, rootfs_result, &user_volumes);
    let guest_entrypoint = build_guest_entrypoint(
        transport,
        ready_transport,
        init_env,
        options,
        host_rust_log,
    );
    let port_map = setup_networking(container_config, options);
    InstanceSpec {
        cpus: options.cpus,
        memory_mib: options.memory_mib,
        volumes,
        disks: block_manager.build(),
        guest_entrypoint,
        transport_uri: transport.to_uri(),
        ready_transport_uri: ready_transport.to_uri(),
        port_map,
        home_dir,
    }
}

} // verus!

//! Runtime and per-box configuration options, their defaults, the
//! security presets, and option validation.

use vstd::prelude::*;

use crate::errors::{BoxliteError, BoxliteResult};

verus! {

// ============================================================================
// Security options
// ============================================================================

/// Resource limits applied to the shim process before VMM creation.
/// All limits are advisory; `None` leaves the system default in place.
#[derive(Clone, Debug)]
pub struct ResourceLimits {
    pub max_open_files: Option<u64>,
    pub max_file_size: Option<u64>,
    pub max_processes: Option<u64>,
    pub max_memory: Option<u64>,
    pub max_cpu_time: Option<u64>,
}

impl ResourceLimits {
    /// All fields unset.
    pub open spec fn spec_default() -> ResourceLimits {
        ResourceLimits {
            max_open_files: None,
            max_file_size: None,
            max_processes: None,
            max_memory: None,
            max_cpu_time: None,
        }
    }
}

impl Default for ResourceLimits {
    fn default() -> (r: Self)
        ensures
            r == ResourceLimits::spec_default(),
    {
        ResourceLimits {
            max_open_files: None,
            max_file_size: None,
            max_processes: None,
            max_memory: None,
            max_cpu_time: None,
        }
    }
}

/// Security isolation options for the shim process of one box.
#[derive(Clone, Debug)]
pub struct SecurityOptions {
    /// Jailer isolation (namespaces, chroot, privilege drop).
    pub jailer_enabled: bool,
    /// Seccomp syscall filtering.
    pub seccomp_enabled: bool,
    /// UID to drop to after setup; `None` auto-allocates.
    pub uid: Option<u32>,
    /// GID to drop to after setup; `None` auto-allocates.
    pub gid: Option<u32>,
    /// Create a new PID namespace.
    pub new_pid_ns: bool,
    /// Create a new network namespace.
    pub new_net_ns: bool,
    /// Base directory for chroot jails.
    pub chroot_base: String,
    /// Chroot isolation.
    pub chroot_enabled: bool,
    /// Close inherited file descriptors before VM start.
    pub close_fds: bool,
    /// Clear all environment variables except the allowlist.
    pub sanitize_env: bool,
    /// Environment variables preserved when sanitizing.
    pub env_allowlist: Vec<String>,
    /// Resource limits to apply.
    pub resource_limits: ResourceLimits,
    /// Custom sandbox profile path; `None` uses the built-in profile.
    pub sandbox_profile: Option<String>,
    /// Network access from the sandbox (needed for VM networking).
    pub network_enabled: bool,
}

pub fn default_jailer_enabled() -> (r: bool)
    ensures
        r == false,
{
    false
}

pub fn default_seccomp_enabled() -> (r: bool)
    ensures
        r == false,
{
    false
}

pub fn default_chroot_base() -> (r: String)
    ensures
        r@ == "/srv/boxlite"@,
{
    String::from_str("/srv/boxlite")
}

/// Chroot isolation is on by default: this build targets Linux.
pub fn default_chroot_enabled() -> (r: bool)
    ensures
        r == true,
{
    true
}

pub fn default_close_fds() -> (r: bool)
    ensures
        r == true,
{
    true
}

pub fn default_sanitize_env() -> (r: bool)
    ensures
        r == true,
{
    true
}

/// The environment variables preserved when sanitizing the shim's
/// environment.
pub open spec fn spec_default_env_allowlist() -> Seq<Seq<char>> {
    seq!["RUST_LOG"@, "PATH"@, "HOME"@, "USER"@, "LANG"@, "TERM"@]
}

pub fn default_env_allowlist() -> (r: Vec<String>)
    ensures
        r@.map_values(|s: String| s@) == spec_default_env_allowlist(),
{
    let r: Vec<String> = vec![
        String::from_str("RUST_LOG"),
        String::from_str("PATH"),
        String::from_str("HOME"),
        String::from_str("USER"),
        String::from_str("LANG"),
        String::from_str("TERM"),
    ];
    proof {
        assert(r@.map_values(|s: String| s@) =~= spec_default_env_allowlist());
    }
    r
}

pub fn default_network_enabled() -> (r: bool)
    ensures
        r == true,
{
    true
}

/// The shape shared by the default security options.
pub open spec fn spec_security_defaults(s: &SecurityOptions) -> bool {
    &&& s.jailer_enabled == false
    &&& s.seccomp_enabled == false
    &&& s.uid is None
    &&& s.gid is None
    &&& s.new_pid_ns == false
    &&& s.new_net_ns == false
    &&& s.chroot_base@ == "/srv/boxlite"@
    &&& s.chroot_enabled == true
    &&& s.close_fds == true
    &&& s.sanitize_env == true
    &&& s.env_allowlist@.map_values(|v: String| v@) == spec_default_env_allowlist()
    &&& s.resource_limits == ResourceLimits::spec_default()
    &&& s.sandbox_profile is None
    &&& s.network_enabled == true
}

impl Default for SecurityOptions {
    fn default() -> (r: Self)
        ensures
            spec_security_defaults(&r),
    {
        SecurityOptions {
            jailer_enabled: default_jailer_enabled(),
            seccomp_enabled: default_seccomp_enabled(),
            uid: None,
            gid: None,
            new_pid_ns: false,
            new_net_ns: false,
            chroot_base: default_chroot_base(),
            chroot_enabled: default_chroot_enabled(),
            close_fds: default_close_fds(),
            sanitize_env: default_sanitize_env(),
            env_allowlist: default_env_allowlist(),
            resource_limits: ResourceLimits::default(),
            sandbox_profile: None,
            network_enabled: default_network_enabled(),
        }
    }
}

impl SecurityOptions {
    /// Development preset: minimal isolation for debugging.
    pub fn development() -> (r: Self)
        ensures
            r.jailer_enabled == false,
            r.seccomp_enabled == false,
            r.chroot_enabled == false,
            r.close_fds == false,
            r.sanitize_env == false,
            r.uid is None,
            r.gid is None,
            r.network_enabled == true,
    {
        let mut r = SecurityOptions::default();
        r.jailer_enabled = false;
        r.seccomp_enabled = false;
        r.chroot_enabled = false;
        r.close_fds = false;
        r.sanitize_env = false;
        r
    }

    /// Standard preset: the recommended configuration. Jailer and seccomp
    /// are enabled on this (Linux) target.
    pub fn standard() -> (r: Self)
        ensures
            r.jailer_enabled == true,
            r.seccomp_enabled == true,
            r.chroot_enabled == true,
            r.close_fds == true,
            r.sanitize_env == true,
    {
        let mut r = SecurityOptions::default();
        r.jailer_enabled = true;
        r.seccomp_enabled = true;
        r
    }

    /// Maximum preset: every isolation feature enabled, single-variable
    /// environment allowlist, and conservative resource limits.
    pub fn maximum() -> (r: Self)
        ensures
            r.jailer_enabled == true,
            r.seccomp_enabled == true,
            r.uid == Some(65534u32),
            r.gid == Some(65534u32),
            r.new_pid_ns == true,
            r.new_net_ns == false,
            r.chroot_enabled == true,
            r.close_fds == true,
            r.sanitize_env == true,
            r.env_allowlist@.map_values(|v: String| v@) == seq!["RUST_LOG"@],
            r.resource_limits.max_open_files == Some(1024u64),
            r.resource_limits.max_file_size == Some(0x4000_0000u64),
            r.resource_limits.max_processes == Some(100u64),
            r.resource_limits.max_memory is None,
            r.resource_limits.max_cpu_time is None,
    {
        let mut r = SecurityOptions::default();
        r.jailer_enabled = true;
        r.seccomp_enabled = true;
        r.uid = Some(65534);
        r.gid = Some(65534);
        r.new_pid_ns = true;
        r.new_net_ns = false;
        r.close_fds = true;
        r.sanitize_env = true;
        let allow: Vec<String> = vec![String::from_str("RUST_LOG")];
        proof {
            assert(allow@.map_values(|v: String| v@) =~= seq!["RUST_LOG"@]);
        }
        r.env_allowlist = allow;
        r.resource_limits = ResourceLimits {
            max_open_files: Some(1024),
            max_file_size: Some(0x4000_0000),
            max_processes: Some(100),
            max_memory: None,
            max_cpu_time: None,
        };
        r
    }

    /// Whether this platform supports the full jailer feature set.
    /// True: this build targets Linux.
    pub fn is_full_isolation_available() -> (r: bool)
        ensures
            r == true,
    {
        true
    }
}

// ============================================================================
// Runtime options
// ============================================================================

/// Options for the runtime itself.
#[derive(Clone, Debug)]
pub struct BoxliteOptions {
    /// The home directory holding the store, images and per-box subtrees.
    pub home_dir: String,
    /// Registries tried, in order, when pulling an image.
    pub image_registries: Vec<String>,
}

impl BoxliteOptions {
    /// Runtime options for the given home directory and no extra registries.
    pub fn new(home_dir: String) -> (r: Self)
        ensures
            r.home_dir == home_dir,
            r.image_registries@.len() == 0,
    {
        BoxliteOptions { home_dir, image_registries: Vec::new() }
    }
}

// ============================================================================
// Box options
// ============================================================================

/// How to populate the box root filesystem.
#[derive(Clone, Debug)]
pub enum RootfsSpec {
    /// Pull/resolve this registry image reference.
    Image(String),
    /// Use an already prepared rootfs at the given host path.
    RootfsPath(String),
}

impl Default for RootfsSpec {
    fn default() -> (r: Self)
        ensures
            r matches RootfsSpec::Image(s) && s@ == "alpine:latest"@,
    {
        RootfsSpec::Image(String::from_str("alpine:latest"))
    }
}

/// Filesystem mount specification.
#[derive(Clone, Debug)]
pub struct VolumeSpec {
    pub host_path: String,
    pub guest_path: String,
    pub read_only: bool,
}

impl Default for VolumeSpec {
    fn default() -> (r: Self)
        ensures
            r.host_path@.len() == 0,
            r.guest_path@.len() == 0,
            r.read_only == false,
    {
        VolumeSpec { host_path: String::new(), guest_path: String::new(), read_only: false }
    }
}

/// Network isolation options.
#[derive(Clone, Copy, Debug, PartialEq, Eq, Structural)]
pub enum NetworkSpec {
    Isolated,
}

impl Default for NetworkSpec {
    fn default() -> (r: Self)
        ensures
            r is Isolated,
    {
        NetworkSpec::Isolated
    }
}

/// Port mapping protocol.
#[derive(Clone, Copy, Debug, PartialEq, Eq, Structural)]
pub enum PortProtocol {
    Tcp,
    Udp,
}

impl Default for PortProtocol {
    fn default() -> (r: Self)
        ensures
            r is Tcp,
    {
        PortProtocol::Tcp
    }
}

pub fn default_protocol() -> (r: PortProtocol)
    ensures
        r is Tcp,
{
    PortProtocol::Tcp
}

/// Port mapping specification (host to guest).
#[derive(Clone, Debug)]
pub struct PortSpec {
    /// `None` means the network backend assigns the host port.
    pub host_port: Option<u16>,
    pub guest_port: u16,
    pub protocol: PortProtocol,
    /// Optional bind IP; defaults to all interfaces when `None`.
    pub host_ip: Option<String>,
}

impl Default for PortSpec {
    fn default() -> (r: Self)
        ensures
            r.host_port is None,
            r.guest_port == 0u16,
            r.protocol is Tcp,
            r.host_ip is None,
    {
        PortSpec { host_port: None, guest_port: 0, protocol: PortProtocol::Tcp, host_ip: None }
    }
}

/// Boxes are removed on stop unless configured otherwise.
pub fn default_auto_remove() -> (r: bool)
    ensures
        r == true,
{
    true
}

/// Boxes stop with their parent process unless detached.
pub fn default_detach() -> (r: bool)
    ensures
        r == false,
{
    false
}

/// Options used when constructing a box.
#[derive(Clone, Debug)]
pub struct BoxOptions {
    pub cpus: Option<u8>,
    pub memory_mib: Option<u32>,
    /// Disk size in GB for the container rootfs (sparse, grows as needed).
    pub disk_size_gb: Option<u64>,
    pub working_dir: Option<String>,
    pub env: Vec<(String, String)>,
    pub rootfs: RootfsSpec,
    pub volumes: Vec<VolumeSpec>,
    pub network: NetworkSpec,
    pub ports: Vec<PortSpec>,
    /// Bind-mount isolation for the shared mounts directory.
    pub isolate_mounts: bool,
    /// Remove the box from the store and delete its files on stop.
    pub auto_remove: bool,
    /// Keep the box running when the parent process exits.
    pub detach: bool,
    /// Security isolation options for the box.
    pub security: SecurityOptions,
}

/// The default shape of `BoxOptions`.
pub open spec fn spec_box_options_defaults(o: &BoxOptions) -> bool {
    &&& o.cpus is None
    &&& o.memory_mib is None
    &&& o.disk_size_gb is None
    &&& o.working_dir is None
    &&& o.env@.len() == 0
    &&& o.rootfs matches RootfsSpec::Image(s) && s@ == "alpine:latest"@
    &&& o.volumes@.len() == 0
    &&& o.network is Isolated
    &&& o.ports@.len() == 0
    &&& o.isolate_mounts == false
    &&& o.auto_remove == true
    &&& o.detach == false
    &&& spec_security_defaults(&o.security)
}

impl Default for BoxOptions {
    fn default() -> (r: Self)
        ensures
            spec_box_options_defaults(&r),
    {
        BoxOptions {
            cpus: None,
            memory_mib: None,
            disk_size_gb: None,
            working_dir: None,
            env: Vec::new(),
            rootfs: RootfsSpec::default(),
            volumes: Vec::new(),
            network: NetworkSpec::default(),
            ports: Vec::new(),
            isolate_mounts: false,
            auto_remove: default_auto_remove(),
            detach: default_detach(),
            security: SecurityOptions::default(),
        }
    }
}

impl BoxOptions {
    /// Validate option combinations.
    ///
    /// `auto_remove` together with `detach` is rejected: a detached box
    /// survives its parent, so its lifecycle must be managed manually.
    /// Everything else is accepted (this build targets Linux, where
    /// `isolate_mounts` is supported).
    pub fn sanitize(&self) -> (r: BoxliteResult<()>)
        ensures
            r is Ok <==> !(self.auto_remove && self.detach),
            r matches Err(e) ==> e matches BoxliteError::InvalidArgument(m)
                && m@ == "auto_remove=true is incompatible with detach=true: detached boxes need manual lifecycle control"@,
    {
        if self.auto_remove && self.detach {
            Err(BoxliteError::InvalidArgument(String::from_str(
                "auto_remove=true is incompatible with detach=true: detached boxes need manual lifecycle control",
            )))
        } else {
            Ok(())
        }
    }
}

} // verus!

//! JSON encoding of box options, and decoding with the documented
//! defaults for missing fields (`auto_remove` true, `detach` false,
//! `isolate_mounts` false, default security options).
//!
//! The encoding predicates below pin what each field looks like in JSON;
//! the encoder establishes them, the decoder recovers exactly the options
//! they describe, and the round-trip law at the end ties the two.

use vstd::prelude::*;

use crate::json::{spec_obj_get, JsonValue};
use crate::options::{
    default_auto_remove, default_detach, BoxOptions, BoxliteOptions, NetworkSpec, PortProtocol,
    PortSpec, ResourceLimits, RootfsSpec, SecurityOptions, VolumeSpec,
};
use crate::strutil::str_eq;

verus! {

// ============================================================================
// Encoding predicates
// ============================================================================

/// An optional number: `null` or an integer.
pub open spec fn spec_opt_int_encoding(v: JsonValue, n: Option<int>) -> bool {
    match n {
        Some(x) => v matches JsonValue::Int(i) && i as int == x,
        None => v is Null,
    }
}

/// An optional string: `null` or a string.
pub open spec fn spec_opt_str_encoding(v: JsonValue, s: Option<Seq<char>>) -> bool {
    match s {
        Some(x) => v matches JsonValue::Str(st) && st@ == x,
        None => v is Null,
    }
}

/// Environment pairs: an array of two-element `[key, value]` arrays.
pub open spec fn spec_env_encoding(v: JsonValue, env: Seq<(String, String)>) -> bool {
    v matches JsonValue::Arr(items) && items@.len() == env.len() && (forall|i: int|
        0 <= i < env.len() ==> ((#[trigger] items@[i]) matches JsonValue::Arr(kv) && {
            &&& kv@.len() == 2
            &&& (kv@[0] matches JsonValue::Str(k) && k@ == env[i].0@)
            &&& (kv@[1] matches JsonValue::Str(x) && x@ == env[i].1@)
        }))
}

/// A list of strings.
pub open spec fn spec_string_list_encoding(v: JsonValue, l: Seq<String>) -> bool {
    v matches JsonValue::Arr(items) && items@.len() == l.len() && (forall|i: int|
        0 <= i < l.len() ==> ((#[trigger] items@[i]) matches JsonValue::Str(s) && s@ == l[i]@))
}

/// A rootfs spec: a one-field object tagged by the variant.
pub open spec fn spec_rootfs_encoding(v: JsonValue, r: RootfsSpec) -> bool {
    match r {
        RootfsSpec::Image(s) => v matches JsonValue::Obj(fs) && fs@.len() == 1 && fs@[0].0@
            == "Image"@ && (fs@[0].1 matches JsonValue::Str(x) && x@ == s@),
        RootfsSpec::RootfsPath(s) => v matches JsonValue::Obj(fs) && fs@.len() == 1 && fs@[0].0@
            == "RootfsPath"@ && (fs@[0].1 matches JsonValue::Str(x) && x@ == s@),
    }
}

/// One volume: an object of its three fields.
pub open spec fn spec_volume_encoding(v: JsonValue, vol: VolumeSpec) -> bool {
    v matches JsonValue::Obj(fs) && {
        &&& fs@.len() == 3
        &&& fs@[0].0@ == "host_path"@ && (fs@[0].1 matches JsonValue::Str(h) && h@
            == vol.host_path@)
        &&& fs@[1].0@ == "guest_path"@ && (fs@[1].1 matches JsonValue::Str(g) && g@
            == vol.guest_path@)
        &&& fs@[2].0@ == "read_only"@ && fs@[2].1 == JsonValue::Bool(vol.read_only)
    }
}

/// The volume list.
pub open spec fn spec_volumes_encoding(v: JsonValue, vols: Seq<VolumeSpec>) -> bool {
    v matches JsonValue::Arr(items) && items@.len() == vols.len() && (forall|i: int|
        0 <= i < vols.len() ==> spec_volume_encoding(#[trigger] items@[i], vols[i]))
}

/// The network spec: its variant name.
pub open spec fn spec_network_encoding(v: JsonValue, n: NetworkSpec) -> bool {
    v matches JsonValue::Str(s) && s@ == "Isolated"@
}

/// A protocol: its variant name.
pub open spec fn spec_protocol_encoding(v: JsonValue, p: PortProtocol) -> bool {
    v matches JsonValue::Str(s) && s@ == (match p {
        PortProtocol::Tcp => "Tcp"@,
        PortProtocol::Udp => "Udp"@,
    })
}

/// One port mapping: an object of its four fields.
pub open spec fn spec_port_encoding(v: JsonValue, p: PortSpec) -> bool {
    v matches JsonValue::Obj(fs) && {
        &&& fs@.len() == 4
        &&& fs@[0].0@ == "host_port"@ && spec_opt_int_encoding(
            fs@[0].1,
            match p.host_port {
                Some(h) => Some(h as int),
                None => None,
            },
        )
        &&& fs@[1].0@ == "guest_port"@ && (fs@[1].1 matches JsonValue::Int(g) && g as int
            == p.guest_port as int)
        &&& fs@[2].0@ == "protocol"@ && spec_protocol_encoding(fs@[2].1, p.protocol)
        &&& fs@[3].0@ == "host_ip"@ && spec_opt_str_encoding(
            fs@[3].1,
            match p.host_ip {
                Some(h) => Some(h@),
                None => None,
            },
        )
    }
}

/// The port list.
pub open spec fn spec_ports_encoding(v: JsonValue, ports: Seq<PortSpec>) -> bool {
    v matches JsonValue::Arr(items) && items@.len() == ports.len() && (forall|i: int|
        0 <= i < ports.len() ==> spec_port_encoding(#[trigger] items@[i], ports[i]))
}

/// Resource limits: an object of five optional numbers.
pub open spec fn spec_limits_encoding(v: JsonValue, l: ResourceLimits) -> bool {
    v matches JsonValue::Obj(fs) && {
        &&& fs@.len() == 5
        &&& fs@[0].0@ == "max_open_files"@ && spec_opt_int_encoding(
            fs@[0].1,
            spec_opt_u64_view(l.max_open_files),
        )
        &&& fs@[1].0@ == "max_file_size"@ && spec_opt_int_encoding(
            fs@[1].1,
            spec_opt_u64_view(l.max_file_size),
        )
        &&& fs@[2].0@ == "max_processes"@ && spec_opt_int_encoding(
            fs@[2].1,
            spec_opt_u64_view(l.max_processes),
        )
        &&& fs@[3].0@ == "max_memory"@ && spec_opt_int_encoding(
            fs@[3].1,
            spec_opt_u64_view(l.max_memory),
        )
        &&& fs@[4].0@ == "max_cpu_time"@ && spec_opt_int_encoding(
            fs@[4].1,
            spec_opt_u64_view(l.max_cpu_time),
        )
    }
}

/// The mathematical value of an optional `u64`.
pub open spec fn spec_opt_u64_view(n: Option<u64>) -> Option<int> {
    match n {
        Some(x) => Some(x as int),
        None => None,
    }
}

/// The mathematical value of an optional `u32`.
pub open spec fn spec_opt_u32_view(n: Option<u32>) -> Option<int> {
    match n {
        Some(x) => Some(x as int),
        None => None,
    }
}

/// Security options: an object of all fourteen fields, in order.
pub open spec fn spec_security_encoding(v: JsonValue, s: SecurityOptions) -> bool {
    v matches JsonValue::Obj(fs) && {
        &&& fs@.len() == 14
        &&& fs@[0].0@ == "jailer_enabled"@ && fs@[0].1 == JsonValue::Bool(s.jailer_enabled)
        &&& fs@[1].0@ == "seccomp_enabled"@ && fs@[1].1 == JsonValue::Bool(s.seccomp_enabled)
        &&& fs@[2].0@ == "uid"@ && spec_opt_int_encoding(fs@[2].1, spec_opt_u32_view(s.uid))
        &&& fs@[3].0@ == "gid"@ && spec_opt_int_encoding(fs@[3].1, spec_opt_u32_view(s.gid))
        &&& fs@[4].0@ == "new_pid_ns"@ && fs@[4].1 == JsonValue::Bool(s.new_pid_ns)
        &&& fs@[5].0@ == "new_net_ns"@ && fs@[5].1 == JsonValue::Bool(s.new_net_ns)
        &&& fs@[6].0@ == "chroot_base"@ && (fs@[6].1 matches JsonValue::Str(c) && c@
            == s.chroot_base@)
        &&& fs@[7].0@ == "chroot_enabled"@ && fs@[7].1 == JsonValue::Bool(s.chroot_enabled)
        &&& fs@[8].0@ == "close_fds"@ && fs@[8].1 == JsonValue::Bool(s.close_fds)
        &&& fs@[9].0@ == "sanitize_env"@ && fs@[9].1 == JsonValue::Bool(s.sanitize_env)
        &&& fs@[10].0@ == "env_allowlist"@ && spec_string_list_encoding(
            fs@[10].1,
            s.env_allowlist@,
        )
        &&& fs@[11].0@ == "resource_limits"@ && spec_limits_encoding(fs@[11].1, s.resource_limits)
        &&& fs@[12].0@ == "sandbox_profile"@ && spec_opt_str_encoding(
            fs@[12].1,
            match s.sandbox_profile {
                Some(p) => Some(p@),
                None => None,
            },
        )
        &&& fs@[13].0@ == "network_enabled"@ && fs@[13].1 == JsonValue::Bool(s.network_enabled)
    }
}

/// One volume, fields looked up by name (decoded objects may order
/// fields differently than the encoder writes them).
pub open spec fn spec_volume_fields(v: JsonValue, vol: VolumeSpec) -> bool {
    v matches JsonValue::Obj(fs) && {
        &&& (spec_obj_get(fs@, "host_path"@) matches Some(h) && (h matches JsonValue::Str(x) && x@
            == vol.host_path@))
        &&& (spec_obj_get(fs@, "guest_path"@) matches Some(g) && (g matches JsonValue::Str(x) && x@
            == vol.guest_path@))
        &&& spec_obj_get(fs@, "read_only"@) == Some(JsonValue::Bool(vol.read_only))
    }
}

/// The volume list, decoded by field name.
pub open spec fn spec_volumes_decoding(v: JsonValue, vols: Seq<VolumeSpec>) -> bool {
    v matches JsonValue::Arr(items) && items@.len() == vols.len() && (forall|i: int|
        0 <= i < vols.len() ==> spec_volume_fields(#[trigger] items@[i], vols[i]))
}

/// One port mapping, fields looked up by name.
pub open spec fn spec_port_fields(v: JsonValue, p: PortSpec) -> bool {
    v matches JsonValue::Obj(fs) && {
        &&& (spec_obj_get(fs@, "host_port"@) matches Some(h) && spec_opt_int_encoding(
            h,
            match p.host_port {
                Some(x) => Some(x as int),
                None => None,
            },
        ))
        &&& (spec_obj_get(fs@, "guest_port"@) matches Some(g) && (g matches JsonValue::Int(x)
            && x as int == p.guest_port as int))
        &&& (spec_obj_get(fs@, "protocol"@) matches Some(pr) && spec_protocol_encoding(
            pr,
            p.protocol,
        ))
        &&& (spec_obj_get(fs@, "host_ip"@) matches Some(hi) && spec_opt_str_encoding(
            hi,
            match p.host_ip {
                Some(x) => Some(x@),
                None => None,
            },
        ))
    }
}

/// The port list, decoded by field name.
pub open spec fn spec_ports_decoding(v: JsonValue, ports: Seq<PortSpec>) -> bool {
    v matches JsonValue::Arr(items) && items@.len() == ports.len() && (forall|i: int|
        0 <= i < ports.len() ==> spec_port_fields(#[trigger] items@[i], ports[i]))
}

/// Resource limits, fields looked up by name.
pub open spec fn spec_limits_fields(v: JsonValue, l: ResourceLimits) -> bool {
    v matches JsonValue::Obj(fs) && {
        &&& (spec_obj_get(fs@, "max_open_files"@) matches Some(x) && spec_opt_int_encoding(
            x,
            spec_opt_u64_view(l.max_open_files),
        ))
        &&& (spec_obj_get(fs@, "max_file_size"@) matches Some(x) && spec_opt_int_encoding(
            x,
            spec_opt_u64_view(l.max_file_size),
        ))
        &&& (spec_obj_get(fs@, "max_processes"@) matches Some(x) && spec_opt_int_encoding(
            x,
            spec_opt_u64_view(l.max_processes),
        ))
        &&& (spec_obj_get(fs@, "max_memory"@) matches Some(x) && spec_opt_int_encoding(
            x,
            spec_opt_u64_view(l.max_memory),
        ))
        &&& (spec_obj_get(fs@, "max_cpu_time"@) matches Some(x) && spec_opt_int_encoding(
            x,
            spec_opt_u64_view(l.max_cpu_time),
        ))
    }
}

/// Security options, fields looked up by name.
pub open spec fn spec_security_fields(v: JsonValue, s: SecurityOptions) -> bool {
    v matches JsonValue::Obj(fs) && {
        &&& spec_obj_get(fs@, "jailer_enabled"@) == Some(JsonValue::Bool(s.jailer_enabled))
        &&& spec_obj_get(fs@, "seccomp_enabled"@) == Some(JsonValue::Bool(s.seccomp_enabled))
        &&& (spec_obj_get(fs@, "uid"@) matches Some(x) && spec_opt_int_encoding(
            x,
            spec_opt_u32_view(s.uid),
        ))
        &&& (spec_obj_get(fs@, "gid"@) matches Some(x) && spec_opt_int_encoding(
            x,
            spec_opt_u32_view(s.gid),
        ))
        &&& spec_obj_get(fs@, "new_pid_ns"@) == Some(JsonValue::Bool(s.new_pid_ns))
        &&& spec_obj_get(fs@, "new_net_ns"@) == Some(JsonValue::Bool(s.new_net_ns))
        &&& (spec_obj_get(fs@, "chroot_base"@) matches Some(x) && (x matches JsonValue::Str(c)
            && c@ == s.chroot_base@))
        &&& spec_obj_get(fs@, "chroot_enabled"@) == Some(JsonValue::Bool(s.chroot_enabled))
        &&& spec_obj_get(fs@, "close_fds"@) == Some(JsonValue::Bool(s.close_fds))
        &&& spec_obj_get(fs@, "sanitize_env"@) == Some(JsonValue::Bool(s.sanitize_env))
        &&& (spec_obj_get(fs@, "env_allowlist"@) matches Some(x) && spec_string_list_encoding(
            x,
            s.env_allowlist@,
        ))
        &&& (spec_obj_get(fs@, "resource_limits"@) matches Some(x) && spec_limits_fields(
            x,
            s.resource_limits,
        ))
        &&& (spec_obj_get(fs@, "sandbox_profile"@) matches Some(x) && spec_opt_str_encoding(
            x,
            match s.sandbox_profile {
                Some(p) => Some(p@),
                None => None,
            },
        ))
        &&& spec_obj_get(fs@, "network_enabled"@) == Some(JsonValue::Bool(s.network_enabled))
    }
}

/// All numeric fields of the options fit the JSON integer range used
/// here.
pub open spec fn spec_options_json_safe(o: &BoxOptions) -> bool {
    &&& (o.disk_size_gb matches Some(d) ==> d <= i64::MAX)
    &&& (o.security.resource_limits.max_open_files matches Some(x) ==> x <= i64::MAX)
    &&& (o.security.resource_limits.max_file_size matches Some(x) ==> x <= i64::MAX)
    &&& (o.security.resource_limits.max_processes matches Some(x) ==> x <= i64::MAX)
    &&& (o.security.resource_limits.max_memory matches Some(x) ==> x <= i64::MAX)
    &&& (o.security.resource_limits.max_cpu_time matches Some(x) ==> x <= i64::MAX)
}

/// The whole options value: an object whose fields, looked up by name,
/// carry the encodings above.
pub open spec fn spec_box_options_encoding(v: JsonValue, o: &BoxOptions) -> bool {
    v matches JsonValue::Obj(fields) && {
        &&& (spec_obj_get(fields@, "cpus"@) matches Some(x) && spec_opt_int_encoding(
            x,
            match o.cpus {
                Some(c) => Some(c as int),
                None => None,
            },
        ))
        &&& (spec_obj_get(fields@, "memory_mib"@) matches Some(x) && spec_opt_int_encoding(
            x,
            spec_opt_u32_view(o.memory_mib),
        ))
        &&& (spec_obj_get(fields@, "disk_size_gb"@) matches Some(x) && spec_opt_int_encoding(
            x,
            spec_opt_u64_view(o.disk_size_gb),
        ))
        &&& (spec_obj_get(fields@, "working_dir"@) matches Some(x) && spec_opt_str_encoding(
            x,
            match o.working_dir {
                Some(w) => Some(w@),
                None => None,
            },
        ))
        &&& (spec_obj_get(fields@, "env"@) matches Some(x) && spec_env_encoding(x, o.env@))
        &&& (spec_obj_get(fields@, "rootfs"@) matches Some(x) && spec_rootfs_encoding(x, o.rootfs))
        &&& (spec_obj_get(fields@, "volumes"@) matches Some(x) && spec_volumes_encoding(
            x,
            o.volumes@,
        ))
        &&& (spec_obj_get(fields@, "network"@) matches Some(x) && spec_network_encoding(
            x,
            o.network,
        ))
        &&& (spec_obj_get(fields@, "ports"@) matches Some(x) && spec_ports_encoding(x, o.ports@))
        &&& (spec_obj_get(fields@, "isolate_mounts"@) == Some(JsonValue::Bool(o.isolate_mounts)))
        &&& (spec_obj_get(fields@, "auto_remove"@) == Some(JsonValue::Bool(o.auto_remove)))
        &&& (spec_obj_get(fields@, "detach"@) == Some(JsonValue::Bool(o.detach)))
        &&& (spec_obj_get(fields@, "security"@) matches Some(x) && spec_security_encoding(
            x,
            o.security,
        ))
    }
}

/// What decoding guarantees: present fields carry their encodings;
/// missing optional fields decode to their documented defaults. The
/// fields `rootfs`, `env`, `volumes`, `network` and `ports` must be
/// present.
pub open spec fn spec_box_options_decoding(v: JsonValue, o: &BoxOptions) -> bool {
    v matches JsonValue::Obj(fields) && {
        &&& (match spec_obj_get(fields@, "cpus"@) {
            Some(x) => spec_opt_int_encoding(
                x,
                match o.cpus {
                    Some(c) => Some(c as int),
                    None => None,
                },
            ),
            None => o.cpus is None,
        })
        &&& (match spec_obj_get(fields@, "memory_mib"@) {
            Some(x) => spec_opt_int_encoding(x, spec_opt_u32_view(o.memory_mib)),
            None => o.memory_mib is None,
        })
        &&& (match spec_obj_get(fields@, "disk_size_gb"@) {
            Some(x) => spec_opt_int_encoding(x, spec_opt_u64_view(o.disk_size_gb)),
            None => o.disk_size_gb is None,
        })
        &&& (match spec_obj_get(fields@, "working_dir"@) {
            Some(x) => spec_opt_str_encoding(
                x,
                match o.working_dir {
                    Some(w) => Some(w@),
                    None => None,
                },
            ),
            None => o.working_dir is None,
        })
        &&& (spec_obj_get(fields@, "env"@) matches Some(x) && spec_env_encoding(x, o.env@))
        &&& (spec_obj_get(fields@, "rootfs"@) matches Some(x) && spec_rootfs_encoding(x, o.rootfs))
        &&& (spec_obj_get(fields@, "volumes"@) matches Some(x) && spec_volumes_decoding(
            x,
            o.volumes@,
        ))
        &&& (spec_obj_get(fields@, "network"@) matches Some(x) && spec_network_encoding(
            x,
            o.network,
        ))
        &&& (spec_obj_get(fields@, "ports"@) matches Some(x) && spec_ports_decoding(x, o.ports@))
        &&& (match spec_obj_get(fields@, "isolate_mounts"@) {
            Some(x) => x == JsonValue::Bool(o.isolate_mounts),
            None => o.isolate_mounts == false,
        })
        &&& (match spec_obj_get(fields@, "auto_remove"@) {
            Some(x) => x == JsonValue::Bool(o.auto_remove),
            None => o.auto_remove == true,
        })
        &&& (match spec_obj_get(fields@, "detach"@) {
            Some(x) => x == JsonValue::Bool(o.detach),
            None => o.detach == false,
        })
        &&& (match spec_obj_get(fields@, "security"@) {
            Some(x) => spec_security_fields(x, o.security),
            None => crate::options::spec_security_defaults(&o.security),
        })
    }
}

/// Two options with equal plain values.
pub open spec fn spec_options_match(a: &BoxOptions, b: &BoxOptions) -> bool {
    &&& a.cpus == b.cpus
    &&& a.memory_mib == b.memory_mib
    &&& a.disk_size_gb == b.disk_size_gb
    &&& (match (a.working_dir, b.working_dir) {
        (Some(x), Some(y)) => x@ == y@,
        (None, None) => true,
        _ => false,
    })
    &&& a.env@.len() == b.env@.len() && (forall|i: int|
        0 <= i < a.env@.len() ==> (#[trigger] a.env@[i]).0@ == b.env@[i].0@ && a.env@[i].1@
            == b.env@[i].1@)
    &&& (match (a.rootfs, b.rootfs) {
        (RootfsSpec::Image(x), RootfsSpec::Image(y)) => x@ == y@,
        (RootfsSpec::RootfsPath(x), RootfsSpec::RootfsPath(y)) => x@ == y@,
        _ => false,
    })
    &&& a.volumes@.len() == b.volumes@.len() && (forall|i: int|
        0 <= i < a.volumes@.len() ==> (#[trigger] a.volumes@[i]).host_path@ == b.volumes@[
            i
        ].host_path@ && a.volumes@[i].guest_path@ == b.volumes@[i].guest_path@ && a.volumes@[
            i
        ].read_only == b.volumes@[i].read_only)
    &&& a.network == b.network
    &&& a.ports@.len() == b.ports@.len() && (forall|i: int|
        0 <= i < a.ports@.len() ==> {
            &&& (#[trigger] a.ports@[i]).host_port == b.ports@[i].host_port
            &&& a.ports@[i].guest_port == b.ports@[i].guest_port
            &&& a.ports@[i].protocol == b.ports@[i].protocol
            &&& (match (a.ports@[i].host_ip, b.ports@[i].host_ip) {
                (Some(x), Some(y)) => x@ == y@,
                (None, None) => true,
                _ => false,
            })
        })
    &&& a.isolate_mounts == b.isolate_mounts
    &&& a.auto_remove == b.auto_remove
    &&& a.detach == b.detach
    &&& spec_security_match(&a.security, &b.security)
}

/// Two security options with equal plain values.
pub open spec fn spec_security_match(a: &SecurityOptions, b: &SecurityOptions) -> bool {
    &&& a.jailer_enabled == b.jailer_enabled
    &&& a.seccomp_enabled == b.seccomp_enabled
    &&& a.uid == b.uid
    &&& a.gid == b.gid
    &&& a.new_pid_ns == b.new_pid_ns
    &&& a.new_net_ns == b.new_net_ns
    &&& a.chroot_base@ == b.chroot_base@
    &&& a.chroot_enabled == b.chroot_enabled
    &&& a.close_fds == b.close_fds
    &&& a.sanitize_env == b.sanitize_env
    &&& a.env_allowlist@.len() == b.env_allowlist@.len() && (forall|i: int|
        0 <= i < a.env_allowlist@.len() ==> (#[trigger] a.env_allowlist@[i])@ == b.env_allowlist@[
            i
        ]@)
    &&& a.resource_limits == b.resource_limits
    &&& (match (a.sandbox_profile, b.sandbox_profile) {
        (Some(x), Some(y)) => x@ == y@,
        (None, None) => true,
        _ => false,
    })
    &&& a.network_enabled == b.network_enabled
}

/// An encoded volume's fields are found by name.
proof fn lemma_volume_encoding_fields(v: JsonValue, vol: VolumeSpec)
    requires
        spec_volume_encoding(v, vol),
    ensures
        spec_volume_fields(v, vol),
{
    reveal_strlit("host_path");
    reveal_strlit("guest_path");
    reveal_strlit("read_only");
    assert("host_path"@.len() == 9 && "guest_path"@.len() == 10 && "read_only"@.len() == 9);
    assert("host_path"@ != "read_only"@) by {
        assert("host_path"@[0] == 'h' && "read_only"@[0] == 'r');
    }
    match v {
        JsonValue::Obj(fs) => {
            lemma_obj_get_at(fs@, 0);
            lemma_obj_get_at(fs@, 1);
            lemma_obj_get_at(fs@, 2);
        },
        _ => {},
    }
}

/// An encoded port mapping's fields are found by name.
proof fn lemma_port_encoding_fields(v: JsonValue, p: PortSpec)
    requires
        spec_port_encoding(v, p),
    ensures
        spec_port_fields(v, p),
{
    reveal_strlit("host_port");
    reveal_strlit("guest_port");
    reveal_strlit("protocol");
    reveal_strlit("host_ip");
    assert("host_port"@.len() == 9 && "guest_port"@.len() == 10 && "protocol"@.len() == 8
        && "host_ip"@.len() == 7);
    match v {
        JsonValue::Obj(fs) => {
            lemma_obj_get_at(fs@, 0);
            lemma_obj_get_at(fs@, 1);
            lemma_obj_get_at(fs@, 2);
            lemma_obj_get_at(fs@, 3);
        },
        _ => {},
    }
}

/// Encoded resource limits' fields are found by name.
proof fn lemma_limits_encoding_fields(v: JsonValue, l: ResourceLimits)
    requires
        spec_limits_encoding(v, l),
    ensures
        spec_limits_fields(v, l),
{
    reveal_strlit("max_open_files");
    reveal_strlit("max_file_size");
    reveal_strlit("max_processes");
    reveal_strlit("max_memory");
    reveal_strlit("max_cpu_time");
    assert("max_open_files"@.len() == 14 && "max_file_size"@.len() == 13 && "max_processes"@.len()
        == 13 && "max_memory"@.len() == 10 && "max_cpu_time"@.len() == 12);
    assert("max_file_size"@ != "max_processes"@) by {
        assert("max_file_size"@[4] == 'f' && "max_processes"@[4] == 'p');
    }
    match v {
        JsonValue::Obj(fs) => {
            lemma_obj_get_at(fs@, 0);
            lemma_obj_get_at(fs@, 1);
            lemma_obj_get_at(fs@, 2);
            lemma_obj_get_at(fs@, 3);
            lemma_obj_get_at(fs@, 4);
        },
        _ => {},
    }
}

/// Encoded security options' fields are found by name.
proof fn lemma_security_encoding_fields(v: JsonValue, s: SecurityOptions)
    requires
        spec_security_encoding(v, s),
    ensures
        spec_security_fields(v, s),
{
    reveal_strlit("jailer_enabled");
    reveal_strlit("seccomp_enabled");
    reveal_strlit("uid");
    reveal_strlit("gid");
    reveal_strlit("new_pid_ns");
    reveal_strlit("new_net_ns");
    reveal_strlit("chroot_base");
    reveal_strlit("chroot_enabled");
    reveal_strlit("close_fds");
    reveal_strlit("sanitize_env");
    reveal_strlit("env_allowlist");
    reveal_strlit("resource_limits");
    reveal_strlit("sandbox_profile");
    reveal_strlit("network_enabled");
    assert("jailer_enabled"@.len() == 14 && "seccomp_enabled"@.len() == 15 && "uid"@.len() == 3
        && "gid"@.len() == 3 && "new_pid_ns"@.len() == 10 && "new_net_ns"@.len() == 10
        && "chroot_base"@.len() == 11 && "chroot_enabled"@.len() == 14 && "close_fds"@.len() == 9
        && "sanitize_env"@.len() == 12 && "env_allowlist"@.len() == 13
        && "resource_limits"@.len() == 15 && "sandbox_profile"@.len() == 15
        && "network_enabled"@.len() == 15);
    assert("uid"@ != "gid"@) by {
        assert("uid"@[0] == 'u' && "gid"@[0] == 'g');
    }
    assert("new_pid_ns"@ != "new_net_ns"@) by {
        assert("new_pid_ns"@[4] == 'p' && "new_net_ns"@[4] == 'n');
    }
    assert("jailer_enabled"@ != "chroot_enabled"@) by {
        assert("jailer_enabled"@[0] == 'j' && "chroot_enabled"@[0] == 'c');
    }
    assert("seccomp_enabled"@ != "resource_limits"@) by {
        assert("seccomp_enabled"@[0] == 's' && "resource_limits"@[0] == 'r');
    }
    assert("seccomp_enabled"@ != "sandbox_profile"@) by {
        assert("seccomp_enabled"@[1] == 'e' && "sandbox_profile"@[1] == 'a');
    }
    assert("seccomp_enabled"@ != "network_enabled"@) by {
        assert("seccomp_enabled"@[0] == 's' && "network_enabled"@[0] == 'n');
    }
    assert("resource_limits"@ != "sandbox_profile"@) by {
        assert("resource_limits"@[0] == 'r' && "sandbox_profile"@[0] == 's');
    }
    assert("resource_limits"@ != "network_enabled"@) by {
        assert("resource_limits"@[0] == 'r' && "network_enabled"@[0] == 'n');
    }
    assert("sandbox_profile"@ != "network_enabled"@) by {
        assert("sandbox_profile"@[0] == 's' && "network_enabled"@[0] == 'n');
    }
    match v {
        JsonValue::Obj(fs) => {
            lemma_obj_get_at(fs@, 0);
            lemma_obj_get_at(fs@, 1);
            lemma_obj_get_at(fs@, 2);
            lemma_obj_get_at(fs@, 3);
            lemma_obj_get_at(fs@, 4);
            lemma_obj_get_at(fs@, 5);
            lemma_obj_get_at(fs@, 6);
            lemma_obj_get_at(fs@, 7);
            lemma_obj_get_at(fs@, 8);
            lemma_obj_get_at(fs@, 9);
            lemma_obj_get_at(fs@, 10);
            lemma_obj_get_at(fs@, 11);
            lemma_obj_get_at(fs@, 12);
            lemma_obj_get_at(fs@, 13);
            lemma_limits_encoding_fields(fs@[11].1, s.resource_limits);
        },
        _ => {},
    }
}

/// The round trip: any value that encodes options `a` decodes — with the
/// defaults rule — only to options equal to `a`.
pub proof fn lemma_box_options_json_round_trip(v: JsonValue, a: &BoxOptions, b: &BoxOptions)
    requires
        spec_box_options_encoding(v, a),
        spec_box_options_decoding(v, b),
    ensures
        spec_options_match(a, b),
{
    match v {
        JsonValue::Obj(fields) => {
            assert forall|i: int| 0 <= i < a.env@.len() implies (#[trigger] a.env@[i]).0@
                == b.env@[i].0@ && a.env@[i].1@ == b.env@[i].1@ by {
                let x = spec_obj_get(fields@, "env"@)->0;
                match x {
                    JsonValue::Arr(items) => {
                        assert(items@[i] matches JsonValue::Arr(kv1));
                    },
                    _ => {},
                }
            }
            let vx = spec_obj_get(fields@, "volumes"@)->0;
            match vx {
                JsonValue::Arr(items) => {
                    assert forall|i: int| 0 <= i < a.volumes@.len() implies (
                    #[trigger] a.volumes@[i]).host_path@ == b.volumes@[i].host_path@
                        && a.volumes@[i].guest_path@ == b.volumes@[i].guest_path@ && a.volumes@[
                        i
                    ].read_only == b.volumes@[i].read_only by {
                        assert(spec_volume_encoding(items@[i], a.volumes@[i]));
                        lemma_volume_encoding_fields(items@[i], a.volumes@[i]);
                        assert(spec_volume_fields(items@[i], b.volumes@[i]));
                    }
                },
                _ => {},
            }
            let px = spec_obj_get(fields@, "ports"@)->0;
            match px {
                JsonValue::Arr(items) => {
                    assert forall|i: int| 0 <= i < a.ports@.len() implies {
                        &&& (#[trigger] a.ports@[i]).host_port == b.ports@[i].host_port
                        &&& a.ports@[i].guest_port == b.ports@[i].guest_port
                        &&& a.ports@[i].protocol == b.ports@[i].protocol
                        &&& (match (a.ports@[i].host_ip, b.ports@[i].host_ip) {
                            (Some(x), Some(y)) => x@ == y@,
                            (None, None) => true,
                            _ => false,
                        })
                    } by {
                        assert(spec_port_encoding(items@[i], a.ports@[i]));
                        lemma_port_encoding_fields(items@[i], a.ports@[i]);
                        assert(spec_port_fields(items@[i], b.ports@[i]));
                        match (a.ports@[i].protocol, b.ports@[i].protocol) {
                            (PortProtocol::Tcp, PortProtocol::Udp) => {
                                reveal_strlit("Tcp");
                                reveal_strlit("Udp");
                                assert("Tcp"@[0] == 'T' && "Udp"@[0] == 'U');
                            },
                            (PortProtocol::Udp, PortProtocol::Tcp) => {
                                reveal_strlit("Tcp");
                                reveal_strlit("Udp");
                                assert("Tcp"@[0] == 'T' && "Udp"@[0] == 'U');
                            },
                            _ => {},
                        }
                    }
                },
                _ => {},
            }
            match (a.rootfs, b.rootfs) {
                (RootfsSpec::Image(_), RootfsSpec::RootfsPath(_)) => {
                    reveal_strlit("Image");
                    reveal_strlit("RootfsPath");
                    assert("Image"@.len() != "RootfsPath"@.len());
                },
                (RootfsSpec::RootfsPath(_), RootfsSpec::Image(_)) => {
                    reveal_strlit("Image");
                    reveal_strlit("RootfsPath");
                    assert("Image"@.len() != "RootfsPath"@.len());
                },
                _ => {},
            }
            let sa = &a.security;
            let sb = &b.security;
            let sx = spec_obj_get(fields@, "security"@)->0;
            assert(spec_security_encoding(sx, a.security));
            lemma_security_encoding_fields(sx, a.security);
            assert(spec_security_fields(sx, a.security));
            assert(spec_security_fields(sx, b.security));
            match sx {
                JsonValue::Obj(sfs) => {
                    let ax = spec_obj_get(sfs@, "env_allowlist"@)->0;
                    assert(spec_string_list_encoding(ax, sa.env_allowlist@));
                    assert(spec_string_list_encoding(ax, sb.env_allowlist@));
                    match ax {
                        JsonValue::Arr(items) => {
                            assert(sa.env_allowlist@.len() == items@.len());
                            assert(sb.env_allowlist@.len() == items@.len());
                            assert forall|i: int| 0 <= i < sa.env_allowlist@.len() implies (
                            #[trigger] sa.env_allowlist@[i])@ == sb.env_allowlist@[i]@ by {
                                assert(items@[i] matches JsonValue::Str(s1) && s1@
                                    == sa.env_allowlist@[i]@);
                            }
                        },
                        _ => {},
                    }
                    let lx = spec_obj_get(sfs@, "resource_limits"@)->0;
                    assert(spec_limits_fields(lx, sa.resource_limits));
                    assert(spec_limits_fields(lx, sb.resource_limits));
                    assert(sa.resource_limits == sb.resource_limits);
                },
                _ => {},
            }
        },
        _ => {},
    }
}

} // verus!

use vstd::prelude::*;

verus! {

/// A field of `fields` whose name no earlier field shares is the one a
/// lookup by that name finds.
proof fn lemma_obj_get_at(fields: Seq<(String, JsonValue)>, i: int)
    requires
        0 <= i < fields.len(),
        forall|k: int| 0 <= k < i ==> (#[trigger] fields[k]).0@ != fields[i].0@,
    ensures
        spec_obj_get(fields, fields[i].0@) == Some(fields[i].1),
    decreases i,
{
    if i > 0 {
        assert(fields.drop_first()[i - 1] == fields[i]);
        assert forall|k: int| 0 <= k < i - 1 implies (#[trigger] fields.drop_first()[k]).0@
            != fields.drop_first()[i - 1].0@ by {
            assert(fields.drop_first()[k] == fields[k + 1]);
        }
        lemma_obj_get_at(fields.drop_first(), i - 1);
    }
}

/// Encode an optional number.
fn encode_opt_i64(n: Option<i64>) -> (r: JsonValue)
    ensures
        spec_opt_int_encoding(
            r,
            match n {
                Some(x) => Some(x as int),
                None => None,
            },
        ),
{
    match n {
        Some(x) => JsonValue::Int(x),
        None => JsonValue::Null,
    }
}

/// Encode an optional string.
fn encode_opt_string(s: &Option<String>) -> (r: JsonValue)
    ensures
        spec_opt_str_encoding(
            r,
            match s {
                Some(x) => Some(x@),
                None => None,
            },
        ),
{
    match s {
        Some(x) => JsonValue::Str(x.clone()),
        None => JsonValue::Null,
    }
}

/// Encode the environment pairs.
fn encode_env(env: &Vec<(String, String)>) -> (r: JsonValue)
    ensures
        spec_env_encoding(r, env@),
{
    let n = env.len();
    let mut items: Vec<JsonValue> = Vec::new();
    let mut i: usize = 0;
    while i < n
        invariant
            n == env@.len(),
            i <= n,
            items@.len() == i,
            forall|k: int|
                0 <= k < i ==> ((#[trigger] items@[k]) matches JsonValue::Arr(kv) && {
                    &&& kv@.len() == 2
                    &&& (kv@[0] matches JsonValue::Str(key) && key@ == env@[k].0@)
                    &&& (kv@[1] matches JsonValue::Str(x) && x@ == env@[k].1@)
                }),
        decreases n - i,
    {
        let kv = &env[i];
        let mut pair: Vec<JsonValue> = Vec::new();
        pair.push(JsonValue::Str(kv.0.clone()));
        pair.push(JsonValue::Str(kv.1.clone()));
        items.push(JsonValue::Arr(pair));
        i += 1;
    }
    JsonValue::Arr(items)
}

/// Encode the rootfs spec.
fn encode_rootfs(r0: &RootfsSpec) -> (r: JsonValue)
    ensures
        spec_rootfs_encoding(r, *r0),
{
    match r0 {
        RootfsSpec::Image(s) => {
            let mut fs: Vec<(String, JsonValue)> = Vec::new();
            fs.push((String::from_str("Image"), JsonValue::Str(s.clone())));
            JsonValue::Obj(fs)
        },
        RootfsSpec::RootfsPath(s) => {
            let mut fs: Vec<(String, JsonValue)> = Vec::new();
            fs.push((String::from_str("RootfsPath"), JsonValue::Str(s.clone())));
            JsonValue::Obj(fs)
        },
    }
}

/// Encode the volume list.
fn encode_volumes(vols: &Vec<VolumeSpec>) -> (r: JsonValue)
    ensures
        spec_volumes_encoding(r, vols@),
{
    let n = vols.len();
    let mut items: Vec<JsonValue> = Vec::new();
    let mut i: usize = 0;
    while i < n
        invariant
            n == vols@.len(),
            i <= n,
            items@.len() == i,
            forall|k: int| 0 <= k < i ==> spec_volume_encoding(#[trigger] items@[k], vols@[k]),
        decreases n - i,
    {
        let v = &vols[i];
        let mut fs: Vec<(String, JsonValue)> = Vec::new();
        fs.push((String::from_str("host_path"), JsonValue::Str(v.host_path.clone())));
        fs.push((String::from_str("guest_path"), JsonValue::Str(v.guest_path.clone())));
        fs.push((String::from_str("read_only"), JsonValue::Bool(v.read_only)));
        items.push(JsonValue::Obj(fs));
        i += 1;
    }
    JsonValue::Arr(items)
}

/// Encode the port list.
fn encode_ports(ports: &Vec<PortSpec>) -> (r: JsonValue)
    ensures
        spec_ports_encoding(r, ports@),
{
    let n = ports.len();
    let mut items: Vec<JsonValue> = Vec::new();
    let mut i: usize = 0;
    while i < n
        invariant
            n == ports@.len(),
            i <= n,
            items@.len() == i,
            forall|k: int| 0 <= k < i ==> spec_port_encoding(#[trigger] items@[k], ports@[k]),
        decreases n - i,
    {
        let p = &ports[i];
        let mut fs: Vec<(String, JsonValue)> = Vec::new();
        let host_port = match p.host_port {
            Some(h) => JsonValue::Int(h as i64),
            None => JsonValue::Null,
        };
        fs.push((String::from_str("host_port"), host_port));
        fs.push((String::from_str("guest_port"), JsonValue::Int(p.guest_port as i64)));
        let proto = match p.protocol {
            PortProtocol::Tcp => String::from_str("Tcp"),
            PortProtocol::Udp => String::from_str("Udp"),
        };
        fs.push((String::from_str("protocol"), JsonValue::Str(proto)));
        fs.push((String::from_str("host_ip"), encode_opt_string(&p.host_ip)));
        items.push(JsonValue::Obj(fs));
        i += 1;
    }
    JsonValue::Arr(items)
}

/// Encode a string list.
fn encode_string_list(l: &Vec<String>) -> (r: JsonValue)
    ensures
        spec_string_list_encoding(r, l@),
{
    let n = l.len();
    let mut items: Vec<JsonValue> = Vec::new();
    let mut i: usize = 0;
    while i < n
        invariant
            n == l@.len(),
            i <= n,
            items@.len() == i,
            forall|k: int|
                0 <= k < i ==> ((#[trigger] items@[k]) matches JsonValue::Str(s) && s@ == l@[k]@),
        decreases n - i,
    {
        items.push(JsonValue::Str(l[i].clone()));
        i += 1;
    }
    JsonValue::Arr(items)
}

/// Encode the resource limits.
fn encode_limits(l: &ResourceLimits) -> (r: JsonValue)
    requires
        l.max_open_files matches Some(x) ==> x <= i64::MAX,
        l.max_file_size matches Some(x) ==> x <= i64::MAX,
        l.max_processes matches Some(x) ==> x <= i64::MAX,
        l.max_memory matches Some(x) ==> x <= i64::MAX,
        l.max_cpu_time matches Some(x) ==> x <= i64::MAX,
    ensures
        spec_limits_encoding(r, *l),
{
    let mut fs: Vec<(String, JsonValue)> = Vec::new();
    let f0 = match l.max_open_files {
        Some(x) => JsonValue::Int(x as i64),
        None => JsonValue::Null,
    };
    fs.push((String::from_str("max_open_files"), f0));
    let f1 = match l.max_file_size {
        Some(x) => JsonValue::Int(x as i64),
        None => JsonValue::Null,
    };
    fs.push((String::from_str("max_file_size"), f1));
    let f2 = match l.max_processes {
        Some(x) => JsonValue::Int(x as i64),
        None => JsonValue::Null,
    };
    fs.push((String::from_str("max_processes"), f2));
    let f3 = match l.max_memory {
        Some(x) => JsonValue::Int(x as i64),
        None => JsonValue::Null,
    };
    fs.push((String::from_str("max_memory"), f3));
    let f4 = match l.max_cpu_time {
        Some(x) => JsonValue::Int(x as i64),
        None => JsonValue::Null,
    };
    fs.push((String::from_str("max_cpu_time"), f4));
    JsonValue::Obj(fs)
}

/// Encode the security options.
fn encode_security(s: &SecurityOptions) -> (r: JsonValue)
    requires
        s.resource_limits.max_open_files matches Some(x) ==> x <= i64::MAX,
        s.resource_limits.max_file_size matches Some(x) ==> x <= i64::MAX,
        s.resource_limits.max_processes matches Some(x) ==> x <= i64::MAX,
        s.resource_limits.max_memory matches Some(x) ==> x <= i64::MAX,
        s.resource_limits.max_cpu_time matches Some(x) ==> x <= i64::MAX,
    ensures
        spec_security_encoding(r, *s),
{
    let mut fs: Vec<(String, JsonValue)> = Vec::new();
    fs.push((String::from_str("jailer_enabled"), JsonValue::Bool(s.jailer_enabled)));
    fs.push((String::from_str("seccomp_enabled"), JsonValue::Bool(s.seccomp_enabled)));
    let uid = match s.uid {
        Some(x) => JsonValue::Int(x as i64),
        None => JsonValue::Null,
    };
    fs.push((String::from_str("uid"), uid));
    let gid = match s.gid {
        Some(x) => JsonValue::Int(x as i64),
        None => JsonValue::Null,
    };
    fs.push((String::from_str("gid"), gid));
    fs.push((String::from_str("new_pid_ns"), JsonValue::Bool(s.new_pid_ns)));
    fs.push((String::from_str("new_net_ns"), JsonValue::Bool(s.new_net_ns)));
    fs.push((String::from_str("chroot_base"), JsonValue::Str(s.chroot_base.clone())));
    fs.push((String::from_str("chroot_enabled"), JsonValue::Bool(s.chroot_enabled)));
    fs.push((String::from_str("close_fds"), JsonValue::Bool(s.close_fds)));
    fs.push((String::from_str("sanitize_env"), JsonValue::Bool(s.sanitize_env)));
    fs.push((String::from_str("env_allowlist"), encode_string_list(&s.env_allowlist)));
    fs.push((String::from_str("resource_limits"), encode_limits(&s.resource_limits)));
    fs.push((String::from_str("sandbox_profile"), encode_opt_string(&s.sandbox_profile)));
    fs.push((String::from_str("network_enabled"), JsonValue::Bool(s.network_enabled)));
    JsonValue::Obj(fs)
}

/// Encode box options as a JSON object, every field present.
pub fn box_options_to_json(o: &BoxOptions) -> (r: JsonValue)
    requires
        spec_options_json_safe(o),
    ensures
        spec_box_options_encoding(r, o),
{
    let mut fs: Vec<(String, JsonValue)> = Vec::new();
    let cpus = match o.cpus {
        Some(c) => JsonValue::Int(c as i64),
        None => JsonValue::Null,
    };
    fs.push((String::from_str("cpus"), cpus));
    let memory = match o.memory_mib {
        Some(m) => JsonValue::Int(m as i64),
        None => JsonValue::Null,
    };
    fs.push((String::from_str("memory_mib"), memory));
    let disk = match o.disk_size_gb {
        Some(d) => JsonValue::Int(d as i64),
        None => JsonValue::Null,
    };
    fs.push((String::from_str("disk_size_gb"), disk));
    fs.push((String::from_str("working_dir"), encode_opt_string(&o.working_dir)));
    fs.push((String::from_str("env"), encode_env(&o.env)));
    fs.push((String::from_str("rootfs"), encode_rootfs(&o.rootfs)));
    fs.push((String::from_str("volumes"), encode_volumes(&o.volumes)));
    fs.push((String::from_str("network"), JsonValue::Str(String::from_str("Isolated"))));
    fs.push((String::from_str("ports"), encode_ports(&o.ports)));
    fs.push((String::from_str("isolate_mounts"), JsonValue::Bool(o.isolate_mounts)));
    fs.push((String::from_str("auto_remove"), JsonValue::Bool(o.auto_remove)));
    fs.push((String::from_str("detach"), JsonValue::Bool(o.detach)));
    fs.push((String::from_str("security"), encode_security(&o.security)));
    proof {
        reveal_strlit("cpus");
        reveal_strlit("memory_mib");
        reveal_strlit("disk_size_gb");
        reveal_strlit("working_dir");
        reveal_strlit("env");
        reveal_strlit("rootfs");
        reveal_strlit("volumes");
        reveal_strlit("network");
        reveal_strlit("ports");
        reveal_strlit("isolate_mounts");
        reveal_strlit("auto_remove");
        reveal_strlit("detach");
        reveal_strlit("security");
        assert(fs@.len() == 13);
        assert(fs@[0].0@ == "cpus"@);
        assert(fs@[1].0@ == "memory_mib"@);
        assert(fs@[2].0@ == "disk_size_gb"@);
        assert(fs@[3].0@ == "working_dir"@);
        assert(fs@[4].0@ == "env"@);
        assert(fs@[5].0@ == "rootfs"@);
        assert(fs@[6].0@ == "volumes"@);
        assert(fs@[7].0@ == "network"@);
        assert(fs@[8].0@ == "ports"@);
        assert(fs@[9].0@ == "isolate_mounts"@);
        assert(fs@[10].0@ == "auto_remove"@);
        assert(fs@[11].0@ == "detach"@);
        assert(fs@[12].0@ == "security"@);
        assert("volumes"@ != "network"@) by {
            assert("volumes"@[0] == 'v' && "network"@[0] == 'n');
        }
        assert("working_dir"@ != "auto_remove"@) by {
            assert("working_dir"@[0] == 'w' && "auto_remove"@[0] == 'a');
        }
        assert("rootfs"@ != "detach"@) by {
            assert("rootfs"@[0] == 'r' && "detach"@[0] == 'd');
        }
        lemma_obj_get_at(fs@, 0);
        lemma_obj_get_at(fs@, 1);
        lemma_obj_get_at(fs@, 2);
        lemma_obj_get_at(fs@, 3);
        lemma_obj_get_at(fs@, 4);
        lemma_obj_get_at(fs@, 5);
        lemma_obj_get_at(fs@, 6);
        lemma_obj_get_at(fs@, 7);
        lemma_obj_get_at(fs@, 8);
        lemma_obj_get_at(fs@, 9);
        lemma_obj_get_at(fs@, 10);
        lemma_obj_get_at(fs@, 11);
        lemma_obj_get_at(fs@, 12);
    }
    JsonValue::Obj(fs)
}

} // verus!

use vstd::prelude::*;

verus! {

// ============================================================================
// Shapes the decoder accepts
// ============================================================================

/// An optional number in range: `null` or an integer within bounds.
pub open spec fn spec_opt_int_shape(v: JsonValue, lo: int, hi: int) -> bool {
    v is Null || (v matches JsonValue::Int(i) && lo <= i as int <= hi)
}

/// An optional string: `null` or a string.
pub open spec fn spec_opt_str_shape(v: JsonValue) -> bool {
    v is Null || v is Str
}

/// Environment pairs: an array of two-element string arrays.
pub open spec fn spec_env_shape(v: JsonValue) -> bool {
    v matches JsonValue::Arr(items) && (forall|i: int|
        0 <= i < items@.len() ==> ((#[trigger] items@[i]) matches JsonValue::Arr(kv) && kv@.len()
            == 2 && kv@[0] is Str && kv@[1] is Str))
}

/// A list of strings.
pub open spec fn spec_string_list_shape(v: JsonValue) -> bool {
    v matches JsonValue::Arr(items) && (forall|i: int|
        0 <= i < items@.len() ==> (#[trigger] items@[i]) is Str)
}

/// A rootfs spec: a one-field object tagged `Image` or `RootfsPath` with
/// a string value.
pub open spec fn spec_rootfs_shape(v: JsonValue) -> bool {
    v matches JsonValue::Obj(fs) && fs@.len() == 1 && fs@[0].1 is Str && (fs@[0].0@ == "Image"@
        || fs@[0].0@ == "RootfsPath"@)
}

/// One volume: its three fields present with their types.
pub open spec fn spec_volume_shape(v: JsonValue) -> bool {
    v matches JsonValue::Obj(fs) && {
        &&& (spec_obj_get(fs@, "host_path"@) matches Some(h) && h is Str)
        &&& (spec_obj_get(fs@, "guest_path"@) matches Some(g) && g is Str)
        &&& (spec_obj_get(fs@, "read_only"@) matches Some(b) && b is Bool)
    }
}

/// The volume list.
pub open spec fn spec_volumes_shape(v: JsonValue) -> bool {
    v matches JsonValue::Arr(items) && (forall|i: int|
        0 <= i < items@.len() ==> spec_volume_shape(#[trigger] items@[i]))
}

/// One port mapping: its four fields present with their types and ranges.
pub open spec fn spec_port_shape(v: JsonValue) -> bool {
    v matches JsonValue::Obj(fs) && {
        &&& (spec_obj_get(fs@, "host_port"@) matches Some(h) && spec_opt_int_shape(h, 0, 65535))
        &&& (spec_obj_get(fs@, "guest_port"@) matches Some(g) && (g matches JsonValue::Int(x) && 0
            <= x <= 65535))
        &&& (spec_obj_get(fs@, "protocol"@) matches Some(p) && (p matches JsonValue::Str(name) && (
        name@ == "Tcp"@ || name@ == "Udp"@)))
        &&& (spec_obj_get(fs@, "host_ip"@) matches Some(hi) && spec_opt_str_shape(hi))
    }
}

/// The port list.
pub open spec fn spec_ports_shape(v: JsonValue) -> bool {
    v matches JsonValue::Arr(items) && (forall|i: int|
        0 <= i < items@.len() ==> spec_port_shape(#[trigger] items@[i]))
}

/// Resource limits: the five fields present as optional numbers.
pub open spec fn spec_limits_shape(v: JsonValue) -> bool {
    v matches JsonValue::Obj(fs) && {
        &&& (spec_obj_get(fs@, "max_open_files"@) matches Some(x) && spec_opt_int_shape(
            x,
            0,
            i64::MAX as int,
        ))
        &&& (spec_obj_get(fs@, "max_file_size"@) matches Some(x) && spec_opt_int_shape(
            x,
            0,
            i64::MAX as int,
        ))
        &&& (spec_obj_get(fs@, "max_processes"@) matches Some(x) && spec_opt_int_shape(
            x,
            0,
            i64::MAX as int,
        ))
        &&& (spec_obj_get(fs@, "max_memory"@) matches Some(x) && spec_opt_int_shape(
            x,
            0,
            i64::MAX as int,
        ))
        &&& (spec_obj_get(fs@, "max_cpu_time"@) matches Some(x) && spec_opt_int_shape(
            x,
            0,
            i64::MAX as int,
        ))
    }
}

/// Security options: all fourteen fields present with their types.
pub open spec fn spec_security_shape(v: JsonValue) -> bool {
    v matches JsonValue::Obj(fs) && {
        &&& (spec_obj_get(fs@, "jailer_enabled"@) matches Some(x) && x is Bool)
        &&& (spec_obj_get(fs@, "seccomp_enabled"@) matches Some(x) && x is Bool)
        &&& (spec_obj_get(fs@, "uid"@) matches Some(x) && spec_opt_int_shape(x, 0, u32::MAX as int))
        &&& (spec_obj_get(fs@, "gid"@) matches Some(x) && spec_opt_int_shape(x, 0, u32::MAX as int))
        &&& (spec_obj_get(fs@, "new_pid_ns"@) matches Some(x) && x is Bool)
        &&& (spec_obj_get(fs@, "new_net_ns"@) matches Some(x) && x is Bool)
        &&& (spec_obj_get(fs@, "chroot_base"@) matches Some(x) && x is Str)
        &&& (spec_obj_get(fs@, "chroot_enabled"@) matches Some(x) && x is Bool)
        &&& (spec_obj_get(fs@, "close_fds"@) matches Some(x) && x is Bool)
        &&& (spec_obj_get(fs@, "sanitize_env"@) matches Some(x) && x is Bool)
        &&& (spec_obj_get(fs@, "env_allowlist"@) matches Some(x) && spec_string_list_shape(x))
        &&& (spec_obj_get(fs@, "resource_limits"@) matches Some(x) && spec_limits_shape(x))
        &&& (spec_obj_get(fs@, "sandbox_profile"@) matches Some(x) && spec_opt_str_shape(x))
        &&& (spec_obj_get(fs@, "network_enabled"@) matches Some(x) && x is Bool)
    }
}

/// The object shape the options decoder accepts: `rootfs`, `env`,
/// `volumes`, `network` and `ports` present with their shapes; the other
/// fields well-shaped where present.
pub open spec fn spec_box_options_wf(v: JsonValue) -> bool {
    v matches JsonValue::Obj(fields) && {
        &&& (match spec_obj_get(fields@, "cpus"@) {
            Some(x) => spec_opt_int_shape(x, 0, 255),
            None => true,
        })
        &&& (match spec_obj_get(fields@, "memory_mib"@) {
            Some(x) => spec_opt_int_shape(x, 0, u32::MAX as int),
            None => true,
        })
        &&& (match spec_obj_get(fields@, "disk_size_gb"@) {
            Some(x) => spec_opt_int_shape(x, 0, i64::MAX as int),
            None => true,
        })
        &&& (match spec_obj_get(fields@, "working_dir"@) {
            Some(x) => spec_opt_str_shape(x),
            None => true,
        })
        &&& (spec_obj_get(fields@, "env"@) matches Some(x) && spec_env_shape(x))
        &&& (spec_obj_get(fields@, "rootfs"@) matches Some(x) && spec_rootfs_shape(x))
        &&& (spec_obj_get(fields@, "volumes"@) matches Some(x) && spec_volumes_shape(x))
        &&& (spec_obj_get(fields@, "network"@) matches Some(x) && (x matches JsonValue::Str(s)
            && s@ == "Isolated"@))
        &&& (spec_obj_get(fields@, "ports"@) matches Some(x) && spec_ports_shape(x))
        &&& (match spec_obj_get(fields@, "isolate_mounts"@) {
            Some(x) => x is Bool,
            None => true,
        })
        &&& (match spec_obj_get(fields@, "auto_remove"@) {
            Some(x) => x is Bool,
            None => true,
        })
        &&& (match spec_obj_get(fields@, "detach"@) {
            Some(x) => x is Bool,
            None => true,
        })
        &&& (match spec_obj_get(fields@, "security"@) {
            Some(x) => spec_security_shape(x),
            None => true,
        })
    }
}

/// An ill-shaped element makes the whole volume list ill-shaped.
proof fn lemma_volumes_shape_witness(v: JsonValue, items: Vec<JsonValue>, i: int)
    requires
        v == JsonValue::Arr(items),
        0 <= i < items@.len(),
        !spec_volume_shape(items@[i]),
    ensures
        !spec_volumes_shape(v),
{
    if spec_volumes_shape(v) {
        match v {
            JsonValue::Arr(its) => {
                assert(its == items);
                assert(spec_volume_shape(its@[i]));
            },
            _ => {},
        }
    }
}

/// An ill-shaped element makes the whole port list ill-shaped.
proof fn lemma_ports_shape_witness(v: JsonValue, items: Vec<JsonValue>, i: int)
    requires
        v == JsonValue::Arr(items),
        0 <= i < items@.len(),
        !spec_port_shape(items@[i]),
    ensures
        !spec_ports_shape(v),
{
    if spec_ports_shape(v) {
        match v {
            JsonValue::Arr(its) => {
                assert(its == items);
                assert(spec_port_shape(its@[i]));
            },
            _ => {},
        }
    }
}

/// Decode an optional number within a range.
fn decode_opt_i64(v: &JsonValue, lo: i64, hi: i64) -> (r: Option<Option<i64>>)
    ensures
        (r is Some) <==> spec_opt_int_shape(*v, lo as int, hi as int),
        r matches Some(x) ==> spec_opt_int_encoding(
            *v,
            match x {
                Some(n) => Some(n as int),
                None => None,
            },
        ) && (x matches Some(n) ==> lo <= n <= hi),
{
    match v {
        JsonValue::Null => Some(None),
        JsonValue::Int(i) => {
            if lo <= *i && *i <= hi {
                Some(Some(*i))
            } else {
                None
            }
        },
        _ => None,
    }
}

/// Decode an optional string.
fn decode_opt_string(v: &JsonValue) -> (r: Option<Option<String>>)
    ensures
        (r is Some) <==> spec_opt_str_shape(*v),
        r matches Some(x) ==> spec_opt_str_encoding(
            *v,
            match x {
                Some(s) => Some(s@),
                None => None,
            },
        ),
{
    match v {
        JsonValue::Null => Some(None),
        JsonValue::Str(s) => Some(Some(s.clone())),
        _ => None,
    }
}

/// Decode a boolean.
fn decode_bool(v: &JsonValue) -> (r: Option<bool>)
    ensures
        (r is Some) <==> *v is Bool,
        r matches Some(b) ==> *v == JsonValue::Bool(b),
{
    match v {
        JsonValue::Bool(b) => Some(*b),
        _ => None,
    }
}

/// Decode the environment pairs.
fn decode_env(v: &JsonValue) -> (r: Option<Vec<(String, String)>>)
    ensures
        (r is Some) <==> spec_env_shape(*v),
        r matches Some(env) ==> spec_env_encoding(*v, env@),
{
    let items = match v {
        JsonValue::Arr(items) => items,
        _ => {
            return None;
        },
    };
    let n = items.len();
    let mut out: Vec<(String, String)> = Vec::new();
    let mut i: usize = 0;
    while i < n
        invariant
            *v == JsonValue::Arr(*items),
            n == items@.len(),
            i <= n,
            out@.len() == i,
            forall|k: int|
                0 <= k < i ==> ((#[trigger] items@[k]) matches JsonValue::Arr(kv) && {
                    &&& kv@.len() == 2
                    &&& (kv@[0] matches JsonValue::Str(key) && key@ == out@[k].0@)
                    &&& (kv@[1] matches JsonValue::Str(x) && x@ == out@[k].1@)
                }),
        decreases n - i,
    {
        match &items[i] {
            JsonValue::Arr(kv) => {
                if kv.len() != 2 {
                    return None;
                }
                let key = match &kv[0] {
                    JsonValue::Str(s) => s.clone(),
                    _ => {
                        return None;
                    },
                };
                let val = match &kv[1] {
                    JsonValue::Str(s) => s.clone(),
                    _ => {
                        return None;
                    },
                };
                out.push((key, val));
            },
            _ => {
                return None;
            },
        }
        i += 1;
    }
    Some(out)
}

/// Decode the rootfs spec.
fn decode_rootfs(v: &JsonValue) -> (r: Option<RootfsSpec>)
    ensures
        (r is Some) <==> spec_rootfs_shape(*v),
        r matches Some(rf) ==> spec_rootfs_encoding(*v, rf),
{
    proof {
        reveal_strlit("Image");
        reveal_strlit("RootfsPath");
    }
    let fs = match v {
        JsonValue::Obj(fs) => fs,
        _ => {
            return None;
        },
    };
    if fs.len() != 1 {
        return None;
    }
    let key = &fs[0].0;
    let value = match &fs[0].1 {
        JsonValue::Str(s) => s.clone(),
        _ => {
            return None;
        },
    };
    if str_eq(key.as_str(), "Image") {
        Some(RootfsSpec::Image(value))
    } else if str_eq(key.as_str(), "RootfsPath") {
        Some(RootfsSpec::RootfsPath(value))
    } else {
        None
    }
}

/// Decode the volume list.
fn decode_volumes(v: &JsonValue) -> (r: Option<Vec<VolumeSpec>>)
    ensures
        (r is Some) <==> spec_volumes_shape(*v),
        r matches Some(vols) ==> spec_volumes_decoding(*v, vols@),
{
    let items = match v {
        JsonValue::Arr(items) => items,
        _ => {
            return None;
        },
    };
    let n = items.len();
    let mut out: Vec<VolumeSpec> = Vec::new();
    let mut i: usize = 0;
    while i < n
        invariant
            *v == JsonValue::Arr(*items),
            n == items@.len(),
            i <= n,
            out@.len() == i,
            forall|k: int| 0 <= k < i ==> spec_volume_fields(#[trigger] items@[k], out@[k]),
            forall|k: int| 0 <= k < i ==> spec_volume_shape(#[trigger] items@[k]),
        decreases n - i,
    {
        match &items[i] {
            JsonValue::Obj(fs) => {
                proof {
                    assert(items@[i as int] == JsonValue::Obj(*fs));
                }
                let host_path = match crate::json::obj_get(fs, "host_path") {
                    Some(JsonValue::Str(s)) => s.clone(),
                    _ => {
                        proof {
                            assert(!spec_volume_shape(items@[i as int]));
                            lemma_volumes_shape_witness(*v, *items, i as int);
                        }
                        return None;
                    },
                };
                let guest_path = match crate::json::obj_get(fs, "guest_path") {
                    Some(JsonValue::Str(s)) => s.clone(),
                    _ => {
                        proof {
                            assert(!spec_volume_shape(items@[i as int]));
                            lemma_volumes_shape_witness(*v, *items, i as int);
                        }
                        return None;
                    },
                };
                let read_only = match crate::json::obj_get(fs, "read_only") {
                    Some(JsonValue::Bool(b)) => *b,
                    _ => {
                        proof {
                            assert(!spec_volume_shape(items@[i as int]));
                            lemma_volumes_shape_witness(*v, *items, i as int);
                        }
                        return None;
                    },
                };
                out.push(VolumeSpec { host_path, guest_path, read_only });
            },
            _ => {
                proof {
                    assert(!spec_volume_shape(items@[i as int]));
                    lemma_volumes_shape_witness(*v, *items, i as int);
                }
                return None;
            },
        }
        i += 1;
    }
    Some(out)
}

/// Decode the port list.
fn decode_ports(v: &JsonValue) -> (r: Option<Vec<PortSpec>>)
    ensures
        (r is Some) <==> spec_ports_shape(*v),
        r matches Some(ports) ==> spec_ports_decoding(*v, ports@),
{
    proof {
        reveal_strlit("Tcp");
        reveal_strlit("Udp");
    }
    let items = match v {
        JsonValue::Arr(items) => items,
        _ => {
            return None;
        },
    };
    let n = items.len();
    let mut out: Vec<PortSpec> = Vec::new();
    let mut i: usize = 0;
    while i < n
        invariant
            *v == JsonValue::Arr(*items),
            n == items@.len(),
            i <= n,
            out@.len() == i,
            forall|k: int| 0 <= k < i ==> spec_port_fields(#[trigger] items@[k], out@[k]),
            forall|k: int| 0 <= k < i ==> spec_port_shape(#[trigger] items@[k]),
        decreases n - i,
    {
        match &items[i] {
            JsonValue::Obj(fs) => {
                proof {
                    assert(items@[i as int] == JsonValue::Obj(*fs));
                }
                let host_port_v = match crate::json::obj_get(fs, "host_port") {
                    Some(x) => x,
                    None => {
                        proof {
                            assert(!spec_port_shape(items@[i as int]));
                            lemma_ports_shape_witness(*v, *items, i as int);
                        }
                        return None;
                    },
                };
                let host_port = match decode_opt_i64(host_port_v, 0, 65535) {
                    Some(Some(h)) => Some(h as u16),
                    Some(None) => None,
                    None => {
                        proof {
                            assert(!spec_port_shape(items@[i as int]));
                            lemma_ports_shape_witness(*v, *items, i as int);
                        }
                        return None;
                    },
                };
                let guest_port = match crate::json::obj_get(fs, "guest_port") {
                    Some(JsonValue::Int(g)) => {
                        if 0 <= *g && *g <= 65535 {
                            (*g) as u16
                        } else {
                            proof {
                                assert(!spec_port_shape(items@[i as int]));
                                lemma_ports_shape_witness(*v, *items, i as int);
                            }
                            return None;
                        }
                    },
                    _ => {
                        proof {
                            assert(!spec_port_shape(items@[i as int]));
                            lemma_ports_shape_witness(*v, *items, i as int);
                        }
                        return None;
                    },
                };
                let protocol = match crate::json::obj_get(fs, "protocol") {
                    Some(JsonValue::Str(s)) => {
                        if str_eq(s.as_str(), "Tcp") {
                            PortProtocol::Tcp
                        } else if str_eq(s.as_str(), "Udp") {
                            PortProtocol::Udp
                        } else {
                            proof {
                                assert(!spec_port_shape(items@[i as int]));
                                lemma_ports_shape_witness(*v, *items, i as int);
                            }
                            return None;
                        }
                    },
                    _ => {
                        proof {
                            assert(!spec_port_shape(items@[i as int]));
                            lemma_ports_shape_witness(*v, *items, i as int);
                        }
                        return None;
                    },
                };
                let host_ip_v = match crate::json::obj_get(fs, "host_ip") {
                    Some(x) => x,
                    None => {
                        proof {
                            assert(!spec_port_shape(items@[i as int]));
                            lemma_ports_shape_witness(*v, *items, i as int);
                        }
                        return None;
                    },
                };
                let host_ip = match decode_opt_string(host_ip_v) {
                    Some(x) => x,
                    None => {
                        proof {
                            assert(!spec_port_shape(items@[i as int]));
                            lemma_ports_shape_witness(*v, *items, i as int);
                        }
                        return None;
                    },
                };
                out.push(PortSpec { host_port, guest_port, protocol, host_ip });
            },
            _ => {
                proof {
                    assert(!spec_port_shape(items@[i as int]));
                    lemma_ports_shape_witness(*v, *items, i as int);
                }
                return None;
            },
        }
        i += 1;
    }
    Some(out)
}

/// Decode a string list.
fn decode_string_list(v: &JsonValue) -> (r: Option<Vec<String>>)
    ensures
        (r is Some) <==> spec_string_list_shape(*v),
        r matches Some(l) ==> spec_string_list_encoding(*v, l@),
{
    let items = match v {
        JsonValue::Arr(items) => items,
        _ => {
            return None;
        },
    };
    let n = items.len();
    let mut out: Vec<String> = Vec::new();
    let mut i: usize = 0;
    while i < n
        invariant
            *v == JsonValue::Arr(*items),
            n == items@.len(),
            i <= n,
            out@.len() == i,
            forall|k: int|
                0 <= k < i ==> ((#[trigger] items@[k]) matches JsonValue::Str(s) && s@
                    == out@[k]@),
        decreases n - i,
    {
        match &items[i] {
            JsonValue::Str(s) => {
                out.push(s.clone());
            },
            _ => {
                return None;
            },
        }
        i += 1;
    }
    Some(out)
}

/// Decode one optional-number field of the limits object.
fn decode_limit_field(fs: &Vec<(String, JsonValue)>, name: &str) -> (r: Option<Option<u64>>)
    ensures
        (r is Some) <==> (spec_obj_get(fs@, name@) matches Some(x) && spec_opt_int_shape(
            x,
            0,
            i64::MAX as int,
        )),
        r matches Some(l) ==> (spec_obj_get(fs@, name@) matches Some(x) && spec_opt_int_encoding(
            x,
            spec_opt_u64_view(l),
        )),
{
    match crate::json::obj_get(fs, name) {
        Some(x) => match decode_opt_i64(x, 0, i64::MAX) {
            Some(Some(n)) => Some(Some(n as u64)),
            Some(None) => Some(None),
            None => None,
        },
        None => None,
    }
}

/// Decode the resource limits.
fn decode_limits(v: &JsonValue) -> (r: Option<ResourceLimits>)
    ensures
        (r is Some) <==> spec_limits_shape(*v),
        r matches Some(l) ==> spec_limits_fields(*v, l),
{
    let fs = match v {
        JsonValue::Obj(fs) => fs,
        _ => {
            return None;
        },
    };
    let max_open_files = match decode_limit_field(fs, "max_open_files") {
        Some(x) => x,
        None => {
            return None;
        },
    };
    let max_file_size = match decode_limit_field(fs, "max_file_size") {
        Some(x) => x,
        None => {
            return None;
        },
    };
    let max_processes = match decode_limit_field(fs, "max_processes") {
        Some(x) => x,
        None => {
            return None;
        },
    };
    let max_memory = match decode_limit_field(fs, "max_memory") {
        Some(x) => x,
        None => {
            return None;
        },
    };
    let max_cpu_time = match decode_limit_field(fs, "max_cpu_time") {
        Some(x) => x,
        None => {
            return None;
        },
    };
    Some(ResourceLimits { max_open_files, max_file_size, max_processes, max_memory, max_cpu_time })
}

/// Decode one boolean field of the security object.
fn decode_security_bool(fs: &Vec<(String, JsonValue)>, name: &str) -> (r: Option<bool>)
    ensures
        (r is Some) <==> (spec_obj_get(fs@, name@) matches Some(x) && x is Bool),
        r matches Some(b) ==> spec_obj_get(fs@, name@) == Some(JsonValue::Bool(b)),
{
    match crate::json::obj_get(fs, name) {
        Some(x) => decode_bool(x),
        None => None,
    }
}

/// Decode the security options (all fields required; written security
/// objects always carry all of them).
fn decode_security(v: &JsonValue) -> (r: Option<SecurityOptions>)
    ensures
        (r is Some) <==> spec_security_shape(*v),
        r matches Some(s) ==> spec_security_fields(*v, s),
{
    let fs = match v {
        JsonValue::Obj(fs) => fs,
        _ => {
            return None;
        },
    };
    let jailer_enabled = match decode_security_bool(fs, "jailer_enabled") {
        Some(b) => b,
        None => {
            return None;
        },
    };
    let seccomp_enabled = match decode_security_bool(fs, "seccomp_enabled") {
        Some(b) => b,
        None => {
            return None;
        },
    };
    let uid = match crate::json::obj_get(fs, "uid") {
        Some(x) => match decode_opt_i64(x, 0, 0xFFFF_FFFF) {
            Some(Some(n)) => Some(n as u32),
            Some(None) => None,
            None => {
                return None;
            },
        },
        None => {
            return None;
        },
    };
    let gid = match crate::json::obj_get(fs, "gid") {
        Some(x) => match decode_opt_i64(x, 0, 0xFFFF_FFFF) {
            Some(Some(n)) => Some(n as u32),
            Some(None) => None,
            None => {
                return None;
            },
        },
        None => {
            return None;
        },
    };
    let new_pid_ns = match decode_security_bool(fs, "new_pid_ns") {
        Some(b) => b,
        None => {
            return None;
        },
    };
    let new_net_ns = match decode_security_bool(fs, "new_net_ns") {
        Some(b) => b,
        None => {
            return None;
        },
    };
    let chroot_base = match crate::json::obj_get(fs, "chroot_base") {
        Some(JsonValue::Str(s)) => s.clone(),
        _ => {
            return None;
        },
    };
    let chroot_enabled = match decode_security_bool(fs, "chroot_enabled") {
        Some(b) => b,
        None => {
            return None;
        },
    };
    let close_fds = match decode_security_bool(fs, "close_fds") {
        Some(b) => b,
        None => {
            return None;
        },
    };
    let sanitize_env = match decode_security_bool(fs, "sanitize_env") {
        Some(b) => b,
        None => {
            return None;
        },
    };
    let env_allowlist = match crate::json::obj_get(fs, "env_allowlist") {
        Some(x) => match decode_string_list(x) {
            Some(l) => l,
            None => {
                return None;
            },
        },
        None => {
            return None;
        },
    };
    let resource_limits = match crate::json::obj_get(fs, "resource_limits") {
        Some(x) => match decode_limits(x) {
            Some(l) => l,
            None => {
                return None;
            },
        },
        None => {
            return None;
        },
    };
    let sandbox_profile = match crate::json::obj_get(fs, "sandbox_profile") {
        Some(x) => match decode_opt_string(x) {
            Some(p) => p,
            None => {
                return None;
            },
        },
        None => {
            return None;
        },
    };
    let network_enabled = match decode_security_bool(fs, "network_enabled") {
        Some(b) => b,
        None => {
            return None;
        },
    };
    Some(
        SecurityOptions {
            jailer_enabled,
            seccomp_enabled,
            uid,
            gid,
            new_pid_ns,
            new_net_ns,
            chroot_base,
            chroot_enabled,
            close_fds,
            sanitize_env,
            env_allowlist,
            resource_limits,
            sandbox_profile,
            network_enabled,
        },
    )
}

/// Decode box options from a JSON object: `rootfs`, `env`, `volumes`,
/// `network` and `ports` must be present; the other fields fall back to
/// their documented defaults. Decoding succeeds on exactly the accepted
/// shape, and in particular on every value the encoder writes (see
/// `lemma_encoded_options_decode`).
pub fn box_options_from_json(v: &JsonValue) -> (r: Option<BoxOptions>)
    ensures
        (r is Some) <==> spec_box_options_wf(*v),
        r matches Some(o) ==> spec_box_options_decoding(*v, &o),
{
    let fields = match v {
        JsonValue::Obj(fields) => fields,
        _ => {
            return None;
        },
    };
    let cpus = match crate::json::obj_get(fields, "cpus") {
        Some(x) => match decode_opt_i64(x, 0, 255) {
            Some(Some(c)) => Some(c as u8),
            Some(None) => None,
            None => {
                return None;
            },
        },
        None => None,
    };
    let memory_mib = match crate::json::obj_get(fields, "memory_mib") {
        Some(x) => match decode_opt_i64(x, 0, 0xFFFF_FFFF) {
            Some(Some(m)) => Some(m as u32),
            Some(None) => None,
            None => {
                return None;
            },
        },
        None => None,
    };
    let disk_size_gb = match crate::json::obj_get(fields, "disk_size_gb") {
        Some(x) => match decode_opt_i64(x, 0, i64::MAX) {
            Some(Some(d)) => Some(d as u64),
            Some(None) => None,
            None => {
                return None;
            },
        },
        None => None,
    };
    let working_dir = match crate::json::obj_get(fields, "working_dir") {
        Some(x) => match decode_opt_string(x) {
            Some(w) => w,
            None => {
                return None;
            },
        },
        None => None,
    };
    let env = match crate::json::obj_get(fields, "env") {
        Some(x) => match decode_env(x) {
            Some(e) => e,
            None => {
                return None;
            },
        },
        None => {
            return None;
        },
    };
    let rootfs = match crate::json::obj_get(fields, "rootfs") {
        Some(x) => match decode_rootfs(x) {
            Some(rf) => rf,
            None => {
                return None;
            },
        },
        None => {
            return None;
        },
    };
    let volumes = match crate::json::obj_get(fields, "volumes") {
        Some(x) => match decode_volumes(x) {
            Some(vs) => vs,
            None => {
                return None;
            },
        },
        None => {
            return None;
        },
    };
    let network = match crate::json::obj_get(fields, "network") {
        Some(JsonValue::Str(s)) => {
            proof {
                reveal_strlit("Isolated");
            }
            if str_eq(s.as_str(), "Isolated") {
                NetworkSpec::Isolated
            } else {
                return None;
            }
        },
        _ => {
            return None;
        },
    };
    let ports = match crate::json::obj_get(fields, "ports") {
        Some(x) => match decode_ports(x) {
            Some(ps) => ps,
            None => {
                return None;
            },
        },
        None => {
            return None;
        },
    };
    let isolate_mounts = match crate::json::obj_get(fields, "isolate_mounts") {
        Some(x) => match decode_bool(x) {
            Some(b) => b,
            None => {
                return None;
            },
        },
        None => false,
    };
    let auto_remove = match crate::json::obj_get(fields, "auto_remove") {
        Some(x) => match decode_bool(x) {
            Some(b) => b,
            None => {
                return None;
            },
        },
        None => default_auto_remove(),
    };
    let detach = match crate::json::obj_get(fields, "detach") {
        Some(x) => match decode_bool(x) {
            Some(b) => b,
            None => {
                return None;
            },
        },
        None => default_detach(),
    };
    let security = match crate::json::obj_get(fields, "security") {
        Some(x) => match decode_security(x) {
            Some(sec) => sec,
            None => {
                return None;
            },
        },
        None => SecurityOptions::default(),
    };
    Some(
        BoxOptions {
            cpus,
            memory_mib,
            disk_size_gb,
            working_dir,
            env,
            rootfs,
            volumes,
            network,
            ports,
            isolate_mounts,
            auto_remove,
            detach,
            security,
        },
    )
}

/// Decode the runtime options of the configuration file: the home
/// directory and the registry list. A missing or ill-typed field falls
/// back to its default (the caller's default home, no registries), and a
/// value of another shape entirely yields the defaults whole, so reading
/// the configuration never fails.
pub fn runtime_options_from_json(v: &JsonValue, default_home: String) -> (r: BoxliteOptions)
    ensures
        r.home_dir@ == (match *v {
            JsonValue::Obj(fields) => match spec_obj_get(fields@, "home_dir"@) {
                Some(x) => match x {
                    JsonValue::Str(s) => s@,
                    _ => default_home@,
                },
                None => default_home@,
            },
            _ => default_home@,
        }),
        (match *v {
            JsonValue::Obj(fields) => match spec_obj_get(fields@, "image_registries"@) {
                Some(x) => if spec_string_list_shape(x) {
                    spec_string_list_encoding(x, r.image_registries@)
                } else {
                    r.image_registries@.len() == 0
                },
                None => r.image_registries@.len() == 0,
            },
            _ => r.image_registries@.len() == 0,
        }),
{
    let fields = match v {
        JsonValue::Obj(fields) => fields,
        _ => {
            return BoxliteOptions::new(default_home);
        },
    };
    let home_dir = match crate::json::obj_get(fields, "home_dir") {
        Some(JsonValue::Str(s)) => s.clone(),
        _ => default_home,
    };
    let image_registries = match crate::json::obj_get(fields, "image_registries") {
        Some(x) => match decode_string_list(x) {
            Some(l) => l,
            None => Vec::new(),
        },
        None => Vec::new(),
    };
    BoxliteOptions { home_dir, image_registries }
}

/// Every value the encoder writes is a shape the decoder accepts, so the
/// round trip always succeeds: with `lemma_box_options_json_round_trip`,
/// encoding then decoding returns options equal to the input.
pub proof fn lemma_encoded_options_decode(v: JsonValue, o: &BoxOptions)
    requires
        spec_box_options_encoding(v, o),
    ensures
        spec_box_options_wf(v),
{
    match v {
        JsonValue::Obj(fields) => {
            let ev = spec_obj_get(fields@, "env"@)->0;
            match ev {
                JsonValue::Arr(items) => {
                    assert forall|i: int| 0 <= i < items@.len() implies ((
                    #[trigger] items@[i]) matches JsonValue::Arr(kv) && kv@.len() == 2 && kv@[0]
                        is Str && kv@[1] is Str) by {
                        assert(items@[i] matches JsonValue::Arr(kv1));
                    }
                },
                _ => {},
            }
            let vv = spec_obj_get(fields@, "volumes"@)->0;
            match vv {
                JsonValue::Arr(items) => {
                    assert forall|i: int| 0 <= i < items@.len() implies spec_volume_shape(
                        #[trigger] items@[i],
                    ) by {
                        assert(spec_volume_encoding(items@[i], o.volumes@[i]));
                        lemma_volume_encoding_fields(items@[i], o.volumes@[i]);
                    }
                },
                _ => {},
            }
            let pv = spec_obj_get(fields@, "ports"@)->0;
            match pv {
                JsonValue::Arr(items) => {
                    assert forall|i: int| 0 <= i < items@.len() implies spec_port_shape(
                        #[trigger] items@[i],
                    ) by {
                        assert(spec_port_encoding(items@[i], o.ports@[i]));
                        lemma_port_encoding_fields(items@[i], o.ports@[i]);
                    }
                },
                _ => {},
            }
            let sv = spec_obj_get(fields@, "security"@)->0;
            lemma_security_encoding_fields(sv, o.security);
            match sv {
                JsonValue::Obj(sfs) => {
                    let av = spec_obj_get(sfs@, "env_allowlist"@)->0;
                    match av {
                        JsonValue::Arr(items) => {
                            assert forall|i: int| 0 <= i < items@.len() implies (
                            #[trigger] items@[i]) is Str by {
                                assert(items@[i] matches JsonValue::Str(s1) && s1@
                                    == o.security.env_allowlist@[i]@);
                            }
                        },
                        _ => {},
                    }
                },
                _ => {},
            }
            let rv = spec_obj_get(fields@, "rootfs"@)->0;
            match o.rootfs {
                RootfsSpec::Image(_) => {
                    assert(spec_rootfs_shape(rv));
                },
                RootfsSpec::RootfsPath(_) => {
                    assert(spec_rootfs_shape(rv));
                },
            }
        },
        _ => {},
    }
}

} // verus!

//! The CLI surface as plain values: the command tree, the flag groups,
//! and how flags apply to box options. Argument parsing and the process
//! environment live outside; host variables arrive as a lookup table.

use vstd::prelude::*;

use crate::exec::BoxCommand;
use crate::image_config::{pair_views, spec_env_split};
use crate::inspect::InspectArgs;
use crate::options::BoxOptions;
use crate::strutil::{seq_views, spec_find_char, split_once_char, str_eq};

verus! {

/// The value of the first table entry keyed `k`.
pub open spec fn spec_env_lookup(table: Seq<(String, String)>, k: Seq<char>) -> Option<Seq<char>>
    decreases table.len(),
{
    if table.len() == 0 {
        None
    } else if table[0].0@ == k {
        Some(table[0].1@)
    } else {
        spec_env_lookup(table.drop_first(), k)
    }
}

/// The pairs a list of `KEY=VALUE` or bare `KEY` entries adds: an entry
/// with `=` splits there; a bare entry takes the host's value where the
/// lookup table has one, and is skipped otherwise.
pub open spec fn spec_applied_env(entries: Seq<Seq<char>>, table: Seq<(String, String)>) -> Seq<
    (Seq<char>, Seq<char>),
>
    decreases entries.len(),
{
    if entries.len() == 0 {
        Seq::empty()
    } else {
        let front = spec_applied_env(entries.drop_last(), table);
        let e = entries.last();
        match spec_env_split(e) {
            Some(kv) => front.push(kv),
            None => match spec_env_lookup(table, e) {
                Some(v) => front.push((e, v)),
                None => front,
            },
        }
    }
}

/// Look a key up in the host-variable table.
fn env_lookup(table: &Vec<(String, String)>, k: &str) -> (r: Option<String>)
    ensures
        match r {
            Some(v) => spec_env_lookup(table@, k@) == Some(v@),
            None => spec_env_lookup(table@, k@) is None,
        },
{
    let n = table.len();
    proof {
        assert(table@.skip(0) =~= table@);
    }
    let mut i: usize = 0;
    while i < n
        invariant
            n == table@.len(),
            i <= n,
            spec_env_lookup(table@, k@) == spec_env_lookup(table@.skip(i as int), k@),
        decreases n - i,
    {
        proof {
            let rest = table@.skip(i as int);
            assert(rest[0] == table@[i as int]);
            assert(rest.drop_first() =~= table@.skip(i as int + 1));
        }
        if str_eq(table[i].0.as_str(), k) {
            return Some(table[i].1.clone());
        }
        i += 1;
    }
    proof {
        assert(table@.skip(n as int) =~= Seq::<(String, String)>::empty());
    }
    None
}

/// Apply CLI environment entries to the options: `KEY=VALUE` entries are
/// split; bare names take the host's value from the lookup table or are
/// skipped.
pub fn apply_env_vars_with_lookup(
    env: &Vec<String>,
    opts: &mut BoxOptions,
    lookup: &Vec<(String, String)>,
)
    ensures
        pair_views(final(opts).env@) == pair_views(old(opts).env@) + spec_applied_env(
            seq_views(env@),
            lookup@,
        ),
        final(opts).cpus == old(opts).cpus,
        final(opts).memory_mib == old(opts).memory_mib,
        final(opts).disk_size_gb == old(opts).disk_size_gb,
        final(opts).working_dir == old(opts).working_dir,
        final(opts).rootfs == old(opts).rootfs,
        final(opts).volumes == old(opts).volumes,
        final(opts).network == old(opts).network,
        final(opts).ports == old(opts).ports,
        final(opts).isolate_mounts == old(opts).isolate_mounts,
        final(opts).auto_remove == old(opts).auto_remove,
        final(opts).detach == old(opts).detach,
        final(opts).security == old(opts).security,
{
    let ghost base = pair_views(old(opts).env@);
    let ghost entries = seq_views(env@);
    let n = env.len();
    proof {
        assert(entries.take(0) =~= Seq::<Seq<char>>::empty());
        assert(base + spec_applied_env(entries.take(0), lookup@) =~= base);
    }
    let mut i: usize = 0;
    while i < n
        invariant
            n == env@.len(),
            entries == seq_views(env@),
            i <= n,
            pair_views(opts.env@) == base + spec_applied_env(entries.take(i as int), lookup@),
            opts.cpus == old(opts).cpus,
            opts.memory_mib == old(opts).memory_mib,
            opts.disk_size_gb == old(opts).disk_size_gb,
            opts.working_dir == old(opts).working_dir,
            opts.rootfs == old(opts).rootfs,
            opts.volumes == old(opts).volumes,
            opts.network == old(opts).network,
            opts.ports == old(opts).ports,
            opts.isolate_mounts == old(opts).isolate_mounts,
            opts.auto_remove == old(opts).auto_remove,
            opts.detach == old(opts).detach,
            opts.security == old(opts).security,
        decreases n - i,
    {
        let ghost entry_view = env@[i as int]@;
        proof {
            assert(entries.take(i as int + 1).drop_last() =~= entries.take(i as int));
            assert(entries.take(i as int + 1).last() == entry_view);
        }
        match split_once_char(env[i].as_str(), '=') {
            Some(kv) => {
                let (k, v) = kv;
                proof {
                    let pos = choose|p: int|
                        {
                            &&& 0 <= p < entry_view.len()
                            &&& entry_view[p] == '='
                            &&& (forall|q: int| 0 <= q < p ==> entry_view[q] != '=')
                            &&& k@ == entry_view.subrange(0, p)
                            &&& v@ == entry_view.subrange(p + 1, entry_view.len() as int)
                        };
                    crate::strutil::lemma_find_char_unique(entry_view, '=', pos);
                    assert(spec_env_split(entry_view) == Some((k@, v@)));
                }
                let ghost prev = opts.env@;
                opts.env.push((String::from_str(k), String::from_str(v)));
                proof {
                    assert(pair_views(opts.env@) =~= pair_views(prev).push((k@, v@)));
                    assert(pair_views(prev).push((k@, v@)) =~= base + spec_applied_env(
                        entries.take(i as int + 1),
                        lookup@,
                    ));
                }
            },
            None => {
                proof {
                    crate::strutil::lemma_find_char_props(entry_view, '=');
                    match spec_find_char(entry_view, '=') {
                        Some(p) => {
                            assert(entry_view[p] != '=');
                        },
                        None => {},
                    }
                    assert(spec_env_split(entry_view) is None);
                }
                match env_lookup(lookup, env[i].as_str()) {
                    Some(val) => {
                        let ghost prev = opts.env@;
                        opts.env.push((env[i].clone(), val));
                        proof {
                            assert(pair_views(opts.env@) =~= pair_views(prev).push(
                                (entry_view, spec_env_lookup(lookup@, entry_view)->0),
                            ));
                            assert(pair_views(opts.env@) =~= base + spec_applied_env(
                                entries.take(i as int + 1),
                                lookup@,
                            ));
                        }
                    },
                    None => {},
                }
            },
        }
        i += 1;
    }
    proof {
        assert(entries.take(n as int) =~= entries);
    }
}

/// Registries tried in order: the command line's first, then the
/// configuration file's.
pub fn merge_registries(cli: &Vec<String>, config: &Vec<String>) -> (r: Vec<String>)
    ensures
        seq_views(r@) == seq_views(cli@) + seq_views(config@),
{
    let mut r: Vec<String> = Vec::new();
    let nc = cli.len();
    let mut i: usize = 0;
    proof {
        assert(seq_views(r@) =~= seq_views(cli@).take(0));
    }
    while i < nc
        invariant
            nc == cli@.len(),
            i <= nc,
            seq_views(r@) == seq_views(cli@).take(i as int),
        decreases nc - i,
    {
        let x = cli[i].clone();
        let ghost prev = r@;
        r.push(x);
        proof {
            assert(seq_views(r@) =~= seq_views(prev).push(cli@[i as int]@));
            assert(seq_views(prev).push(cli@[i as int]@) =~= seq_views(cli@).take(i as int + 1));
        }
        i += 1;
    }
    proof {
        assert(seq_views(cli@).take(nc as int) =~= seq_views(cli@));
    }
    let ng = config.len();
    let mut j: usize = 0;
    proof {
        assert(seq_views(r@) + seq_views(config@).take(0) =~= seq_views(r@));
    }
    while j < ng
        invariant
            ng == config@.len(),
            j <= ng,
            seq_views(r@) == seq_views(cli@) + seq_views(config@).take(j as int),
        decreases ng - j,
    {
        let x = config[j].clone();
        let ghost prev = r@;
        r.push(x);
        proof {
            assert(seq_views(r@) =~= seq_views(prev).push(config@[j as int]@));
            assert(seq_views(prev).push(config@[j as int]@) =~= seq_views(cli@) + seq_views(
                config@,
            ).take(j as int + 1));
        }
        j += 1;
    }
    proof {
        assert(seq_views(config@).take(ng as int) =~= seq_views(config@));
    }
    r
}

// ============================================================================
// Flag groups
// ============================================================================

/// Global flags: debugging, the home directory, and the registries tried
/// before the configured ones.
#[derive(Debug, Clone)]
pub struct GlobalFlags {
    pub debug: bool,
    pub home: Option<String>,
    pub registry: Vec<String>,
}

/// Flags of the process run inside the box.
#[derive(Debug, Clone)]
pub struct ProcessFlags {
    /// Keep stdin open.
    pub interactive: bool,
    /// Allocate a pseudo-TTY (stdout and stderr then merge).
    pub tty: bool,
    /// `KEY=VALUE` or bare `KEY` environment entries.
    pub env: Vec<String>,
    /// Working directory inside the box.
    pub workdir: Option<String>,
}

impl ProcessFlags {
    /// Apply working directory and environment entries to the options,
    /// with host variables from the lookup table.
    pub fn apply_to_with_lookup(&self, opts: &mut BoxOptions, lookup: &Vec<(String, String)>)
        ensures
            (match (self.workdir, final(opts).working_dir) {
                (Some(w), Some(w2)) => w2@ == w@,
                (None, None) => true,
                _ => false,
            }),
            pair_views(final(opts).env@) == pair_views(old(opts).env@) + spec_applied_env(
                seq_views(self.env@),
                lookup@,
            ),
            final(opts).cpus == old(opts).cpus,
            final(opts).memory_mib == old(opts).memory_mib,
            final(opts).disk_size_gb == old(opts).disk_size_gb,
            final(opts).rootfs == old(opts).rootfs,
            final(opts).volumes == old(opts).volumes,
            final(opts).network == old(opts).network,
            final(opts).ports == old(opts).ports,
            final(opts).isolate_mounts == old(opts).isolate_mounts,
            final(opts).auto_remove == old(opts).auto_remove,
            final(opts).detach == old(opts).detach,
            final(opts).security == old(opts).security,
    {
        opts.working_dir = match &self.workdir {
            Some(w) => Some(w.clone()),
            None => None,
        };
        apply_env_vars_with_lookup(&self.env, opts, lookup);
    }

    /// Configure a box command with these flags: environment entries,
    /// working directory, and the TTY request.
    pub fn configure_command(&self, cmd: BoxCommand, lookup: &Vec<(String, String)>) -> (r:
        BoxCommand)
        ensures
            pair_views(r.env@) == pair_views(cmd.env@) + spec_applied_env(
                seq_views(self.env@),
                lookup@,
            ),
            (match (self.workdir, r.working_dir) {
                (Some(w), Some(w2)) => w2@ == w@,
                (None, _) => r.working_dir == cmd.working_dir,
                (Some(_), None) => false,
            }),
            r.tty == (cmd.tty || self.tty),
            r.command == cmd.command,
            r.args == cmd.args,
            r.timeout_ms == cmd.timeout_ms,
    {
        let ghost base = pair_views(cmd.env@);
        let ghost entries = seq_views(self.env@);
        let mut out = cmd;
        let n = self.env.len();
        proof {
            assert(entries.take(0) =~= Seq::<Seq<char>>::empty());
            assert(base + spec_applied_env(entries.take(0), lookup@) =~= base);
        }
        let mut i: usize = 0;
        while i < n
            invariant
                n == self.env@.len(),
                entries == seq_views(self.env@),
                i <= n,
                pair_views(out.env@) == base + spec_applied_env(entries.take(i as int), lookup@),
                out.command == cmd.command,
                out.args == cmd.args,
                out.working_dir == cmd.working_dir,
                out.timeout_ms == cmd.timeout_ms,
                out.tty == cmd.tty,
            decreases n - i,
        {
            let ghost entry_view = self.env@[i as int]@;
            proof {
                assert(entries.take(i as int + 1).drop_last() =~= entries.take(i as int));
                assert(entries.take(i as int + 1).last() == entry_view);
            }
            match split_once_char(self.env[i].as_str(), '=') {
                Some(kv) => {
                    let (k, v) = kv;
                    proof {
                        let pos = choose|p: int|
                            {
                                &&& 0 <= p < entry_view.len()
                                &&& entry_view[p] == '='
                                &&& (forall|q: int| 0 <= q < p ==> entry_view[q] != '=')
                                &&& k@ == entry_view.subrange(0, p)
                                &&& v@ == entry_view.subrange(p + 1, entry_view.len() as int)
                            };
                        crate::strutil::lemma_find_char_unique(entry_view, '=', pos);
                        assert(spec_env_split(entry_view) == Some((k@, v@)));
                    }
                    let ghost prev = out.env@;
                    out = out.env(String::from_str(k), String::from_str(v));
                    proof {
                        assert(pair_views(out.env@) =~= pair_views(prev).push((k@, v@)));
                        assert(pair_views(out.env@) =~= base + spec_applied_env(
                            entries.take(i as int + 1),
                            lookup@,
                        ));
                    }
                },
                None => {
                    proof {
                        crate::strutil::lemma_find_char_props(entry_view, '=');
                        match spec_find_char(entry_view, '=') {
                            Some(p) => {
                                assert(entry_view[p] != '=');
                            },
                            None => {},
                        }
                        assert(spec_env_split(entry_view) is None);
                    }
                    match env_lookup(lookup, self.env[i].as_str()) {
                        Some(val) => {
                            let ghost prev = out.env@;
                            out = out.env(self.env[i].clone(), val);
                            proof {
                                assert(pair_views(out.env@) =~= pair_views(prev).push(
                                    (entry_view, spec_env_lookup(lookup@, entry_view)->0),
                                ));
                                assert(pair_views(out.env@) =~= base + spec_applied_env(
                                    entries.take(i as int + 1),
                                    lookup@,
                                ));
                            }
                        },
                        None => {},
                    }
                },
            }
            i += 1;
        }
        proof {
            assert(entries.take(n as int) =~= entries);
        }
        match &self.workdir {
            Some(w) => {
                out = out.working_dir(w.clone());
            },
            None => {},
        }
        if self.tty {
            out = out.tty(true);
        }
        out
    }
}

/// Resource flags: cpus (capped at 255) and memory.
#[derive(Debug, Clone)]
pub struct ResourceFlags {
    pub cpus: Option<u32>,
    pub memory: Option<u32>,
}

impl ResourceFlags {
    /// Apply the resource flags: an absent flag leaves the option alone;
    /// the CPU count is capped at 255.
    pub fn apply_to(&self, opts: &mut BoxOptions)
        ensures
            final(opts).cpus == (match self.cpus {
                Some(c) => Some((if c > 255 {
                    255u8
                } else {
                    c as u8
                })),
                None => old(opts).cpus,
            }),
            final(opts).memory_mib == (match self.memory {
                Some(m) => Some(m),
                None => old(opts).memory_mib,
            }),
            final(opts).disk_size_gb == old(opts).disk_size_gb,
            final(opts).working_dir == old(opts).working_dir,
            final(opts).env == old(opts).env,
            final(opts).rootfs == old(opts).rootfs,
            final(opts).volumes == old(opts).volumes,
            final(opts).network == old(opts).network,
            final(opts).ports == old(opts).ports,
            final(opts).isolate_mounts == old(opts).isolate_mounts,
            final(opts).auto_remove == old(opts).auto_remove,
            final(opts).detach == old(opts).detach,
            final(opts).security == old(opts).security,
    {
        match self.cpus {
            Some(c) => {
                let capped: u8 = if c > 255 {
                    255
                } else {
                    c as u8
                };
                opts.cpus = Some(capped);
            },
            None => {},
        }
        match self.memory {
            Some(m) => {
                opts.memory_mib = Some(m);
            },
            None => {},
        }
    }
}

/// Management flags: a name, detaching, and removal on exit.
#[derive(Debug, Clone)]
pub struct ManagementFlags {
    pub name: Option<String>,
    pub detach: bool,
    pub rm: bool,
}

impl ManagementFlags {
    /// Apply the management flags: they set `detach` and `auto_remove`
    /// outright.
    pub fn apply_to(&self, opts: &mut BoxOptions)
        ensures
            final(opts).detach == self.detach,
            final(opts).auto_remove == self.rm,
            final(opts).cpus == old(opts).cpus,
            final(opts).memory_mib == old(opts).memory_mib,
            final(opts).disk_size_gb == old(opts).disk_size_gb,
            final(opts).working_dir == old(opts).working_dir,
            final(opts).env == old(opts).env,
            final(opts).rootfs == old(opts).rootfs,
            final(opts).volumes == old(opts).volumes,
            final(opts).network == old(opts).network,
            final(opts).ports == old(opts).ports,
            final(opts).isolate_mounts == old(opts).isolate_mounts,
            final(opts).security == old(opts).security,
    {
        opts.detach = self.detach;
        opts.auto_remove = self.rm;
    }
}

// ============================================================================
// The command tree
// ============================================================================

/// Arguments of `run`: an image and the command to run in it.
#[derive(Debug, Clone)]
pub struct RunArgs {
    pub process: ProcessFlags,
    pub resource: ResourceFlags,
    pub management: ManagementFlags,
    pub image: String,
    pub command: Vec<String>,
}

/// Arguments of `exec`.
#[derive(Debug, Clone)]
pub struct ExecArgs {
    pub process: ProcessFlags,
    pub box_ref: String,
    pub command: Vec<String>,
}

/// Arguments of `create`.
#[derive(Debug, Clone)]
pub struct CreateArgs {
    pub process: ProcessFlags,
    pub resource: ResourceFlags,
    pub management: ManagementFlags,
    pub image: String,
}

/// Arguments of `list`.
#[derive(Debug, Clone)]
pub struct ListArgs {
    pub format: String,
}

/// Arguments of `rm`.
#[derive(Debug, Clone)]
pub struct RmArgs {
    pub boxes: Vec<String>,
    pub force: bool,
}

/// Arguments of `start`, `stop` and `restart`.
#[derive(Debug, Clone)]
pub struct BoxRefArgs {
    pub boxes: Vec<String>,
}

/// Arguments of `pull`.
#[derive(Debug, Clone)]
pub struct PullArgs {
    pub image: String,
}

/// Arguments of `cp`.
#[derive(Debug, Clone)]
pub struct CpArgs {
    pub source: String,
    pub destination: String,
}

/// Arguments of `completion`.
#[derive(Debug, Clone)]
pub struct CompletionArgs {
    pub shell: String,
}

/// The CLI's subcommands.
#[derive(Debug, Clone)]
pub enum Commands {
    Run(RunArgs),
    Exec(ExecArgs),
    Create(CreateArgs),
    List(ListArgs),
    Rm(RmArgs),
    Start(BoxRefArgs),
    Stop(BoxRefArgs),
    Restart(BoxRefArgs),
    Pull(PullArgs),
    Images(ListArgs),
    Cp(CpArgs),
    Inspect(InspectArgs),
    Completion(CompletionArgs),
}

/// The parsed command line.
#[derive(Debug, Clone)]
pub struct Cli {
    pub global: GlobalFlags,
    pub command: Commands,
}

} // verus!

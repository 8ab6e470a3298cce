//! The guest-side command builder: what to run inside a container, with
//! which arguments, environment, user and working directory. Spawning is
//! the container runtime's work; this module assembles and reads the
//! command.

use vstd::prelude::*;

use crate::strutil::{
    parse_u32, seq_views, spec_all_digits, spec_dec_value, spec_find_char, split_once_char,
};

verus! {

/// Terminal geometry for a command run under a pseudo-TTY.
#[derive(Debug, Clone, Copy, PartialEq, Eq, Structural)]
pub struct PtyConfig {
    pub rows: u16,
    pub cols: u16,
    pub x_pixels: u16,
    pub y_pixels: u16,
}

/// A command to execute inside a container, built in the style of a
/// process builder. Environment keys are overridden in place: a later
/// value for a key replaces the earlier one.
#[derive(Debug, Clone)]
pub struct ContainerCommand {
    /// The container this command runs in.
    pub id: String,
    /// Root of the container state directory.
    pub state_root: String,
    /// Program to run; empty until `program` is called.
    pub program: Option<String>,
    /// Arguments, not including the program.
    pub args: Vec<String>,
    /// Environment overrides, later pairs winning per key.
    pub env: Vec<(String, String)>,
    /// User string from the container spec, e.g. `1000:1000`.
    pub user: String,
    /// Working directory; the default is the root.
    pub cwd: Option<String>,
    /// PTY configuration, where a terminal was requested.
    pub pty_config: Option<PtyConfig>,
}

impl ContainerCommand {
    /// A fresh builder for the given container.
    pub fn new(id: String, state_root: String, env: Vec<(String, String)>, user: String) -> (r:
        Self)
        ensures
            r.id == id,
            r.state_root == state_root,
            r.program is None,
            r.args@.len() == 0,
            r.env == env,
            r.user == user,
            r.cwd is None,
            r.pty_config is None,
    {
        ContainerCommand {
            id,
            state_root,
            program: None,
            args: Vec::new(),
            env,
            user,
            cwd: None,
            pty_config: None,
        }
    }

    /// Request a pseudo-TTY with the given geometry.
    pub fn with_pty(self, config: PtyConfig) -> (r: Self)
        ensures
            r == (ContainerCommand { pty_config: Some(config), ..self }),
    {
        ContainerCommand { pty_config: Some(config), ..self }
    }

    /// Set the program to execute.
    pub fn program(self, program: String) -> (r: Self)
        ensures
            r == (ContainerCommand { program: Some(program), ..self }),
    {
        ContainerCommand { program: Some(program), ..self }
    }

    /// Replace the arguments.
    pub fn args(self, args: Vec<String>) -> (r: Self)
        ensures
            r == (ContainerCommand { args, ..self }),
    {
        ContainerCommand { args, ..self }
    }

    /// Append one argument.
    pub fn arg(self, a: String) -> (r: Self)
        ensures
            r.args@ == self.args@.push(a),
            r.id == self.id,
            r.state_root == self.state_root,
            r.program == self.program,
            r.env == self.env,
            r.user == self.user,
            r.cwd == self.cwd,
            r.pty_config == self.pty_config,
    {
        let mut s = self;
        s.args.push(a);
        s
    }

    /// Set one environment variable (appended; later pairs win).
    pub fn env(self, key: String, value: String) -> (r: Self)
        ensures
            r.env@ == self.env@.push((key, value)),
            r.id == self.id,
            r.state_root == self.state_root,
            r.program == self.program,
            r.args == self.args,
            r.user == self.user,
            r.cwd == self.cwd,
            r.pty_config == self.pty_config,
    {
        let mut s = self;
        s.env.push((key, value));
        s
    }

    /// Set several environment variables.
    pub fn envs(self, vars: Vec<(String, String)>) -> (r: Self)
        ensures
            r.env@ == self.env@ + vars@,
            r.id == self.id,
            r.state_root == self.state_root,
            r.program == self.program,
            r.args == self.args,
            r.user == self.user,
            r.cwd == self.cwd,
            r.pty_config == self.pty_config,
    {
        let mut s = self;
        let mut vs = vars;
        s.env.append(&mut vs);
        s
    }

    /// Set the working directory.
    pub fn current_dir(self, dir: String) -> (r: Self)
        ensures
            r == (ContainerCommand { cwd: Some(dir), ..self }),
    {
        ContainerCommand { cwd: Some(dir), ..self }
    }

    /// The argument list handed to the container: the program (empty where
    /// none was set) followed by the arguments.
    pub fn container_args(&self) -> (r: Vec<String>)
        ensures
            r@.len() == self.args@.len() + 1,
            r@[0]@ == (match self.program {
                Some(p) => p@,
                None => Seq::<char>::empty(),
            }),
            forall|i: int| 0 <= i < self.args@.len() ==> r@[i + 1]@ == (#[trigger] self.args@[i])@,
    {
        let mut r: Vec<String> = Vec::new();
        match &self.program {
            Some(p) => r.push(p.clone()),
            None => r.push(String::new()),
        }
        let n = self.args.len();
        let mut i: usize = 0;
        while i < n
            invariant
                n == self.args@.len(),
                i <= n,
                r@.len() == i + 1,
                r@[0]@ == (match self.program {
                    Some(p) => p@,
                    None => Seq::<char>::empty(),
                }),
                forall|k: int| 0 <= k < i ==> r@[k + 1]@ == (#[trigger] self.args@[k])@,
            decreases n - i,
        {
            r.push(self.args[i].clone());
            i += 1;
        }
        r
    }
}

/// What a user string denotes for a tenant execution: a `uid:gid` pair,
/// a bare uid, or nothing for an empty or non-numeric string (the
/// container's own user then applies).
pub open spec fn spec_user_for_exec(user: Seq<char>) -> (Option<u32>, Option<u32>) {
    match spec_find_char(user, ':') {
        Some(i) => {
            let uid_part = user.take(i);
            let gid_part = user.skip(i + 1);
            (
                if uid_part.len() > 0 && spec_all_digits(uid_part) && spec_dec_value(uid_part)
                    <= u32::MAX {
                    Some(spec_dec_value(uid_part) as u32)
                } else {
                    None
                },
                if gid_part.len() > 0 && spec_all_digits(gid_part) && spec_dec_value(gid_part)
                    <= u32::MAX {
                    Some(spec_dec_value(gid_part) as u32)
                } else {
                    None
                },
            )
        },
        None => {
            if user.len() > 0 && spec_all_digits(user) && spec_dec_value(user) <= u32::MAX {
                (Some(spec_dec_value(user) as u32), None)
            } else {
                (None, None)
            }
        },
    }
}

/// Parse a user string such as `1000:1000` or `1000` into uid and gid.
pub fn parse_user_for_exec(user: &str) -> (r: (Option<u32>, Option<u32>))
    ensures
        r == spec_user_for_exec(user@),
{
    match split_once_char(user, ':') {
        Some(parts) => {
            let (uid_str, gid_str) = parts;
            proof {
                let i = choose|i: int|
                    {
                        &&& 0 <= i < user@.len()
                        &&& user@[i] == ':'
                        &&& (forall|k: int| 0 <= k < i ==> user@[k] != ':')
                        &&& uid_str@ == user@.subrange(0, i)
                        &&& gid_str@ == user@.subrange(i + 1, user@.len() as int)
                    };
                crate::strutil::lemma_find_char_unique(user@, ':', i);
            }
            (parse_u32(uid_str), parse_u32(gid_str))
        },
        None => {
            proof {
                crate::strutil::lemma_find_char_props(user@, ':');
                match spec_find_char(user@, ':') {
                    Some(i) => {
                        assert(user@[i] != ':');
                    },
                    None => {},
                }
            }
            match parse_u32(user) {
                Some(uid) => (Some(uid), None),
                None => (None, None),
            }
        },
    }
}

} // verus!

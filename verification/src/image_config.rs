//! Container image configuration extracted from an OCI image:
//! entrypoint, default command, user, environment and exposed ports.

use vstd::prelude::*;

use crate::errors::{BoxliteError, BoxliteResult};
use crate::strutil::{
    find_char, parse_u16, seq_views, spec_all_digits, spec_dec_value, spec_find_char,
    split_once_char, str_eq,
};

verus! {

/// Container image configuration extracted from an OCI image.
///
/// OCI semantics: `entrypoint` is the executable (ENTRYPOINT), `cmd` the
/// default arguments (CMD), and the process run is `entrypoint + cmd`.
#[derive(Debug, Clone)]
pub struct ContainerImageConfig {
    /// Executable from the ENTRYPOINT directive.
    pub entrypoint: Vec<String>,
    /// Default arguments from the CMD directive; users may override.
    pub cmd: Vec<String>,
    /// User/group the container process runs as, e.g. `0:0` or `1000`.
    pub user: String,
    /// Ports declared by EXPOSE, as `port/protocol` strings.
    pub exposed_ports: Vec<String>,
    /// Environment entries, as `KEY=VALUE` strings.
    pub env: Vec<String>,
    /// Working directory.
    pub working_dir: String,
}

/// The default image configuration: a shell, root, the standard PATH.
pub open spec fn spec_image_config_defaults(c: &ContainerImageConfig) -> bool {
    &&& seq_views(c.entrypoint@) == seq!["/bin/sh"@]
    &&& c.cmd@.len() == 0
    &&& c.user@ == "0:0"@
    &&& c.exposed_ports@.len() == 0
    &&& seq_views(c.env@) == seq![
        "PATH=/usr/local/sbin:/usr/local/bin:/usr/sbin:/usr/bin:/sbin:/bin"@,
    ]
    &&& c.working_dir@ == "/"@
}

impl Default for ContainerImageConfig {
    fn default() -> (r: Self)
        ensures
            spec_image_config_defaults(&r),
    {
        let entrypoint: Vec<String> = vec![String::from_str("/bin/sh")];
        let env: Vec<String> = vec![
            String::from_str("PATH=/usr/local/sbin:/usr/local/bin:/usr/sbin:/usr/bin:/sbin:/bin"),
        ];
        proof {
            assert(seq_views(entrypoint@) =~= seq!["/bin/sh"@]);
            assert(seq_views(env@) =~= seq![
                "PATH=/usr/local/sbin:/usr/local/bin:/usr/sbin:/usr/bin:/sbin:/bin"@,
            ]);
        }
        ContainerImageConfig {
            entrypoint,
            cmd: Vec::new(),
            user: String::from_str("0:0"),
            exposed_ports: Vec::new(),
            env,
            working_dir: String::from_str("/"),
        }
    }
}

// ============================================================================
// Port specifications
// ============================================================================

/// The port number part of an exposed-port string: everything before the
/// first slash, or the whole string without one.
pub open spec fn spec_port_part(s: Seq<char>) -> Seq<char> {
    match spec_find_char(s, '/') {
        Some(i) => s.take(i),
        None => s,
    }
}

/// The protocol part of an exposed-port string: between the first slash
/// and the next (or the end), defaulting to `tcp` without a slash.
pub open spec fn spec_protocol_part(s: Seq<char>) -> Seq<char> {
    match spec_find_char(s, '/') {
        Some(i) => {
            let rest = s.skip(i + 1);
            match spec_find_char(rest, '/') {
                Some(j) => rest.take(j),
                None => rest,
            }
        },
        None => "tcp"@,
    }
}

/// The port part denotes a `u16`.
pub open spec fn spec_port_ok(s: Seq<char>) -> bool {
    &&& spec_port_part(s).len() > 0
    &&& spec_all_digits(spec_port_part(s))
    &&& spec_dec_value(spec_port_part(s)) <= u16::MAX
}

/// The ports among `specs` whose protocol is `proto`, in order.
pub open spec fn spec_proto_ports(specs: Seq<Seq<char>>, proto: Seq<char>) -> Seq<u16>
    decreases specs.len(),
{
    if specs.len() == 0 {
        Seq::empty()
    } else {
        let front = spec_proto_ports(specs.drop_last(), proto);
        let s = specs.last();
        if spec_port_ok(s) && spec_protocol_part(s) == proto {
            front.push(spec_dec_value(spec_port_part(s)) as u16)
        } else {
            front
        }
    }
}

impl ContainerImageConfig {
    /// A fresh configuration with the defaults.
    pub fn new() -> (r: Self)
        ensures
            spec_image_config_defaults(&r),
    {
        Self::default()
    }

    /// Combined entrypoint and default arguments: the process sent to the
    /// guest.
    pub fn final_cmd(&self) -> (r: Vec<String>)
        ensures
            seq_views(r@) == seq_views(self.entrypoint@) + seq_views(self.cmd@),
    {
        let mut result: Vec<String> = Vec::new();
        let ne = self.entrypoint.len();
        let mut i: usize = 0;
        while i < ne
            invariant
                ne == self.entrypoint@.len(),
                i <= ne,
                seq_views(result@) == seq_views(self.entrypoint@).take(i as int),
            decreases ne - i,
        {
            let x = self.entrypoint[i].clone();
            let ghost prev = result@;
            result.push(x);
            proof {
                assert(result@ == prev.push(x));
                assert(x@ == self.entrypoint@[i as int]@);
                assert(seq_views(prev).len() == i as int);
                assert(seq_views(result@) =~~= seq_views(self.entrypoint@).take(i as int + 1));
            }
            i += 1;
        }
        let nc = self.cmd.len();
        let mut j: usize = 0;
        proof {
            assert(seq_views(self.entrypoint@).take(ne as int) =~= seq_views(self.entrypoint@));
        }
        while j < nc
            invariant
                ne == self.entrypoint@.len(),
                nc == self.cmd@.len(),
                j <= nc,
                seq_views(result@) == seq_views(self.entrypoint@) + seq_views(self.cmd@).take(
                    j as int,
                ),
            decreases nc - j,
        {
            let x = self.cmd[j].clone();
            let ghost prev = result@;
            result.push(x);
            proof {
                assert(result@ == prev.push(x));
                assert(x@ == self.cmd@[j as int]@);
                assert(seq_views(result@) =~= seq_views(prev).push(x@));
                assert(seq_views(prev).push(x@) =~= seq_views(self.entrypoint@) + seq_views(
                    self.cmd@,
                ).take(j as int + 1));
            }
            j += 1;
        }
        proof {
            assert(seq_views(self.cmd@).take(nc as int) =~= seq_views(self.cmd@));
        }
        result
    }

    /// Parse an exposed-port string such as `8080/tcp`, `53/udp` or `8080`
    /// (protocol defaults to `tcp`). Returns `None` where the part before
    /// the first slash is not a port number.
    pub fn parse_exposed_port<'a>(port_spec: &'a str) -> (r: Option<(u16, &'a str)>)
        ensures
            (r is Some) == spec_port_ok(port_spec@),
            r matches Some(pp) ==> pp.0 == spec_dec_value(spec_port_part(port_spec@))
                && pp.1@ == spec_protocol_part(port_spec@),
    {
        let ns = port_spec.unicode_len();
        match find_char(port_spec, '/') {
            Some(i) => {
                let port_str = port_spec.substring_char(0, i);
                proof {
                    assert(port_str@ == spec_port_part(port_spec@));
                }
                match parse_u16(port_str) {
                    Some(port) => {
                        let rest = port_spec.substring_char(i + 1, ns);
                        let protocol = match find_char(rest, '/') {
                            Some(j) => rest.substring_char(0, j),
                            None => rest,
                        };
                        proof {
                            assert(rest@ =~= port_spec@.skip(i as int + 1));
                            assert(protocol@ == spec_protocol_part(port_spec@));
                        }
                        Some((port, protocol))
                    },
                    None => None,
                }
            },
            None => {
                match parse_u16(port_spec) {
                    Some(port) => Some((port, "tcp")),
                    None => None,
                }
            },
        }
    }

    /// The TCP ports among the exposed ports.
    pub fn tcp_ports(&self) -> (r: Vec<u16>)
        ensures
            r@ == spec_proto_ports(seq_views(self.exposed_ports@), "tcp"@),
    {
        self.ports_with_protocol("tcp")
    }

    /// The UDP ports among the exposed ports.
    pub fn udp_ports(&self) -> (r: Vec<u16>)
        ensures
            r@ == spec_proto_ports(seq_views(self.exposed_ports@), "udp"@),
    {
        self.ports_with_protocol("udp")
    }

    /// The exposed ports carrying the given protocol, in order.
    fn ports_with_protocol(&self, proto: &str) -> (r: Vec<u16>)
        ensures
            r@ == spec_proto_ports(seq_views(self.exposed_ports@), proto@),
    {
        let mut r: Vec<u16> = Vec::new();
        let n = self.exposed_ports.len();
        let mut i: usize = 0;
        proof {
            assert(seq_views(self.exposed_ports@).take(0) =~= Seq::<Seq<char>>::empty());
        }
        while i < n
            invariant
                n == self.exposed_ports@.len(),
                i <= n,
                r@ == spec_proto_ports(seq_views(self.exposed_ports@).take(i as int), proto@),
            decreases n - i,
        {
            let ghost all = seq_views(self.exposed_ports@);
            proof {
                assert(all.take(i as int + 1).drop_last() =~= all.take(i as int));
                assert(all.take(i as int + 1).last() == self.exposed_ports@[i as int]@);
            }
            match Self::parse_exposed_port(self.exposed_ports[i].as_str()) {
                Some(pp) => {
                    let (port, protocol) = pp;
                    if str_eq(protocol, proto) {
                        r.push(port);
                    }
                },
                None => {},
            }
            i += 1;
        }
        proof {
            assert(seq_views(self.exposed_ports@).take(n as int) =~= seq_views(
                self.exposed_ports@,
            ));
        }
        r
    }
}

// ============================================================================
// Environment merging
// ============================================================================

/// Split an environment entry at its first `=` into key and value.
pub open spec fn spec_env_split(s: Seq<char>) -> Option<(Seq<char>, Seq<char>)> {
    match spec_find_char(s, '=') {
        Some(i) => Some((s.take(i), s.skip(i + 1))),
        None => None,
    }
}

/// An environment key is well-formed when it holds no `=`.
pub open spec fn spec_env_key_wf(k: Seq<char>) -> bool {
    forall|i: int| 0 <= i < k.len() ==> k[i] != '='
}

/// The `KEY=VALUE` rendering of a pair.
pub open spec fn spec_env_entry(k: Seq<char>, v: Seq<char>) -> Seq<char> {
    k + seq!['='] + v
}

/// The character sequences of a sequence of string pairs.
pub open spec fn pair_views(ps: Seq<(String, String)>) -> Seq<(Seq<char>, Seq<char>)> {
    ps.map_values(|p: (String, String)| (p.0@, p.1@))
}

/// The key/value map denoted by `KEY=VALUE` entries; later entries override
/// earlier ones, entries without `=` are ignored.
pub open spec fn spec_env_entries_map(entries: Seq<Seq<char>>) -> Map<Seq<char>, Seq<char>>
    decreases entries.len(),
{
    if entries.len() == 0 {
        Map::empty()
    } else {
        let m = spec_env_entries_map(entries.drop_last());
        match spec_env_split(entries.last()) {
            Some(kv) => m.insert(kv.0, kv.1),
            None => m,
        }
    }
}

/// Apply key/value pairs onto a map in order; later pairs override.
pub open spec fn spec_apply_env_pairs(
    m: Map<Seq<char>, Seq<char>>,
    ps: Seq<(Seq<char>, Seq<char>)>,
) -> Map<Seq<char>, Seq<char>>
    decreases ps.len(),
{
    if ps.len() == 0 {
        m
    } else {
        spec_apply_env_pairs(m, ps.drop_last()).insert(ps.last().0, ps.last().1)
    }
}

/// The map of key/value pairs alone.
pub open spec fn spec_pairs_map(ps: Seq<(Seq<char>, Seq<char>)>) -> Map<Seq<char>, Seq<char>> {
    spec_apply_env_pairs(Map::empty(), ps)
}

/// The environment after merging: the image entries' map, with the user
/// pairs applied on top (user values win per key).
pub open spec fn spec_merged_env(
    image_env: Seq<Seq<char>>,
    user: Seq<(Seq<char>, Seq<char>)>,
) -> Map<Seq<char>, Seq<char>> {
    spec_apply_env_pairs(spec_env_entries_map(image_env), user)
}

/// A well-formed rendering splits back into its parts.
proof fn lemma_env_entry_split(k: Seq<char>, v: Seq<char>)
    requires
        spec_env_key_wf(k),
    ensures
        spec_env_split(spec_env_entry(k, v)) == Some((k, v)),
{
    let e = spec_env_entry(k, v);
    assert(e[k.len() as int] == '=');
    assert(forall|i: int| 0 <= i < k.len() ==> e[i] == k[i]);
    crate::strutil::lemma_find_char_unique(e, '=', k.len() as int);
    assert(e.take(k.len() as int) =~= k);
    assert(e.skip(k.len() as int + 1) =~= v);
}

/// An entry is its split, rendered back: the key, one `=`, the value.
proof fn lemma_env_split_reconstruct(e: Seq<char>)
    requires
        spec_env_split(e) is Some,
    ensures
        ({
            let kv = spec_env_split(e)->0;
            e == spec_env_entry(kv.0, kv.1)
        }),
{
    crate::strutil::lemma_find_char_props(e, '=');
    match spec_find_char(e, '=') {
        Some(p) => {
            assert(e =~= e.take(p) + seq![e[p]] + e.skip(p + 1));
        },
        None => {},
    }
}

/// The pair at a key's last occurrence is in the applied map.
proof fn lemma_pairs_map_last_occurrence(
    m: Map<Seq<char>, Seq<char>>,
    ps: Seq<(Seq<char>, Seq<char>)>,
    i: int,
)
    requires
        0 <= i < ps.len(),
        forall|j: int| i < j < ps.len() ==> ps[j].0 != ps[i].0,
    ensures
        spec_apply_env_pairs(m, ps).contains_pair(ps[i].0, ps[i].1),
    decreases ps.len(),
{
    if i == ps.len() - 1 {
    } else {
        assert(ps.drop_last()[i] == ps[i]);
        lemma_pairs_map_last_occurrence(m, ps.drop_last(), i);
    }
}

/// Every key of the applied map comes from the base map or from a pair.
proof fn lemma_pairs_map_dom(m: Map<Seq<char>, Seq<char>>, ps: Seq<(Seq<char>, Seq<char>)>, k: Seq<char>)
    requires
        spec_apply_env_pairs(m, ps).dom().contains(k),
        !m.dom().contains(k),
    ensures
        exists|p: int| 0 <= p < ps.len() && #[trigger] ps[p].0 == k,
    decreases ps.len(),
{
    if ps.len() > 0 {
        if ps.last().0 == k {
            assert(ps[ps.len() - 1].0 == k);
        } else {
            lemma_pairs_map_dom(m, ps.drop_last(), k);
            let p = choose|p: int| 0 <= p < ps.drop_last().len() && #[trigger] ps.drop_last()[p].0
                == k;
            assert(ps[p].0 == k);
        }
    }
}

/// Whether `key` occurs among the keys of `pairs`.
fn pairs_contain_key(pairs: &Vec<(String, String)>, key: &str) -> (r: bool)
    ensures
        r == exists|a: int| 0 <= a < pairs@.len() && #[trigger] pairs@[a].0@ == key@,
{
    let n = pairs.len();
    let mut a: usize = 0;
    while a < n
        invariant
            n == pairs@.len(),
            a <= n,
            forall|b: int| 0 <= b < a ==> #[trigger] pairs@[b].0@ != key@,
        decreases n - a,
    {
        if str_eq(pairs[a].0.as_str(), key) {
            return true;
        }
        a += 1;
    }
    false
}

impl ContainerImageConfig {
    /// Merge user environment pairs into the image environment.
    ///
    /// User values win per key; the result is rendered as `KEY=VALUE`
    /// entries in sorted order for determinism. Provided no user key holds
    /// an `=`, the resulting entries denote exactly the merged map: each
    /// entry splits into a merged pair, and each merged pair is rendered.
    pub fn merge_env(&mut self, user_env: Vec<(String, String)>)
        ensures
            final(self).entrypoint == old(self).entrypoint,
            final(self).cmd == old(self).cmd,
            final(self).user == old(self).user,
            final(self).exposed_ports == old(self).exposed_ports,
            final(self).working_dir == old(self).working_dir,
            forall|i: int, j: int|
                0 <= i < j < final(self).env@.len() ==> crate::strutil::spec_str_le(
                    #[trigger] final(self).env@[i]@,
                    #[trigger] final(self).env@[j]@,
                ),
            (forall|t: int|
                0 <= t < user_env@.len() ==> spec_env_key_wf(#[trigger] user_env@[t].0@)) ==> {
                let merged = spec_merged_env(seq_views(old(self).env@), pair_views(user_env@));
                &&& (forall|i: int|
                    0 <= i < final(self).env@.len() ==> match spec_env_split(
                        #[trigger] final(self).env@[i]@,
                    ) {
                        Some(kv) => merged.contains_pair(kv.0, kv.1),
                        None => false,
                    })
                &&& (forall|k: Seq<char>, v: Seq<char>|
                    merged.contains_pair(k, v) ==> seq_views(final(self).env@).contains(
                        spec_env_entry(k, v),
                    ))
                &&& (forall|i: int, j: int|
                    0 <= i < j < final(self).env@.len() ==> #[trigger] final(self).env@[i]@
                        != #[trigger] final(self).env@[j]@)
                &&& (forall|i: int, j: int|
                    0 <= i < j < final(self).env@.len()
                        ==> match (spec_env_split(#[trigger] final(self).env@[i]@), spec_env_split(
                        #[trigger] final(self).env@[j]@,
                    )) {
                        (Some(a), Some(b)) => a.0 != b.0,
                        _ => true,
                    })
            },
    {
        let ghost old_env_views = seq_views(self.env@);
        // Collect the image entries' pairs in order.
        let mut pairs: Vec<(String, String)> = Vec::new();
        let n_img = self.env.len();
        proof {
            assert(pair_views(pairs@) =~= Seq::<(Seq<char>, Seq<char>)>::empty());
            assert(old_env_views.take(0) =~= Seq::<Seq<char>>::empty());
        }
        let mut i: usize = 0;
        while i < n_img
            invariant
                n_img == self.env@.len(),
                old_env_views == seq_views(self.env@),
                i <= n_img,
                spec_pairs_map(pair_views(pairs@)) == spec_env_entries_map(
                    old_env_views.take(i as int),
                ),
                forall|a: int|
                    0 <= a < pairs@.len() ==> spec_env_key_wf(#[trigger] pairs@[a].0@),
            decreases n_img - i,
        {
            let ghost entry_view = self.env@[i as int]@;
            proof {
                assert(old_env_views.take(i as int + 1).drop_last() =~= old_env_views.take(
                    i as int,
                ));
                assert(old_env_views.take(i as int + 1).last() == entry_view);
            }
            match split_once_char(self.env[i].as_str(), '=') {
                Some(kv) => {
                    let (k, v) = kv;
                    proof {
                        let pos = choose|p: int|
                            {
                                &&& 0 <= p < entry_view.len()
                                &&& entry_view[p] == '='
                                &&& (forall|q: int| 0 <= q < p ==> entry_view[q] != '=')
                                &&& k@ == entry_view.subrange(0, p)
                                &&& v@ == entry_view.subrange(p + 1, entry_view.len() as int)
                            };
                        crate::strutil::lemma_find_char_unique(entry_view, '=', pos);
                        assert(spec_env_split(entry_view) == Some((k@, v@)));
                        assert(spec_env_key_wf(k@));
                    }
                    let ghost prev = pairs@;
                    pairs.push((String::from_str(k), String::from_str(v)));
                    proof {
                        assert(pair_views(pairs@) =~= pair_views(prev).push((k@, v@)));
                        assert(pair_views(prev).push((k@, v@)).drop_last() =~= pair_views(prev));
                        assert(spec_pairs_map(pair_views(pairs@)) == spec_pairs_map(
                            pair_views(prev),
                        ).insert(k@, v@));
                    }
                },
                None => {
                    proof {
                        crate::strutil::lemma_find_char_props(entry_view, '=');
                        match crate::strutil::spec_find_char(entry_view, '=') {
                            Some(p) => {
                                assert(entry_view[p] != '=');
                            },
                            None => {},
                        }
                        assert(spec_env_split(entry_view) is None);
                    }
                },
            }
            i += 1;
        }
        proof {
            assert(old_env_views.take(n_img as int) =~= old_env_views);
        }
        let ghost img_pairs = pairs@;
        let ghost entries_full = spec_env_entries_map(old_env_views);
        // Apply the user pairs on top, in order.
        let n_user = user_env.len();
        proof {
            assert(pair_views(user_env@).take(0) =~= Seq::<(Seq<char>, Seq<char>)>::empty());
            assert(pair_views(img_pairs) + pair_views(user_env@).take(0) =~= pair_views(
                img_pairs,
            ));
        }
        let mut j: usize = 0;
        while j < n_user
            invariant
                n_user == user_env@.len(),
                j <= n_user,
                pair_views(pairs@) == pair_views(img_pairs) + pair_views(user_env@).take(j as int),
                spec_pairs_map(pair_views(pairs@)) == spec_apply_env_pairs(
                    entries_full,
                    pair_views(user_env@).take(j as int),
                ),
                forall|a: int|
                    0 <= a < img_pairs.len() ==> spec_env_key_wf(#[trigger] img_pairs[a].0@),
                spec_pairs_map(pair_views(img_pairs)) == entries_full,
            decreases n_user - j,
        {
            let kv = &user_env[j];
            let ghost prev = pairs@;
            pairs.push((kv.0.clone(), kv.1.clone()));
            proof {
                let uv = pair_views(user_env@);
                assert(pair_views(pairs@) =~= pair_views(prev).push((kv.0@, kv.1@)));
                assert(uv.take(j as int + 1).drop_last() =~= uv.take(j as int));
                assert(uv.take(j as int + 1).last() == (kv.0@, kv.1@));
                assert(pair_views(prev).push((kv.0@, kv.1@)).drop_last() =~= pair_views(prev));
                assert(spec_pairs_map(pair_views(pairs@)) == spec_pairs_map(pair_views(prev)).insert(
                    kv.0@,
                    kv.1@,
                ));
                assert(pair_views(pairs@) =~= pair_views(img_pairs) + uv.take(j as int + 1));
            }
            j += 1;
        }
        proof {
            assert(pair_views(user_env@).take(n_user as int) =~= pair_views(user_env@));
        }
        let ghost all_pairs = pair_views(pairs@);
        let ghost merged = spec_pairs_map(all_pairs);
        // Keep each key's last pair only.
        let total = pairs.len();
        let mut uniq: Vec<(String, String)> = Vec::new();
        let mut t: usize = total;
        while t > 0
            invariant
                total == pairs@.len(),
                all_pairs == pair_views(pairs@),
                merged == spec_pairs_map(all_pairs),
                t <= total,
                forall|a: int, b: int|
                    0 <= a < b < uniq@.len() ==> #[trigger] uniq@[a].0@ != #[trigger] uniq@[b].0@,
                forall|a: int|
                    0 <= a < uniq@.len() ==> merged.contains_pair(
                        #[trigger] uniq@[a].0@,
                        uniq@[a].1@,
                    ),
                forall|p: int| #![trigger all_pairs[p]]
                    t <= p < total ==> exists|a: int|
                        0 <= a < uniq@.len() && #[trigger] uniq@[a].0@ == all_pairs[p].0,
                forall|a: int| #![trigger uniq@[a]]
                    0 <= a < uniq@.len() ==> exists|p: int|
                        0 <= p < total && #[trigger] all_pairs[p] == (uniq@[a].0@, uniq@[a].1@),
            decreases t,
        {
            t -= 1;
            let kv = &pairs[t];
            if !pairs_contain_key(&uniq, kv.0.as_str()) {
                proof {
                    assert forall|jj: int| (t as int) < jj < all_pairs.len() implies all_pairs[jj].0
                        != all_pairs[t as int].0 by {
                        if all_pairs[jj].0 == all_pairs[t as int].0 {
                            let a = choose|a: int|
                                0 <= a < uniq@.len() && #[trigger] uniq@[a].0@ == all_pairs[jj].0;
                            assert(uniq@[a].0@ == kv.0@);
                        }
                    }
                    lemma_pairs_map_last_occurrence(Map::empty(), all_pairs, t as int);
                }
                let ghost prev_uniq = uniq@;
                let x0 = kv.0.clone();
                let x1 = kv.1.clone();
                uniq.push((x0, x1));
                proof {
                    assert(uniq@[prev_uniq.len() as int].0@ == all_pairs[t as int].0);
                    assert(all_pairs[t as int] == (
                        uniq@[prev_uniq.len() as int].0@,
                        uniq@[prev_uniq.len() as int].1@,
                    ));
                    assert forall|p: int| #![trigger all_pairs[p]] t <= p < total implies exists|a: int|
                        0 <= a < uniq@.len() && #[trigger] uniq@[a].0@ == all_pairs[p].0 by {
                        if p == t {
                            assert(uniq@[prev_uniq.len() as int].0@ == all_pairs[p].0);
                        } else {
                            let a = choose|a: int|
                                0 <= a < prev_uniq.len() && #[trigger] prev_uniq[a].0@
                                    == all_pairs[p].0;
                            assert(uniq@[a].0@ == all_pairs[p].0);
                        }
                    }
                }
            }
        }
        // Render the pairs and sort the entries.
        let nu = uniq.len();
        let mut rendered: Vec<String> = Vec::new();
        proof {
            reveal_strlit("=");
        }
        let mut a: usize = 0;
        while a < nu
            invariant
                nu == uniq@.len(),
                a <= nu,
                rendered@.len() == a,
                forall|b: int|
                    0 <= b < a ==> #[trigger] rendered@[b]@ == spec_env_entry(
                        uniq@[b].0@,
                        uniq@[b].1@,
                    ),
            decreases nu - a,
        {
            let mut e = uniq[a].0.clone();
            e.append("=");
            e.append(uniq[a].1.as_str());
            proof {
                reveal_strlit("=");
                assert("="@ =~= seq!['=']);
                assert(e@ =~= spec_env_entry(uniq@[a as int].0@, uniq@[a as int].1@));
            }
            rendered.push(e);
            a += 1;
        }
        let ghost rendered_views = seq_views(rendered@);
        let sorted = crate::strutil::sort_strings(rendered);
        self.env = sorted;
        proof {
            broadcast use vstd::seq_lib::group_to_multiset_ensures;

            let sorted_views = seq_views(self.env@);
            if forall|tt: int| 0 <= tt < user_env@.len() ==> spec_env_key_wf(
                #[trigger] user_env@[tt].0@,
            ) {
                // every pair's key is well-formed
                assert forall|p: int| 0 <= p < all_pairs.len() implies spec_env_key_wf(
                    #[trigger] all_pairs[p].0,
                ) by {
                    if p < img_pairs.len() {
                        assert(all_pairs[p] == pair_views(img_pairs)[p]);
                    } else {
                        let q = p - img_pairs.len();
                        assert(all_pairs[p] == pair_views(user_env@)[q]);
                        assert(spec_env_key_wf(user_env@[q].0@));
                    }
                }
                assert(merged == spec_merged_env(old_env_views, pair_views(user_env@)));
                // each resulting entry denotes a merged pair
                assert forall|ii: int| 0 <= ii < self.env@.len() implies match spec_env_split(
                    #[trigger] self.env@[ii]@,
                ) {
                    Some(kvp) => merged.contains_pair(kvp.0, kvp.1),
                    None => false,
                } by {
                    assert(sorted_views[ii] == self.env@[ii]@);
                    assert(sorted_views.to_multiset().contains(sorted_views[ii]));
                    assert(rendered_views.contains(sorted_views[ii]));
                    let b = choose|b: int|
                        0 <= b < rendered_views.len() && rendered_views[b] == sorted_views[ii];
                    assert(rendered_views[b] == spec_env_entry(uniq@[b].0@, uniq@[b].1@));
                    let ku = uniq@[b].0@;
                    let vu = uniq@[b].1@;
                    assert(exists|p: int|
                        0 <= p < total && #[trigger] all_pairs[p] == (uniq@[b].0@, uniq@[b].1@));
                    let p = choose|p: int| 0 <= p < total && #[trigger] all_pairs[p] == (ku, vu);
                    assert(spec_env_key_wf(all_pairs[p].0));
                    assert(spec_env_key_wf(ku));
                    lemma_env_entry_split(ku, vu);
                    assert(merged.contains_pair(uniq@[b].0@, uniq@[b].1@));
                    assert(spec_env_split(self.env@[ii]@) == Some((ku, vu)));
                }
                // each merged pair is rendered in the result
                assert forall|k: Seq<char>, v: Seq<char>| merged.contains_pair(
                    k,
                    v,
                ) implies seq_views(self.env@).contains(spec_env_entry(k, v)) by {
                    assert(merged.dom().contains(k));
                    lemma_pairs_map_dom(Map::empty(), all_pairs, k);
                    let p = choose|p: int| 0 <= p < all_pairs.len() && #[trigger] all_pairs[p].0
                        == k;
                    assert(exists|a2: int|
                        0 <= a2 < uniq@.len() && #[trigger] uniq@[a2].0@ == all_pairs[p].0);
                    let a2 = choose|a2: int|
                        0 <= a2 < uniq@.len() && #[trigger] uniq@[a2].0@ == all_pairs[p].0;
                    assert(merged.contains_pair(uniq@[a2].0@, uniq@[a2].1@));
                    assert(uniq@[a2].1@ == v);
                    assert(rendered_views[a2] == spec_env_entry(k, v));
                    assert(rendered_views.contains(spec_env_entry(k, v)));
                    assert(rendered_views.to_multiset().contains(spec_env_entry(k, v)));
                    assert(sorted_views.to_multiset().contains(spec_env_entry(k, v)));
                    assert(sorted_views.contains(spec_env_entry(k, v)));
                }
                // distinct keys render distinct entries, and sorting keeps
                // the multiset, so the result repeats neither entries nor keys
                assert forall|a2: int, b2: int|
                    0 <= a2 < b2 < rendered_views.len() implies rendered_views[a2]
                    != rendered_views[b2] by {
                    if rendered_views[a2] == rendered_views[b2] {
                        let pa = choose|p: int|
                            0 <= p < total && #[trigger] all_pairs[p] == (uniq@[a2].0@, uniq@[a2].1@);
                        let pb = choose|p: int|
                            0 <= p < total && #[trigger] all_pairs[p] == (uniq@[b2].0@, uniq@[b2].1@);
                        assert(spec_env_key_wf(all_pairs[pa].0));
                        assert(spec_env_key_wf(all_pairs[pb].0));
                        lemma_env_entry_split(uniq@[a2].0@, uniq@[a2].1@);
                        lemma_env_entry_split(uniq@[b2].0@, uniq@[b2].1@);
                        assert(uniq@[a2].0@ == uniq@[b2].0@);
                    }
                }
                assert(rendered_views.no_duplicates());
                rendered_views.lemma_multiset_has_no_duplicates();
                assert(forall|x: Seq<char>|
                    sorted_views.to_multiset().contains(x)
                        ==> #[trigger] sorted_views.to_multiset().count(x) == 1);
                sorted_views.lemma_multiset_has_no_duplicates_conv();
                assert forall|i2: int, j2: int| 0 <= i2 < j2 < self.env@.len() implies (
                #[trigger] self.env@[i2]@) != (#[trigger] self.env@[j2]@) by {
                    assert(sorted_views[i2] == self.env@[i2]@);
                    assert(sorted_views[j2] == self.env@[j2]@);
                }
                assert forall|i2: int, j2: int|
                    0 <= i2 < j2 < self.env@.len() implies match (spec_env_split(
                    #[trigger] self.env@[i2]@,
                ), spec_env_split(#[trigger] self.env@[j2]@)) {
                    (Some(a2), Some(b2)) => a2.0 != b2.0,
                    _ => true,
                } by {
                    match (spec_env_split(self.env@[i2]@), spec_env_split(self.env@[j2]@)) {
                        (Some(a2), Some(b2)) => {
                            if a2.0 == b2.0 {
                                // both pairs sit in the merged map at one key,
                                // so the values and hence the entries coincide
                                assert(merged.contains_pair(a2.0, a2.1));
                                assert(merged.contains_pair(b2.0, b2.1));
                                assert(a2.1 == b2.1);
                                lemma_env_split_reconstruct(self.env@[i2]@);
                                lemma_env_split_reconstruct(self.env@[j2]@);
                                assert(self.env@[i2]@ == self.env@[j2]@);
                            }
                        },
                        _ => {},
                    }
                }
            }
        }
    }
}

// ============================================================================
// Conversion from an OCI image configuration
// ============================================================================

/// The fields this runtime reads from the `config` object of an OCI image
/// configuration, each optional as the image format leaves them.
#[derive(Debug, Clone)]
pub struct OciConfigData {
    pub entrypoint: Option<Vec<String>>,
    pub cmd: Option<Vec<String>>,
    pub user: Option<String>,
    pub env: Option<Vec<String>>,
    pub working_dir: Option<String>,
    pub exposed_ports: Option<Vec<String>>,
}

impl ContainerImageConfig {
    /// Build the runtime's image configuration from the `config` object of
    /// an OCI image configuration, defaulting each missing field. A missing
    /// `config` object is a storage error.
    pub fn from_oci_config(config: &Option<OciConfigData>) -> (r: BoxliteResult<
        ContainerImageConfig,
    >)
        ensures
            (r is Ok) == (config is Some),
            r matches Err(e) ==> e matches BoxliteError::Storage(m) && m@
                == "Config object missing from images config"@,
            r matches Ok(c) ==> config matches Some(d) && {
                &&& c.entrypoint@ == (match d.entrypoint {
                    Some(ep) => ep@,
                    None => Seq::<String>::empty(),
                })
                &&& c.cmd@ == (match d.cmd {
                    Some(cm) => cm@,
                    None => Seq::<String>::empty(),
                })
                &&& c.user@ == (match d.user {
                    Some(u) => if u@.len() > 0 {
                        u@
                    } else {
                        "0:0"@
                    },
                    None => "0:0"@,
                })
                &&& c.env@ == (match d.env {
                    Some(e) => e@,
                    None => Seq::<String>::empty(),
                })
                &&& c.working_dir@ == (match d.working_dir {
                    Some(w) => w@,
                    None => "/"@,
                })
                &&& c.exposed_ports@ == (match d.exposed_ports {
                    Some(p) => p@,
                    None => Seq::<String>::empty(),
                })
            },
    {
        match config {
            None => Err(
                BoxliteError::Storage(String::from_str("Config object missing from images config")),
            ),
            Some(d) => {
                let entrypoint = match &d.entrypoint {
                    Some(ep) => ep.clone(),
                    None => Vec::new(),
                };
                let cmd = match &d.cmd {
                    Some(cm) => cm.clone(),
                    None => Vec::new(),
                };
                let user = match &d.user {
                    Some(u) => {
                        if u.unicode_len() > 0 {
                            u.clone()
                        } else {
                            String::from_str("0:0")
                        }
                    },
                    None => String::from_str("0:0"),
                };
                let env = match &d.env {
                    Some(e) => e.clone(),
                    None => Vec::new(),
                };
                let working_dir = match &d.working_dir {
                    Some(w) => w.clone(),
                    None => String::from_str("/"),
                };
                let exposed_ports = match &d.exposed_ports {
                    Some(p) => p.clone(),
                    None => Vec::new(),
                };
                Ok(ContainerImageConfig { entrypoint, cmd, user, exposed_ports, env, working_dir })
            },
        }
    }
}

} // verus!

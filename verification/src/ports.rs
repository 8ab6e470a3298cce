//! Port map assembly for the network backend (config stage).
//!
//! Fixed mappings are keyed by host port: image-exposed TCP ports get a
//! default identity mapping unless the user maps that guest port; user
//! mappings with an explicit host port always apply and override. A user
//! mapping without a host port is a dynamic request — the network backend
//! assigns its host port — and is handed over separately.

use vstd::prelude::*;

use crate::assoc::{
    lemma_pairs_map_dom, lemma_pairs_map_last_occurrence, lemma_pairs_map_pair_source,
    spec_pairs_map,
};
use crate::image_config::{spec_proto_ports, ContainerImageConfig};
use crate::options::{BoxOptions, PortSpec};
use crate::strutil::seq_views;

verus! {

/// The guest ports the user's mappings name.
pub open spec fn spec_user_guest_ports(ports: Seq<PortSpec>) -> Set<u16> {
    Set::new(
        |p: u16| exists|i: int| 0 <= i < ports.len() && (#[trigger] ports[i]).guest_port == p,
    )
}

/// Image default pairs: one identity pair per exposed TCP port whose guest
/// port no user mapping names.
pub open spec fn spec_image_default_pairs(tcp: Seq<u16>, user_guest: Set<u16>) -> Seq<(u16, u16)>
    decreases tcp.len(),
{
    if tcp.len() == 0 {
        Seq::empty()
    } else {
        let front = spec_image_default_pairs(tcp.drop_last(), user_guest);
        if user_guest.contains(tcp.last()) {
            front
        } else {
            front.push((tcp.last(), tcp.last()))
        }
    }
}

/// The user's fixed pairs, `(host, guest)`, in order: only the mappings
/// with an explicit host port.
pub open spec fn spec_fixed_user_pairs(ports: Seq<PortSpec>) -> Seq<(u16, u16)>
    decreases ports.len(),
{
    if ports.len() == 0 {
        Seq::empty()
    } else {
        let front = spec_fixed_user_pairs(ports.drop_last());
        match ports.last().host_port {
            Some(h) => front.push((h, ports.last().guest_port)),
            None => front,
        }
    }
}

/// The guest ports whose host port the network backend assigns, in order.
pub open spec fn spec_dynamic_guest_ports(ports: Seq<PortSpec>) -> Seq<u16>
    decreases ports.len(),
{
    if ports.len() == 0 {
        Seq::empty()
    } else {
        let front = spec_dynamic_guest_ports(ports.drop_last());
        match ports.last().host_port {
            Some(_) => front,
            None => front.push(ports.last().guest_port),
        }
    }
}

/// The fixed port map of the config stage, keyed by host port: image
/// defaults first, then the user's fixed mappings, later pairs overriding.
pub open spec fn spec_port_map(tcp: Seq<u16>, ports: Seq<PortSpec>) -> Map<u16, u16> {
    spec_pairs_map(
        spec_image_default_pairs(tcp, spec_user_guest_ports(ports)) + spec_fixed_user_pairs(ports),
    )
}

/// The fixed port map a box's options and image produce.
pub open spec fn spec_box_port_map(config: &ContainerImageConfig, options: &BoxOptions) -> Map<
    u16,
    u16,
> {
    spec_port_map(spec_proto_ports(seq_views(config.exposed_ports@), "tcp"@), options.ports@)
}

/// No image default pair is keyed by a user-named guest port.
proof fn lemma_image_defaults_skip_user(tcp: Seq<u16>, user_guest: Set<u16>, p: u16)
    requires
        user_guest.contains(p),
    ensures
        forall|i: int|
            0 <= i < spec_image_default_pairs(tcp, user_guest).len() ==> (
            #[trigger] spec_image_default_pairs(tcp, user_guest)[i]).0 != p,
    decreases tcp.len(),
{
    if tcp.len() > 0 {
        lemma_image_defaults_skip_user(tcp.drop_last(), user_guest, p);
        let front = spec_image_default_pairs(tcp.drop_last(), user_guest);
        let whole = spec_image_default_pairs(tcp, user_guest);
        assert forall|i: int| 0 <= i < whole.len() implies (#[trigger] whole[i]).0 != p by {
            if user_guest.contains(tcp.last()) {
                assert(whole[i] == front[i]);
            } else {
                if i < front.len() {
                    assert(whole[i] == front[i]);
                } else {
                    assert(whole[i] == (tcp.last(), tcp.last()));
                    assert(tcp.last() != p);
                }
            }
        }
    }
}

/// Every fixed pair comes from a user mapping with that explicit host
/// port and guest port.
proof fn lemma_fixed_pair_source(ports: Seq<PortSpec>, k: int)
    requires
        0 <= k < spec_fixed_user_pairs(ports).len(),
    ensures
        exists|j: int|
            0 <= j < ports.len() && (#[trigger] ports[j]).host_port == Some(
                spec_fixed_user_pairs(ports)[k].0,
            ) && ports[j].guest_port == spec_fixed_user_pairs(ports)[k].1,
    decreases ports.len(),
{
    let fixed = spec_fixed_user_pairs(ports);
    let front = spec_fixed_user_pairs(ports.drop_last());
    if ports.len() > 0 {
        match ports.last().host_port {
            Some(h) => {
                if k == fixed.len() - 1 {
                    assert(ports[ports.len() - 1].host_port == Some(fixed[k].0) && ports[ports.len()
                        - 1].guest_port == fixed[k].1);
                } else {
                    lemma_fixed_pair_source(ports.drop_last(), k);
                    let j = choose|j: int|
                        0 <= j < ports.drop_last().len() && (#[trigger] ports.drop_last()[j]).host_port
                            == Some(front[k].0) && ports.drop_last()[j].guest_port == front[k].1;
                    assert(ports[j].host_port == Some(fixed[k].0) && ports[j].guest_port
                        == fixed[k].1);
                }
            },
            None => {
                lemma_fixed_pair_source(ports.drop_last(), k);
                let j = choose|j: int|
                    0 <= j < ports.drop_last().len() && (#[trigger] ports.drop_last()[j]).host_port
                        == Some(front[k].0) && ports.drop_last()[j].guest_port == front[k].1;
                assert(ports[j].host_port == Some(fixed[k].0) && ports[j].guest_port == fixed[k].1);
            },
        }
    }
}

/// Where the user maps guest port `p`, the image's default mapping for `p`
/// is gone: the fixed map holds the pair `(p, p)` only if a user mapping
/// with explicit host port `p` and guest port `p` itself produces it.
pub proof fn lemma_user_port_overrides_image_default(tcp: Seq<u16>, ports: Seq<PortSpec>, p: u16)
    requires
        spec_user_guest_ports(ports).contains(p),
        forall|i: int|
            0 <= i < ports.len() ==> !((#[trigger] ports[i]).host_port == Some(p)
                && ports[i].guest_port == p),
    ensures
        !spec_port_map(tcp, ports).contains_pair(p, p),
{
    let ug = spec_user_guest_ports(ports);
    let img = spec_image_default_pairs(tcp, ug);
    let usr = spec_fixed_user_pairs(ports);
    let all = img + usr;
    if spec_port_map(tcp, ports).contains_pair(p, p) {
        lemma_pairs_map_pair_source(Map::<u16, u16>::empty(), all, p, p);
        let i = choose|i: int| 0 <= i < all.len() && #[trigger] all[i] == (p, p);
        if i < img.len() {
            lemma_image_defaults_skip_user(tcp, ug, p);
            assert(all[i] == img[i]);
        } else {
            let k = i - img.len();
            assert(all[i] == usr[k]);
            lemma_fixed_pair_source(ports, k);
            let j = choose|j: int|
                0 <= j < ports.len() && (#[trigger] ports[j]).host_port == Some(usr[k].0)
                    && ports[j].guest_port == usr[k].1;
        }
    }
}

/// Whether any of the user's mappings names guest port `p`.
fn user_maps_guest_port(ports: &Vec<PortSpec>, p: u16) -> (r: bool)
    ensures
        r == spec_user_guest_ports(ports@).contains(p),
{
    let n = ports.len();
    let mut i: usize = 0;
    while i < n
        invariant
            n == ports@.len(),
            i <= n,
            forall|k: int| 0 <= k < i ==> (#[trigger] ports@[k]).guest_port != p,
        decreases n - i,
    {
        if ports[i].guest_port == p {
            return true;
        }
        i += 1;
    }
    false
}

/// Whether `pairs` holds a pair keyed by `h`.
fn pairs_contain_host(pairs: &Vec<(u16, u16)>, h: u16) -> (r: bool)
    ensures
        r == exists|a: int| 0 <= a < pairs@.len() && (#[trigger] pairs@[a]).0 == h,
{
    let n = pairs.len();
    let mut a: usize = 0;
    while a < n
        invariant
            n == pairs@.len(),
            a <= n,
            forall|b: int| 0 <= b < a ==> (#[trigger] pairs@[b]).0 != h,
        decreases n - a,
    {
        if pairs[a].0 == h {
            return true;
        }
        a += 1;
    }
    false
}

/// What the network backend receives: the fixed `(host, guest)` mappings,
/// and the guest ports whose host port it assigns itself.
#[derive(Debug, Clone)]
pub struct PortPlan {
    pub fixed: Vec<(u16, u16)>,
    pub dynamic_guest_ports: Vec<u16>,
}

/// Build the port plan for the network backend.
///
/// The fixed list holds, with one pair per host port, exactly the
/// mappings of the config-stage port map: image-exposed TCP ports map to
/// themselves unless the user maps that guest port; user mappings with an
/// explicit host port always apply. Mappings without a host port come
/// back as dynamic requests, in order.
pub fn setup_networking(container_config: &ContainerImageConfig, options: &BoxOptions) -> (r:
    PortPlan)
    ensures
        forall|i: int|
            0 <= i < r.fixed@.len() ==> spec_box_port_map(container_config, options).contains_pair(
                (#[trigger] r.fixed@[i]).0,
                r.fixed@[i].1,
            ),
        forall|h: u16, g: u16|
            spec_box_port_map(container_config, options).contains_pair(h, g) ==> r.fixed@.contains(
                (h, g),
            ),
        forall|i: int, j: int|
            0 <= i < j < r.fixed@.len() ==> (#[trigger] r.fixed@[i]).0 != (
            #[trigger] r.fixed@[j]).0,
        r.dynamic_guest_ports@ == spec_dynamic_guest_ports(options.ports@),
{
    let ghost ug = spec_user_guest_ports(options.ports@);
    let tcp = container_config.tcp_ports();
    let ghost tcp_view = spec_proto_ports(seq_views(container_config.exposed_ports@), "tcp"@);

    // Image defaults, skipping user-named guest ports.
    let mut pairs: Vec<(u16, u16)> = Vec::new();
    let nt = tcp.len();
    proof {
        assert(tcp_view.take(0) =~= Seq::<u16>::empty());
        assert(pairs@ =~= spec_image_default_pairs(tcp_view.take(0), ug));
    }
    let mut i: usize = 0;
    while i < nt
        invariant
            nt == tcp@.len(),
            tcp@ == tcp_view,
            ug == spec_user_guest_ports(options.ports@),
            i <= nt,
            pairs@ == spec_image_default_pairs(tcp_view.take(i as int), ug),
        decreases nt - i,
    {
        let p = tcp[i];
        proof {
            assert(tcp_view.take(i as int + 1).drop_last() =~= tcp_view.take(i as int));
            assert(tcp_view.take(i as int + 1).last() == p);
        }
        if !user_maps_guest_port(&options.ports, p) {
            pairs.push((p, p));
        }
        i += 1;
    }
    proof {
        assert(tcp_view.take(nt as int) =~= tcp_view);
    }
    let ghost img_pairs = pairs@;

    // The user's mappings: explicit host ports join the fixed pairs, the
    // rest become dynamic requests.
    let mut dynamic_guest_ports: Vec<u16> = Vec::new();
    let nu = options.ports.len();
    proof {
        assert(spec_fixed_user_pairs(options.ports@.take(0)) =~= Seq::<(u16, u16)>::empty());
        assert(spec_dynamic_guest_ports(options.ports@.take(0)) =~= Seq::<u16>::empty());
        assert(pairs@ =~= img_pairs + spec_fixed_user_pairs(options.ports@.take(0)));
    }
    let mut j: usize = 0;
    while j < nu
        invariant
            nu == options.ports@.len(),
            j <= nu,
            pairs@ == img_pairs + spec_fixed_user_pairs(options.ports@.take(j as int)),
            dynamic_guest_ports@ == spec_dynamic_guest_ports(options.ports@.take(j as int)),
        decreases nu - j,
    {
        proof {
            assert(options.ports@.take(j as int + 1).drop_last() =~= options.ports@.take(j as int));
            assert(options.ports@.take(j as int + 1).last() == options.ports@[j as int]);
        }
        let ps = &options.ports[j];
        match ps.host_port {
            Some(h) => {
                let ghost prev = pairs@;
                pairs.push((h, ps.guest_port));
                proof {
                    assert(pairs@ =~= img_pairs + spec_fixed_user_pairs(
                        options.ports@.take(j as int + 1),
                    ));
                }
            },
            None => {
                dynamic_guest_ports.push(ps.guest_port);
            },
        }
        j += 1;
    }
    proof {
        assert(options.ports@.take(nu as int) =~= options.ports@);
    }
    let ghost all_pairs = pairs@;
    let ghost pm = spec_pairs_map(all_pairs);
    proof {
        assert(pm == spec_box_port_map(container_config, options));
    }

    // Keep each host port's last pair only.
    let total = pairs.len();
    let mut uniq: Vec<(u16, u16)> = Vec::new();
    let mut t: usize = total;
    while t > 0
        invariant
            total == pairs@.len(),
            all_pairs == pairs@,
            pm == spec_pairs_map(all_pairs),
            t <= total,
            forall|a: int, b: int|
                0 <= a < b < uniq@.len() ==> (#[trigger] uniq@[a]).0 != (#[trigger] uniq@[b]).0,
            forall|a: int|
                0 <= a < uniq@.len() ==> pm.contains_pair((#[trigger] uniq@[a]).0, uniq@[a].1),
            forall|p: int| #![trigger all_pairs[p]]
                t <= p < total ==> exists|a: int|
                    0 <= a < uniq@.len() && (#[trigger] uniq@[a]).0 == all_pairs[p].0,
        decreases t,
    {
        t -= 1;
        let kv = pairs[t];
        if !pairs_contain_host(&uniq, kv.0) {
            proof {
                assert forall|jj: int| (t as int) < jj < all_pairs.len() implies all_pairs[jj].0
                    != all_pairs[t as int].0 by {
                    if all_pairs[jj].0 == all_pairs[t as int].0 {
                        let a = choose|a: int|
                            0 <= a < uniq@.len() && (#[trigger] uniq@[a]).0 == all_pairs[jj].0;
                        assert(uniq@[a].0 == kv.0);
                    }
                }
                lemma_pairs_map_last_occurrence(Map::<u16, u16>::empty(), all_pairs, t as int);
            }
            let ghost prev_uniq = uniq@;
            uniq.push(kv);
            proof {
                assert forall|p: int| #![trigger all_pairs[p]] t <= p < total implies exists|a: int|
                    0 <= a < uniq@.len() && (#[trigger] uniq@[a]).0 == all_pairs[p].0 by {
                    if p == t {
                        assert(uniq@[prev_uniq.len() as int].0 == all_pairs[p].0);
                    } else {
                        let a = choose|a: int|
                            0 <= a < prev_uniq.len() && (#[trigger] prev_uniq[a]).0
                                == all_pairs[p].0;
                        assert(uniq@[a].0 == all_pairs[p].0);
                    }
                }
            }
        }
    }
    proof {
        assert forall|h: u16, g: u16| pm.contains_pair(h, g) implies uniq@.contains((h, g)) by {
            lemma_pairs_map_dom(Map::<u16, u16>::empty(), all_pairs, h);
            let p = choose|p: int| 0 <= p < all_pairs.len() && (#[trigger] all_pairs[p]).0 == h;
            let a = choose|a: int|
                0 <= a < uniq@.len() && (#[trigger] uniq@[a]).0 == all_pairs[p].0;
            assert(pm.contains_pair(uniq@[a].0, uniq@[a].1));
            assert(uniq@[a].1 == g);
            assert(uniq@[a] == (h, g));
        }
    }
    PortPlan { fixed: uniq, dynamic_guest_ports }
}

} // verus!

//! What the DHCPv6 Advertise builder's options read back as through the option readers.
use vstd::prelude::*;
use crate::dhcpv6::{
    addr_views, advertise_opts, addrs_bytes, first_opt, ia_data, iaaddr_sub, iaprefix_sub, na_addrs, na_subs,
    dns_of, chunks16, pd_prefixes, pd_subs, prefix_views, request_opts, server_answer_opts, Dhcpv6Server, IaNaOption, IaPdOption,
    DHCPV6_OPT_CLIENTID, DHCPV6_OPT_DNSSL, DHCPV6_OPT_DNS_SERVERS, DHCPV6_OPT_IAADDR, DHCPV6_OPT_IAPREFIX,
    DHCPV6_OPT_IA_NA, DHCPV6_OPT_IA_PD, DHCPV6_OPT_SERVERID,
};
use crate::dhcpv6::{dnssl_bytes, dnssl_of, flush_label, join_dots, labels_from, read_domains, read_labels};
use crate::dns::{label_bytes, labels_bytes, lemma_next_dot, next_dot};
use crate::dns_readback::{encoded_labels, host_labels, lemma_split_encoded, split_labels};
use crate::net::Ipv6Address;
use crate::text::lossy_chars;
use crate::wire::{be16_at, be32_at, lemma_u16_roundtrip, lemma_u32_roundtrip, u16_bytes, u32_bytes};

verus! {

proof fn lemma_first_opt_skip(a: Seq<(u16, Seq<u8>)>, b: Seq<(u16, Seq<u8>)>, code: u16, min: nat)
    requires
        forall|i: int| 0 <= i < a.len() ==> (#[trigger] a[i]).0 != code,
    ensures
        first_opt(a + b, code, min) == first_opt(b, code, min),
    decreases a.len(),
{
    if a.len() > 0 {
        assert((a + b).skip(1) =~= a.skip(1) + b);
        assert(a[0] == (a + b)[0]);
        assert forall|i: int| 0 <= i < a.skip(1).len() implies (#[trigger] a.skip(1)[i]).0 != code by {
            assert(a.skip(1)[i] == a[i + 1]);
        }
        lemma_first_opt_skip(a.skip(1), b, code, min);
    }
}

proof fn lemma_be16_at(s: Seq<u8>, i: int, v: u16)
    requires
        0 <= i,
        i + 2 <= s.len(),
        s.subrange(i, i + 2) == u16_bytes(v),
    ensures
        be16_at(s, i) == v,
{
    lemma_u16_roundtrip(v);
    let w = s.subrange(i, i + 2);
    assert(s[i] == w[0] && s[i + 1] == w[1]);
}

proof fn lemma_be32_at(s: Seq<u8>, i: int, v: u32)
    requires
        0 <= i,
        i + 4 <= s.len(),
        s.subrange(i, i + 4) == u32_bytes(v),
    ensures
        be32_at(s, i) == v,
{
    lemma_u32_roundtrip(v);
    let w = s.subrange(i, i + 4);
    assert(s[i] == w[0] && s[i + 1] == w[1] && s[i + 2] == w[2] && s[i + 3] == w[3]);
}

proof fn lemma_ia_head(iaid: u32, t1: u32, t2: u32, subs: Seq<u8>)
    ensures
        ia_data(iaid, t1, t2, subs).len() == 12 + subs.len(),
        be32_at(ia_data(iaid, t1, t2, subs), 0) == iaid,
        be32_at(ia_data(iaid, t1, t2, subs), 4) == t1,
        be32_at(ia_data(iaid, t1, t2, subs), 8) == t2,
        ia_data(iaid, t1, t2, subs).skip(12) == subs,
{
    let d = ia_data(iaid, t1, t2, subs);
    assert(d.subrange(0, 4) =~= u32_bytes(iaid));
    assert(d.subrange(4, 8) =~= u32_bytes(t1));
    assert(d.subrange(8, 12) =~= u32_bytes(t2));
    assert(d.skip(12) =~= subs);
    lemma_be32_at(d, 0, iaid);
    lemma_be32_at(d, 4, t1);
    lemma_be32_at(d, 8, t2);
}

proof fn lemma_one_addr(addr: Seq<u8>, preferred: u32, valid: u32)
    requires
        addr.len() == 16,
    ensures
        na_addrs(iaaddr_sub(addr, preferred, valid)) == seq![(addr, preferred, valid)],
{
    let s = iaaddr_sub(addr, preferred, valid);
    assert(s.len() == 28);
    assert(s.subrange(0, 2) =~= u16_bytes(DHCPV6_OPT_IAADDR));
    assert(s.subrange(2, 4) =~= u16_bytes(24));
    assert(s.subrange(4, 20) =~= addr);
    assert(s.subrange(20, 24) =~= u32_bytes(preferred));
    assert(s.subrange(24, 28) =~= u32_bytes(valid));
    lemma_be16_at(s, 0, DHCPV6_OPT_IAADDR);
    lemma_be16_at(s, 2, 24);
    lemma_be32_at(s, 20, preferred);
    lemma_be32_at(s, 24, valid);
    assert(na_addrs(s.skip(28)) == Seq::<(Seq<u8>, u32, u32)>::empty());
    assert(seq![(s.subrange(4, 20), preferred, valid)] + Seq::<(Seq<u8>, u32, u32)>::empty() =~= seq![(addr, preferred, valid)]);
}

proof fn lemma_one_prefix(preferred: u32, valid: u32, len: u8, prefix: Seq<u8>)
    requires
        prefix.len() == 16,
    ensures
        pd_prefixes(iaprefix_sub(preferred, valid, len, prefix)) == seq![(preferred, valid, len, prefix)],
{
    let s = iaprefix_sub(preferred, valid, len, prefix);
    assert(s.len() == 29);
    assert(s.subrange(0, 2) =~= u16_bytes(DHCPV6_OPT_IAPREFIX));
    assert(s.subrange(2, 4) =~= u16_bytes(25));
    assert(s.subrange(4, 8) =~= u32_bytes(preferred));
    assert(s.subrange(8, 12) =~= u32_bytes(valid));
    assert(s[12] == len);
    assert(s.subrange(13, 29) =~= prefix);
    lemma_be16_at(s, 0, DHCPV6_OPT_IAPREFIX);
    lemma_be16_at(s, 2, 25);
    lemma_be32_at(s, 4, preferred);
    lemma_be32_at(s, 8, valid);
    assert(pd_prefixes(s.skip(29)) == Seq::<(u32, u32, u8, Seq<u8>)>::empty());
    assert(seq![(preferred, valid, len, s.subrange(13, 29))] + Seq::<(u32, u32, u8, Seq<u8>)>::empty()
        =~= seq![(preferred, valid, len, prefix)]);
}

/// Law: the options of an Advertise read back through the option readers as what was put
/// in. With an address, the first IA_NA carries IAID 1, T1 1800, T2 2880 and that one
/// address with preferred lifetime 3600 and valid lifetime 7200; without one there is no
/// IA_NA. With a delegated prefix, the first IA_PD carries IAID 2, T1 1800, T2 2880 and
/// that one prefix and length with lifetimes 3600 and 7200; without one there is no IA_PD.
pub proof fn lemma_advertise_readback(
    client_duid: Seq<u8>,
    server_duid: Seq<u8>,
    assigned_ip: Option<Ipv6Address>,
    delegated_prefix: Option<(Ipv6Address, u8)>,
    dns_servers: Seq<Ipv6Address>,
    search_list: Seq<Seq<u8>>,
)
    ensures
        ({
            let opts = advertise_opts(client_duid, server_duid, assigned_ip, delegated_prefix, dns_servers, search_list);
            &&& match assigned_ip {
                None => first_opt(opts, DHCPV6_OPT_IA_NA, 12) is None,
                Some(a) => first_opt(opts, DHCPV6_OPT_IA_NA, 12) matches Some(d) && be32_at(d, 0) == 1
                    && be32_at(d, 4) == 1800 && be32_at(d, 8) == 2880 && na_addrs(d.skip(12)) == seq![(a.0@, 3600u32, 7200u32)],
            }
            &&& match delegated_prefix {
                None => first_opt(opts, DHCPV6_OPT_IA_PD, 12) is None,
                Some((p, l)) => first_opt(opts, DHCPV6_OPT_IA_PD, 12) matches Some(d) && be32_at(d, 0) == 2
                    && be32_at(d, 4) == 1800 && be32_at(d, 8) == 2880 && pd_prefixes(d.skip(12)) == seq![(3600u32, 7200u32, l, p.0@)],
            }
        }),
{
    let ids = seq![(DHCPV6_OPT_CLIENTID, client_duid), (DHCPV6_OPT_SERVERID, server_duid)];
    let na = match assigned_ip {
        Some(ip) => seq![(DHCPV6_OPT_IA_NA, ia_data(1, 1800, 2880, iaaddr_sub(ip.0@, 3600, 7200)))],
        None => Seq::<(u16, Seq<u8>)>::empty(),
    };
    let pd = match delegated_prefix {
        Some((p, l)) => seq![(DHCPV6_OPT_IA_PD, ia_data(2, 1800, 2880, iaprefix_sub(3600, 7200, l, p.0@)))],
        None => Seq::<(u16, Seq<u8>)>::empty(),
    };
    let dns = if dns_servers.len() > 0 {
        seq![(DHCPV6_OPT_DNS_SERVERS, addrs_bytes(dns_servers))]
    } else {
        Seq::<(u16, Seq<u8>)>::empty()
    };
    let sl = if search_list.len() > 0 {
        seq![(DHCPV6_OPT_DNSSL, crate::dhcpv6::dnssl_bytes(search_list))]
    } else {
        Seq::<(u16, Seq<u8>)>::empty()
    };
    let opts = advertise_opts(client_duid, server_duid, assigned_ip, delegated_prefix, dns_servers, search_list);
    assert(opts =~= ids + (na + (pd + (dns + sl))));
    // The IA_NA.
    lemma_first_opt_skip(ids, na + (pd + (dns + sl)), DHCPV6_OPT_IA_NA, 12);
    match assigned_ip {
        Some(ip) => {
            lemma_ia_head(1, 1800, 2880, iaaddr_sub(ip.0@, 3600, 7200));
            lemma_one_addr(ip.0@, 3600, 7200);
            assert((na + (pd + (dns + sl)))[0] == na[0]);
        },
        None => {
            assert(na + (pd + (dns + sl)) =~= pd + (dns + sl));
            assert forall|i: int| 0 <= i < (pd + (dns + sl)).len() implies (#[trigger] (pd + (dns + sl))[i]).0
                != DHCPV6_OPT_IA_NA by {
                if i < pd.len() {
                    assert((pd + (dns + sl))[i] == pd[i]);
                } else if i < pd.len() + dns.len() {
                    assert((pd + (dns + sl))[i] == dns[i - pd.len()]);
                } else {
                    assert((pd + (dns + sl))[i] == sl[i - pd.len() - dns.len()]);
                }
            }
            lemma_first_opt_skip(pd + (dns + sl), Seq::empty(), DHCPV6_OPT_IA_NA, 12);
            assert(pd + (dns + sl) + Seq::<(u16, Seq<u8>)>::empty() =~= pd + (dns + sl));
        },
    }
    // The IA_PD.
    assert(opts =~= (ids + na) + (pd + (dns + sl)));
    assert forall|i: int| 0 <= i < (ids + na).len() implies (#[trigger] (ids + na)[i]).0 != DHCPV6_OPT_IA_PD by {
        if i >= 2 {
            assert((ids + na)[i] == na[i - 2]);
        }
    }
    lemma_first_opt_skip(ids + na, pd + (dns + sl), DHCPV6_OPT_IA_PD, 12);
    match delegated_prefix {
        Some((p, l)) => {
            lemma_ia_head(2, 1800, 2880, iaprefix_sub(3600, 7200, l, p.0@));
            lemma_one_prefix(3600, 7200, l, p.0@);
            assert((pd + (dns + sl))[0] == pd[0]);
        },
        None => {
            assert(pd + (dns + sl) =~= dns + sl);
            assert forall|i: int| 0 <= i < (dns + sl).len() implies (#[trigger] (dns + sl)[i]).0 != DHCPV6_OPT_IA_PD by {
                if i < dns.len() {
                    assert((dns + sl)[i] == dns[i]);
                } else {
                    assert((dns + sl)[i] == sl[i - dns.len()]);
                }
            }
            lemma_first_opt_skip(dns + sl, Seq::empty(), DHCPV6_OPT_IA_PD, 12);
            assert(dns + sl + Seq::<(u16, Seq<u8>)>::empty() =~= dns + sl);
        },
    }
}

proof fn lemma_na_subs_front(xs: Seq<(Seq<u8>, u32, u32)>)
    requires
        xs.len() > 0,
    ensures
        na_subs(xs) == iaaddr_sub(xs[0].0, xs[0].1, xs[0].2) + na_subs(xs.skip(1)),
    decreases xs.len(),
{
    if xs.len() == 1 {
        assert(xs.drop_last() =~= Seq::<(Seq<u8>, u32, u32)>::empty());
        assert(xs.skip(1) =~= Seq::<(Seq<u8>, u32, u32)>::empty());
        assert(na_subs(xs) =~= iaaddr_sub(xs[0].0, xs[0].1, xs[0].2) + na_subs(xs.skip(1)));
    } else {
        lemma_na_subs_front(xs.drop_last());
        assert(xs.drop_last().skip(1) =~= xs.skip(1).drop_last());
        assert(xs.skip(1).last() == xs.last());
        assert(na_subs(xs) =~= iaaddr_sub(xs[0].0, xs[0].1, xs[0].2) + na_subs(xs.skip(1)));
    }
}

proof fn lemma_pd_subs_front(xs: Seq<(u32, u32, u8, Seq<u8>)>)
    requires
        xs.len() > 0,
    ensures
        pd_subs(xs) == iaprefix_sub(xs[0].0, xs[0].1, xs[0].2, xs[0].3) + pd_subs(xs.skip(1)),
    decreases xs.len(),
{
    if xs.len() == 1 {
        assert(xs.drop_last() =~= Seq::<(u32, u32, u8, Seq<u8>)>::empty());
        assert(xs.skip(1) =~= Seq::<(u32, u32, u8, Seq<u8>)>::empty());
        assert(pd_subs(xs) =~= iaprefix_sub(xs[0].0, xs[0].1, xs[0].2, xs[0].3) + pd_subs(xs.skip(1)));
    } else {
        lemma_pd_subs_front(xs.drop_last());
        assert(xs.drop_last().skip(1) =~= xs.skip(1).drop_last());
        assert(xs.skip(1).last() == xs.last());
        assert(pd_subs(xs) =~= iaprefix_sub(xs[0].0, xs[0].1, xs[0].2, xs[0].3) + pd_subs(xs.skip(1)));
    }
}

/// Address sub-options written in a row read back as the addresses they were written for.
proof fn lemma_na_readback(xs: Seq<(Seq<u8>, u32, u32)>)
    requires
        forall|i: int| 0 <= i < xs.len() ==> (#[trigger] xs[i]).0.len() == 16,
    ensures
        na_addrs(na_subs(xs)) == xs,
    decreases xs.len(),
{
    if xs.len() == 0 {
        assert(na_addrs(na_subs(xs)) =~= xs);
    } else {
        lemma_na_subs_front(xs);
        let x = xs[0];
        let rest = xs.skip(1);
        assert forall|i: int| 0 <= i < rest.len() implies (#[trigger] rest[i]).0.len() == 16 by {
            assert(rest[i] == xs[i + 1]);
        }
        lemma_na_readback(rest);
        let s = iaaddr_sub(x.0, x.1, x.2) + na_subs(rest);
        let h = iaaddr_sub(x.0, x.1, x.2);
        assert(h.len() == 28);
        assert(s.subrange(0, 2) =~= u16_bytes(DHCPV6_OPT_IAADDR));
        assert(s.subrange(2, 4) =~= u16_bytes(24));
        assert(s.subrange(4, 20) =~= x.0);
        assert(s.subrange(20, 24) =~= u32_bytes(x.1));
        assert(s.subrange(24, 28) =~= u32_bytes(x.2));
        lemma_be16_at(s, 0, DHCPV6_OPT_IAADDR);
        lemma_be16_at(s, 2, 24);
        lemma_be32_at(s, 20, x.1);
        lemma_be32_at(s, 24, x.2);
        assert(s.skip(28) =~= na_subs(rest));
        assert(seq![(s.subrange(4, 20), x.1, x.2)] + rest =~= xs);
    }
}

/// Prefix sub-options written in a row read back as the prefixes they were written for.
proof fn lemma_pd_readback(xs: Seq<(u32, u32, u8, Seq<u8>)>)
    requires
        forall|i: int| 0 <= i < xs.len() ==> (#[trigger] xs[i]).3.len() == 16,
    ensures
        pd_prefixes(pd_subs(xs)) == xs,
    decreases xs.len(),
{
    if xs.len() == 0 {
        assert(pd_prefixes(pd_subs(xs)) =~= xs);
    } else {
        lemma_pd_subs_front(xs);
        let x = xs[0];
        let rest = xs.skip(1);
        assert forall|i: int| 0 <= i < rest.len() implies (#[trigger] rest[i]).3.len() == 16 by {
            assert(rest[i] == xs[i + 1]);
        }
        lemma_pd_readback(rest);
        let s = iaprefix_sub(x.0, x.1, x.2, x.3) + pd_subs(rest);
        let h = iaprefix_sub(x.0, x.1, x.2, x.3);
        assert(h.len() == 29);
        assert(s.subrange(0, 2) =~= u16_bytes(DHCPV6_OPT_IAPREFIX));
        assert(s.subrange(2, 4) =~= u16_bytes(25));
        assert(s.subrange(4, 8) =~= u32_bytes(x.0));
        assert(s.subrange(8, 12) =~= u32_bytes(x.1));
        assert(s[12] == x.2);
        assert(s.subrange(13, 29) =~= x.3);
        lemma_be16_at(s, 0, DHCPV6_OPT_IAPREFIX);
        lemma_be16_at(s, 2, 25);
        lemma_be32_at(s, 4, x.0);
        lemma_be32_at(s, 8, x.1);
        assert(s.skip(29) =~= pd_subs(rest));
        assert(seq![(x.0, x.1, x.2, s.subrange(13, 29))] + rest =~= xs);
    }
}

/// Law: the identity associations of a Request read back through the option readers as
/// what was put in: its IA_NA with the same IAID, T1, T2 and addresses with their
/// lifetimes, and its IA_PD with the same IAID, T1, T2 and prefixes; an association left out
/// is not found.
pub proof fn lemma_request_readback(
    client_duid: Seq<u8>,
    server_duid: Seq<u8>,
    ia_na: Option<IaNaOption>,
    ia_pd: Option<IaPdOption>,
)
    ensures
        ({
            let opts = request_opts(client_duid, server_duid, ia_na, ia_pd);
            &&& match ia_na {
                None => first_opt(opts, DHCPV6_OPT_IA_NA, 12) is None,
                Some(na) => first_opt(opts, DHCPV6_OPT_IA_NA, 12) matches Some(d) && be32_at(d, 0) == na.iaid
                    && be32_at(d, 4) == na.t1 && be32_at(d, 8) == na.t2 && na_addrs(d.skip(12)) == addr_views(na.addresses@),
            }
            &&& match ia_pd {
                None => first_opt(opts, DHCPV6_OPT_IA_PD, 12) is None,
                Some(pd) => first_opt(opts, DHCPV6_OPT_IA_PD, 12) matches Some(d) && be32_at(d, 0) == pd.iaid
                    && be32_at(d, 4) == pd.t1 && be32_at(d, 8) == pd.t2 && pd_prefixes(d.skip(12)) == prefix_views(pd.prefixes@),
            }
        }),
{
    let ids = seq![(DHCPV6_OPT_CLIENTID, client_duid), (DHCPV6_OPT_SERVERID, server_duid)];
    let na = match ia_na {
        Some(x) => seq![(DHCPV6_OPT_IA_NA, ia_data(x.iaid, x.t1, x.t2, na_subs(addr_views(x.addresses@))))],
        None => Seq::<(u16, Seq<u8>)>::empty(),
    };
    let pd = match ia_pd {
        Some(x) => seq![(DHCPV6_OPT_IA_PD, ia_data(x.iaid, x.t1, x.t2, pd_subs(prefix_views(x.prefixes@))))],
        None => Seq::<(u16, Seq<u8>)>::empty(),
    };
    let opts = request_opts(client_duid, server_duid, ia_na, ia_pd);
    assert(opts =~= ids + (na + pd));
    lemma_first_opt_skip(ids, na + pd, DHCPV6_OPT_IA_NA, 12);
    match ia_na {
        Some(x) => {
            let av = addr_views(x.addresses@);
            assert forall|i: int| 0 <= i < av.len() implies (#[trigger] av[i]).0.len() == 16 by {
                assert(av[i].0 == x.addresses@[i].address.0@);
            }
            lemma_na_readback(av);
            lemma_ia_head(x.iaid, x.t1, x.t2, na_subs(av));
            assert((na + pd)[0] == na[0]);
        },
        None => {
            assert(na + pd =~= pd);
            assert forall|i: int| 0 <= i < pd.len() implies (#[trigger] pd[i]).0 != DHCPV6_OPT_IA_NA by {
            }
            lemma_first_opt_skip(pd, Seq::empty(), DHCPV6_OPT_IA_NA, 12);
            assert(pd + Seq::<(u16, Seq<u8>)>::empty() =~= pd);
        },
    }
    assert(opts =~= (ids + na) + pd);
    assert forall|i: int| 0 <= i < (ids + na).len() implies (#[trigger] (ids + na)[i]).0 != DHCPV6_OPT_IA_PD by {
        if i >= 2 {
            assert((ids + na)[i] == na[i - 2]);
        }
    }
    lemma_first_opt_skip(ids + na, pd, DHCPV6_OPT_IA_PD, 12);
    match ia_pd {
        Some(x) => {
            let pv = prefix_views(x.prefixes@);
            assert forall|i: int| 0 <= i < pv.len() implies (#[trigger] pv[i]).3.len() == 16 by {
                assert(pv[i].3 == x.prefixes@[i].prefix.0@);
            }
            lemma_pd_readback(pv);
            lemma_ia_head(x.iaid, x.t1, x.t2, pd_subs(pv));
        },
        None => {},
    }
}

proof fn lemma_first_opt_prefix(a: Seq<(u16, Seq<u8>)>, b: Seq<(u16, Seq<u8>)>, code: u16, min: nat)
    requires
        first_opt(a, code, min) is Some,
    ensures
        first_opt(a + b, code, min) == first_opt(a, code, min),
    decreases a.len(),
{
    assert(a.len() > 0);
    assert((a + b)[0] == a[0]);
    if !(a[0].0 == code && a[0].1.len() >= min) {
        assert((a + b).skip(1) =~= a.skip(1) + b);
        lemma_first_opt_prefix(a.skip(1), b, code, min);
    }
}

/// Law: the answer to a Solicit carries, for the IA_NA and IA_PD readers, the address (and,
/// where delegation was asked for, the prefix) now bound to the client, with lifetimes 3600
/// and 7200, whatever options follow.
pub proof fn lemma_solicit_answer_readback(s: Dhcpv6Server, duid: Seq<u8>, pd: bool, tail: Seq<(u16, Seq<u8>)>)
    ensures
        first_opt(server_answer_opts(s, duid, pd) + tail, DHCPV6_OPT_IA_NA, 12) matches Some(d) && na_addrs(d.skip(12))
            == seq![(s.active_leases@[duid].0@, 3600u32, 7200u32)],
        pd ==> (first_opt(server_answer_opts(s, duid, pd) + tail, DHCPV6_OPT_IA_PD, 12) matches Some(d) && pd_prefixes(
            d.skip(12),
        ) == seq![(3600u32, 7200u32, s.active_delegations@[duid].1, s.active_delegations@[duid].0.0@)]),
{
    let opts = server_answer_opts(s, duid, pd);
    lemma_advertise_readback(
        duid,
        s.server_duid@,
        Some(s.active_leases@[duid]),
        if pd { Some(s.active_delegations@[duid]) } else { None },
        s.dns_servers@,
        crate::dhcpv6::strings_bytes(s.search_list@),
    );
    lemma_first_opt_prefix(opts, tail, DHCPV6_OPT_IA_NA, 12);
    if pd {
        lemma_first_opt_prefix(opts, tail, DHCPV6_OPT_IA_PD, 12);
    }
}

proof fn lemma_dns_of_concat(a: Seq<(u16, Seq<u8>)>, b: Seq<(u16, Seq<u8>)>)
    ensures
        dns_of(a + b) == dns_of(a) + dns_of(b),
    decreases b.len(),
{
    if b.len() == 0 {
        assert(a + b =~= a);
        assert(dns_of(a) + dns_of(b) =~= dns_of(a));
    } else {
        assert((a + b).drop_last() =~= a + b.drop_last());
        assert((a + b).last() == b.last());
        lemma_dns_of_concat(a, b.drop_last());
        assert(dns_of(a + b) =~= dns_of(a) + dns_of(b));
    }
}

proof fn lemma_dns_of_none(a: Seq<(u16, Seq<u8>)>)
    requires
        forall|i: int| 0 <= i < a.len() ==> (#[trigger] a[i]).0 != DHCPV6_OPT_DNS_SERVERS,
    ensures
        dns_of(a) == Seq::<Seq<u8>>::empty(),
    decreases a.len(),
{
    if a.len() > 0 {
        assert forall|i: int| 0 <= i < a.drop_last().len() implies (#[trigger] a.drop_last()[i]).0 != DHCPV6_OPT_DNS_SERVERS by {
            assert(a.drop_last()[i] == a[i]);
        }
        lemma_dns_of_none(a.drop_last());
        assert(a.last() == a[a.len() - 1]);
        assert(dns_of(a) =~= Seq::<Seq<u8>>::empty());
    }
}

proof fn lemma_addrs_bytes(ds: Seq<Ipv6Address>)
    ensures
        addrs_bytes(ds).len() == 16 * ds.len(),
        forall|i: int| 0 <= i < ds.len() ==> addrs_bytes(ds).subrange(16 * i, 16 * i + 16) == #[trigger] ds[i].0@,
    decreases ds.len(),
{
    if ds.len() > 0 {
        let init = ds.drop_last();
        lemma_addrs_bytes(init);
        let b = addrs_bytes(ds);
        assert(b == addrs_bytes(init) + ds.last().0@);
        assert forall|i: int| 0 <= i < ds.len() implies b.subrange(16 * i, 16 * i + 16) == #[trigger] ds[i].0@ by {
            if i < init.len() {
                assert(b.subrange(16 * i, 16 * i + 16) =~= addrs_bytes(init).subrange(16 * i, 16 * i + 16));
                assert(init[i] == ds[i]);
            } else {
                assert(b.subrange(16 * i, 16 * i + 16) =~= ds.last().0@);
            }
        }
    }
}

/// Law: the DNS servers of an Advertise read back through the DNS-server reader as the
/// servers it was built with, in order.
pub proof fn lemma_advertise_dns_readback(
    client_duid: Seq<u8>,
    server_duid: Seq<u8>,
    assigned_ip: Option<Ipv6Address>,
    delegated_prefix: Option<(Ipv6Address, u8)>,
    dns_servers: Seq<Ipv6Address>,
    search_list: Seq<Seq<u8>>,
)
    ensures
        dns_of(advertise_opts(client_duid, server_duid, assigned_ip, delegated_prefix, dns_servers, search_list))
            == dns_servers.map_values(|a: Ipv6Address| a.0@),
{
    let ids = seq![(DHCPV6_OPT_CLIENTID, client_duid), (DHCPV6_OPT_SERVERID, server_duid)];
    let na = match assigned_ip {
        Some(ip) => seq![(DHCPV6_OPT_IA_NA, ia_data(1, 1800, 2880, iaaddr_sub(ip.0@, 3600, 7200)))],
        None => Seq::<(u16, Seq<u8>)>::empty(),
    };
    let pd = match delegated_prefix {
        Some((p, l)) => seq![(DHCPV6_OPT_IA_PD, ia_data(2, 1800, 2880, iaprefix_sub(3600, 7200, l, p.0@)))],
        None => Seq::<(u16, Seq<u8>)>::empty(),
    };
    let dns = if dns_servers.len() > 0 {
        seq![(DHCPV6_OPT_DNS_SERVERS, addrs_bytes(dns_servers))]
    } else {
        Seq::<(u16, Seq<u8>)>::empty()
    };
    let sl = if search_list.len() > 0 {
        seq![(DHCPV6_OPT_DNSSL, crate::dhcpv6::dnssl_bytes(search_list))]
    } else {
        Seq::<(u16, Seq<u8>)>::empty()
    };
    let head = ids + na + pd;
    let opts = advertise_opts(client_duid, server_duid, assigned_ip, delegated_prefix, dns_servers, search_list);
    assert(opts =~= head + dns + sl);
    assert forall|i: int| 0 <= i < head.len() implies (#[trigger] head[i]).0 != DHCPV6_OPT_DNS_SERVERS by {
        if i < 2 {
        } else if i < 2 + na.len() {
            assert(head[i] == na[i - 2]);
        } else {
            assert(head[i] == pd[i - 2 - na.len()]);
        }
    }
    assert forall|i: int| 0 <= i < sl.len() implies (#[trigger] sl[i]).0 != DHCPV6_OPT_DNS_SERVERS by {
    }
    lemma_dns_of_none(head);
    lemma_dns_of_none(sl);
    lemma_dns_of_concat(head + dns, sl);
    lemma_dns_of_concat(head, dns);
    let want = dns_servers.map_values(|a: Ipv6Address| a.0@);
    if dns_servers.len() > 0 {
        lemma_addrs_bytes(dns_servers);
        assert(dns.drop_last() =~= Seq::<(u16, Seq<u8>)>::empty());
        assert(dns_of(Seq::<(u16, Seq<u8>)>::empty()) =~= Seq::<Seq<u8>>::empty());
        let c = chunks16(addrs_bytes(dns_servers));
        assert(c =~= want) by {
            assert forall|i: int| 0 <= i < c.len() implies c[i] == want[i] by {
                assert(c[i] == addrs_bytes(dns_servers).subrange(16 * i, 16 * i + 16));
                assert(want[i] == dns_servers[i].0@);
            }
        }
        assert(dns_of(dns) =~= c);
    } else {
        assert(want =~= Seq::<Seq<u8>>::empty());
    }
    assert(dns_of(opts) =~= want);
}

proof fn lemma_next_dot_shift(p: Seq<u8>, y: Seq<u8>, i: int)
    requires
        0 <= i <= y.len(),
    ensures
        next_dot(p + y, p.len() + i) == p.len() + next_dot(y, i),
    decreases y.len() - i,
{
    if i < y.len() {
        assert((p + y)[p.len() + i] == y[i]);
        if y[i] != 0x2Eu8 {
            lemma_next_dot_shift(p, y, i + 1);
        }
    }
}

proof fn lemma_labels_shift(p: Seq<u8>, y: Seq<u8>, i: int)
    requires
        0 <= i <= y.len(),
    ensures
        labels_bytes(p + y, p.len() + i) == labels_bytes(y, i),
    decreases y.len() - i,
{
    lemma_next_dot_shift(p, y, i);
    lemma_next_dot(y, i);
    let d = next_dot(y, i);
    let py = p + y;
    if d >= y.len() {
        assert(py.subrange(p.len() + i, py.len() as int) =~= y.subrange(i, y.len() as int));
    } else {
        assert(py.subrange(p.len() + i, p.len() + d) =~= y.subrange(i, d));
        lemma_labels_shift(p, y, d + 1);
    }
}

/// The search-list encoding of a name is the DNS encoding of its labels.
proof fn lemma_labels_from(b: Seq<u8>, cur: Seq<u8>)
    requires
        forall|j: int| 0 <= j < cur.len() ==> cur[j] != 0x2Eu8,
    ensures
        labels_from(b, cur) == labels_bytes(cur + b, 0),
    decreases b.len(),
{
    let cb = cur + b;
    lemma_next_dot(cb, 0);
    let nd = next_dot(cb, 0);
    if b.len() == 0 {
        assert(cb =~= cur);
        if nd < cb.len() {
            assert(cb[nd] == cur[nd]);
        }
        assert(cb.subrange(0, cb.len() as int) =~= cur);
    } else if b[0] == 0x2Eu8 {
        lemma_labels_from(b.skip(1), Seq::empty());
        assert(Seq::<u8>::empty() + b.skip(1) =~= b.skip(1));
        assert(cb[cur.len() as int] == 0x2Eu8);
        if nd < cur.len() {
            assert(cb[nd] == cur[nd]);
        }
        assert(nd == cur.len());
        assert(cb.subrange(0, nd) =~= cur);
        let p = cur.push(b[0]);
        assert(cb =~= p + b.skip(1));
        lemma_labels_shift(p, b.skip(1), 0);
    } else {
        let c2 = cur.push(b[0]);
        assert forall|j: int| 0 <= j < c2.len() implies c2[j] != 0x2Eu8 by {
            if j < cur.len() {
                assert(c2[j] == cur[j]);
            }
        }
        lemma_labels_from(b.skip(1), c2);
        assert(c2 + b.skip(1) =~= cb);
    }
}

/// Whether every label of the dotted name `d` has 1 to 63 octets.
pub open spec fn labels_ok(d: Seq<u8>) -> bool {
    forall|k: int| 0 <= k < host_labels(d).len() ==> 1 <= #[trigger] host_labels(d)[k].len() <= 63
}

/// The text a search-list reader gives for the name `d`: its labels, each read as
/// `String::from_utf8_lossy` reads it, joined with '.'.
pub open spec fn domain_text(d: Seq<u8>) -> Seq<char> {
    join_dots(host_labels(d).map_values(|l: Seq<u8>| lossy_chars(l)))
}

/// The texts of the names `ds`.
pub open spec fn domain_texts(ds: Seq<Seq<u8>>) -> Seq<Seq<char>> {
    ds.map_values(|d: Seq<u8>| domain_text(d))
}

proof fn lemma_read_labels(ls: Seq<Seq<u8>>, rest: Seq<u8>)
    requires
        forall|k: int| 0 <= k < ls.len() ==> 1 <= #[trigger] ls[k].len() <= 63,
    ensures
        read_labels(encoded_labels(ls) + seq![0u8] + rest) == Some(
            (ls.map_values(|l: Seq<u8>| lossy_chars(l)), encoded_labels(ls).len() + 1int),
        ),
    decreases ls.len(),
{
    let s = encoded_labels(ls) + seq![0u8] + rest;
    if ls.len() == 0 {
        assert(encoded_labels(ls) =~= Seq::<u8>::empty());
        assert(s[0] == 0u8);
        assert(ls.map_values(|l: Seq<u8>| lossy_chars(l)) =~= Seq::<Seq<char>>::empty());
    } else {
        let l = ls[0];
        let n = l.len() as int;
        let tl = ls.skip(1);
        assert forall|k: int| 0 <= k < tl.len() implies 1 <= #[trigger] tl[k].len() <= 63 by {
            assert(tl[k] == ls[k + 1]);
        }
        lemma_read_labels(tl, rest);
        assert(encoded_labels(ls) == label_bytes(l) + encoded_labels(tl));
        assert(s =~= seq![n as u8] + l + (encoded_labels(tl) + seq![0u8] + rest));
        assert(s[0] == n as u8);
        assert(s.skip(1 + n) =~= encoded_labels(tl) + seq![0u8] + rest);
        assert(s.subrange(1, 1 + n) =~= l);
        assert(seq![lossy_chars(l)] + tl.map_values(|l: Seq<u8>| lossy_chars(l)) =~= ls.map_values(
            |l: Seq<u8>| lossy_chars(l),
        ));
    }
}

proof fn lemma_dnssl_front(ds: Seq<Seq<u8>>)
    requires
        ds.len() > 0,
    ensures
        dnssl_bytes(ds) == labels_from(ds[0], Seq::empty()) + seq![0u8] + dnssl_bytes(ds.skip(1)),
    decreases ds.len(),
{
    if ds.len() == 1 {
        assert(ds.drop_last() =~= Seq::<Seq<u8>>::empty());
        assert(ds.skip(1) =~= Seq::<Seq<u8>>::empty());
        assert(dnssl_bytes(ds) =~= labels_from(ds[0], Seq::empty()) + seq![0u8] + dnssl_bytes(ds.skip(1)));
    } else {
        lemma_dnssl_front(ds.drop_last());
        assert(ds.drop_last().skip(1) =~= ds.skip(1).drop_last());
        assert(ds.skip(1).last() == ds.last());
        assert(dnssl_bytes(ds) =~= labels_from(ds[0], Seq::empty()) + seq![0u8] + dnssl_bytes(ds.skip(1)));
    }
}

proof fn lemma_host_labels_nonempty(d: Seq<u8>)
    ensures
        host_labels(d).len() > 0,
{
    lemma_next_dot(d, 0);
}

proof fn lemma_read_domains(ds: Seq<Seq<u8>>)
    requires
        forall|i: int| 0 <= i < ds.len() ==> labels_ok(#[trigger] ds[i]),
    ensures
        read_domains(dnssl_bytes(ds)) == (domain_texts(ds), false),
    decreases ds.len(),
{
    if ds.len() == 0 {
        assert(dnssl_bytes(ds) =~= Seq::<u8>::empty());
        assert(domain_texts(ds) =~= Seq::<Seq<char>>::empty());
    } else {
        let d = ds[0];
        let tl = ds.skip(1);
        assert forall|i: int| 0 <= i < tl.len() implies labels_ok(#[trigger] tl[i]) by {
            assert(tl[i] == ds[i + 1]);
        }
        lemma_read_domains(tl);
        lemma_dnssl_front(ds);
        lemma_labels_from(d, Seq::empty());
        assert(Seq::<u8>::empty() + d =~= d);
        lemma_split_encoded(d, 0);
        let hl = host_labels(d);
        let e = encoded_labels(hl);
        let t = dnssl_bytes(tl);
        let s = dnssl_bytes(ds);
        assert(labels_ok(d));
        assert forall|k: int| 0 <= k < hl.len() implies 1 <= #[trigger] hl[k].len() <= 63 by {
        }
        lemma_read_labels(hl, t);
        assert(s == e + seq![0u8] + t);
        assert(s.skip(e.len() + 1int) =~= t);
        lemma_host_labels_nonempty(d);
        assert(seq![domain_text(d)] + domain_texts(tl) =~= domain_texts(ds));
    }
}

proof fn lemma_dnssl_of_skip(a: Seq<(u16, Seq<u8>)>, b: Seq<(u16, Seq<u8>)>)
    requires
        forall|i: int| 0 <= i < a.len() ==> (#[trigger] a[i]).0 != DHCPV6_OPT_DNSSL,
    ensures
        dnssl_of(a + b) == dnssl_of(b),
    decreases a.len(),
{
    if a.len() > 0 {
        assert((a + b).skip(1) =~= a.skip(1) + b);
        assert(a[0] == (a + b)[0]);
        assert forall|i: int| 0 <= i < a.skip(1).len() implies (#[trigger] a.skip(1)[i]).0 != DHCPV6_OPT_DNSSL by {
            assert(a.skip(1)[i] == a[i + 1]);
        }
        lemma_dnssl_of_skip(a.skip(1), b);
    } else {
        assert(a + b =~= b);
    }
}

/// Law: the domain search list of an Advertise reads back through the search-list reader as
/// the names it was built with, in order, each as its labels read as text and joined with
/// '.', provided every label has 1 to 63 octets.
pub proof fn lemma_advertise_dnssl_readback(
    client_duid: Seq<u8>,
    server_duid: Seq<u8>,
    assigned_ip: Option<Ipv6Address>,
    delegated_prefix: Option<(Ipv6Address, u8)>,
    dns_servers: Seq<Ipv6Address>,
    search_list: Seq<Seq<u8>>,
)
    requires
        forall|i: int| 0 <= i < search_list.len() ==> labels_ok(#[trigger] search_list[i]),
    ensures
        dnssl_of(advertise_opts(client_duid, server_duid, assigned_ip, delegated_prefix, dns_servers, search_list))
            == domain_texts(search_list),
{
    let ids = seq![(DHCPV6_OPT_CLIENTID, client_duid), (DHCPV6_OPT_SERVERID, server_duid)];
    let na = match assigned_ip {
        Some(ip) => seq![(DHCPV6_OPT_IA_NA, ia_data(1, 1800, 2880, iaaddr_sub(ip.0@, 3600, 7200)))],
        None => Seq::<(u16, Seq<u8>)>::empty(),
    };
    let pd = match delegated_prefix {
        Some((p, l)) => seq![(DHCPV6_OPT_IA_PD, ia_data(2, 1800, 2880, iaprefix_sub(3600, 7200, l, p.0@)))],
        None => Seq::<(u16, Seq<u8>)>::empty(),
    };
    let dns = if dns_servers.len() > 0 {
        seq![(DHCPV6_OPT_DNS_SERVERS, addrs_bytes(dns_servers))]
    } else {
        Seq::<(u16, Seq<u8>)>::empty()
    };
    let sl = if search_list.len() > 0 {
        seq![(DHCPV6_OPT_DNSSL, dnssl_bytes(search_list))]
    } else {
        Seq::<(u16, Seq<u8>)>::empty()
    };
    let head = ids + na + pd + dns;
    let opts = advertise_opts(client_duid, server_duid, assigned_ip, delegated_prefix, dns_servers, search_list);
    assert(opts =~= head + sl);
    assert forall|i: int| 0 <= i < head.len() implies (#[trigger] head[i]).0 != DHCPV6_OPT_DNSSL by {
        if i < 2 {
        } else if i < 2 + na.len() {
            assert(head[i] == na[i - 2]);
        } else if i < 2 + na.len() + pd.len() {
            assert(head[i] == pd[i - 2 - na.len()]);
        } else {
            assert(head[i] == dns[i - 2 - na.len() - pd.len()]);
        }
    }
    lemma_dnssl_of_skip(head, sl);
    lemma_read_domains(search_list);
    if search_list.len() > 0 {
        assert(sl.skip(1) =~= Seq::<(u16, Seq<u8>)>::empty());
        assert(dnssl_of(Seq::<(u16, Seq<u8>)>::empty()) =~= Seq::<Seq<char>>::empty());
        assert(dnssl_of(sl) =~= domain_texts(search_list));
    } else {
        assert(domain_texts(search_list) =~= Seq::<Seq<char>>::empty());
    }
}

} // verus!

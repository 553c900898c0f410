//! What a serialized DHCP packet reads back as.
use vstd::prelude::*;
use crate::dhcp::{
    apply_option, dhcp_bytes, dhcp_parse, ip_at, ip_option, lemma_msg_type_roundtrip, mac_at, magic_cookie,
    msg_type_code, msg_type_of, no_options, scan_options, DhcpError, DhcpMessageType, DhcpOptionValues,
    DhcpPacket, DHCP_OPT_DNS, DHCP_OPT_END, DHCP_OPT_LEASE_TIME, DHCP_OPT_MSG_TYPE, DHCP_OPT_ROUTER,
    DHCP_OPT_SERVER_ID, DHCP_OPT_SUBNET_MASK,
};
use crate::net::Ipv4Address;
use crate::wire::{be32_at, lemma_u32_roundtrip, u32_bytes, zeros};

verus! {

/// The options part of a serialized packet: message type, server identifier, subnet mask,
/// router, DNS server, lease time where present, and the end option.
pub open spec fn options_part(p: DhcpPacket) -> Seq<u8> {
    seq![DHCP_OPT_MSG_TYPE, 1u8, msg_type_code(p.msg_type)] + ip_option(DHCP_OPT_SERVER_ID, p.server_id)
        + ip_option(DHCP_OPT_SUBNET_MASK, p.subnet_mask) + ip_option(DHCP_OPT_ROUTER, p.router) + ip_option(
        DHCP_OPT_DNS,
        p.dns,
    ) + lease_option(p.lease_time) + seq![DHCP_OPT_END]
}

pub open spec fn lease_option(v: Option<u32>) -> Seq<u8> {
    match v {
        Some(lt) => seq![DHCP_OPT_LEASE_TIME, 4u8] + u32_bytes(lt),
        None => Seq::empty(),
    }
}

proof fn lemma_layout(p: DhcpPacket)
    ensures
        ({
            let d = dhcp_bytes(p);
            &&& d.len() == 240 + options_part(p).len()
            &&& d.subrange(236, 240) == magic_cookie()
            &&& d.subrange(240, d.len() as int) == options_part(p)
            &&& d[0] == p.op
            &&& d.subrange(4, 8) == u32_bytes(p.xid)
            &&& d.subrange(12, 16) == p.ciaddr.0@
            &&& d.subrange(16, 20) == p.yiaddr.0@
            &&& d.subrange(20, 24) == p.siaddr.0@
            &&& d.subrange(28, 34) == p.chaddr.0@
        }),
{
    let d = dhcp_bytes(p);
    let head = seq![p.op, 1u8, 6u8, 0u8] + u32_bytes(p.xid) + zeros(4) + p.ciaddr.0@ + p.yiaddr.0@ + p.siaddr.0@
        + zeros(4) + p.chaddr.0@ + zeros(202);
    assert(head.len() == 236);
    assert(d =~= head + magic_cookie() + options_part(p));
    assert(d.subrange(236, 240) =~= magic_cookie());
    assert(d.subrange(240, d.len() as int) =~= options_part(p));
    assert(d.subrange(4, 8) =~= u32_bytes(p.xid));
    assert(d.subrange(12, 16) =~= p.ciaddr.0@);
    assert(d.subrange(16, 20) =~= p.yiaddr.0@);
    assert(d.subrange(20, 24) =~= p.siaddr.0@);
    assert(d.subrange(28, 34) =~= p.chaddr.0@);
}

/// One option written as code, length and value moves the scan past it with its effect.
proof fn lemma_scan_opt(data: Seq<u8>, off: int, st: DhcpOptionValues, code: u8, val: Seq<u8>)
    requires
        0 <= off,
        code != 0,
        code != DHCP_OPT_END,
        val.len() < 256,
        off + 2 + val.len() <= data.len(),
        data.subrange(off, off + 2 + val.len()) == seq![code, val.len() as u8] + val,
    ensures
        scan_options(data, off, st) == scan_options(data, off + 2 + val.len(), apply_option(st, code, val)),
{
    let w = data.subrange(off, off + 2 + val.len());
    assert(data[off] == w[0]);
    assert(data[off + 1] == w[1]);
    assert(data.subrange(off + 2, off + 2 + val.len()) =~= w.subrange(2, 2 + val.len() as int));
    assert(w.subrange(2, 2 + val.len() as int) =~= val);
}

/// An address option, where present, sets its field to the address.
proof fn lemma_scan_ip(data: Seq<u8>, off: int, st: DhcpOptionValues, code: u8, v: Option<Ipv4Address>)
    requires
        0 <= off,
        code == DHCP_OPT_SERVER_ID || code == DHCP_OPT_SUBNET_MASK || code == DHCP_OPT_ROUTER || code == DHCP_OPT_DNS,
        off + ip_option(code, v).len() <= data.len(),
        data.subrange(off, off + ip_option(code, v).len()) == ip_option(code, v),
    ensures
        scan_options(data, off, st) == scan_options(
            data,
            off + ip_option(code, v).len(),
            match v {
                None => st,
                Some(ip) => if code == DHCP_OPT_SERVER_ID {
                    DhcpOptionValues { server_id: Some(ip), ..st }
                } else if code == DHCP_OPT_SUBNET_MASK {
                    DhcpOptionValues { subnet_mask: Some(ip), ..st }
                } else if code == DHCP_OPT_ROUTER {
                    DhcpOptionValues { router: Some(ip), ..st }
                } else {
                    DhcpOptionValues { dns: Some(ip), ..st }
                },
            },
        ),
{
    broadcast use vstd::array::group_array_axioms;
    match v {
        None => {
            assert(off + ip_option(code, v).len() == off);
        },
        Some(ip) => {
            assert(ip_option(code, v) =~= seq![code, 4u8] + ip.0@);
            lemma_scan_opt(data, off, st, code, ip.0@);
            assert(ip_at(ip.0@, 0).0 =~= ip.0);
        },
    }
}

/// The options of a serialized packet read back as the packet's option fields.
proof fn lemma_options_scan(d: Seq<u8>, p: DhcpPacket)
    requires
        msg_type_of(msg_type_code(p.msg_type)) == p.msg_type,
        d.len() == 240 + options_part(p).len(),
        d.subrange(240, d.len() as int) == options_part(p),
    ensures
        scan_options(d, 240, no_options()) == Ok::<DhcpOptionValues, DhcpError>(
            DhcpOptionValues {
                msg_type: p.msg_type,
                subnet_mask: p.subnet_mask,
                router: p.router,
                dns: p.dns,
                server_id: p.server_id,
                lease_time: p.lease_time,
            },
        ),
{
    let o = options_part(p);
    let c = msg_type_code(p.msg_type);
    let s0 = seq![DHCP_OPT_MSG_TYPE, 1u8, c];
    let s1 = ip_option(DHCP_OPT_SERVER_ID, p.server_id);
    let s2 = ip_option(DHCP_OPT_SUBNET_MASK, p.subnet_mask);
    let s3 = ip_option(DHCP_OPT_ROUTER, p.router);
    let s4 = ip_option(DHCP_OPT_DNS, p.dns);
    let s5 = lease_option(p.lease_time);
    let a0: int = 240;
    let a1: int = a0 + 3;
    let a2: int = a1 + s1.len();
    let a3: int = a2 + s2.len();
    let a4: int = a3 + s3.len();
    let a5: int = a4 + s4.len();
    let a6: int = a5 + s5.len();
    assert(o =~= s0 + s1 + s2 + s3 + s4 + s5 + seq![DHCP_OPT_END]);
    assert(d.subrange(a0, a1) =~= s0) by {
        assert(d.subrange(a0, a1) =~= o.subrange(0, 3));
    }
    assert(d.subrange(a1, a2) =~= s1) by {
        assert(d.subrange(a1, a2) =~= o.subrange(3, a2 - 240));
    }
    assert(d.subrange(a2, a3) =~= s2) by {
        assert(d.subrange(a2, a3) =~= o.subrange(a2 - 240, a3 - 240));
    }
    assert(d.subrange(a3, a4) =~= s3) by {
        assert(d.subrange(a3, a4) =~= o.subrange(a3 - 240, a4 - 240));
    }
    assert(d.subrange(a4, a5) =~= s4) by {
        assert(d.subrange(a4, a5) =~= o.subrange(a4 - 240, a5 - 240));
    }
    assert(d.subrange(a5, a6) =~= s5) by {
        assert(d.subrange(a5, a6) =~= o.subrange(a5 - 240, a6 - 240));
    }
    assert(d[a6] == DHCP_OPT_END) by {
        assert(d[a6] == o[a6 - 240]);
    }
    let st0 = no_options();
    assert(s0 =~= seq![DHCP_OPT_MSG_TYPE, (seq![c].len()) as u8] + seq![c]);
    lemma_scan_opt(d, a0, st0, DHCP_OPT_MSG_TYPE, seq![c]);
    let st1 = DhcpOptionValues { msg_type: p.msg_type, ..st0 };
    assert(apply_option(st0, DHCP_OPT_MSG_TYPE, seq![c]) == st1);
    lemma_scan_ip(d, a1, st1, DHCP_OPT_SERVER_ID, p.server_id);
    let st2 = DhcpOptionValues { server_id: p.server_id, ..st1 };
    lemma_scan_ip(d, a2, st2, DHCP_OPT_SUBNET_MASK, p.subnet_mask);
    let st3 = DhcpOptionValues { subnet_mask: p.subnet_mask, ..st2 };
    lemma_scan_ip(d, a3, st3, DHCP_OPT_ROUTER, p.router);
    let st4 = DhcpOptionValues { router: p.router, ..st3 };
    lemma_scan_ip(d, a4, st4, DHCP_OPT_DNS, p.dns);
    let st5 = DhcpOptionValues { dns: p.dns, ..st4 };
    let st6 = DhcpOptionValues { lease_time: p.lease_time, ..st5 };
    match p.lease_time {
        Some(lt) => {
            lemma_u32_roundtrip(lt);
            assert(s5 =~= seq![DHCP_OPT_LEASE_TIME, (u32_bytes(lt).len()) as u8] + u32_bytes(lt));
            lemma_scan_opt(d, a5, st5, DHCP_OPT_LEASE_TIME, u32_bytes(lt));
            assert(apply_option(st5, DHCP_OPT_LEASE_TIME, u32_bytes(lt)) == st6);
        },
        None => {},
    }
    assert(scan_options(d, a6, st6) == Ok::<DhcpOptionValues, DhcpError>(st6));
}

/// Law: a packet serialized and parsed again is the same packet, for every message type
/// that the parser maps back (all but `Unknown` of a code that names a known type).
pub proof fn lemma_packet_roundtrip(p: DhcpPacket)
    requires
        !(p.msg_type matches DhcpMessageType::Unknown(v) && (v == 1 || v == 2 || v == 3 || v == 5 || v == 6
            || v == 7)),
    ensures
        dhcp_parse(dhcp_bytes(p)) == Ok::<DhcpPacket, DhcpError>(p),
{
    lemma_layout(p);
    lemma_msg_type_roundtrip(p.msg_type);
    lemma_options_scan(dhcp_bytes(p), p);
    lemma_fields(dhcp_bytes(p), p);
}

proof fn lemma_fields(d: Seq<u8>, p: DhcpPacket)
    requires
        d.len() >= 240,
        d[0] == p.op,
        d.subrange(4, 8) == u32_bytes(p.xid),
        d.subrange(12, 16) == p.ciaddr.0@,
        d.subrange(16, 20) == p.yiaddr.0@,
        d.subrange(20, 24) == p.siaddr.0@,
        d.subrange(28, 34) == p.chaddr.0@,
    ensures
        be32_at(d, 4) == p.xid,
        ip_at(d, 12) == p.ciaddr,
        ip_at(d, 16) == p.yiaddr,
        ip_at(d, 20) == p.siaddr,
        mac_at(d, 28) == p.chaddr,
{
    broadcast use vstd::array::group_array_axioms;
    lemma_u32_roundtrip(p.xid);
    let x = d.subrange(4, 8);
    assert(d[4] == x[0] && d[5] == x[1] && d[6] == x[2] && d[7] == x[3]);
    assert(ip_at(d, 12).0 =~= p.ciaddr.0) by {
        let w = d.subrange(12, 16);
        assert(d[12] == w[0] && d[13] == w[1] && d[14] == w[2] && d[15] == w[3]);
    }
    assert(ip_at(d, 16).0 =~= p.yiaddr.0) by {
        let w = d.subrange(16, 20);
        assert(d[16] == w[0] && d[17] == w[1] && d[18] == w[2] && d[19] == w[3]);
    }
    assert(ip_at(d, 20).0 =~= p.siaddr.0) by {
        let w = d.subrange(20, 24);
        assert(d[20] == w[0] && d[21] == w[1] && d[22] == w[2] && d[23] == w[3]);
    }
    assert(mac_at(d, 28).0 =~= p.chaddr.0) by {
        let w = d.subrange(28, 34);
        assert(d[28] == w[0] && d[29] == w[1] && d[30] == w[2] && d[31] == w[3] && d[32] == w[4] && d[33] == w[5]);
    }
}

} // verus!

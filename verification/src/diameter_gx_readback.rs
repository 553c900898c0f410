//! What a PCC rule reads back as from the Charging-Rule-Definition AVP written for it.
use vstd::prelude::*;
use vstd::utf8::{decode_utf8, encode_utf8, encode_utf8_decode_utf8, encode_utf8_valid_utf8};
use crate::diameter::{DIAMETER_FLAG_VENDOR_SPECIFIC, find_avp, avp_bytes, avp_parse, avp_wf, avps_bytes, avps_parse_prefix, lemma_avp_roundtrip, AvpModel};
use crate::diameter_gx::{
    flow_info_avp, flows_in, gx_avp, qos_avp, qos_fold, rule_def_avp, rule_fold, rule_inner_avps, rule_parse,
    u32_or, PccRuleModel, defs_in, install_avp, installs_in, names_in, rar_avps, remove_avp, removes_in,
    rules_view, text_or_empty, trigger_avp, triggers_in, GxReAuthRequest, AVP_CHARGING_RULE_DEFINITION,
    AVP_CHARGING_RULE_INSTALL, AVP_CHARGING_RULE_REMOVE, AVP_EVENT_TRIGGER, AVP_CHARGING_RULE_NAME, AVP_FLOW_DESCRIPTION, AVP_FLOW_INFORMATION,
    AVP_MAX_REQUESTED_BANDWIDTH_DL, AVP_MAX_REQUESTED_BANDWIDTH_UL, AVP_QOS_CLASS_IDENTIFIER, AVP_QOS_INFORMATION,
    DEFAULT_PRECEDENCE, DEFAULT_QCI,
};
use crate::diameter_charging::{text_avp, u32_value};
use crate::text::{lossy_chars, strings_view};
use crate::wire::{lemma_u32_roundtrip, u32_bytes};

verus! {

/// A run of well-formed AVPs reads back, AVP by AVP, as itself.
proof fn lemma_prefix_roundtrip(avps: Seq<AvpModel>)
    requires
        forall|i: int| 0 <= i < avps.len() ==> avp_wf(#[trigger] avps[i]),
    ensures
        avps_parse_prefix(avps_bytes(avps)) == avps,
    decreases avps.len(),
{
    if avps.len() == 0 {
        assert(avps_bytes(avps) =~= Seq::<u8>::empty());
        assert(avps =~= Seq::<AvpModel>::empty());
    } else {
        let tail = avps_bytes(avps.skip(1));
        let b = avp_bytes(avps[0]);
        lemma_avp_roundtrip(avps[0], tail);
        assert(avps_bytes(avps) == b + tail);
        assert(b.len() > 0) by {
            reveal(avp_bytes);
        }
        assert((b + tail).skip(b.len() as int) =~= tail);
        assert forall|i: int| 0 <= i < avps.skip(1).len() implies avp_wf(#[trigger] avps.skip(1)[i]) by {
            assert(avps.skip(1)[i] == avps[i + 1]);
        }
        lemma_prefix_roundtrip(avps.skip(1));
        assert(seq![avps[0]] + avps.skip(1) =~= avps);
    }
}

proof fn lemma_gx_wf(code: u32, data: Seq<u8>)
    requires
        12 + data.len() < 0x100_0000,
    ensures
        avp_wf(gx_avp(code, data)),
{
    let f: u8 = 0xC0;
    assert(f & 0x80u8 != 0) by (bit_vector)
        requires
            f == 0xC0u8,
    ;
}

/// Text written as UTF-8 and read back as `String::from_utf8_lossy` reads it is the text.
proof fn lemma_text_readback(t: Seq<char>)
    ensures
        lossy_chars(encode_utf8(t)) == t,
{
    encode_utf8_valid_utf8(t);
    encode_utf8_decode_utf8(t);
}

/// A Flow-Information AVP reads back as the one flow description it was written for.
proof fn lemma_flow_readback(f: Seq<char>)
    requires
        12 + encode_utf8(f).len() < 0x100_0000,
    ensures
        flows_in(avps_parse_prefix(flow_info_avp(f).data)) == seq![f],
{
    let d = gx_avp(AVP_FLOW_DESCRIPTION, encode_utf8(f));
    assert(avps_bytes(seq![d]) =~= avp_bytes(d)) by {
        assert(seq![d].skip(1) =~= Seq::<AvpModel>::empty());
        assert(avps_bytes(Seq::<AvpModel>::empty()) =~= Seq::<u8>::empty());
    }
    lemma_gx_wf(AVP_FLOW_DESCRIPTION, encode_utf8(f));
    lemma_prefix_roundtrip(seq![d]);
    lemma_text_readback(f);
    assert(seq![d].drop_last() =~= Seq::<AvpModel>::empty());
    assert(flows_in(Seq::<AvpModel>::empty()) =~= Seq::<Seq<char>>::empty());
    assert(flows_in(seq![d]) =~= seq![f]);
}

/// The rule read from its name AVP and the Flow-Information AVPs of its first `n` flows.
proof fn lemma_fold_flows(r: PccRuleModel, n: int)
    requires
        0 <= n <= r.flows.len(),
        forall|i: int| 0 <= i < r.flows.len() ==> 12 + encode_utf8(#[trigger] r.flows[i]).len() < 0x100_0000,
    ensures
        rule_fold(seq![gx_avp(AVP_CHARGING_RULE_NAME, encode_utf8(r.name))] + r.flows.take(n).map_values(
            |f: Seq<char>| flow_info_avp(f),
        )) == (PccRuleModel {
            name: r.name,
            flows: r.flows.take(n),
            qci: DEFAULT_QCI,
            ul: 0,
            dl: 0,
            precedence: DEFAULT_PRECEDENCE,
            gate: true,
        }),
    decreases n,
{
    let name_avp = gx_avp(AVP_CHARGING_RULE_NAME, encode_utf8(r.name));
    let s = seq![name_avp] + r.flows.take(n).map_values(|f: Seq<char>| flow_info_avp(f));
    if n == 0 {
        assert(s =~= seq![name_avp]);
        assert(s.drop_last() =~= Seq::<AvpModel>::empty());
        lemma_text_readback(r.name);
        assert(r.flows.take(0) =~= Seq::<Seq<char>>::empty());
        assert(rule_fold(Seq::<AvpModel>::empty()) == (PccRuleModel {
            name: Seq::empty(),
            flows: Seq::empty(),
            qci: DEFAULT_QCI,
            ul: 0,
            dl: 0,
            precedence: DEFAULT_PRECEDENCE,
            gate: true,
        }));
    } else {
        lemma_fold_flows(r, n - 1);
        assert(s.drop_last() =~= seq![name_avp] + r.flows.take(n - 1).map_values(|f: Seq<char>| flow_info_avp(f)));
        assert(s.last() == flow_info_avp(r.flows[n - 1]));
        lemma_flow_readback(r.flows[n - 1]);
        assert(r.flows.take(n - 1) + seq![r.flows[n - 1]] =~= r.flows.take(n));
    }
}

/// The QoS-Information AVP reads back as its QCI and bandwidths.
proof fn lemma_qos_readback(qci: u32, ul: u32, dl: u32, start: (u32, u32, u32))
    ensures
        qos_fold(avps_parse_prefix(qos_avp(qci, ul, dl).data), start) == (qci, ul, dl),
{
    let a = gx_avp(AVP_QOS_CLASS_IDENTIFIER, u32_bytes(qci));
    let b = gx_avp(AVP_MAX_REQUESTED_BANDWIDTH_UL, u32_bytes(ul));
    let c = gx_avp(AVP_MAX_REQUESTED_BANDWIDTH_DL, u32_bytes(dl));
    let v = seq![a, b, c];
    lemma_gx_wf(AVP_QOS_CLASS_IDENTIFIER, u32_bytes(qci));
    lemma_gx_wf(AVP_MAX_REQUESTED_BANDWIDTH_UL, u32_bytes(ul));
    lemma_gx_wf(AVP_MAX_REQUESTED_BANDWIDTH_DL, u32_bytes(dl));
    lemma_prefix_roundtrip(v);
    lemma_u32_roundtrip(qci);
    lemma_u32_roundtrip(ul);
    lemma_u32_roundtrip(dl);
    assert(v.drop_last() =~= seq![a, b]);
    assert(seq![a, b].drop_last() =~= seq![a]);
    assert(seq![a].drop_last() =~= Seq::<AvpModel>::empty());
    assert(u32_or(a.data, DEFAULT_QCI) == qci);
    assert(u32_or(b.data, 0) == ul);
    assert(u32_or(c.data, 0) == dl);
    let s0 = qos_fold(Seq::<AvpModel>::empty(), start);
    assert(s0 == start);
    let s1 = qos_fold(seq![a], start);
    assert(s1 == (qci, start.1, start.2));
    let s2 = qos_fold(seq![a, b], start);
    assert(s2 == (qci, ul, start.2));
    assert(qos_fold(v, start) == (qci, ul, dl));
}

/// Law: a rule with a name, the default precedence and an open gate (the definition AVP
/// carries neither precedence nor gate) reads back from the Charging-Rule-Definition AVP
/// written for it as the same rule, provided each AVP's length fits its 24-bit field.
pub proof fn lemma_rule_roundtrip(r: PccRuleModel)
    requires
        r.name.len() > 0,
        r.precedence == DEFAULT_PRECEDENCE,
        r.gate,
        forall|i: int| 0 <= i < r.flows.len() ==> 24 + encode_utf8(#[trigger] r.flows[i]).len() < 0x100_0000,
        forall|i: int| 0 <= i < rule_inner_avps(r).len() ==> avp_wf(#[trigger] rule_inner_avps(r)[i]),
    ensures
        rule_parse(rule_def_avp(r).data) == Some(r),
{
    let inner = rule_inner_avps(r);
    lemma_prefix_roundtrip(inner);
    let n = r.flows.len() as int;
    assert forall|i: int| 0 <= i < r.flows.len() implies 12 + encode_utf8(#[trigger] r.flows[i]).len() < 0x100_0000 by {
    }
    lemma_fold_flows(r, n);
    assert(r.flows.take(n) =~= r.flows);
    let name_avp = gx_avp(AVP_CHARGING_RULE_NAME, encode_utf8(r.name));
    assert(inner.drop_last() =~= seq![name_avp] + r.flows.take(n).map_values(|f: Seq<char>| flow_info_avp(f)));
    assert(inner.last() == qos_avp(r.qci, r.ul, r.dl));
    lemma_qos_readback(r.qci, r.ul, r.dl, (DEFAULT_QCI, 0, 0));
}

/// A rule that the definition AVP carries as it is: a name, the default precedence, an open
/// gate, and AVP lengths that fit their 24-bit fields.
pub open spec fn rule_fits(r: PccRuleModel) -> bool {
    &&& r.name.len() > 0
    &&& r.precedence == DEFAULT_PRECEDENCE
    &&& r.gate
    &&& forall|i: int| 0 <= i < r.flows.len() ==> 24 + encode_utf8(#[trigger] r.flows[i]).len() < 0x100_0000
    &&& forall|i: int| 0 <= i < rule_inner_avps(r).len() ==> avp_wf(#[trigger] rule_inner_avps(r)[i])
    &&& avp_wf(rule_def_avp(r))
}

proof fn lemma_one_avp_prefix(a: AvpModel)
    requires
        avp_wf(a),
    ensures
        avps_parse_prefix(avp_bytes(a)) == seq![a],
{
    assert(avps_bytes(seq![a]) =~= avp_bytes(a)) by {
        assert(seq![a].skip(1) =~= Seq::<AvpModel>::empty());
        assert(avps_bytes(Seq::<AvpModel>::empty()) =~= Seq::<u8>::empty());
    }
    lemma_prefix_roundtrip(seq![a]);
}

proof fn lemma_installs(rs: Seq<PccRuleModel>)
    requires
        forall|i: int| 0 <= i < rs.len() ==> rule_fits(#[trigger] rs[i]),
    ensures
        installs_in(rs.map_values(|x: PccRuleModel| install_avp(x))) == rs,
    decreases rs.len(),
{
    let m = rs.map_values(|x: PccRuleModel| install_avp(x));
    if rs.len() == 0 {
        assert(m =~= Seq::<AvpModel>::empty());
        assert(rs =~= Seq::<PccRuleModel>::empty());
    } else {
        let init = rs.drop_last();
        let x = rs.last();
        assert forall|i: int| 0 <= i < init.len() implies rule_fits(#[trigger] init[i]) by {
            assert(init[i] == rs[i]);
        }
        lemma_installs(init);
        assert(m.drop_last() =~= init.map_values(|x: PccRuleModel| install_avp(x)));
        assert(m.last() == install_avp(x));
        assert(rule_fits(rs[rs.len() - 1]));
        lemma_one_avp_prefix(rule_def_avp(x));
        lemma_rule_roundtrip(x);
        let d = seq![rule_def_avp(x)];
        assert(d.drop_last() =~= Seq::<AvpModel>::empty());
        assert(defs_in(Seq::<AvpModel>::empty()) =~= Seq::<PccRuleModel>::empty());
        assert(defs_in(d) =~= seq![x]);
        assert(init + seq![x] =~= rs);
    }
}

proof fn lemma_removes(ns: Seq<Seq<char>>)
    requires
        forall|i: int| 0 <= i < ns.len() ==> 12 + encode_utf8(#[trigger] ns[i]).len() < 0x100_0000,
    ensures
        removes_in(ns.map_values(|n: Seq<char>| remove_avp(n))) == ns,
    decreases ns.len(),
{
    let m = ns.map_values(|n: Seq<char>| remove_avp(n));
    if ns.len() == 0 {
        assert(m =~= Seq::<AvpModel>::empty());
        assert(ns =~= Seq::<Seq<char>>::empty());
    } else {
        let init = ns.drop_last();
        let n = ns.last();
        assert forall|i: int| 0 <= i < init.len() implies 12 + encode_utf8(#[trigger] init[i]).len() < 0x100_0000 by {
            assert(init[i] == ns[i]);
        }
        lemma_removes(init);
        assert(m.drop_last() =~= init.map_values(|n: Seq<char>| remove_avp(n)));
        assert(m.last() == remove_avp(n));
        assert(12 + encode_utf8(ns[ns.len() - 1]).len() < 0x100_0000);
        let a = gx_avp(AVP_CHARGING_RULE_NAME, encode_utf8(n));
        lemma_gx_wf(AVP_CHARGING_RULE_NAME, encode_utf8(n));
        lemma_one_avp_prefix(a);
        lemma_text_readback(n);
        assert(seq![a].drop_last() =~= Seq::<AvpModel>::empty());
        assert(names_in(Seq::<AvpModel>::empty()) =~= Seq::<Seq<char>>::empty());
        assert(names_in(seq![a]) =~= seq![n]);
        assert(init + seq![n] =~= ns);
    }
}

proof fn lemma_triggers(ts: Seq<u32>)
    ensures
        triggers_in(ts.map_values(|t: u32| trigger_avp(t))) == ts,
    decreases ts.len(),
{
    let m = ts.map_values(|t: u32| trigger_avp(t));
    if ts.len() == 0 {
        assert(m =~= Seq::<AvpModel>::empty());
        assert(ts =~= Seq::<u32>::empty());
    } else {
        let init = ts.drop_last();
        lemma_triggers(init);
        assert(m.drop_last() =~= init.map_values(|t: u32| trigger_avp(t)));
        assert(m.last() == trigger_avp(ts.last()));
        lemma_u32_roundtrip(ts.last());
        assert(u32_value(u32_bytes(ts.last())) == Some(ts.last()));
        assert(init + seq![ts.last()] =~= ts);
    }
}

proof fn lemma_installs_concat(a: Seq<AvpModel>, b: Seq<AvpModel>)
    ensures
        installs_in(a + b) == installs_in(a) + installs_in(b),
        removes_in(a + b) == removes_in(a) + removes_in(b),
        triggers_in(a + b) == triggers_in(a) + triggers_in(b),
    decreases b.len(),
{
    if b.len() == 0 {
        assert(a + b =~= a);
        assert(installs_in(a) + installs_in(b) =~= installs_in(a));
        assert(removes_in(a) + removes_in(b) =~= removes_in(a));
        assert(triggers_in(a) + triggers_in(b) =~= triggers_in(a));
    } else {
        assert((a + b).drop_last() =~= a + b.drop_last());
        assert((a + b).last() == b.last());
        lemma_installs_concat(a, b.drop_last());
        assert(installs_in(a + b) =~= installs_in(a) + installs_in(b));
        assert(removes_in(a + b) =~= removes_in(a) + removes_in(b));
        assert(triggers_in(a + b) =~= triggers_in(a) + triggers_in(b));
    }
}

proof fn lemma_no_installs(a: Seq<AvpModel>)
    requires
        forall|i: int| 0 <= i < a.len() ==> (#[trigger] a[i]).code != AVP_CHARGING_RULE_INSTALL,
    ensures
        installs_in(a) == Seq::<PccRuleModel>::empty(),
    decreases a.len(),
{
    if a.len() > 0 {
        assert forall|i: int| 0 <= i < a.drop_last().len() implies (#[trigger] a.drop_last()[i]).code
            != AVP_CHARGING_RULE_INSTALL by {
            assert(a.drop_last()[i] == a[i]);
        }
        lemma_no_installs(a.drop_last());
        assert(a.last() == a[a.len() - 1]);
        assert(installs_in(a) =~= Seq::<PccRuleModel>::empty());
    }
}

proof fn lemma_no_removes(a: Seq<AvpModel>)
    requires
        forall|i: int| 0 <= i < a.len() ==> (#[trigger] a[i]).code != AVP_CHARGING_RULE_REMOVE,
    ensures
        removes_in(a) == Seq::<Seq<char>>::empty(),
    decreases a.len(),
{
    if a.len() > 0 {
        assert forall|i: int| 0 <= i < a.drop_last().len() implies (#[trigger] a.drop_last()[i]).code
            != AVP_CHARGING_RULE_REMOVE by {
            assert(a.drop_last()[i] == a[i]);
        }
        lemma_no_removes(a.drop_last());
        assert(a.last() == a[a.len() - 1]);
        assert(removes_in(a) =~= Seq::<Seq<char>>::empty());
    }
}

proof fn lemma_no_triggers(a: Seq<AvpModel>)
    requires
        forall|i: int| 0 <= i < a.len() ==> (#[trigger] a[i]).code != AVP_EVENT_TRIGGER,
    ensures
        triggers_in(a) == Seq::<u32>::empty(),
    decreases a.len(),
{
    if a.len() > 0 {
        assert forall|i: int| 0 <= i < a.drop_last().len() implies (#[trigger] a.drop_last()[i]).code
            != AVP_EVENT_TRIGGER by {
            assert(a.drop_last()[i] == a[i]);
        }
        lemma_no_triggers(a.drop_last());
        assert(a.last() == a[a.len() - 1]);
        assert(triggers_in(a) =~= Seq::<u32>::empty());
    }
}

/// Law: a re-auth request reads back from the AVPs of the message it builds: the session,
/// origin and destination texts, the rules to install (each with a name, the default
/// precedence and an open gate, since the definition carries neither), the rule names to
/// remove and the event triggers, provided each AVP's length fits its 24-bit field.
pub proof fn lemma_rar_roundtrip(r: GxReAuthRequest)
    requires
        forall|i: int| 0 <= i < r.rules_to_install@.len() ==> rule_fits(#[trigger] rules_view(r.rules_to_install@)[i]),
        forall|i: int| 0 <= i < r.rules_to_remove@.len() ==> 12 + encode_utf8(
            #[trigger] strings_view(r.rules_to_remove@)[i],
        ).len() < 0x100_0000,
    ensures
        text_avp(rar_avps(r), 263) == Some(r.session_id@),
        text_or_empty(rar_avps(r), 264) == r.origin_host@,
        text_or_empty(rar_avps(r), 296) == r.origin_realm@,
        text_or_empty(rar_avps(r), 293) == r.destination_host@,
        text_or_empty(rar_avps(r), 283) == r.destination_realm@,
        installs_in(rar_avps(r)) == rules_view(r.rules_to_install@),
        removes_in(rar_avps(r)) == strings_view(r.rules_to_remove@),
        triggers_in(rar_avps(r)) == r.event_triggers@,
{
    let a = rar_avps(r);
    let h = seq![
        crate::diameter_gx::text_avp_of(263, r.session_id@),
        crate::diameter_gx::text_avp_of(264, r.origin_host@),
        crate::diameter_gx::text_avp_of(296, r.origin_realm@),
        crate::diameter_gx::text_avp_of(293, r.destination_host@),
        crate::diameter_gx::text_avp_of(283, r.destination_realm@),
    ];
    let rv = rules_view(r.rules_to_install@);
    let sv = strings_view(r.rules_to_remove@);
    let i = rv.map_values(|x: PccRuleModel| install_avp(x));
    let m = sv.map_values(|n: Seq<char>| remove_avp(n));
    let t = r.event_triggers@.map_values(|t: u32| trigger_avp(t));
    assert(a == h + i + m + t);
    // The texts: the first AVP of each code is in the head.
    assert(find_avp(a, 263) == Some(h[0]));
    assert(a.skip(1)[0] == h[1]);
    assert(find_avp(a.skip(1), 264) == Some(h[1]));
    assert(find_avp(a, 264) == Some(h[1]));
    assert(a.skip(1).skip(1) =~= a.skip(2));
    assert(a.skip(2)[0] == h[2]);
    assert(find_avp(a.skip(2), 296) == Some(h[2]));
    assert(find_avp(a.skip(1), 296) == Some(h[2]));
    assert(find_avp(a, 296) == Some(h[2]));
    assert(a.skip(2).skip(1) =~= a.skip(3));
    assert(a.skip(3)[0] == h[3]);
    assert(find_avp(a.skip(3), 293) == Some(h[3]));
    assert(find_avp(a.skip(2), 293) == Some(h[3]));
    assert(find_avp(a.skip(1), 293) == Some(h[3]));
    assert(find_avp(a, 293) == Some(h[3]));
    assert(a.skip(3).skip(1) =~= a.skip(4));
    assert(a.skip(4)[0] == h[4]);
    assert(find_avp(a.skip(4), 283) == Some(h[4]));
    assert(find_avp(a.skip(3), 283) == Some(h[4]));
    assert(find_avp(a.skip(2), 283) == Some(h[4]));
    assert(find_avp(a.skip(1), 283) == Some(h[4]));
    assert(find_avp(a, 283) == Some(h[4]));
    lemma_text_readback(r.session_id@);
    lemma_text_readback(r.origin_host@);
    lemma_text_readback(r.origin_realm@);
    lemma_text_readback(r.destination_host@);
    lemma_text_readback(r.destination_realm@);
    encode_utf8_valid_utf8(r.session_id@);
    encode_utf8_valid_utf8(r.origin_host@);
    encode_utf8_valid_utf8(r.origin_realm@);
    encode_utf8_valid_utf8(r.destination_host@);
    encode_utf8_valid_utf8(r.destination_realm@);
    // The lists.
    assert forall|k: int| 0 <= k < rv.len() implies rule_fits(#[trigger] rv[k]) by {
    }
    assert forall|k: int| 0 <= k < sv.len() implies 12 + encode_utf8(#[trigger] sv[k]).len() < 0x100_0000 by {
    }
    lemma_installs(rv);
    lemma_removes(sv);
    lemma_triggers(r.event_triggers@);
    lemma_no_installs(h);
    lemma_no_removes(h);
    lemma_no_triggers(h);
    lemma_no_removes(i);
    lemma_no_triggers(i);
    lemma_no_installs(m);
    lemma_no_triggers(m);
    lemma_no_installs(t);
    lemma_no_removes(t);
    lemma_installs_concat(h, i);
    lemma_installs_concat(h + i, m);
    lemma_installs_concat(h + i + m, t);
    assert(installs_in(a) =~= rv);
    assert(removes_in(a) =~= sv);
    assert(triggers_in(a) =~= r.event_triggers@);
}

} // verus!

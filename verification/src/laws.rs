//! Cross-cutting laws of the governor, proved from the module contracts:
//! what enforcement renders is what the next tick's observation parses, so
//! a successfully applied profile is planned no further mutations.

use vstd::prelude::*;
use vstd::string::StringSliceAdditionalSpecFns;
use crate::enforce::{
    process_plan, target_level, target_mask, profile_mode, observed_level, observed_mask, Action,
    AppliedEntry,
};
use crate::mask;
use crate::mask::AffinityMode;
use crate::profile::ProcessProfile;
use crate::text;
use crate::types::{priority_name, priority_of_name, PriorityLevel, ProcessInfo};

verus! {

/// The byte image of ASCII text.
pub open spec fn ascii_bytes(s: Seq<char>) -> Seq<u8> {
    s.map_values(|c: char| c as u8)
}

/// The UTF-8 encoding of ASCII text is its byte image.
proof fn lemma_ascii_encode(s: Seq<char>)
    requires
        vstd::utf8::is_ascii_chars(s),
    ensures
        vstd::utf8::encode_utf8(s) == ascii_bytes(s),
{
    vstd::utf8::is_ascii_chars_encode_utf8(s);
    assert(vstd::utf8::encode_utf8(s) =~= ascii_bytes(s));
}

/// The rendered hexadecimal digits of `n` are ASCII, and their bytes are
/// hexadecimal digits denoting `n` again.
proof fn lemma_hex_roundtrip(n: nat)
    ensures
        vstd::utf8::is_ascii_chars(text::hex_seq(n)),
        text::all_hex(ascii_bytes(text::hex_seq(n))),
        text::hex_int(ascii_bytes(text::hex_seq(n))) == n,
        ascii_bytes(text::hex_seq(n)).len() >= 1,
    decreases n,
{
    if n < 16 {
        let c = text::hex_char(n as int);
        let bs = ascii_bytes(text::hex_seq(n));
        assert(text::hex_seq(n) == seq![c]);
        assert('\0' <= c <= '\u{7f}');
        assert(bs =~= seq![c as u8]);
        assert(text::is_hex_byte(bs[0]) && text::hex_byte_val(bs[0]) == n);
        assert(bs.drop_last() =~= Seq::<u8>::empty());
        assert(text::hex_int(Seq::<u8>::empty()) == 0);
        assert(text::hex_int(bs) == text::hex_int(bs.drop_last()) * 16 + text::hex_byte_val(
            bs.last(),
        ));
        assert(bs.last() == bs[0]);
        assert(text::hex_int(bs) == n);
    } else {
        lemma_hex_roundtrip(n / 16);
        let pre = text::hex_seq((n / 16) as nat);
        let d = (n % 16) as int;
        let c = text::hex_char(d);
        assert(text::hex_seq(n) == pre.push(c));
        assert('\0' <= c <= '\u{7f}');
        assert(vstd::utf8::is_ascii_chars(pre.push(c))) by {
            assert(forall|i: int|
                0 <= i < pre.len() ==> pre.push(c)[i] == #[trigger] pre[i]);
            assert(pre.push(c)[pre.len() as int] == c);
        }
        let bs = ascii_bytes(pre.push(c));
        let pbs = ascii_bytes(pre);
        assert(bs =~= pbs.push(c as u8));
        assert(text::is_hex_byte(c as u8) && text::hex_byte_val(c as u8) == d);
        assert(text::all_hex(bs)) by {
            assert(forall|i: int| 0 <= i < pbs.len() ==> bs[i] == #[trigger] pbs[i]);
        }
        assert(bs.drop_last() =~= pbs);
        assert(bs.last() == c as u8);
        assert(text::hex_int(bs) == text::hex_int(pbs) * 16 + d);
        assert(text::hex_int(pbs) == n / 16);
        assert((n / 16) * 16 + n % 16 == n) by (nonlinear_arith);
    }
}

/// Parsing the rendered affinity view of a mask yields the mask again,
/// whatever the system mask: `All` reads back as the system mask it stood
/// for, and a hex rendering reads back as its value.
pub proof fn lemma_rendered_view_parses(m: u64, system_mask: u64)
    ensures
        mask::view_mask(vstd::utf8::encode_utf8(mask::rendered_view(m, system_mask)), system_mask)
            == m,
{
    broadcast use vstd::utf8::is_ascii_chars_encode_utf8;

    if m == system_mask {
        reveal_strlit("All");
        let cs = "All"@;
        assert(vstd::utf8::is_ascii_chars(cs));
        lemma_ascii_encode(cs);
        let bs = vstd::utf8::encode_utf8(cs);
        assert(bs =~= seq![65u8, 108u8, 108u8]);
    } else {
        reveal_strlit("0x");
        let hx = text::hex_seq(m as nat);
        let cs = "0x"@ + hx;
        assert(mask::rendered_view(m, system_mask) == cs);
        lemma_hex_roundtrip(m as nat);
        assert(vstd::utf8::is_ascii_chars(cs)) by {
            assert(forall|i: int| 0 <= i < hx.len() ==> cs[i + 2] == #[trigger] hx[i]);
            assert(cs[0] == '0' && cs[1] == 'x');
            assert(forall|i: int|
                0 <= i < cs.len() ==> '\0' <= #[trigger] cs[i] <= '\u{7f}');
        }
        lemma_ascii_encode(cs);
        let bs = ascii_bytes(cs);
        let hb = ascii_bytes(hx);
        assert(bs[0] == 48 && bs[1] == 120);
        assert(bs.len() == 2 + hx.len());
        assert(bs != seq![65u8, 108u8, 108u8]) by {
            if bs.len() == 3 {
                assert(bs[0] == 48 && seq![65u8, 108u8, 108u8][0] == 65);
            }
        }
        assert(text::strip_0x(bs) =~= hb) by {
            assert(forall|i: int|
                0 <= i < hx.len() ==> bs.skip(2)[i] == #[trigger] hb[i]);
        }
        assert(text::parse_hex_spec(text::strip_0x(bs)) == Some(m)) by {
            assert(text::all_hex(hb) && text::hex_int(hb) == m as nat && hb.len() >= 1);
        }
    }
}

/// Parsing the canonical name of a priority class yields the class again.
pub proof fn lemma_priority_name_parses(t: PriorityLevel)
    ensures
        priority_of_name(vstd::utf8::encode_utf8(priority_name(t))) == Some(t),
{
    reveal_strlit("Idle");
    reveal_strlit("idle");
    reveal_strlit("BelowNormal");
    reveal_strlit("belownormal");
    reveal_strlit("Normal");
    reveal_strlit("normal");
    reveal_strlit("AboveNormal");
    reveal_strlit("abovenormal");
    reveal_strlit("High");
    reveal_strlit("high");
    reveal_strlit("RealTime");
    reveal_strlit("realtime");
    lemma_name_ascii("Idle"@);
    lemma_name_ascii("idle"@);
    lemma_name_ascii("BelowNormal"@);
    lemma_name_ascii("belownormal"@);
    lemma_name_ascii("Normal"@);
    lemma_name_ascii("normal"@);
    lemma_name_ascii("AboveNormal"@);
    lemma_name_ascii("abovenormal"@);
    lemma_name_ascii("High"@);
    lemma_name_ascii("high"@);
    lemma_name_ascii("RealTime"@);
    lemma_name_ascii("realtime"@);
    let idle = text::lower_of("idle".spec_bytes());
    let belownormal = text::lower_of("belownormal".spec_bytes());
    let normal = text::lower_of("normal".spec_bytes());
    let abovenormal = text::lower_of("abovenormal".spec_bytes());
    let high = text::lower_of("high".spec_bytes());
    let realtime = text::lower_of("realtime".spec_bytes());
    match t {
        PriorityLevel::Idle => {
            assert(text::lower_of(vstd::utf8::encode_utf8("Idle"@)) =~= idle);
        },
        PriorityLevel::BelowNormal => {
            let l = text::lower_of(vstd::utf8::encode_utf8("BelowNormal"@));
            assert(l =~= belownormal);
            assert(l != idle) by {
                assert(l.len() == 11 && idle.len() == 4);
            }
        },
        PriorityLevel::Normal => {
            let l = text::lower_of(vstd::utf8::encode_utf8("Normal"@));
            assert(l =~= normal);
            assert(l.len() == 6 && idle.len() == 4 && belownormal.len() == 11);
        },
        PriorityLevel::AboveNormal => {
            let l = text::lower_of(vstd::utf8::encode_utf8("AboveNormal"@));
            assert(l =~= abovenormal);
            assert(l.len() == 11 && idle.len() == 4 && normal.len() == 6);
            assert(l != belownormal) by {
                assert(l[0] == 97 && belownormal[0] == 98);
            }
        },
        PriorityLevel::High => {
            let l = text::lower_of(vstd::utf8::encode_utf8("High"@));
            assert(l =~= high);
            assert(l.len() == 4 && belownormal.len() == 11 && normal.len() == 6
                && abovenormal.len() == 11);
            assert(l != idle) by {
                assert(l[0] == 104 && idle[0] == 105);
            }
        },
        PriorityLevel::RealTime => {
            let l = text::lower_of(vstd::utf8::encode_utf8("RealTime"@));
            assert(l =~= realtime);
            assert(l.len() == 8 && idle.len() == 4 && belownormal.len() == 11 && normal.len() == 6
                && abovenormal.len() == 11 && high.len() == 4);
        },
    }
}

proof fn lemma_name_ascii(s: Seq<char>)
    requires
        forall|i: int| 0 <= i < s.len() ==> '\0' <= #[trigger] s[i] <= '\u{7f}',
    ensures
        vstd::utf8::encode_utf8(s) == ascii_bytes(s),
        vstd::utf8::encode_utf8(s).len() == s.len(),
{
    lemma_ascii_encode(s);
}

/// Convergence of profile enforcement: once the effector has applied an
/// enabled profile and the next tick observes the applied state — the
/// priority rendered under its canonical name, the affinity rendered as
/// the snapshot renders masks — the planner plans no further mutation for
/// the process. With the plan of the first tick applied in that tick, the
/// applied state equals the target after at most two ticks in which the
/// process is present.
pub proof fn lemma_profile_convergence(
    p2: ProcessInfo,
    prof: ProcessProfile,
    cache: Seq<AppliedEntry>,
    system_mask: u64,
    t: PriorityLevel,
    tm: u64,
)
    requires
        target_level(prof) == Some(t),
        target_mask(prof) == Some(tm),
        profile_mode(prof) != AffinityMode::Soft,
        p2.priority@ == priority_name(t),
        p2.cpu_affinity@ == mask::rendered_view(
            mask::mode_effect(profile_mode(prof), tm).0,
            system_mask,
        ),
    ensures
        process_plan(p2, prof, cache, system_mask) == Seq::<Action>::empty(),
{
    let fm = mask::mode_effect(profile_mode(prof), tm).0;
    lemma_priority_name_parses(t);
    assert(text::bytes_of(p2.priority) == vstd::utf8::encode_utf8(priority_name(t)));
    assert(observed_level(p2) == Some(t));
    lemma_rendered_view_parses(fm, system_mask);
    assert(text::bytes_of(p2.cpu_affinity) == vstd::utf8::encode_utf8(
        mask::rendered_view(fm, system_mask),
    ));
    assert(observed_mask(p2, system_mask) == fm);
    crate::enforce::lemma_conforming_plan_empty(p2, prof, cache, system_mask);
}

} // verus!

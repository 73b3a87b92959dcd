//! Power plans: the GUID grammar of `powercfg` output, the known built-in
//! plans, and name-to-GUID resolution. The host runs `powercfg`; this
//! module parses and decides.

use vstd::prelude::*;
use vstd::string::StringSliceAdditionalSpecFns;
use vstd::string::StrSliceExecFns;
use vstd::string::StringExecFns;
use crate::codec;
use crate::text;
use crate::types::AppError;

verus! {

/// One installed power scheme.
#[derive(Debug, Clone)]
pub struct PowerPlan {
    pub guid: String,
    pub name: String,
    pub is_active: bool,
}

/// The byte is an ASCII hexadecimal digit.
pub open spec fn is_hex_pos(b: u8) -> bool {
    text::is_hex_byte(b)
}

/// The canonical GUID shape: 36 bytes, dashes exactly at offsets 8, 13, 18
/// and 23, hexadecimal digits everywhere else.
pub open spec fn is_guid_bytes(s: Seq<u8>) -> bool {
    s.len() == 36 && forall|i: int|
        0 <= i < 36 ==> if i == 8 || i == 13 || i == 18 || i == 23 {
            s[i] == 45
        } else {
            is_hex_pos(#[trigger] s[i])
        }
}

/// Check a byte range for the GUID shape.
fn guid_shape(sb: &[u8], a: usize, b: usize) -> (r: bool)
    requires
        a <= b <= sb@.len(),
    ensures
        r == is_guid_bytes(sb@.subrange(a as int, b as int)),
{
    let ghost w = sb@.subrange(a as int, b as int);
    if b - a != 36 {
        return false;
    }
    let mut i: usize = 0;
    while i < 36
        invariant
            a <= b <= sb@.len(),
            b - a == 36,
            w == sb@.subrange(a as int, b as int),
            0 <= i <= 36,
            forall|j: int|
                0 <= j < i ==> if j == 8 || j == 13 || j == 18 || j == 23 {
                    w[j] == 45
                } else {
                    is_hex_pos(#[trigger] w[j])
                },
        decreases 36 - i,
    {
        let c = sb[a + i];
        proof {
            assert(w[i as int] == sb@[a + i]);
        }
        if i == 8 || i == 13 || i == 18 || i == 23 {
            if c != 45 {
                return false;
            }
        } else {
            if !((48 <= c && c <= 57) || (97 <= c && c <= 102) || (65 <= c && c <= 70)) {
                return false;
            }
        }
        i = i + 1;
    }
    true
}

/// Lower-casing preserves the GUID shape.
proof fn lemma_guid_lower(s: Seq<u8>)
    requires
        is_guid_bytes(s),
    ensures
        is_guid_bytes(text::lower_of(s)),
{
    assert forall|i: int| 0 <= i < 36 implies (if i == 8 || i == 13 || i == 18 || i == 23 {
        text::lower_of(s)[i] == 45
    } else {
        is_hex_pos(#[trigger] text::lower_of(s)[i])
    }) by {
        assert(text::lower_of(s)[i] == text::lower_byte(s[i]));
        if !(i == 8 || i == 13 || i == 18 || i == 23) {
            assert(is_hex_pos(s[i]));
        }
    }
}

/// A GUID-shaped run starts at byte offset `i`.
pub open spec fn guid_at(s: Seq<u8>, i: int) -> bool {
    0 <= i && i + 36 <= s.len() && is_guid_bytes(s.subrange(i, i + 36))
}

/// Extract the first GUID-shaped run of a string, lower-cased: the result
/// exists iff some 36-byte run has the GUID shape, and it is exactly the
/// lower-casing of the first such run.
pub fn extract_guid(s: &str) -> (r: Option<String>)
    ensures
        (r is Some) == exists|i: int| guid_at(s.spec_bytes(), i),
        (r matches Some(g) ==> is_guid_bytes(text::bytes_of(g)) && exists|i: int|
            #[trigger] guid_at(s.spec_bytes(), i) && (forall|j: int|
                0 <= j < i ==> !guid_at(s.spec_bytes(), j)) && text::bytes_of(g) == text::lower_of(
                s.spec_bytes().subrange(i, i + 36),
            )),
{
    let sb = s.as_bytes();
    let n = sb.len();
    if n < 36 {
        proof {
            assert(forall|i: int| !guid_at(s.spec_bytes(), i));
        }
        return None;
    }
    let last = n - 36;
    let mut i: usize = 0;
    while i <= last
        invariant
            sb@ == s.spec_bytes(),
            n == sb@.len(),
            36 <= n,
            last == n - 36,
            0 <= i <= last + 1,
            forall|j: int| 0 <= j < i ==> !guid_at(sb@, j),
        decreases last + 1 - i,
    {
        if guid_shape(sb, i, i + 36) {
            proof {
                assert(guid_at(sb@, i as int));
            }
            let r = lowered_guid(sb, i, i + 36);
            proof {
                assert(r is Some);
            }
            return r;
        }
        i = i + 1;
    }
    proof {
        assert(forall|j: int| guid_at(sb@, j) ==> 0 <= j <= last);
    }
    None
}

/// Whether the string holds a GUID-shaped run.
pub fn is_guid(s: &str) -> (r: bool)
    ensures
        r == exists|i: int| guid_at(s.spec_bytes(), i),
{
    match extract_guid(s) {
        Some(_) => true,
        None => false,
    }
}

/// Lower-case a GUID-shaped byte range into an owned string.
fn lowered_guid(sb: &[u8], a: usize, b: usize) -> (r: Option<String>)
    requires
        a <= b <= sb@.len(),
        is_guid_bytes(sb@.subrange(a as int, b as int)),
    ensures
        (r matches Some(g) ==> is_guid_bytes(text::bytes_of(g)) && text::bytes_of(g)
            == text::lower_of(sb@.subrange(a as int, b as int))),
        r is Some,
{
    let ghost w = sb@.subrange(a as int, b as int);
    let mut bytes: Vec<u8> = Vec::new();
    let mut k: usize = 0;
    while k < b - a
        invariant
            a <= b <= sb@.len(),
            w == sb@.subrange(a as int, b as int),
            w.len() == b - a,
            0 <= k <= b - a,
            bytes@ == text::lower_of(w).take(k as int),
        decreases b - a - k,
    {
        proof {
            assert(text::lower_of(w).take(k + 1).drop_last() =~= text::lower_of(w).take(k as int));
            assert(text::lower_of(w)[k as int] == text::lower_byte(w[k as int]));
            assert(w[k as int] == sb@[a + k]);
        }
        let lb = text::lower_byte_x(sb[a + k]);
        bytes.push(lb);
        proof {
            assert(bytes@ =~= text::lower_of(w).take(k + 1));
        }
        k = k + 1;
    }
    proof {
        assert(bytes@ =~= text::lower_of(w));
        lemma_guid_lower(w);
        assert(forall|i: int| 0 <= i < bytes@.len() ==> bytes@[i] < 128) by {
            assert(forall|i: int|
                0 <= i < text::lower_of(w).len() ==> (is_guid_bytes(text::lower_of(w))
                    ==> text::lower_of(w)[i] < 128));
        }
    }
    let r = codec::utf8_to_string(bytes);
    proof {
        match &r {
            Some(g) => {
                assert(text::bytes_of(*g) == text::lower_of(w));
                assert(text::lower_of(sb@).subrange(a as int, b as int) =~= text::lower_of(w));
                assert(text::match_at(text::lower_of(sb@), text::lower_of(w), a as int));
            },
            None => {},
        }
    }
    r
}

/// The GUID a built-in plan's short name denotes, compared
/// case-insensitively, in lookup order.
pub open spec fn spec_builtin_guid(name: Seq<u8>) -> Option<Seq<char>> {
    let l = text::lower_of(name);
    if l == text::lower_of("high_performance".spec_bytes()) {
        Some("8c5e7fda-e8bf-4a96-9a85-a6e23a8c635c"@)
    } else if l == text::lower_of("balanced".spec_bytes()) {
        Some("381b4222-f694-41f0-9685-ff5bb260df2e"@)
    } else if l == text::lower_of("power_saver".spec_bytes()) {
        Some("a1841308-3541-4fab-bc81-f71556f20b4a"@)
    } else if l == text::lower_of("ultimate".spec_bytes()) {
        Some("e9a42b02-d5df-448d-aa00-03f14749eb61"@)
    } else {
        None
    }
}

/// The scheme name shown between the first pair of parentheses, or
/// `Unknown` when the line has none.
pub open spec fn spec_paren_name(s: Seq<char>) -> Seq<char> {
    match text::find_from(s, '(', 0) {
        Some(a) => match text::find_from(s, ')', a + 1) {
            Some(b) => s.subrange(a + 1, b),
            None => "Unknown"@,
        },
        None => "Unknown"@,
    }
}

/// The line marks the active scheme with an asterisk.
pub open spec fn spec_has_star(s: Seq<char>) -> bool {
    exists|i: int| 0 <= i < s.len() && s[i] == '*'
}

/// Parse one line of `powercfg /list` output: its GUID, the scheme name in
/// parentheses, and the active marker. A line yields a plan iff it carries
/// a GUID-shaped run.
pub fn parse_power_plan_line(line: &str) -> (r: Option<PowerPlan>)
    ensures
        (r is Some) == exists|i: int| guid_at(line.spec_bytes(), i),
        (r matches Some(p) ==> is_guid_bytes(text::bytes_of(p.guid)) && (exists|i: int|
            #[trigger] guid_at(line.spec_bytes(), i) && (forall|j: int|
                0 <= j < i ==> !guid_at(line.spec_bytes(), j)) && text::bytes_of(p.guid)
                == text::lower_of(line.spec_bytes().subrange(i, i + 36))) && p.name@
            == spec_paren_name(line@) && p.is_active == spec_has_star(line@)),
{
    let guid = match extract_guid(line) {
        Some(g) => g,
        None => {
            return None;
        },
    };
    let n = line.unicode_len();
    let name = match text::find_char_from(line, '(', 0) {
        Some(a) => match text::find_char_from(line, ')', a + 1) {
            Some(b) => line.substring_char(a + 1, b).to_owned(),
            None => String::from_str("Unknown"),
        },
        None => String::from_str("Unknown"),
    };
    let mut is_active = false;
    let mut k: usize = 0;
    while k < n
        invariant
            n == line@.len(),
            0 <= k <= n,
            is_active == exists|i: int| 0 <= i < k && line@[i] == '*',
        decreases n - k,
    {
        if line.get_char(k) == '*' {
            is_active = true;
        }
        k = k + 1;
    }
    Some(PowerPlan { guid, name, is_active })
}

/// The known built-in plan GUIDs, by short name.
pub fn builtin_plan_guid(name: &str) -> (r: Option<&'static str>)
    ensures
        match r {
            Some(g) => spec_builtin_guid(name.spec_bytes()) == Some(g@),
            None => spec_builtin_guid(name.spec_bytes()) is None,
        },
{
    if text::eq_ignore_case(name, "high_performance") {
        Some("8c5e7fda-e8bf-4a96-9a85-a6e23a8c635c")
    } else if text::eq_ignore_case(name, "balanced") {
        Some("381b4222-f694-41f0-9685-ff5bb260df2e")
    } else if text::eq_ignore_case(name, "power_saver") {
        Some("a1841308-3541-4fab-bc81-f71556f20b4a")
    } else if text::eq_ignore_case(name, "ultimate") {
        Some("e9a42b02-d5df-448d-aa00-03f14749eb61")
    } else {
        None
    }
}

/// The GUIDs of the plans Windows ships, which must never be deleted.
pub fn is_default_plan(guid: &str) -> (r: bool)
    ensures
        r == (text::lower_of(guid.spec_bytes()) == text::lower_of(
            "381b4222-f694-41f0-9685-ff5bb260df2e".spec_bytes(),
        ) || text::lower_of(guid.spec_bytes()) == text::lower_of(
            "8c5e7fda-e8bf-4a96-9a85-a6e23a8c635c".spec_bytes(),
        ) || text::lower_of(guid.spec_bytes()) == text::lower_of(
            "a1841308-3541-4fab-bc81-f71556f20b4a".spec_bytes(),
        ) || text::lower_of(guid.spec_bytes()) == text::lower_of(
            "e9a42b02-d5df-448d-aa00-03f14749eb61".spec_bytes(),
        )),
{
    text::eq_ignore_case(guid, "381b4222-f694-41f0-9685-ff5bb260df2e") || text::eq_ignore_case(
        guid,
        "8c5e7fda-e8bf-4a96-9a85-a6e23a8c635c",
    ) || text::eq_ignore_case(guid, "a1841308-3541-4fab-bc81-f71556f20b4a")
        || text::eq_ignore_case(guid, "e9a42b02-d5df-448d-aa00-03f14749eb61")
}

/// Refuse to delete a built-in plan; anything else may go.
pub fn check_deletable(guid: &str) -> (r: Result<(), AppError>)
    ensures
        r is Err <==> (text::lower_of(guid.spec_bytes()) == text::lower_of(
            "381b4222-f694-41f0-9685-ff5bb260df2e".spec_bytes(),
        ) || text::lower_of(guid.spec_bytes()) == text::lower_of(
            "8c5e7fda-e8bf-4a96-9a85-a6e23a8c635c".spec_bytes(),
        ) || text::lower_of(guid.spec_bytes()) == text::lower_of(
            "a1841308-3541-4fab-bc81-f71556f20b4a".spec_bytes(),
        ) || text::lower_of(guid.spec_bytes()) == text::lower_of(
            "e9a42b02-d5df-448d-aa00-03f14749eb61".spec_bytes(),
        )),
{
    if is_default_plan(guid) {
        Err(AppError::SystemError(String::from_str("cannot delete a built-in power plan")))
    } else {
        Ok(())
    }
}

} // verus!

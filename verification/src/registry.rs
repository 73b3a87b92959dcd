//! Registry-scan helpers: reading the executable path out of a registry
//! command line. The host walks the registry and checks the filesystem;
//! this module parses. Which candidate paths exist on disk is handed in,
//! since only the host can ask the filesystem.

use vstd::prelude::*;
use vstd::string::StringSliceAdditionalSpecFns;
use vstd::string::StrSliceExecFns;
use crate::profile::list_bytes;
use crate::text;

verus! {

/// The first index at or after `i` holding a double quote.
pub open spec fn skip_quotes(s: Seq<char>, i: int) -> int
    decreases s.len() - i,
{
    if i < 0 || i >= s.len() || s[i] != '"' {
        i
    } else {
        skip_quotes(s, i + 1)
    }
}

/// The end of the content before `j`, quotes stripped.
pub open spec fn end_quotes(s: Seq<char>, j: int) -> int
    decreases j,
{
    if j <= 0 || j > s.len() || s[j - 1] != '"' {
        j
    } else {
        end_quotes(s, j - 1)
    }
}

/// The string with double quotes trimmed from both ends.
pub open spec fn trimmed_quotes(s: Seq<char>) -> Seq<char> {
    let a = skip_quotes(s, 0);
    let b = end_quotes(s, s.len() as int);
    if a < b {
        s.subrange(a, b)
    } else {
        Seq::empty()
    }
}

/// Trimming only moves the end leftwards.
proof fn lemma_end_quotes_le(s: Seq<char>, j: int)
    ensures
        end_quotes(s, j) <= j,
    decreases j,
{
    if !(j <= 0 || j > s.len() || s[j - 1] != '"') {
        lemma_end_quotes_le(s, j - 1);
    }
}

/// The last space strictly before `j`.
pub open spec fn rfind_space(s: Seq<char>, j: int) -> Option<int>
    decreases j,
{
    if j <= 0 || j > s.len() {
        None
    } else if s[j - 1] == ' ' {
        Some(j - 1)
    } else {
        rfind_space(s, j - 1)
    }
}

/// The string holds a path separator.
pub open spec fn has_separator(s: Seq<char>) -> bool {
    exists|i: int| 0 <= i < s.len() && (s[i] == '\\' || s[i] == '/')
}

/// The byte image of the text names one of the known-existing paths.
pub open spec fn known_path(ex: Seq<Seq<u8>>, s: Seq<char>) -> bool {
    exists|i: int| 0 <= i < ex.len() && ex[i] == vstd::utf8::encode_utf8(s)
}

/// Successively cut the command at its last space, strip quotes, and take
/// the first cut that names an existing path.
pub open spec fn prefix_search(cur: Seq<char>, ex: Seq<Seq<u8>>) -> Option<Seq<char>>
    decreases cur.len(),
{
    match rfind_space(cur, cur.len() as int) {
        None => None,
        Some(sp) => {
            if 0 <= sp < cur.len() {
                let cur2 = cur.subrange(0, sp);
                let cand = trimmed_quotes(cur2);
                if cand.len() > 0 && known_path(ex, cand) {
                    Some(cand)
                } else {
                    prefix_search(cur2, ex)
                }
            } else {
                None
            }
        },
    }
}

/// What `extract_path_from_command` returns: the quoted head of a quoted
/// command; nothing for an installer command; for a path-like command the
/// whole text when it exists on disk, else the longest space-cut prefix
/// that does, else the first space-cut token; the whole trimmed text
/// otherwise.
pub open spec fn spec_extract_path(orig: Seq<char>, ex: Seq<Seq<u8>>) -> Seq<char> {
    let s = text::trimmed_ws(orig);
    if s.len() > 0 && s[0] == '"' && (text::find_from(s, '"', 1) is Some) {
        s.subrange(1, text::find_from(s, '"', 1)->Some_0)
    } else if text::contains_bytes(
        text::lower_of(vstd::utf8::encode_utf8(s)),
        text::lower_of("msiexec".spec_bytes()),
    ) {
        Seq::empty()
    } else if has_separator(s) {
        if known_path(ex, s) {
            s
        } else {
            match prefix_search(s, ex) {
                Some(t) => t,
                None => match text::find_from(s, ' ', 0) {
                    Some(sp) => s.subrange(0, sp),
                    None => s,
                },
            }
        }
    } else {
        s
    }
}

/// Whether the text names one of the known-existing paths.
fn in_known_paths(s: &str, existing: &Vec<String>) -> (r: bool)
    ensures
        r == known_path(list_bytes(existing@), s@),
{
    let mut i: usize = 0;
    while i < existing.len()
        invariant
            0 <= i <= existing@.len(),
            forall|j: int|
                0 <= j < i ==> #[trigger] list_bytes(existing@)[j] != vstd::utf8::encode_utf8(s@),
        decreases existing@.len() - i,
    {
        if crate::tweaks::bytes_equal(s, existing[i].as_str()) {
            proof {
                assert(list_bytes(existing@)[i as int] == text::bytes_of(existing@[i as int]));
            }
            return true;
        }
        i = i + 1;
    }
    false
}

/// Trim double quotes from both ends.
fn trim_quotes_x(s: &str) -> (r: &str)
    ensures
        r@ == trimmed_quotes(s@),
{
    let n = s.unicode_len();
    let mut a: usize = 0;
    while a < n && s.get_char(a) == '"'
        invariant
            n == s@.len(),
            0 <= a <= n,
            skip_quotes(s@, 0) == skip_quotes(s@, a as int),
        decreases n - a,
    {
        a = a + 1;
    }
    proof {
        assert(skip_quotes(s@, a as int) == a as int);
    }
    let mut b: usize = n;
    while b > a && s.get_char(b - 1) == '"'
        invariant
            n == s@.len(),
            skip_quotes(s@, 0) == a as int,
            a <= b <= n,
            end_quotes(s@, n as int) == end_quotes(s@, b as int),
        decreases b,
    {
        b = b - 1;
    }
    if a < b {
        proof {
            assert(end_quotes(s@, b as int) == b as int);
        }
        s.substring_char(a, b)
    } else {
        proof {
            lemma_end_quotes_le(s@, b as int);
            assert(skip_quotes(s@, 0) >= end_quotes(s@, s@.len() as int));
        }
        proof {
            assert(trimmed_quotes(s@) =~= Seq::<char>::empty());
        }
        let r = s.substring_char(0, 0);
        proof {
            assert(r@ =~= Seq::<char>::empty());
        }
        r
    }
}

/// Extract the executable path out of a registry command line. The
/// filesystem is only visible to the host, so the paths known to exist
/// come in as a list; a candidate counts as existing when it equals one
/// of them.
pub fn extract_path_from_command(command: &str, existing: &Vec<String>) -> (r: String)
    ensures
        r@ == spec_extract_path(command@, list_bytes(existing@)),
{
    let ghost ex = list_bytes(existing@);
    let s = text::trim_ws(command);
    let n = s.unicode_len();
    // A quoted command: everything inside the first quote pair.
    if n > 0 && s.get_char(0) == '"' {
        match text::find_char_from(s, '"', 1) {
            Some(e) => {
                return s.substring_char(1, e).to_owned();
            },
            None => {},
        }
    }
    // Installer command lines are skipped entirely.
    if text::contains_ignore_case(s, "msiexec") {
        return String::new();
    }
    // Path-like commands: prefer what exists on disk.
    let mut has_sep = false;
    let mut k: usize = 0;
    while k < n
        invariant
            n == s@.len(),
            0 <= k <= n,
            has_sep == exists|i: int| 0 <= i < k && (s@[i] == '\\' || s@[i] == '/'),
        decreases n - k,
    {
        let c = s.get_char(k);
        if c == '\\' || c == '/' {
            has_sep = true;
        }
        k = k + 1;
    }
    if has_sep {
        if in_known_paths(s, existing) {
            return s.to_owned();
        }
        // Cut at spaces from the right, looking for an existing prefix.
        let mut cur_end: usize = n;
        proof {
            assert(s@.take(n as int) =~= s@);
        }
        loop
            invariant
                n == s@.len(),
                ex == list_bytes(existing@),
                s@ == text::trimmed_ws(command@),
                !(s@.len() > 0 && s@[0] == '"' && (text::find_from(s@, '"', 1) is Some)),
                !text::contains_bytes(
                    text::lower_of(vstd::utf8::encode_utf8(s@)),
                    text::lower_of("msiexec".spec_bytes()),
                ),
                has_separator(s@),
                !known_path(ex, s@),
                0 <= cur_end <= n,
                prefix_search(s@, ex) == prefix_search(s@.take(cur_end as int), ex),
            ensures
                prefix_search(s@, ex) is None,
            decreases cur_end,
        {
            let ghost cur = s@.take(cur_end as int);
            // The last space strictly before cur_end.
            let mut j: usize = cur_end;
            while j > 0 && s.get_char(j - 1) != ' '
                invariant
                    n == s@.len(),
                    0 <= j <= cur_end <= n,
                    cur == s@.take(cur_end as int),
                    rfind_space(cur, cur_end as int) == rfind_space(cur, j as int),
                decreases j,
            {
                proof {
                    assert(cur[j - 1] == s@[j - 1]);
                }
                j = j - 1;
            }
            if j == 0 {
                proof {
                    assert(rfind_space(cur, cur.len() as int) is None);
                }
                break;
            }
            let sp = j - 1;
            proof {
                assert(cur[sp as int] == s@[sp as int]);
                assert(rfind_space(cur, cur.len() as int) == Some(sp as int));
                assert(cur.subrange(0, sp as int) =~= s@.take(sp as int));
            }
            let cur2 = s.substring_char(0, sp);
            let cand = trim_quotes_x(cur2);
            let cand_len = cand.unicode_len();
            if cand_len > 0 && in_known_paths(cand, existing) {
                return cand.to_owned();
            }
            cur_end = sp;
        }
        // Nothing exists: fall back to the first space-cut token.
        match text::find_char_from(s, ' ', 0) {
            Some(sp) => {
                return s.substring_char(0, sp).to_owned();
            },
            None => {
                return s.to_owned();
            },
        }
    }
    s.to_owned()
}

} // verus!

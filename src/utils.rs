//! Clock access, payload validation and text helpers.

use vstd::prelude::*;
use vstd::string::*;
use vstd::utf8::encode_utf8;

verus! {

/// Largest accepted mining payload, in bytes.
pub const MAX_PAYLOAD_BYTES: usize = 1024;

/// Relies on chrono's `DateTime<Utc>::from(SystemTime)` and
/// `timestamp_millis`: the wall clock, of which nothing can be promised. A
/// clock set before the epoch reads as zero.
#[verifier::external_body]
pub fn now_millis() -> u128 {
    let now = chrono::DateTime::<chrono::Utc>::from(std::time::SystemTime::now());
    u128::try_from(now.timestamp_millis()).unwrap_or(0)
}

/// A character with the Unicode `White_Space` property.
pub open spec fn is_white_space(c: char) -> bool {
    let u = c as u32;
    (0x9 <= u && u <= 0xd) || u == 0x20 || u == 0x85 || u == 0xa0 || u == 0x1680 || (0x2000 <= u
        && u <= 0x200a) || u == 0x2028 || u == 0x2029 || u == 0x202f || u == 0x205f || u == 0x3000
}

/// Every character of `s` is white space (so an empty `s` is blank).
pub open spec fn is_blank(s: Seq<char>) -> bool {
    forall|i: int| 0 <= i < s.len() ==> is_white_space(#[trigger] s[i])
}

/// A payload is accepted when it holds something other than white space and
/// its UTF-8 encoding is at most `MAX_PAYLOAD_BYTES` long.
pub open spec fn valid_payload(s: Seq<char>) -> bool {
    !is_blank(s) && encode_utf8(s).len() <= MAX_PAYLOAD_BYTES
}

/// `t` occurs in `s` as a contiguous run of characters.
pub open spec fn has_substring(s: Seq<char>, t: Seq<char>) -> bool {
    exists|i: int| 0 <= i && i + t.len() <= s.len() && #[trigger] s.subrange(i, i + t.len()) == t
}

/// Tests one character for the Unicode `White_Space` property.
pub fn white_space(c: char) -> (r: bool)
    ensures
        r == is_white_space(c),
{
    let u = c as u32;
    (0x9 <= u && u <= 0xd) || u == 0x20 || u == 0x85 || u == 0xa0 || u == 0x1680 || (0x2000 <= u
        && u <= 0x200a) || u == 0x2028 || u == 0x2029 || u == 0x202f || u == 0x205f || u == 0x3000
}

/// The characters of `s`, in order.
pub fn chars_of(s: &str) -> (r: Vec<char>)
    ensures
        r@ == s@,
{
    let n = s.unicode_len();
    let mut r: Vec<char> = Vec::new();
    let mut i: usize = 0;
    while i < n
        invariant
            n == s@.len(),
            i <= n,
            r@ == s@.subrange(0, i as int),
        decreases n - i,
    {
        r.push(s.get_char(i));
        i = i + 1;
        assert(r@ =~= s@.subrange(0, i as int));
    }
    assert(r@ =~= s@);
    r
}

/// Tells whether `s` holds only white space.
pub fn blank(s: &str) -> (r: bool)
    ensures
        r == is_blank(s@),
{
    let cs = chars_of(s);
    let mut i: usize = 0;
    while i < cs.len()
        invariant
            cs@ == s@,
            i <= cs@.len(),
            forall|j: int| 0 <= j < i ==> is_white_space(#[trigger] s@[j]),
        decreases cs@.len() - i,
    {
        if !white_space(cs[i]) {
            return false;
        }
        i = i + 1;
    }
    true
}

/// Tells whether a mining payload is acceptable: not blank and at most
/// `MAX_PAYLOAD_BYTES` bytes long.
pub fn valid_data_payload(data: &str) -> (r: bool)
    ensures
        r == valid_payload(data@),
{
    let bytes = data.as_bytes();
    bytes.len() <= MAX_PAYLOAD_BYTES && !blank(data)
}

/// Tells whether `t` occurs in `s`.
pub fn contains_chars(s: &Vec<char>, t: &Vec<char>) -> (r: bool)
    ensures
        r == has_substring(s@, t@),
{
    if t.len() > s.len() {
        assert(!has_substring(s@, t@));
        return false;
    }
    let last: usize = s.len() - t.len();
    let mut i: usize = 0;
    loop
        invariant
            last == s@.len() - t@.len(),
            t@.len() <= s@.len(),
            i <= last,
            forall|k: int| 0 <= k < i ==> #[trigger] s@.subrange(k, k + t@.len()) != t@,
        decreases last - i,
    {
        let n: usize = s.len();
        let mut j: usize = 0;
        let mut same = true;
        while j < t.len() && same
            invariant
                i <= last,
                last == s@.len() - t@.len(),
                t@.len() <= s@.len(),
                n == s@.len(),
                j <= t@.len(),
                same ==> forall|m: int| 0 <= m < j ==> s@[i + m] == t@[m],
                !same ==> s@[i + j - 1] != t@[j - 1] && 0 < j,
            decreases t@.len() - j + (if same { 1int } else { 0int }),
        {
            let k: usize = i + j;
            if s[k] != t[j] {
                same = false;
            }
            j = j + 1;
        }
        if same {
            assert(s@.subrange(i as int, i + t@.len()) =~= t@);
            return true;
        }
        assert(s@.subrange(i as int, i + t@.len())[j - 1] != t@[j - 1]);
        if i == last {
            assert forall|k: int| 0 <= k && k + t@.len() <= s@.len() implies #[trigger] s@.subrange(
                k,
                k + t@.len(),
            ) != t@ by {
                assert(k <= i);
            }
            return false;
        }
        i = i + 1;
    }
}

/// Tells whether the text `t` occurs in the text `s`.
pub fn contains_str(s: &str, t: &str) -> (r: bool)
    ensures
        r == has_substring(s@, t@),
{
    let sc = chars_of(s);
    let tc = chars_of(t);
    contains_chars(&sc, &tc)
}

} // verus!

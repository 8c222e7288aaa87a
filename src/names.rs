//! Matching of device and port names against a query, and recognition of the
//! terminal line that asks a running command to stop.

use vstd::prelude::*;
use vstd::string::StrSliceExecFns;

verus! {

/// What `str::to_lowercase` makes of a string.
pub uninterp spec fn lower_of(s: Seq<char>) -> Seq<char>;

/// Whether a character has the Unicode White_Space property, as `char::is_whitespace` decides it.
pub open spec fn is_white_space(c: char) -> bool {
    let u = c as u32;
    (0x9 <= u <= 0xd) || u == 0x20 || u == 0x85 || u == 0xa0 || u == 0x1680 || (0x2000 <= u <= 0x200a)
        || u == 0x2028 || u == 0x2029 || u == 0x202f || u == 0x205f || u == 0x3000
}

/// The string without its leading white space.
pub open spec fn trim_front(s: Seq<char>) -> Seq<char>
    decreases s.len(),
{
    if s.len() > 0 && is_white_space(s[0]) { trim_front(s.drop_first()) } else { s }
}

/// The string without its trailing white space.
pub open spec fn trim_back(s: Seq<char>) -> Seq<char>
    decreases s.len(),
{
    if s.len() > 0 && is_white_space(s.last()) { trim_back(s.drop_last()) } else { s }
}

/// The string without leading and trailing white space.
pub open spec fn trimmed(s: Seq<char>) -> Seq<char> {
    trim_back(trim_front(s))
}

/// Relies on `str::to_lowercase`: the result depends on the characters alone.
#[verifier::external_body]
fn lowercase(s: &str) -> (r: String)
    ensures
        r@ == lower_of(s@),
{
    s.to_lowercase()
}

/// Relies on `str::trim`: the string with leading and trailing Unicode
/// White_Space removed.
#[verifier::external_body]
fn trim(s: &str) -> (r: &str)
    ensures
        r@ == trimmed(s@),
{
    s.trim()
}

/// Whether `needle` stands somewhere in `hay` as a run of consecutive characters.
pub open spec fn is_infix(hay: Seq<char>, needle: Seq<char>) -> bool {
    exists|i: int| 0 <= i && i + needle.len() <= hay.len() && #[trigger] hay.subrange(i, i + needle.len()) == needle
}

fn chars_of(s: &str) -> (r: Vec<char>)
    ensures
        r@ == s@,
{
    let n = s.unicode_len();
    let mut r: Vec<char> = Vec::with_capacity(n);
    let mut k: usize = 0;
    while k < n
        invariant
            k <= n,
            n == s@.len(),
            r@ == s@.subrange(0, k as int),
        decreases n - k,
    {
        r.push(s.get_char(k));
        k = k + 1;
        proof {
            assert(r@ =~= s@.subrange(0, k as int));
        }
    }
    proof {
        assert(r@ =~= s@);
    }
    r
}

fn matches_at(hay: &Vec<char>, needle: &Vec<char>, i: usize) -> (r: bool)
    requires
        i + needle@.len() <= hay@.len(),
    ensures
        r == (hay@.subrange(i as int, i + needle@.len()) == needle@),
{
    let hl = hay.len();
    let mut k: usize = 0;
    while k < needle.len()
        invariant
            hl == hay@.len(),
            k <= needle@.len(),
            i + needle@.len() <= hay@.len(),
            hay@.subrange(i as int, i + k) == needle@.subrange(0, k as int),
        decreases needle@.len() - k,
    {
        if hay[i + k] != needle[k] {
            proof {
                assert(hay@.subrange(i as int, i + needle@.len())[k as int] != needle@[k as int]);
            }
            return false;
        }
        k = k + 1;
        proof {
            assert(hay@.subrange(i as int, i + k) =~= needle@.subrange(0, k as int));
        }
    }
    proof {
        assert(needle@.subrange(0, k as int) =~= needle@);
    }
    true
}

/// Whether `needle` occurs in `hay`, as `str::contains` decides it.
pub fn contains_text(hay: &str, needle: &str) -> (r: bool)
    ensures
        r == is_infix(hay@, needle@),
{
    let h = chars_of(hay);
    let n = chars_of(needle);
    if n.len() > h.len() {
        return false;
    }
    let last = h.len() - n.len();
    let mut i: usize = 0;
    while i < last
        invariant
            i <= last,
            last + n@.len() == h@.len(),
            h@ == hay@,
            n@ == needle@,
            forall|j: int| 0 <= j < i ==> #[trigger] h@.subrange(j, j + n@.len()) != n@,
        decreases last - i,
    {
        if matches_at(&h, &n, i) {
            return true;
        }
        i = i + 1;
    }
    if matches_at(&h, &n, last) {
        return true;
    }
    proof {
        assert forall|j: int| 0 <= j && j + n@.len() <= h@.len() implies #[trigger] h@.subrange(j, j + n@.len()) != n@ by {
            assert(j <= last);
        }
    }
    false
}

/// Whether a device or port name matches a query: the query, lower-cased,
/// occurs in the lower-cased name.
pub fn name_matches(name: &str, query: &str) -> (r: bool)
    ensures
        r == is_infix(lower_of(name@), lower_of(query@)),
{
    let n = lowercase(name);
    let q = lowercase(query);
    contains_text(n.as_str(), q.as_str())
}

/// Whether a trimmed line is the stop word: `q` in either case.
pub open spec fn is_stop_word(t: Seq<char>) -> bool {
    t.len() == 1 && (t[0] == 'q' || t[0] == 'Q')
}

/// Whether an already trimmed line is the stop word, compared without regard to ASCII case.
pub fn stop_word(t: &str) -> (r: bool)
    ensures
        r == is_stop_word(t@),
{
    if t.unicode_len() != 1 {
        return false;
    }
    let c = t.get_char(0);
    c == 'q' || c == 'Q'
}

/// Whether a terminal line asks the running command to stop: once trimmed it is `q` or `Q`.
pub fn is_stop_line(line: &str) -> (r: bool)
    ensures
        r == is_stop_word(trimmed(line@)),
{
    stop_word(trim(line))
}

} // verus!

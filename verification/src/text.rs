//! Character-level text helpers with their specifications.
use vstd::prelude::*;

verus! {

/// The characters of `s`, in order (std's `str::chars`, collected).
#[verifier::external_body]
pub(crate) fn chars_of(s: &str) -> (v: Vec<char>)
    ensures
        v@ == s@,
{
    s.chars().collect()
}

/// The string made of the characters of `v` (std's `FromIterator<char>`).
#[verifier::external_body]
pub(crate) fn string_from_chars(v: &[char]) -> (s: String)
    ensures
        s@ == v@,
{
    v.iter().collect()
}

/// Unicode general category Cc, which is what `char::is_control` tests.
pub open spec fn is_control_spec(c: char) -> bool {
    (c as u32) <= 0x1f || (0x7f <= (c as u32) && (c as u32) <= 0x9f)
}

pub fn is_control(c: char) -> (r: bool)
    ensures
        r == is_control_spec(c),
{
    let u = c as u32;
    u <= 0x1f || (0x7f <= u && u <= 0x9f)
}

pub open spec fn has_control(s: Seq<char>) -> bool {
    exists|i: int| 0 <= i < s.len() && is_control_spec(#[trigger] s[i])
}

pub fn any_control(s: &[char]) -> (r: bool)
    ensures
        r == has_control(s@),
{
    let mut i: usize = 0;
    while i < s.len()
        invariant
            i <= s.len(),
            forall|j: int| 0 <= j < i ==> !is_control_spec(#[trigger] s@[j]),
        decreases s.len() - i,
    {
        if is_control(s[i]) {
            return true;
        }
        i += 1;
    }
    false
}

pub open spec fn is_ascii_digit_spec(c: char) -> bool {
    '0' <= c && c <= '9'
}

/// `char::to_ascii_lowercase`.
pub open spec fn lower_char(c: char) -> char {
    if 'A' <= c && c <= 'Z' {
        ((c as u32) + 32) as char
    } else {
        c
    }
}

pub open spec fn lower_seq(s: Seq<char>) -> Seq<char> {
    s.map_values(|c: char| lower_char(c))
}

pub fn to_lower_char(c: char) -> (r: char)
    ensures
        r == lower_char(c),
{
    if 'A' <= c && c <= 'Z' {
        let u: u8 = (c as u32 + 32) as u8;
        assert(u as u32 == (c as u32) + 32);
        u as char
    } else {
        c
    }
}

/// `str::to_ascii_lowercase`, on characters.
pub fn ascii_lowercase(s: &[char]) -> (r: Vec<char>)
    ensures
        r@ == lower_seq(s@),
{
    let mut out: Vec<char> = Vec::new();
    let mut i: usize = 0;
    while i < s.len()
        invariant
            i <= s.len(),
            out@ == lower_seq(s@.subrange(0, i as int)),
        decreases s.len() - i,
    {
        out.push(to_lower_char(s[i]));
        i += 1;
        assert(lower_seq(s@.subrange(0, i as int)) =~= lower_seq(s@.subrange(0, i - 1)).push(
            lower_char(s@[i - 1]),
        ));
    }
    assert(s@.subrange(0, s.len() as int) =~= s@);
    out
}

/// `p` occurs in `s` starting at `i`.
pub open spec fn occurs_at(s: Seq<char>, p: Seq<char>, i: int) -> bool {
    0 <= i && i + p.len() <= s.len() && s.subrange(i, i + p.len()) == p
}

/// `str::contains` with a string pattern.
pub open spec fn contains_seq(s: Seq<char>, p: Seq<char>) -> bool {
    exists|i: int| occurs_at(s, p, i)
}

pub fn matches_at(s: &[char], p: &[char], i: usize) -> (r: bool)
    requires
        i <= s.len(),
    ensures
        r == occurs_at(s@, p@, i as int),
{
    if p.len() > s.len() - i {
        return false;
    }
    let mut k: usize = 0;
    while k < p.len()
        invariant
            k <= p.len(),
            i + p.len() <= s.len(),
            forall|j: int| 0 <= j < k ==> s@[i + j] == p@[j],
        decreases p.len() - k,
    {
        if s[i + k] != p[k] {
            assert(s@.subrange(i as int, i + p.len())[k as int] != p@[k as int]);
            return false;
        }
        k += 1;
    }
    assert(s@.subrange(i as int, i + p.len()) =~= p@);
    true
}

pub fn contains(s: &[char], p: &[char]) -> (r: bool)
    ensures
        r == contains_seq(s@, p@),
{
    let mut i: usize = 0;
    while i < s.len()
        invariant
            i <= s.len(),
            forall|j: int| 0 <= j < i ==> !occurs_at(s@, p@, j),
        decreases s.len() - i,
    {
        if matches_at(s, p, i) {
            return true;
        }
        i += 1;
    }
    if matches_at(s, p, s.len()) {
        return true;
    }
    assert forall|j: int| !occurs_at(s@, p@, j) by {
        if 0 <= j && j < i {
        } else {
        }
    }
    false
}

pub fn str_contains(s: &str, p: &str) -> (r: bool)
    ensures
        r == contains_seq(s@, p@),
{
    let sv = chars_of(s);
    let pv = chars_of(p);
    contains(sv.as_slice(), pv.as_slice())
}

pub fn seq_eq(a: &[char], b: &[char]) -> (r: bool)
    ensures
        r == (a@ == b@),
{
    if a.len() != b.len() {
        return false;
    }
    let mut i: usize = 0;
    while i < a.len()
        invariant
            i <= a.len(),
            a.len() == b.len(),
            forall|j: int| 0 <= j < i ==> a@[j] == b@[j],
        decreases a.len() - i,
    {
        if a[i] != b[i] {
            return false;
        }
        i += 1;
    }
    assert(a@ =~= b@);
    true
}

/// `str::replace` with a non-empty pattern: every occurrence of `pat`,
/// taken leftmost first and without overlap, replaced by `rep`.
pub open spec fn replace_all(s: Seq<char>, pat: Seq<char>, rep: Seq<char>) -> Seq<char>
    decreases s.len(),
{
    if s.len() == 0 || pat.len() == 0 {
        s
    } else if occurs_at(s, pat, 0) {
        rep + replace_all(s.skip(pat.len() as int), pat, rep)
    } else {
        seq![s[0]] + replace_all(s.skip(1), pat, rep)
    }
}

pub fn replace_str(s: &str, pat: &str, rep: &str) -> (r: String)
    requires
        pat@.len() > 0,
    ensures
        r@ == replace_all(s@, pat@, rep@),
{
    let sv = chars_of(s);
    let pv = chars_of(pat);
    let rv = chars_of(rep);
    let mut out: Vec<char> = Vec::new();
    let mut i: usize = 0;
    assert(sv@.skip(0) =~= sv@);
    while i < sv.len()
        invariant
            i <= sv@.len(),
            pv@.len() > 0,
            replace_all(sv@, pv@, rv@) == out@ + replace_all(sv@.skip(i as int), pv@, rv@),
        decreases sv@.len() - i,
    {
        let ghost rest = sv@.skip(i as int);
        if matches_at(sv.as_slice(), pv.as_slice(), i) {
            assert(rest.subrange(0, pv@.len() as int) =~= sv@.subrange(i as int, i + pv@.len()));
            assert(occurs_at(rest, pv@, 0));
            assert(rest.skip(pv@.len() as int) =~= sv@.skip(i + pv@.len()));
            let mut k: usize = 0;
            let ghost before = out@;
            while k < rv.len()
                invariant
                    k <= rv@.len(),
                    out@ == before + rv@.subrange(0, k as int),
                decreases rv@.len() - k,
            {
                out.push(rv[k]);
                assert(out@ =~= before + rv@.subrange(0, k + 1));
                k += 1;
            }
            assert(rv@.subrange(0, rv@.len() as int) =~= rv@);
            assert(out@ + replace_all(sv@.skip(i + pv@.len()), pv@, rv@) =~= before + (rv@ + replace_all(
                rest.skip(pv@.len() as int),
                pv@,
                rv@,
            )));
            i = i + pv.len();
        } else {
            proof {
                if occurs_at(rest, pv@, 0) {
                    assert(rest.subrange(0, pv@.len() as int) =~= sv@.subrange(i as int, i + pv@.len()));
                }
            }
            assert(rest.skip(1) =~= sv@.skip(i + 1));
            assert(rest[0] == sv@[i as int]);
            let ghost before = out@;
            out.push(sv[i]);
            assert(out@ + replace_all(sv@.skip(i + 1), pv@, rv@) =~= before + (seq![rest[0]] + replace_all(
                rest.skip(1),
                pv@,
                rv@,
            )));
            i = i + 1;
        }
    }
    assert(sv@.skip(i as int) =~= Seq::<char>::empty());
    assert(out@ + Seq::<char>::empty() =~= out@);
    string_from_chars(out.as_slice())
}

/// Equality of string contents.
pub fn str_eq(a: &str, b: &str) -> (r: bool)
    ensures
        r == (a@ == b@),
{
    let av = chars_of(a);
    let bv = chars_of(b);
    seq_eq(av.as_slice(), bv.as_slice())
}

/// Decimal rendering of a natural number, as `Display` writes it.
pub open spec fn decimal(n: nat) -> Seq<char>
    decreases n,
{
    if n < 10 {
        seq![digit_char(n)]
    } else {
        decimal(n / 10).push(digit_char(n % 10))
    }
}

pub open spec fn digit_char(d: nat) -> char {
    ((d + 48) as u32) as char
}

pub fn fmt_u64(n: u64) -> (s: String)
    ensures
        s@ == decimal(n as nat),
    decreases n,
{
    let d: u8 = (n % 10) as u8;
    let c: char = (d + 48) as char;
    assert(c == digit_char((n % 10) as nat));
    if n < 10 {
        let v: Vec<char> = vec![c];
        assert(v@ =~= seq![c]);
        string_from_chars(v.as_slice())
    } else {
        let prefix = fmt_u64(n / 10);
        let mut v = chars_of(prefix.as_str());
        v.push(c);
        string_from_chars(v.as_slice())
    }
}

/// Decimal rendering of an integer, with a leading '-' when negative.
pub open spec fn signed_decimal(n: int) -> Seq<char> {
    if n < 0 {
        seq!['-'] + decimal((-n) as nat)
    } else {
        decimal(n as nat)
    }
}

pub fn fmt_i64(n: i64) -> (s: String)
    ensures
        s@ == signed_decimal(n as int),
{
    if n < 0 {
        let m: u64 = (-(n as i128)) as u64;
        assert(m == -n);
        let digits = fmt_u64(m);
        let r = String::from_str("-").concat(digits.as_str());
        proof {
            reveal_strlit("-");
            assert("-"@ =~= seq!['-']);
        }
        r
    } else {
        fmt_u64(n as u64)
    }
}

pub proof fn lemma_decimal_digits(n: nat)
    ensures
        decimal(n).len() >= 1,
        forall|i: int| 0 <= i < decimal(n).len() ==> is_ascii_digit_spec(#[trigger] decimal(n)[i]),
    decreases n,
{
    if n >= 10 {
        lemma_decimal_digits(n / 10);
    }
}

} // verus!

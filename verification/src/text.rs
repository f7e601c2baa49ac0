use vstd::prelude::*;
use vstd::string::*;

verus! {

// --- Character classes and mappings -------------------------------------
//
// The dotenv grammar and the property-name convention only distinguish
// ASCII characters: the case mapping is the ASCII one — `a`..`z` map to
// `A`..`Z`, every other character is left as it is — and trimming removes
// the common ASCII whitespace characters.

/// The whitespace that trimming removes.
pub open spec fn is_space_char(c: char) -> bool {
    c == ' ' || c == '\t' || c == '\r' || c == '\n'
}

pub fn is_space(c: char) -> (r: bool)
    ensures
        r == is_space_char(c),
{
    c == ' ' || c == '\t' || c == '\r' || c == '\n'
}

pub open spec fn upper_char(c: char) -> char {
    if 'a' <= c && c <= 'z' {
        (((c as u8) - 32) as char)
    } else {
        c
    }
}

pub fn to_upper(c: char) -> (r: char)
    ensures
        r == upper_char(c),
{
    if 'a' <= c && c <= 'z' {
        ((c as u8) - 32) as char
    } else {
        c
    }
}

/// The per-character normalization behind the environment-variable naming
/// convention: upper-case, with `.` replaced by `_`.
pub open spec fn env_char(c: char) -> char {
    if c == '.' {
        '_'
    } else {
        upper_char(c)
    }
}

pub fn to_env_char(c: char) -> (r: char)
    ensures
        r == env_char(c),
{
    if c == '.' {
        '_'
    } else {
        to_upper(c)
    }
}

pub open spec fn map_upper(s: Seq<char>) -> Seq<char> {
    s.map_values(|c: char| upper_char(c))
}

pub open spec fn map_env(s: Seq<char>) -> Seq<char> {
    s.map_values(|c: char| env_char(c))
}

// --- Conversions between strings and character vectors ------------------

/// Relies on `String: FromIterator<char>`: collecting characters yields the
/// string made of exactly those characters, in order.
#[verifier::external_body]
pub(crate) fn chars_to_string(v: &Vec<char>) -> (r: String)
    ensures
        r@ == v@,
{
    v.iter().collect()
}

pub fn str_to_chars(s: &str) -> (r: Vec<char>)
    ensures
        r@ == s@,
{
    let n = s.unicode_len();
    let mut out: Vec<char> = Vec::new();
    let mut i: usize = 0;
    while i < n
        invariant
            n == s@.len(),
            i <= n,
            out@ == s@.subrange(0, i as int),
        decreases n - i,
    {
        out.push(s.get_char(i));
        assert(out@ =~= s@.subrange(0, i + 1));
        i = i + 1;
    }
    assert(out@ =~= s@);
    out
}

pub fn upper_chars(v: &Vec<char>) -> (r: Vec<char>)
    ensures
        r@ == map_upper(v@),
{
    let mut out: Vec<char> = Vec::new();
    let mut i: usize = 0;
    while i < v.len()
        invariant
            i <= v@.len(),
            out@ == map_upper(v@.subrange(0, i as int)),
        decreases v@.len() - i,
    {
        out.push(to_upper(v[i]));
        assert(out@ =~= map_upper(v@.subrange(0, i + 1))) by {
            assert(v@.subrange(0, i + 1) =~= v@.subrange(0, i as int).push(v@[i as int]));
        }
        i = i + 1;
    }
    assert(v@.subrange(0, v@.len() as int) =~= v@);
    out
}

pub fn env_chars(v: &Vec<char>) -> (r: Vec<char>)
    ensures
        r@ == map_env(v@),
{
    let mut out: Vec<char> = Vec::new();
    let mut i: usize = 0;
    while i < v.len()
        invariant
            i <= v@.len(),
            out@ == map_env(v@.subrange(0, i as int)),
        decreases v@.len() - i,
    {
        out.push(to_env_char(v[i]));
        assert(out@ =~= map_env(v@.subrange(0, i + 1))) by {
            assert(v@.subrange(0, i + 1) =~= v@.subrange(0, i as int).push(v@[i as int]));
        }
        i = i + 1;
    }
    assert(v@.subrange(0, v@.len() as int) =~= v@);
    out
}

/// The index of the first occurrence of `c` in `s`, or `s.len()` if there
/// is none.
pub open spec fn first_index_of(s: Seq<char>, c: char) -> nat
    decreases s.len(),
{
    if s.len() == 0 {
        0
    } else if s[0] == c {
        0
    } else {
        1 + first_index_of(s.skip(1), c)
    }
}

/// The position of the first occurrence of `c` in `v`, or `v.len()` if
/// there is none.
pub fn find_char(v: &Vec<char>, c: char) -> (r: usize)
    ensures
        r as nat == first_index_of(v@, c),
        r <= v@.len(),
{
    let n = v.len();
    let mut i: usize = 0;
    proof {
        assert(v@.skip(0) =~= v@);
    }
    while i < n
        invariant
            i <= n,
            n == v@.len(),
            first_index_of(v@, c) == i + first_index_of(v@.skip(i as int), c),
        decreases n - i,
    {
        proof {
            assert(v@.skip(i as int)[0] == v@[i as int]);
        }
        if v[i] == c {
            return i;
        }
        proof {
            assert(v@.skip(i as int).skip(1) =~= v@.skip(i + 1));
        }
        i = i + 1;
    }
    proof {
        assert(v@.skip(n as int) =~= Seq::<char>::empty());
    }
    i
}

/// A copy of the characters of `v` in positions `from..to`.
pub fn subvec(v: &Vec<char>, from: usize, to: usize) -> (r: Vec<char>)
    requires
        from <= to <= v@.len(),
    ensures
        r@ == v@.subrange(from as int, to as int),
{
    let mut out: Vec<char> = Vec::new();
    let mut i: usize = from;
    while i < to
        invariant
            from <= i <= to <= v@.len(),
            out@ == v@.subrange(from as int, i as int),
        decreases to - i,
    {
        out.push(v[i]);
        assert(out@ =~= v@.subrange(from as int, i + 1));
        i = i + 1;
    }
    out
}

// --- Trimming ------------------------------------------------------------

pub open spec fn trim_start_spec(s: Seq<char>) -> Seq<char>
    decreases s.len(),
{
    if s.len() > 0 && is_space_char(s[0]) {
        trim_start_spec(s.skip(1))
    } else {
        s
    }
}

pub open spec fn trim_end_spec(s: Seq<char>) -> Seq<char>
    decreases s.len(),
{
    if s.len() > 0 && is_space_char(s.last()) {
        trim_end_spec(s.drop_last())
    } else {
        s
    }
}

/// The sequence with leading and trailing whitespace removed.
pub open spec fn trim_spec(s: Seq<char>) -> Seq<char> {
    trim_end_spec(trim_start_spec(s))
}

pub fn trim_chars(v: &Vec<char>) -> (r: Vec<char>)
    ensures
        r@ == trim_spec(v@),
{
    let len = v.len();
    let mut lo: usize = 0;
    assert(v@.skip(0) =~= v@);
    while lo < len && is_space(v[lo])
        invariant
            len == v@.len(),
            lo <= len,
            trim_start_spec(v@) == trim_start_spec(v@.skip(lo as int)),
        decreases len - lo,
    {
        assert(v@.skip(lo as int)[0] == v@[lo as int]);
        assert(v@.skip(lo as int).skip(1) =~= v@.skip(lo + 1));
        lo = lo + 1;
    }
    if lo == len {
        assert(v@.skip(lo as int) =~= Seq::<char>::empty());
        assert(trim_spec(v@) =~= Seq::<char>::empty());
        return Vec::new();
    }
    assert(v@.skip(lo as int)[0] == v@[lo as int]);
    assert(trim_start_spec(v@) == v@.skip(lo as int));
    let mut hi: usize = len;
    while hi > lo && is_space(v[hi - 1])
        invariant
            len == v@.len(),
            lo <= hi <= len,
            trim_start_spec(v@) == v@.skip(lo as int),
            trim_end_spec(v@.skip(lo as int)) == trim_end_spec(v@.subrange(lo as int, hi as int)),
        decreases hi,
    {
        assert(v@.subrange(lo as int, hi as int).last() == v@[hi - 1]);
        assert(v@.subrange(lo as int, hi as int).drop_last() =~= v@.subrange(
            lo as int,
            hi - 1,
        ));
        hi = hi - 1;
    }
    if hi == lo {
        assert(v@.subrange(lo as int, hi as int) =~= Seq::<char>::empty());
        assert(trim_spec(v@) =~= Seq::<char>::empty());
        return Vec::new();
    }
    assert(v@.subrange(lo as int, hi as int).last() == v@[hi - 1]);
    assert(trim_spec(v@) == v@.subrange(lo as int, hi as int));
    let mut out: Vec<char> = Vec::new();
    let mut i: usize = lo;
    while i < hi
        invariant
            lo <= i <= hi <= v@.len(),
            out@ == v@.subrange(lo as int, i as int),
        decreases hi - i,
    {
        out.push(v[i]);
        assert(out@ =~= v@.subrange(lo as int, i + 1));
        i = i + 1;
    }
    out
}

// --- Decimal rendering ---------------------------------------------------

pub open spec fn dec_digit(d: nat) -> char {
    (((48 + d) as u8) as char)
}

/// The decimal digits of `n`, most significant first.
pub open spec fn spec_udec(n: nat) -> Seq<char>
    decreases n,
{
    if n < 10 {
        seq![dec_digit(n)]
    } else {
        spec_udec((n / 10) as nat).push(dec_digit((n % 10) as nat))
    }
}

pub fn usize_to_chars(n: usize) -> (r: Vec<char>)
    ensures
        r@ == spec_udec(n as nat),
{
    let mut out: Vec<char> = Vec::new();
    if n == 0 {
        out.push('0');
        assert(dec_digit(0) == '0');
        assert(out@ =~= spec_udec(0));
        return out;
    }
    let mut cur: usize = n;
    while cur > 0
        invariant
            if cur > 0 {
                spec_udec(n as nat) == spec_udec(cur as nat) + out@
            } else {
                out@.len() > 0 && spec_udec(n as nat) == out@
            },
        decreases cur,
    {
        let ghost prev = out@;
        let d: usize = cur % 10;
        out.insert(0, ((48 + d) as u8) as char);
        assert(out@ =~= seq![dec_digit(d as nat)] + prev);
        if cur < 10 {
            assert(spec_udec(cur as nat) == seq![dec_digit(cur as nat)]);
            assert(spec_udec(n as nat) =~= seq![dec_digit(d as nat)] + prev);
        } else {
            assert(spec_udec(cur as nat) == spec_udec((cur / 10) as nat).push(
                dec_digit((cur % 10) as nat),
            ));
            assert(spec_udec(cur as nat) =~= spec_udec((cur / 10) as nat) + seq![
                dec_digit((cur % 10) as nat),
            ]);
            assert(spec_udec((cur / 10) as nat) + (seq![dec_digit(d as nat)] + prev)
                =~= spec_udec(cur as nat) + prev);
        }
        cur = cur / 10;
    }
    out
}

pub fn usize_to_string(n: usize) -> (r: String)
    ensures
        r@ == spec_udec(n as nat),
{
    let v = usize_to_chars(n);
    chars_to_string(&v)
}

} // verus!

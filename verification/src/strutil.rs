//! Verified helpers over `&str` and `String`, viewed as `Seq<char>`.

use vstd::prelude::*;

verus! {

/// Relies on `str`'s `==` (`<str as PartialEq>::eq`): two string slices
/// compare equal exactly when they hold the same characters.
#[verifier::external_body]
pub fn str_eq(a: &str, b: &str) -> (r: bool)
    ensures
        r == (a@ == b@),
{
    a == b
}

/// Relies on `String::push`: appends exactly one character at the end.
pub assume_specification[ String::push ](s: &mut String, c: char)
    ensures
        final(s)@ == old(s)@.push(c),
;

pub open spec fn is_prefix(p: Seq<char>, s: Seq<char>) -> bool {
    p.len() <= s.len() && s.subrange(0, p.len() as int) == p
}

pub fn starts_with(s: &str, p: &str) -> (r: bool)
    ensures
        r == is_prefix(p@, s@),
{
    let sn: usize = s.unicode_len();
    let pn: usize = p.unicode_len();
    if pn > sn {
        return false;
    }
    let mut i: usize = 0;
    while i < pn
        invariant
            0 <= i <= pn,
            pn <= sn,
            sn == s@.len(),
            pn == p@.len(),
            forall|j: int| 0 <= j < i ==> s@[j] == p@[j],
        decreases pn - i,
    {
        if s.get_char(i) != p.get_char(i) {
            proof {
                if is_prefix(p@, s@) {
                    assert(s@.subrange(0, p@.len() as int)[i as int] == p@[i as int]);
                }
            }
            return false;
        }
        i += 1;
    }
    proof {
        assert(s@.subrange(0, p@.len() as int) =~= p@);
    }
    true
}

/// The characters of `s` from `from` (inclusive) to `to` (exclusive), as an
/// owned string.
pub fn substr(s: &str, from: usize, to: usize) -> (r: String)
    requires
        from <= to <= s@.len(),
    ensures
        r@ == s@.subrange(from as int, to as int),
{
    s.substring_char(from, to).to_owned()
}

/// First index of `c` in `s`, if any.
pub fn find_char(s: &str, c: char) -> (r: Option<usize>)
    ensures
        match r {
            Some(i) => i < s@.len() && s@[i as int] == c && forall|j: int|
                0 <= j < i ==> s@[j] != c,
            None => forall|j: int| 0 <= j < s@.len() ==> s@[j] != c,
        },
{
    let n: usize = s.unicode_len();
    let mut i: usize = 0;
    while i < n
        invariant
            0 <= i <= n,
            n == s@.len(),
            forall|j: int| 0 <= j < i ==> s@[j] != c,
        decreases n - i,
    {
        if s.get_char(i) == c {
            return Some(i);
        }
        i += 1;
    }
    None
}

/// Last index of `c` in `s`, if any.
pub fn rfind_char(s: &str, c: char) -> (r: Option<usize>)
    ensures
        match r {
            Some(i) => i < s@.len() && s@[i as int] == c && forall|j: int|
                i < j < s@.len() ==> s@[j] != c,
            None => forall|j: int| 0 <= j < s@.len() ==> s@[j] != c,
        },
{
    let n: usize = s.unicode_len();
    let mut i: usize = n;
    while i > 0
        invariant
            0 <= i <= n,
            n == s@.len(),
            forall|j: int| i <= j < n ==> s@[j] != c,
        decreases i,
    {
        i -= 1;
        if s.get_char(i) == c {
            return Some(i);
        }
    }
    None
}

pub open spec fn is_digit(c: char) -> bool {
    '0' <= c && c <= '9'
}

pub open spec fn digit_val(c: char) -> nat {
    (c as nat - '0' as nat) as nat
}

pub open spec fn all_digits(s: Seq<char>) -> bool {
    forall|i: int| 0 <= i < s.len() ==> is_digit(s[i])
}

/// The value of a decimal digit string, most significant digit first.
pub open spec fn dec_val(s: Seq<char>) -> nat
    decreases s.len(),
{
    if s.len() == 0 {
        0
    } else {
        dec_val(s.drop_last()) * 10 + digit_val(s.last())
    }
}

/// Parse a decimal `u64`. Returns `Some` exactly on non-empty all-digit
/// strings whose value fits in 64 bits.
pub fn parse_u64(s: &str) -> (r: Option<u64>)
    ensures
        match r {
            Some(v) => s@.len() > 0 && all_digits(s@) && v == dec_val(s@),
            None => s@.len() == 0 || !all_digits(s@) || dec_val(s@) > u64::MAX,
        },
{
    let n: usize = s.unicode_len();
    if n == 0 {
        return None;
    }
    let mut v: u64 = 0;
    let mut i: usize = 0;
    while i < n
        invariant
            0 <= i <= n,
            n == s@.len(),
            all_digits(s@.subrange(0, i as int)),
            v == dec_val(s@.subrange(0, i as int)),
        decreases n - i,
    {
        let c = s.get_char(i);
        if c < '0' || c > '9' {
            proof {
                assert(!is_digit(s@[i as int]));
            }
            return None;
        }
        let d: u64 = (c as u32 - 48) as u64;
        let v10 = match v.checked_mul(10) {
            Some(x) => x,
            None => {
                proof {
                    assert(s@.subrange(0, i as int + 1).drop_last() =~= s@.subrange(
                        0,
                        i as int,
                    ));
                    if all_digits(s@) {
                        lemma_dec_val_monotone(s@.subrange(0, i as int + 1), s@);
                    }
                }
                return None;
            },
        };
        let v2 = match v10.checked_add(d) {
            Some(x) => x,
            None => {
                proof {
                    assert(s@.subrange(0, i as int + 1).drop_last() =~= s@.subrange(
                        0,
                        i as int,
                    ));
                    if all_digits(s@) {
                        lemma_dec_val_monotone(s@.subrange(0, i as int + 1), s@);
                    }
                }
                return None;
            },
        };
        v = v2;
        i += 1;
        proof {
            assert(s@.subrange(0, i as int).drop_last() =~= s@.subrange(0, i as int - 1));
            assert(s@.subrange(0, i as int).last() == s@[i - 1]);
        }
    }
    proof {
        assert(s@.subrange(0, n as int) =~= s@);
    }
    Some(v)
}

/// If a prefix of a digit string already exceeds `u64::MAX`, so does the
/// whole string.
proof fn lemma_dec_val_monotone(p: Seq<char>, s: Seq<char>)
    requires
        all_digits(s),
        p.len() <= s.len(),
        p =~= s.subrange(0, p.len() as int),
    ensures
        dec_val(p) <= dec_val(s),
    decreases s.len() - p.len(),
{
    if p.len() < s.len() {
        let q = s.subrange(0, p.len() as int + 1);
        assert(q.drop_last() =~= p);
        assert(is_digit(q.last()));
        assert(dec_val(q) == dec_val(p) * 10 + digit_val(q.last()));
        assert(dec_val(p) <= dec_val(p) * 10) by (nonlinear_arith)
            requires
                dec_val(p) >= 0,
        ;
        lemma_dec_val_monotone(q, s);
    } else {
        assert(p =~= s);
    }
}

/// Append a decimal rendering of `v` to `out`.
pub fn push_u64(out: &mut String, v: u64)
    ensures
        final(out)@ == old(out)@ + u64_dec_str(v),
    decreases v,
{
    if v < 10 {
        let c = digit_char(v);
        out.push(c);
        proof {
            assert(final(out)@ =~= old(out)@ + u64_dec_str(v));
        }
    } else {
        push_u64(out, v / 10);
        let c = digit_char(v % 10);
        out.push(c);
        proof {
            assert(final(out)@ =~= old(out)@ + u64_dec_str(v));
        }
    }
}

/// The decimal digit character for `d < 10`.
fn digit_char(d: u64) -> (c: char)
    requires
        d < 10,
    ensures
        c == spec_digit_char(d as nat),
{
    proof {
        reveal_strlit("0123456789");
    }
    let digits: &str = "0123456789";
    digits.get_char(d as usize)
}

pub open spec fn spec_digit_char(d: nat) -> char
    recommends
        d < 10,
{
    "0123456789"@[d as int]
}

/// The decimal rendering of `v`, most significant digit first.
pub open spec fn u64_dec_str(v: u64) -> Seq<char>
    decreases v,
{
    if v < 10 {
        seq![spec_digit_char(v as nat)]
    } else {
        u64_dec_str(v / 10).push(spec_digit_char((v % 10) as nat))
    }
}

pub fn concat2(a: &str, b: &str) -> (r: String)
    ensures
        r@ == a@ + b@,
{
    let mut s = a.to_owned();
    s.append(b);
    s
}

pub fn concat3(a: &str, b: &str, c: &str) -> (r: String)
    ensures
        r@ == a@ + b@ + c@,
{
    let mut s = a.to_owned();
    s.append(b);
    s.append(c);
    s
}

pub open spec fn upper_char(c: char) -> char {
    if 'a' <= c && c <= 'z' {
        ((c as u8) - 32) as char
    } else {
        c
    }
}

pub open spec fn upper_seq(s: Seq<char>) -> Seq<char> {
    s.map_values(|c: char| upper_char(c))
}

/// ASCII upper-casing; characters outside `a`..`z` pass through.
pub fn to_upper_ascii(s: &str) -> (r: String)
    ensures
        r@ == upper_seq(s@),
{
    let n: usize = s.unicode_len();
    let mut out = String::new();
    let mut i: usize = 0;
    while i < n
        invariant
            0 <= i <= n,
            n == s@.len(),
            out@ =~= upper_seq(s@).subrange(0, i as int),
        decreases n - i,
    {
        let c = s.get_char(i);
        if 'a' <= c && c <= 'z' {
            let u: u8 = (c as u8) - 32;
            out.push(u as char);
        } else {
            out.push(c);
        }
        i += 1;
        proof {
            assert(out@ =~= upper_seq(s@).subrange(0, i as int));
        }
    }
    proof {
        assert(upper_seq(s@).subrange(0, n as int) =~= upper_seq(s@));
    }
    out
}

/// Index just past the last `/` of `s`, or `0` when `s` has none.
pub open spec fn after_last_slash(s: Seq<char>) -> int
    decreases s.len(),
{
    if s.len() == 0 {
        0
    } else if s.last() == '/' {
        s.len() as int
    } else {
        after_last_slash(s.drop_last())
    }
}

/// The part of a path after its last `/`; the whole string when it has none.
pub open spec fn basename_of(s: Seq<char>) -> Seq<char> {
    s.subrange(after_last_slash(s), s.len() as int)
}

proof fn lemma_after_last_slash(s: Seq<char>)
    ensures
        0 <= after_last_slash(s) <= s.len(),
        forall|j: int| after_last_slash(s) <= j < s.len() ==> s[j] != '/',
        after_last_slash(s) > 0 ==> s[after_last_slash(s) - 1] == '/',
    decreases s.len(),
{
    if s.len() > 0 && s.last() != '/' {
        lemma_after_last_slash(s.drop_last());
        assert(forall|j: int|
            after_last_slash(s) <= j < s.len() - 1 ==> s[j] == s.drop_last()[j]);
    }
}

pub fn basename(s: &str) -> (r: String)
    ensures
        r@ == basename_of(s@),
{
    let n: usize = s.unicode_len();
    match rfind_char(s, '/') {
        Some(i) => {
            proof {
                lemma_after_last_slash(s@);
                assert(after_last_slash(s@) == i + 1) by {
                    let a = after_last_slash(s@);
                    if a < i + 1 {
                        assert(s@[i as int] == '/');
                    }
                    if a > i + 1 {
                        assert(s@[a - 1] == '/');
                    }
                }
            }
            substr(s, i + 1, n)
        },
        None => {
            proof {
                lemma_after_last_slash(s@);
                assert(after_last_slash(s@) == 0) by {
                    if after_last_slash(s@) > 0 {
                        assert(s@[after_last_slash(s@) - 1] == '/');
                    }
                }
            }
            substr(s, 0, n)
        },
    }
}

/// First index of `c` in `s`, or `-1`.
pub open spec fn first_idx(s: Seq<char>, c: char) -> int
    decreases s.len(),
{
    if s.len() == 0 {
        -1
    } else if s[0] == c {
        0
    } else if first_idx(s.skip(1), c) == -1 {
        -1
    } else {
        first_idx(s.skip(1), c) + 1
    }
}

proof fn lemma_first_idx(s: Seq<char>, c: char)
    ensures
        first_idx(s, c) == -1 ==> forall|j: int| 0 <= j < s.len() ==> s[j] != c,
        first_idx(s, c) != -1 ==> 0 <= first_idx(s, c) < s.len() && s[first_idx(s, c)] == c
            && forall|j: int| 0 <= j < first_idx(s, c) ==> s[j] != c,
    decreases s.len(),
{
    if s.len() > 0 && s[0] != c {
        lemma_first_idx(s.skip(1), c);
        let fi = first_idx(s.skip(1), c);
        assert forall|j: int| 1 <= j < s.len() && (fi == -1 || j < fi + 1) implies s[j]
            != c by {
            assert(s.skip(1)[j - 1] == s[j]);
        }
        if fi != -1 {
            assert(s.skip(1)[fi] == s[fi + 1]);
        }
    }
}

/// Split `s` at every occurrence of `c`; separators are dropped, empty
/// pieces are kept.
pub open spec fn split_char(s: Seq<char>, c: char) -> Seq<Seq<char>>
    decreases s.len(),
    via split_char_decreases
{
    if first_idx(s, c) == -1 {
        seq![s]
    } else {
        seq![s.subrange(0, first_idx(s, c))] + split_char(
            s.subrange(first_idx(s, c) + 1, s.len() as int),
            c,
        )
    }
}

#[via_fn]
proof fn split_char_decreases(s: Seq<char>, c: char) {
    lemma_first_idx(s, c);
}

pub fn split(s: &str, c: char) -> (r: Vec<String>)
    ensures
        r@.map_values(|p: String| p@) == split_char(s@, c),
    decreases s@.len(),
{
    let n: usize = s.unicode_len();
    match find_char(s, c) {
        Some(i) => {
            proof {
                lemma_first_idx(s@, c);
                assert(first_idx(s@, c) == i) by {
                    let f = first_idx(s@, c);
                    if f == -1 || f > i as int {
                        assert(s@[i as int] == c);
                    }
                    if f != -1 && f < i as int {
                        assert(s@[f] == c);
                    }
                }
            }
            let head = substr(s, 0, i);
            let rest = substr(s, i + 1, n);
            let mut out = split(rest.as_str(), c);
            out.insert(0, head);
            proof {
                assert(out@.map_values(|p: String| p@) =~= split_char(s@, c));
            }
            out
        },
        None => {
            proof {
                lemma_first_idx(s@, c);
                assert(first_idx(s@, c) == -1) by {
                    let f = first_idx(s@, c);
                    if f != -1 {
                        assert(s@[f] == c);
                    }
                }
            }
            let mut out: Vec<String> = Vec::new();
            out.push(s.to_owned());
            proof {
                assert(out@.map_values(|p: String| p@) =~= seq![s@]);
            }
            out
        },
    }
}

/// Last index of `c` in `s`, or `-1`.
pub open spec fn last_idx(s: Seq<char>, c: char) -> int
    decreases s.len(),
{
    if s.len() == 0 {
        -1
    } else if s.last() == c {
        s.len() - 1
    } else {
        last_idx(s.drop_last(), c)
    }
}

proof fn lemma_last_idx(s: Seq<char>, c: char)
    ensures
        last_idx(s, c) == -1 ==> forall|j: int| 0 <= j < s.len() ==> s[j] != c,
        last_idx(s, c) != -1 ==> 0 <= last_idx(s, c) < s.len() && s[last_idx(s, c)] == c
            && forall|j: int| last_idx(s, c) < j < s.len() ==> s[j] != c,
    decreases s.len(),
{
    if s.len() > 0 && s.last() != c {
        lemma_last_idx(s.drop_last(), c);
        assert(forall|j: int| 0 <= j < s.len() - 1 ==> s.drop_last()[j] == s[j]);
    }
}

/// `find_char`, phrased against `first_idx`.
pub fn find_idx(s: &str, c: char) -> (r: Option<usize>)
    ensures
        match r {
            Some(i) => i as int == first_idx(s@, c) && i < s@.len(),
            None => first_idx(s@, c) == -1,
        },
{
    let r = find_char(s, c);
    proof {
        lemma_first_idx(s@, c);
        let fi = first_idx(s@, c);
        match r {
            Some(i) => {
                assert(fi == i as int) by {
                    if fi == -1 || fi > i as int {
                        assert(s@[i as int] == c);
                    }
                    if fi != -1 && fi < i as int {
                        assert(s@[fi] == c);
                    }
                }
            },
            None => {
                assert(fi == -1) by {
                    if fi != -1 {
                        assert(s@[fi] == c);
                    }
                }
            },
        }
    }
    r
}

/// `rfind_char`, phrased against `last_idx`.
pub fn rfind_idx(s: &str, c: char) -> (r: Option<usize>)
    ensures
        match r {
            Some(i) => i as int == last_idx(s@, c) && i < s@.len(),
            None => last_idx(s@, c) == -1,
        },
{
    let r = rfind_char(s, c);
    proof {
        lemma_last_idx(s@, c);
        let li = last_idx(s@, c);
        match r {
            Some(i) => {
                assert(li == i as int) by {
                    if li == -1 || li < i as int {
                        assert(s@[i as int] == c);
                    }
                    if li > i as int {
                        assert(s@[li] == c);
                    }
                }
            },
            None => {
                assert(li == -1) by {
                    if li != -1 {
                        assert(s@[li] == c);
                    }
                }
            },
        }
    }
    r
}

/// The view of a list of string pairs.
pub open spec fn pairs_view(m: Seq<(String, String)>) -> Seq<(Seq<char>, Seq<char>)> {
    m.map_values(|p: (String, String)| (p.0@, p.1@))
}

/// First-match lookup among string pairs.
pub open spec fn assoc_sq(m: Seq<(Seq<char>, Seq<char>)>, k: Seq<char>) -> Option<Seq<char>>
    decreases m.len(),
{
    if m.len() == 0 {
        None
    } else if m[0].0 == k {
        Some(m[0].1)
    } else {
        assoc_sq(m.skip(1), k)
    }
}

pub fn assoc_get<'a>(m: &'a Vec<(String, String)>, k: &str) -> (r: Option<&'a String>)
    ensures
        match r {
            Some(v) => assoc_sq(pairs_view(m@), k@) == Some(v@),
            None => assoc_sq(pairs_view(m@), k@) is None,
        },
{
    let n: usize = m.len();
    let mut i: usize = 0;
    proof {
        assert(pairs_view(m@).skip(0) =~= pairs_view(m@));
    }
    while i < n
        invariant
            0 <= i <= n,
            n == m@.len(),
            assoc_sq(pairs_view(m@), k@) == assoc_sq(pairs_view(m@).skip(i as int), k@),
        decreases n - i,
    {
        proof {
            assert(pairs_view(m@).skip(i as int)[0] == pairs_view(m@)[i as int]);
            assert(pairs_view(m@).skip(i as int).skip(1) =~= pairs_view(m@).skip(
                i as int + 1,
            ));
        }
        if str_eq(m[i].0.as_str(), k) {
            return Some(&m[i].1);
        }
        i += 1;
    }
    proof {
        assert(pairs_view(m@).skip(n as int) =~= Seq::<(Seq<char>, Seq<char>)>::empty());
    }
    None
}

/// First index where `sub` occurs in `s`, or `-1`.
pub open spec fn index_of_sub(s: Seq<char>, sub: Seq<char>) -> int
    decreases s.len(),
{
    if is_prefix(sub, s) {
        0
    } else if s.len() == 0 {
        -1
    } else if index_of_sub(s.skip(1), sub) == -1 {
        -1
    } else {
        index_of_sub(s.skip(1), sub) + 1
    }
}

fn is_prefix_at(s: &str, sub: &str, at: usize) -> (r: bool)
    requires
        at <= s@.len(),
    ensures
        r == is_prefix(sub@, s@.skip(at as int)),
{
    let sn: usize = s.unicode_len();
    let bn: usize = sub.unicode_len();
    if bn > sn - at {
        return false;
    }
    let mut j: usize = 0;
    while j < bn
        invariant
            0 <= j <= bn,
            at + bn <= sn,
            sn == s@.len(),
            bn == sub@.len(),
            forall|t: int| 0 <= t < j ==> s@[at + t] == sub@[t],
        decreases bn - j,
    {
        if s.get_char(at + j) != sub.get_char(j) {
            proof {
                if is_prefix(sub@, s@.skip(at as int)) {
                    assert(s@.skip(at as int).subrange(0, bn as int)[j as int] == sub@[
                        j as int]);
                    assert(s@.skip(at as int)[j as int] == s@[at + j]);
                }
            }
            return false;
        }
        j += 1;
    }
    proof {
        assert(s@.skip(at as int).subrange(0, bn as int) =~= sub@);
    }
    true
}

/// `index_of_sub` is the first position where `sub` occurs.
proof fn lemma_index_of_sub(s: Seq<char>, sub: Seq<char>)
    ensures
        index_of_sub(s, sub) == -1 ==> forall|j: int|
            0 <= j <= s.len() ==> !is_prefix(sub, s.skip(j)),
        index_of_sub(s, sub) != -1 ==> 0 <= index_of_sub(s, sub) <= s.len() && is_prefix(
            sub,
            s.skip(index_of_sub(s, sub)),
        ) && forall|j: int| 0 <= j < index_of_sub(s, sub) ==> !is_prefix(sub, s.skip(j)),
    decreases s.len(),
{
    assert(s.skip(0) =~= s);
    if !is_prefix(sub, s) && s.len() > 0 {
        lemma_index_of_sub(s.skip(1), sub);
        let fi = index_of_sub(s.skip(1), sub);
        if fi == -1 {
            assert forall|j: int| 0 <= j <= s.len() implies !is_prefix(sub, s.skip(j)) by {
                if j == 0 {
                    assert(s.skip(0) =~= s);
                } else {
                    assert(s.skip(1).skip(j - 1) =~= s.skip(j));
                }
            }
        } else {
            assert(s.skip(1).skip(fi) =~= s.skip(fi + 1));
            assert forall|j: int| 0 <= j < fi + 1 implies !is_prefix(sub, s.skip(j)) by {
                if j == 0 {
                    assert(s.skip(0) =~= s);
                } else {
                    assert(s.skip(1).skip(j - 1) =~= s.skip(j));
                }
            }
        }
    }
}

/// Find the first occurrence of `sub` in `s`.
pub fn find_sub(s: &str, sub: &str) -> (r: Option<usize>)
    ensures
        match r {
            Some(i) => i as int == index_of_sub(s@, sub@) && i <= s@.len() && is_prefix(
                sub@,
                s@.skip(i as int),
            ),
            None => index_of_sub(s@, sub@) == -1,
        },
{
    let n: usize = s.unicode_len();
    let mut i: usize = 0;
    while i < n
        invariant
            0 <= i <= n,
            n == s@.len(),
            forall|j: int| 0 <= j < i ==> !is_prefix(sub@, s@.skip(j)),
        decreases n - i,
    {
        if is_prefix_at(s, sub, i) {
            proof {
                lemma_index_of_sub(s@, sub@);
                let fi = index_of_sub(s@, sub@);
                assert(fi == i as int) by {
                    if fi == -1 || fi > i as int {
                        assert(!is_prefix(sub@, s@.skip(i as int)));
                    }
                }
            }
            return Some(i);
        }
        i += 1;
    }
    if is_prefix_at(s, sub, n) {
        proof {
            lemma_index_of_sub(s@, sub@);
            let fi = index_of_sub(s@, sub@);
            assert(fi == n as int) by {
                if fi == -1 || fi > n as int {
                    assert(!is_prefix(sub@, s@.skip(n as int)));
                }
            }
        }
        return Some(n);
    }
    proof {
        lemma_index_of_sub(s@, sub@);
        let fi = index_of_sub(s@, sub@);
        if fi != -1 {
            assert(!is_prefix(sub@, s@.skip(fi)));
        }
    }
    None
}

/// The first directory entry with the given prefix.
pub open spec fn first_with_prefix(es: Seq<Seq<char>>, p: Seq<char>) -> Option<Seq<char>>
    decreases es.len(),
{
    if es.len() == 0 {
        None
    } else if is_prefix(p, es[0]) {
        Some(es[0])
    } else {
        first_with_prefix(es.skip(1), p)
    }
}

pub fn find_prefix_entry<'a>(es: &'a Vec<String>, p: &str) -> (r: Option<&'a String>)
    ensures
        match r {
            Some(v) => first_with_prefix(es@.map_values(|e: String| e@), p@) == Some(v@),
            None => first_with_prefix(es@.map_values(|e: String| e@), p@) is None,
        },
{
    let ghost evs = es@.map_values(|e: String| e@);
    let n: usize = es.len();
    let mut i: usize = 0;
    proof {
        assert(evs.skip(0) =~= evs);
    }
    while i < n
        invariant
            0 <= i <= n,
            n == es@.len(),
            evs == es@.map_values(|e: String| e@),
            first_with_prefix(evs, p@) == first_with_prefix(evs.skip(i as int), p@),
        decreases n - i,
    {
        proof {
            assert(evs.skip(i as int)[0] == evs[i as int]);
            assert(evs.skip(i as int).skip(1) =~= evs.skip(i as int + 1));
        }
        if starts_with(es[i].as_str(), p) {
            return Some(&es[i]);
        }
        i += 1;
    }
    proof {
        assert(evs.skip(n as int) =~= Seq::<Seq<char>>::empty());
    }
    None
}

/// A found entry really has the prefix.
pub proof fn lemma_first_with_prefix(es: Seq<Seq<char>>, p: Seq<char>)
    ensures
        first_with_prefix(es, p) matches Some(e) ==> is_prefix(p, e),
    decreases es.len(),
{
    if es.len() > 0 && !is_prefix(p, es[0]) {
        lemma_first_with_prefix(es.skip(1), p);
    }
}

} // verus!

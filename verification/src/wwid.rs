//! The WWID prettifier: the normal form used both when reading a SCSI
//! `wwid` attribute and when matching a user-supplied WWID.

use vstd::prelude::*;

verus! {

/// Whitespace as far as trimming is concerned.
pub open spec fn is_ws(c: char) -> bool {
    c == ' ' || c == '\t' || c == '\n' || c == '\r'
}

/// A space or a tab: a run of these collapses to a single `-`.
pub open spec fn is_st(c: char) -> bool {
    c == ' ' || c == '\t'
}

/// A character that is dropped from the end of a WWID: whitespace and the
/// NUL padding some SCSI targets append.
pub open spec fn is_trail(c: char) -> bool {
    is_ws(c) || c == '\u{0}'
}

/// Drop every trailing character that `is_trail` accepts.
pub open spec fn trim_end(s: Seq<char>) -> Seq<char>
    decreases s.len(),
{
    if s.len() > 0 && is_trail(s.last()) {
        trim_end(s.drop_last())
    } else {
        s
    }
}

/// Drop every leading whitespace character.
pub open spec fn trim_start(s: Seq<char>) -> Seq<char>
    decreases s.len(),
{
    if s.len() > 0 && is_ws(s[0]) {
        trim_start(s.skip(1))
    } else {
        s
    }
}

/// Replace every maximal run of spaces and tabs by a single `-`.
pub open spec fn collapse(s: Seq<char>) -> Seq<char>
    decreases s.len(),
{
    if s.len() == 0 {
        Seq::empty()
    } else if is_st(s[0]) {
        if s.len() > 1 && is_st(s[1]) {
            collapse(s.skip(1))
        } else {
            seq!['-'] + collapse(s.skip(1))
        }
    } else {
        seq![s[0]] + collapse(s.skip(1))
    }
}

/// The normal form of a WWID: surrounding whitespace and trailing NUL
/// padding removed, inner runs of spaces and tabs turned into one `-`.
pub open spec fn pretty_wwid_spec(s: Seq<char>) -> Seq<char> {
    collapse(trim_start(trim_end(s)))
}

fn is_ws_char(c: char) -> (r: bool)
    ensures
        r == is_ws(c),
{
    c == ' ' || c == '\t' || c == '\n' || c == '\r'
}

fn is_st_char(c: char) -> (r: bool)
    ensures
        r == is_st(c),
{
    c == ' ' || c == '\t'
}

fn is_trail_char(c: char) -> (r: bool)
    ensures
        r == is_trail(c),
{
    is_ws_char(c) || c == '\u{0}'
}

/// A suffix of trailing characters does not change what `trim_end` keeps.
proof fn lemma_trim_end_cut(s: Seq<char>, e: int)
    requires
        0 <= e <= s.len(),
        forall|j: int| e <= j < s.len() ==> is_trail(s[j]),
    ensures
        trim_end(s) == trim_end(s.subrange(0, e)),
    decreases s.len() - e,
{
    if e < s.len() {
        assert(is_trail(s.last()));
        assert(s.drop_last() =~= s.subrange(0, s.len() - 1));
        lemma_trim_end_cut(s.subrange(0, s.len() - 1), e);
        assert(s.subrange(0, s.len() - 1).subrange(0, e) =~= s.subrange(0, e));
    } else {
        assert(s.subrange(0, e) =~= s);
    }
}

/// A prefix of whitespace does not change what `trim_start` keeps.
proof fn lemma_trim_start_cut(s: Seq<char>, b: int)
    requires
        0 <= b <= s.len(),
        forall|j: int| 0 <= j < b ==> is_ws(s[j]),
    ensures
        trim_start(s) == trim_start(s.subrange(b, s.len() as int)),
    decreases b,
{
    if b > 0 {
        assert(is_ws(s[0]));
        assert(s.skip(1) =~= s.subrange(1, s.len() as int));
        lemma_trim_start_cut(s.subrange(1, s.len() as int), b - 1);
        assert(s.subrange(1, s.len() as int).subrange(b - 1, s.len() - 1) =~= s.subrange(
            b,
            s.len() as int,
        ));
    } else {
        assert(s.subrange(0, s.len() as int) =~= s);
    }
}

/// Compute the WWID normal form; see `pretty_wwid_spec`.
pub fn pretty_wwid(wwid: &str) -> (r: String)
    ensures
        r@ == pretty_wwid_spec(wwid@),
{
    let n: usize = wwid.unicode_len();
    let mut e: usize = n;
    while e > 0 && is_trail_char(wwid.get_char(e - 1))
        invariant
            0 <= e <= n,
            n == wwid@.len(),
            forall|j: int| e <= j < n ==> is_trail(wwid@[j]),
        decreases e,
    {
        e -= 1;
    }
    proof {
        lemma_trim_end_cut(wwid@, e as int);
        if e > 0 {
            assert(wwid@.subrange(0, e as int).last() == wwid@[e - 1]);
        }
        assert(trim_end(wwid@) == wwid@.subrange(0, e as int));
    }
    let mut b: usize = 0;
    while b < e && is_ws_char(wwid.get_char(b))
        invariant
            0 <= b <= e <= n,
            n == wwid@.len(),
            forall|j: int| 0 <= j < b ==> is_ws(wwid@[j]),
        decreases e - b,
    {
        b += 1;
    }
    let ghost u = wwid@.subrange(0, e as int);
    proof {
        lemma_trim_start_cut(u, b as int);
        assert(u.subrange(b as int, u.len() as int) =~= wwid@.subrange(b as int, e as int));
        if b < e {
            assert(u[b as int] == wwid@[b as int]);
        }
        assert(trim_start(u) == wwid@.subrange(b as int, e as int));
    }
    let t = crate::strutil::substr(wwid, b, e);
    let ts = t.as_str();
    let tn: usize = ts.unicode_len();
    let mut out = String::new();
    let mut i: usize = 0;
    proof {
        assert(ts@.subrange(0, tn as int) =~= ts@);
        assert(out@ + collapse(ts@) =~= collapse(ts@));
    }
    while i < tn
        invariant
            0 <= i <= tn,
            tn == ts@.len(),
            ts@ == t@,
            collapse(ts@) == out@ + collapse(ts@.subrange(i as int, tn as int)),
        decreases tn - i,
    {
        let ghost rem = ts@.subrange(i as int, tn as int);
        proof {
            assert(rem.skip(1) =~= ts@.subrange(i as int + 1, tn as int));
            assert(rem[0] == ts@[i as int]);
            if i + 1 < tn {
                assert(rem[1] == ts@[i as int + 1]);
            }
        }
        let c = ts.get_char(i);
        if is_st_char(c) {
            if !(i + 1 < tn && is_st_char(ts.get_char(i + 1))) {
                out.push('-');
            }
        } else {
            out.push(c);
        }
        i += 1;
    }
    proof {
        assert(ts@.subrange(tn as int, tn as int) =~= Seq::<char>::empty());
        assert(out@ =~= collapse(ts@));
    }
    out
}

/// Trimming something already trimmed changes nothing.
proof fn lemma_trim_end_id(s: Seq<char>)
    requires
        s.len() == 0 || !is_trail(s.last()),
    ensures
        trim_end(s) == s,
{
}

proof fn lemma_trim_start_id(s: Seq<char>)
    requires
        s.len() == 0 || !is_ws(s[0]),
    ensures
        trim_start(s) == s,
{
}

/// Collapsing a string without spaces or tabs changes nothing.
proof fn lemma_collapse_id(s: Seq<char>)
    requires
        forall|i: int| 0 <= i < s.len() ==> !is_st(s[i]),
    ensures
        collapse(s) == s,
    decreases s.len(),
{
    if s.len() > 0 {
        lemma_collapse_id(s.skip(1));
        assert(collapse(s) =~= s);
    } else {
        assert(collapse(s) =~= s);
    }
}

/// What `collapse` produces: no spaces or tabs remain; first and last
/// characters are kept where they are not spaces or tabs.
proof fn lemma_collapse_props(s: Seq<char>)
    ensures
        forall|i: int| 0 <= i < collapse(s).len() ==> !is_st(#[trigger] collapse(s)[i]),
        s.len() > 0 ==> collapse(s).len() > 0,
        s.len() > 0 && !is_st(s[0]) ==> collapse(s)[0] == s[0],
        s.len() > 0 && !is_st(s.last()) ==> collapse(s).last() == s.last(),
    decreases s.len(),
{
    if s.len() > 0 {
        lemma_collapse_props(s.skip(1));
        if s.len() == 1 {
            assert(s.skip(1) =~= Seq::<char>::empty());
        } else {
            assert(s.skip(1).last() == s.last());
            assert(s.skip(1)[0] == s[1]);
        }
    }
}

/// The WWID normal form is idempotent: prettifying a prettified WWID
/// gives it back unchanged, for every input string.
pub proof fn pretty_wwid_idempotent(s: Seq<char>)
    ensures
        pretty_wwid_spec(pretty_wwid_spec(s)) == pretty_wwid_spec(s),
{
    let u = trim_end(s);
    let t = trim_start(u);
    let y = collapse(t);
    lemma_trim_end_last(s);
    lemma_trim_start_suffix(u);
    lemma_collapse_props(t);
    if y.len() > 0 {
        assert(!is_trail(y.last()));
        assert(!is_ws(y[0]));
    }
    lemma_trim_end_id(y);
    lemma_trim_start_id(y);
    lemma_collapse_id(y);
}

/// `trim_end` leaves no trailing character that `is_trail` accepts.
proof fn lemma_trim_end_last(s: Seq<char>)
    ensures
        trim_end(s).len() > 0 ==> !is_trail(trim_end(s).last()),
    decreases s.len(),
{
    if s.len() > 0 && is_trail(s.last()) {
        lemma_trim_end_last(s.drop_last());
    }
}

/// `trim_start` keeps a suffix: no leading whitespace remains, and a
/// non-empty result ends with the last character of the input.
proof fn lemma_trim_start_suffix(s: Seq<char>)
    ensures
        trim_start(s).len() > 0 ==> !is_ws(trim_start(s)[0]),
        trim_start(s).len() > 0 ==> trim_start(s).last() == s.last() && s.len() > 0,
    decreases s.len(),
{
    if s.len() > 0 && is_ws(s[0]) {
        lemma_trim_start_suffix(s.skip(1));
        if trim_start(s).len() > 0 {
            assert(s.skip(1).last() == s.last());
        }
    }
}

} // verus!

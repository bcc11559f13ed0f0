//! Verified text utilities: comparison, splitting, searching, substitution
//! and decimal formatting over `String` values viewed as character sequences.

use vstd::prelude::*;

verus! {

// `String::push`, `String::pop` and `String::clear` have no specification in
// vstd; their documented behaviour is stated here and trusted.

/// Relies on `String::push`: appends the given character to the end.
pub assume_specification[ String::push ](s: &mut String, ch: char)
    ensures
        final(s)@ == old(s)@.push(ch),
;

/// Relies on `String::pop`: removes and returns the last character, or
/// returns `None` when the string is empty.
pub assume_specification[ String::pop ](s: &mut String) -> (r: Option<char>)
    ensures
        old(s)@.len() == 0 ==> r is None && final(s)@ == old(s)@,
        old(s)@.len() > 0 ==> r == Some(old(s)@.last()) && final(s)@ == old(s)@.drop_last(),
;

/// Relies on `String::clear`: truncates the string, removing all contents.
pub assume_specification[ String::clear ](s: &mut String)
    ensures
        final(s)@ == Seq::<char>::empty(),
;

/// Character order by code point, which is also the order `str` comparison
/// in std uses.
pub open spec fn char_lt(a: char, b: char) -> bool {
    (a as u32) < (b as u32)
}

/// Lexicographic order on character sequences.
pub open spec fn lex_lt(a: Seq<char>, b: Seq<char>) -> bool
    decreases a.len(),
{
    if b.len() == 0 {
        false
    } else if a.len() == 0 {
        true
    } else if char_lt(a[0], b[0]) {
        true
    } else if (a[0] as u32) == (b[0] as u32) {
        lex_lt(a.skip(1), b.skip(1))
    } else {
        false
    }
}

/// Stepping both sequences past an equal prefix does not change their order.
proof fn lemma_lex_lt_skip(a: Seq<char>, b: Seq<char>, i: int)
    requires
        0 <= i <= a.len(),
        0 <= i <= b.len(),
        forall|j: int| 0 <= j < i ==> (a[j] as u32) == (b[j] as u32),
    ensures
        lex_lt(a, b) == lex_lt(a.skip(i), b.skip(i)),
    decreases i,
{
    if i == 0 {
        assert(a.skip(0) =~= a);
        assert(b.skip(0) =~= b);
    } else {
        assert(a.len() > 0 && b.len() > 0);
        assert((a[0] as u32) == (b[0] as u32));
        assert(!char_lt(a[0], b[0]));
        assert(forall|j: int| 0 <= j < i - 1 ==> (a.skip(1)[j] as u32) == (b.skip(1)[j] as u32));
        lemma_lex_lt_skip(a.skip(1), b.skip(1), i - 1);
        assert(a.skip(1).skip(i - 1) =~= a.skip(i));
        assert(b.skip(1).skip(i - 1) =~= b.skip(i));
    }
}

/// True when the two strings hold the same characters.
pub fn str_eq(a: &str, b: &str) -> (r: bool)
    ensures
        r == (a@ == b@),
{
    let an: usize = a.unicode_len();
    let bn: usize = b.unicode_len();
    if an != bn {
        proof {
            assert(a@.len() != b@.len());
        }
        return false;
    }
    let mut i: usize = 0;
    while i < an
        invariant
            i <= an,
            an == a@.len(),
            an == b@.len(),
            forall|j: int| 0 <= j < i ==> a@[j] == b@[j],
        decreases an - i,
    {
        if a.get_char(i) != b.get_char(i) {
            return false;
        }
        i = i + 1;
    }
    proof {
        assert(a@ =~= b@);
    }
    true
}

/// True when `a` comes strictly before `b` in lexicographic order.
pub fn str_lt(a: &str, b: &str) -> (r: bool)
    ensures
        r == lex_lt(a@, b@),
{
    let an: usize = a.unicode_len();
    let bn: usize = b.unicode_len();
    let mut i: usize = 0;
    loop
        invariant
            i <= an,
            i <= bn,
            an == a@.len(),
            bn == b@.len(),
            forall|j: int| 0 <= j < i ==> (a@[j] as u32) == (b@[j] as u32),
        ensures
            lex_lt(a@, b@) == (if i < an && i < bn {
                char_lt(a@[i as int], b@[i as int])
            } else {
                i == an && i < bn
            }),
        decreases an - i,
    {
        proof {
            lemma_lex_lt_skip(a@, b@, i as int);
        }
        if i >= an || i >= bn {
            break;
        }
        let ca = a.get_char(i);
        let cb = b.get_char(i);
        if (ca as u32) < (cb as u32) {
            break;
        }
        if (ca as u32) != (cb as u32) {
            break;
        }
        i = i + 1;
    }
    if i < an && i < bn {
        let ca = a.get_char(i);
        let cb = b.get_char(i);
        (ca as u32) < (cb as u32)
    } else {
        i == an && i < bn
    }
}

/// Splitting a character sequence at every occurrence of `sep`, keeping
/// empty segments, as `str::split` does.
pub open spec fn split_seq(s: Seq<char>, sep: char) -> Seq<Seq<char>>
    decreases s.len(),
{
    if s.len() == 0 {
        seq![Seq::<char>::empty()]
    } else if s[0] == sep {
        seq![Seq::<char>::empty()] + split_seq(s.skip(1), sep)
    } else {
        let rest = split_seq(s.skip(1), sep);
        seq![seq![s[0]] + rest[0]] + rest.skip(1)
    }
}

pub proof fn lemma_split_seq_len(s: Seq<char>, sep: char)
    ensures
        split_seq(s, sep).len() >= 1,
    decreases s.len(),
{
    if s.len() > 0 {
        lemma_split_seq_len(s.skip(1), sep);
    }
}

/// Appending a non-separator character extends the last segment.
proof fn lemma_split_push_other(s: Seq<char>, sep: char, c: char)
    requires
        c != sep,
    ensures
        split_seq(s.push(c), sep) == split_seq(s, sep).drop_last().push(
            split_seq(s, sep).last().push(c),
        ),
    decreases s.len(),
{
    lemma_split_seq_len(s, sep);
    if s.len() == 0 {
        reveal_with_fuel(split_seq, 3);
        assert(s.push(c).skip(1) =~= Seq::<char>::empty());
        assert(split_seq(s.push(c), sep) =~~= split_seq(s, sep).drop_last().push(
            split_seq(s, sep).last().push(c),
        ));
    } else {
        lemma_split_push_other(s.skip(1), sep, c);
        lemma_split_seq_len(s.skip(1), sep);
        assert(s.push(c)[0] == s[0]);
        assert(s.push(c).skip(1) =~= s.skip(1).push(c));
        if s[0] == sep {
            assert(split_seq(s.push(c), sep) =~~= split_seq(s, sep).drop_last().push(
                split_seq(s, sep).last().push(c),
            ));
        } else {
            let rest = split_seq(s.skip(1), sep);
            let restc = split_seq(s.skip(1).push(c), sep);
            if rest.len() == 1 {
                assert(restc =~~= rest.drop_last().push(rest.last().push(c)));
                assert(split_seq(s.push(c), sep) =~~= split_seq(s, sep).drop_last().push(
                    split_seq(s, sep).last().push(c),
                ));
            } else {
                assert(restc[0] == rest[0]);
                assert(restc.skip(1) =~~= rest.skip(1).drop_last().push(rest.last().push(c)));
                assert(split_seq(s.push(c), sep) =~~= split_seq(s, sep).drop_last().push(
                    split_seq(s, sep).last().push(c),
                ));
            }
        }
    }
}

/// Appending the separator opens a fresh empty segment.
proof fn lemma_split_push_sep(s: Seq<char>, sep: char)
    ensures
        split_seq(s.push(sep), sep) == split_seq(s, sep).push(Seq::<char>::empty()),
    decreases s.len(),
{
    lemma_split_seq_len(s, sep);
    if s.len() == 0 {
        reveal_with_fuel(split_seq, 3);
        assert(s.push(sep).skip(1) =~= Seq::<char>::empty());
        assert(split_seq(s.push(sep), sep) =~~= split_seq(s, sep).push(Seq::<char>::empty()));
    } else {
        lemma_split_push_sep(s.skip(1), sep);
        lemma_split_seq_len(s.skip(1), sep);
        assert(s.push(sep)[0] == s[0]);
        assert(s.push(sep).skip(1) =~= s.skip(1).push(sep));
        if s[0] == sep {
            assert(split_seq(s.push(sep), sep) =~~= split_seq(s, sep).push(Seq::<char>::empty()));
        } else {
            let rest = split_seq(s.skip(1), sep);
            let restc = split_seq(s.skip(1).push(sep), sep);
            assert(restc[0] == rest[0]);
            assert(restc.skip(1) =~~= rest.skip(1).push(Seq::<char>::empty()));
            assert(split_seq(s.push(sep), sep) =~~= split_seq(s, sep).push(Seq::<char>::empty()));
        }
    }
}

/// The segments of `s` split at `sep`, as owned strings.
pub fn split_char(s: &str, sep: char) -> (r: Vec<String>)
    ensures
        r@.map_values(|t: String| t@) == split_seq(s@, sep),
{
    let n: usize = s.unicode_len();
    let mut out: Vec<String> = Vec::new();
    let mut cur: String = String::new();
    let mut i: usize = 0;
    while i < n
        invariant
            i <= n,
            n == s@.len(),
            out@.map_values(|t: String| t@).push(cur@) == split_seq(s@.take(i as int), sep),
        decreases n - i,
    {
        let c = s.get_char(i);
        proof {
            assert(s@.take(i + 1) =~= s@.take(i as int).push(s@[i as int]));
        }
        if c == sep {
            proof {
                lemma_split_push_sep(s@.take(i as int), sep);
            }
            out.push(cur);
            cur = String::new();
            proof {
                assert(out@.map_values(|t: String| t@).push(cur@) =~~= split_seq(
                    s@.take(i + 1),
                    sep,
                ));
            }
        } else {
            proof {
                lemma_split_push_other(s@.take(i as int), sep, c);
                lemma_split_seq_len(s@.take(i as int), sep);
            }
            let ghost prev = out@.map_values(|t: String| t@).push(cur@);
            cur.push(c);
            proof {
                assert(out@.map_values(|t: String| t@).push(cur@) =~~= prev.drop_last().push(
                    prev.last().push(c),
                ));
            }
        }
        i = i + 1;
    }
    proof {
        assert(s@.take(n as int) =~= s@);
    }
    out.push(cur);
    proof {
        let ghost f = |t: String| t@;
        assert(out@.map_values(f) =~~= out@.drop_last().map_values(f).push(out@.last()@));
    }
    out
}

/// True when `hay` holds `needle` starting at character index `at`.
pub open spec fn occurs_at(hay: Seq<char>, needle: Seq<char>, at: int) -> bool {
    0 <= at && at + needle.len() <= hay.len() && hay.subrange(at, at + needle.len()) == needle
}

/// True when `hay` holds `needle` starting at `at`.
pub fn starts_at(hay: &str, needle: &str, at: usize) -> (r: bool)
    requires
        at <= hay@.len(),
    ensures
        r == occurs_at(hay@, needle@, at as int),
{
    let hn: usize = hay.unicode_len();
    let nn: usize = needle.unicode_len();
    if nn > hn - at {
        return false;
    }
    let mut i: usize = 0;
    while i < nn
        invariant
            i <= nn,
            nn == needle@.len(),
            hn == hay@.len(),
            at + nn <= hn,
            forall|j: int| 0 <= j < i ==> hay@[at + j] == needle@[j],
        decreases nn - i,
    {
        if hay.get_char(at + i) != needle.get_char(i) {
            proof {
                assert(hay@.subrange(at as int, at + nn)[i as int] == hay@[at + i]);
            }
            return false;
        }
        i = i + 1;
    }
    proof {
        assert(hay@.subrange(at as int, at + nn) =~= needle@);
    }
    true
}

/// Replacing every occurrence of `from`, scanning left to right without
/// overlap, as `str::replace` does for a non-empty pattern.
pub open spec fn replace_seq(s: Seq<char>, from: Seq<char>, to: Seq<char>) -> Seq<char>
    decreases s.len(),
    when from.len() > 0
{
    if s.len() < from.len() {
        s
    } else if s.take(from.len() as int) == from {
        to + replace_seq(s.skip(from.len() as int), from, to)
    } else {
        seq![s[0]] + replace_seq(s.skip(1), from, to)
    }
}

/// The string with every occurrence of `from` replaced by `to`.
pub fn replace_all(s: &str, from: &str, to: &str) -> (r: String)
    requires
        from@.len() > 0,
    ensures
        r@ == replace_seq(s@, from@, to@),
{
    let n: usize = s.unicode_len();
    let fn_: usize = from.unicode_len();
    let tn: usize = to.unicode_len();
    let mut out: String = String::new();
    let mut i: usize = 0;
    proof {
        assert(s@.skip(0) =~= s@);
        assert(out@ + replace_seq(s@, from@, to@) =~= replace_seq(s@, from@, to@));
    }
    while i < n
        invariant
            i <= n,
            n == s@.len(),
            fn_ == from@.len(),
            fn_ > 0,
            tn == to@.len(),
            replace_seq(s@, from@, to@) == out@ + replace_seq(s@.skip(i as int), from@, to@),
        decreases n - i,
    {
        let ghost tail = s@.skip(i as int);
        if starts_at(s, from, i) {
            proof {
                assert(tail.take(fn_ as int) =~= s@.subrange(i as int, i + fn_));
                assert(tail.skip(fn_ as int) =~= s@.skip(i + fn_));
            }
            let mut j: usize = 0;
            let ghost out0 = out@;
            while j < tn
                invariant
                    j <= tn,
                    tn == to@.len(),
                    out@ == out0 + to@.take(j as int),
                decreases tn - j,
            {
                let c = to.get_char(j);
                proof {
                    assert(to@.take(j + 1) =~= to@.take(j as int).push(to@[j as int]));
                }
                out.push(c);
                j = j + 1;
            }
            proof {
                assert(to@.take(tn as int) =~= to@);
                assert(out@ + replace_seq(s@.skip(i + fn_), from@, to@) =~= out0 + replace_seq(
                    tail,
                    from@,
                    to@,
                ));
            }
            i = i + fn_;
        } else {
            let c = s.get_char(i);
            proof {
                if tail.len() >= fn_ {
                    assert(tail.take(fn_ as int) =~= s@.subrange(i as int, i + fn_));
                    assert(!occurs_at(s@, from@, i as int) ==> tail.take(fn_ as int) != from@);
                }
                assert(tail[0] == s@[i as int]);
                assert(tail.skip(1) =~= s@.skip(i + 1));
                assert(out@.push(c) + replace_seq(s@.skip(i + 1), from@, to@) =~= out@ + (seq![
                    tail[0],
                ] + replace_seq(tail.skip(1), from@, to@)));
            }
            out.push(c);
            i = i + 1;
        }
    }
    proof {
        assert(s@.skip(n as int) =~= Seq::<char>::empty());
        assert(out@ + Seq::<char>::empty() =~= out@);
    }
    out
}

/// Whether `hay` holds `needle` anywhere.
pub open spec fn contains_seq(hay: Seq<char>, needle: Seq<char>) -> bool {
    exists|at: int| occurs_at(hay, needle, at)
}

/// True when `hay` holds `needle` anywhere.
pub fn contains_str(hay: &str, needle: &str) -> (r: bool)
    ensures
        r == contains_seq(hay@, needle@),
{
    let hn: usize = hay.unicode_len();
    let nn: usize = needle.unicode_len();
    if nn > hn {
        proof {
            assert(forall|at: int| !occurs_at(hay@, needle@, at));
        }
        return false;
    }
    let mut at: usize = 0;
    let mut found = false;
    loop
        invariant_except_break
            at <= hn - nn,
            !found,
        invariant
            nn <= hn,
            hn == hay@.len(),
            nn == needle@.len(),
            at <= hn - nn,
            forall|q: int| 0 <= q < at ==> !occurs_at(hay@, needle@, q),
        ensures
            found ==> occurs_at(hay@, needle@, at as int),
            !found ==> forall|q: int| 0 <= q <= hn - nn ==> !occurs_at(hay@, needle@, q),
        decreases hn - nn - at,
    {
        if starts_at(hay, needle, at) {
            found = true;
            break ;
        }
        if at == hn - nn {
            break ;
        }
        at = at + 1;
    }
    proof {
        if !found {
            assert(forall|q: int| q > hn - nn ==> !occurs_at(hay@, needle@, q));
        }
    }
    found
}

/// The lowercase form of a character sequence.  What it is on given
/// characters is left to the Unicode tables; it depends on the
/// characters alone.
pub uninterp spec fn lower_of(s: Seq<char>) -> Seq<char>;

/// Relies on `str::to_lowercase`: the result depends on the characters
/// alone, and an empty string stays empty.
#[verifier::external_body]
pub(crate) fn lowercase(s: &str) -> (r: String)
    ensures
        r@ == lower_of(s@),
        s@.len() == 0 ==> r@.len() == 0,
{
    s.to_lowercase()
}

/// The decimal digits of `n`, most significant first.
pub open spec fn dec_digits(n: nat) -> Seq<char>
    decreases n,
{
    if n < 10 {
        seq![digit_char(n)]
    } else {
        dec_digits(n / 10).push(digit_char(n % 10))
    }
}

/// The character for a single decimal digit.
pub open spec fn digit_char(d: nat) -> char
    recommends
        d < 10,
{
    ((d + 48) as u8) as char
}

/// The decimal rendering of `n`.
pub fn usize_to_string(n: usize) -> (r: String)
    ensures
        r@ == dec_digits(n as nat),
{
    let mut rev: Vec<char> = Vec::new();
    let mut m: usize = n;
    loop
        invariant_except_break
            rev@.len() > 0 ==> dec_digits(n as nat) == dec_digits(m as nat) + rev@.reverse(),
        invariant
            rev@.len() == 0 ==> m == n,
        ensures
            rev@.len() > 0,
            dec_digits(n as nat) == rev@.reverse(),
        decreases m,
    {
        let d: usize = m % 10;
        let c: char = ((d as u8) + 48u8) as char;
        let ghost rev0 = rev@;
        rev.push(c);
        proof {
            assert(c == digit_char(d as nat));
            assert(rev@.reverse() =~= seq![c] + rev0.reverse());
        }
        if m < 10 {
            proof {
                assert(dec_digits(m as nat) =~= seq![c]);
                if rev0.len() == 0 {
                    assert(dec_digits(n as nat) == rev@.reverse());
                } else {
                    assert(dec_digits(n as nat) =~= dec_digits(m as nat) + rev0.reverse());
                    assert(dec_digits(n as nat) == rev@.reverse());
                }
            }
            m = 0;
            break;
        } else {
            let m2: usize = m / 10;
            proof {
                assert(dec_digits(m as nat) =~= dec_digits(m as nat / 10).push(
                    digit_char(m as nat % 10),
                ));
                assert(dec_digits(m as nat / 10).push(c) =~= dec_digits(m2 as nat) + seq![c]);
                if rev0.len() == 0 {
                    assert(dec_digits(n as nat) =~= dec_digits(m2 as nat) + rev@.reverse());
                } else {
                    assert(dec_digits(m as nat) + rev0.reverse() =~= dec_digits(m2 as nat) + (
                    seq![c] + rev0.reverse()));
                    assert(dec_digits(n as nat) =~= dec_digits(m2 as nat) + rev@.reverse());
                }
            }
            m = m2;
        }
    }
    let mut out: String = String::new();
    let mut i: usize = rev.len();
    while i > 0
        invariant
            i <= rev@.len(),
            out@ == rev@.skip(i as int).reverse(),
        decreases i,
    {
        i = i - 1;
        let c = rev[i];
        out.push(c);
        proof {
            assert(rev@.skip(i as int).reverse() =~= rev@.skip(i + 1).reverse().push(
                rev@[i as int],
            ));
        }
    }
    proof {
        assert(rev@.skip(0) =~= rev@);
    }
    out
}

/// `a` followed by `b`.
pub fn concat_str(a: &str, b: &str) -> (r: String)
    ensures
        r@ == a@ + b@,
{
    let mut out = a.to_owned();
    out.append(b);
    out
}

} // verus!

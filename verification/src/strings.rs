//! Verified string utilities: equality, concatenation, leftmost
//! non-overlapping substring replacement (the engine's template
//! substitution), decimal rendering, and the whitespace test used by the
//! type-name formatter.

use vstd::prelude::*;

verus! {

/// True exactly for the code points with the Unicode `White_Space`
/// property, the set that `char::is_whitespace` recognizes.
pub open spec fn is_space_char(c: char) -> bool {
    c == ' ' || c == '\u{9}' || c == '\u{a}' || c == '\u{b}' || c == '\u{c}' || c == '\u{d}'
        || c == '\u{85}' || c == '\u{a0}' || c == '\u{1680}' || c == '\u{2000}' || c == '\u{2001}'
        || c == '\u{2002}' || c == '\u{2003}' || c == '\u{2004}' || c == '\u{2005}'
        || c == '\u{2006}' || c == '\u{2007}' || c == '\u{2008}' || c == '\u{2009}'
        || c == '\u{200a}' || c == '\u{2028}' || c == '\u{2029}' || c == '\u{202f}'
        || c == '\u{205f}' || c == '\u{3000}'
}

pub fn is_space(c: char) -> (r: bool)
    ensures
        r == is_space_char(c),
{
    c == ' ' || c == '\u{9}' || c == '\u{a}' || c == '\u{b}' || c == '\u{c}' || c == '\u{d}'
        || c == '\u{85}' || c == '\u{a0}' || c == '\u{1680}' || c == '\u{2000}' || c == '\u{2001}'
        || c == '\u{2002}' || c == '\u{2003}' || c == '\u{2004}' || c == '\u{2005}'
        || c == '\u{2006}' || c == '\u{2007}' || c == '\u{2008}' || c == '\u{2009}'
        || c == '\u{200a}' || c == '\u{2028}' || c == '\u{2029}' || c == '\u{202f}'
        || c == '\u{205f}' || c == '\u{3000}'
}

/// Character-for-character string equality, decided without any trusted
/// comparison primitive.
pub fn str_eq(a: &str, b: &str) -> (r: bool)
    ensures
        r == (a@ == b@),
{
    let an = a.unicode_len();
    let bn = b.unicode_len();
    if an != bn {
        proof {
            if a@ == b@ {
                assert(a@.len() == b@.len());
            }
        }
        return false;
    }
    let mut i: usize = 0;
    while i < an
        invariant
            an == a@.len(),
            an == b@.len(),
            i <= an,
            forall|j: int| 0 <= j < i ==> a@[j] == b@[j],
        decreases an - i,
    {
        let ca = a.get_char(i);
        let cb = b.get_char(i);
        if ca != cb {
            proof {
                if a@ == b@ {
                    assert(a@[i as int] == b@[i as int]);
                }
            }
            return false;
        }
        i += 1;
    }
    proof {
        assert(a@ =~= b@);
    }
    true
}

/// Concatenation of two string slices into a fresh `String`.
pub fn concat_str(a: &str, b: &str) -> (r: String)
    ensures
        r@ == a@ + b@,
{
    let mut s = String::from_str(a);
    s.append(b);
    s
}

/// Whether `pat` occurs in `text` starting at character position `i`.
fn match_at(text: &str, pat: &str, i: usize, n: usize, p: usize) -> (r: bool)
    requires
        n == text@.len(),
        p == pat@.len(),
        i + p <= n,
    ensures
        r == (text@.subrange(i as int, i + p) == pat@),
{
    let mut j: usize = 0;
    while j < p
        invariant
            n == text@.len(),
            p == pat@.len(),
            i + p <= n,
            j <= p,
            forall|k: int| 0 <= k < j ==> text@[i + k] == pat@[k],
        decreases p - j,
    {
        let ct = text.get_char(i + j);
        let cp = pat.get_char(j);
        if ct != cp {
            proof {
                let sub = text@.subrange(i as int, i + p);
                if sub == pat@ {
                    assert(sub[j as int] == pat@[j as int]);
                    assert(sub[j as int] == text@[i + j]);
                }
            }
            return false;
        }
        j += 1;
    }
    proof {
        assert(text@.subrange(i as int, i + p) =~= pat@);
    }
    true
}

/// `text` with every leftmost, non-overlapping occurrence of `pat`
/// replaced by `sub`; an empty `pat` leaves `text` unchanged.
pub open spec fn spec_replaced(text: Seq<char>, pat: Seq<char>, sub: Seq<char>) -> Seq<char>
    decreases text.len(),
{
    if pat.len() == 0 || text.len() < pat.len() {
        text
    } else if text.subrange(0, pat.len() as int) == pat {
        sub + spec_replaced(text.skip(pat.len() as int), pat, sub)
    } else {
        seq![text[0]] + spec_replaced(text.drop_first(), pat, sub)
    }
}

/// Leftmost, non-overlapping replacement of `pat` by `sub` in `text`.
pub fn replace(text: &str, pat: &str, sub: &str) -> (r: String)
    requires
        pat@.len() >= 1,
    ensures
        r@ == spec_replaced(text@, pat@, sub@),
{
    let n = text.unicode_len();
    let p = pat.unicode_len();
    let mut out = String::new();
    let mut i: usize = 0;
    proof {
        assert(text@.skip(0) =~= text@);
        assert(Seq::<char>::empty() + spec_replaced(text@, pat@, sub@) =~= spec_replaced(
            text@,
            pat@,
            sub@,
        ));
    }
    while i < n
        invariant
            n == text@.len(),
            p == pat@.len(),
            p >= 1,
            i <= n,
            spec_replaced(text@, pat@, sub@) == out@ + spec_replaced(
                text@.skip(i as int),
                pat@,
                sub@,
            ),
        decreases n - i,
    {
        let ghost t = text@.skip(i as int);
        if p <= n - i && match_at(text, pat, i, n, p) {
            proof {
                assert(t.subrange(0, p as int) =~= text@.subrange(i as int, i + p));
                assert(t.skip(p as int) =~= text@.skip(i + p));
                assert((out@ + sub@) + spec_replaced(text@.skip(i + p), pat@, sub@) =~= out@ + (
                sub@ + spec_replaced(text@.skip(i + p), pat@, sub@)));
            }
            out.append(sub);
            i += p;
        } else {
            proof {
                if p <= n - i {
                    assert(t.subrange(0, p as int) =~= text@.subrange(i as int, i + p));
                }
                assert(t.drop_first() =~= text@.skip(i + 1));
                assert(t[0] == text@[i as int]);
                assert(seq![text@[i as int]] =~= text@.subrange(i as int, i + 1));
                assert((out@ + text@.subrange(i as int, i + 1)) + spec_replaced(
                    text@.skip(i + 1),
                    pat@,
                    sub@,
                ) =~= out@ + (seq![text@[i as int]] + spec_replaced(
                    text@.skip(i + 1),
                    pat@,
                    sub@,
                )));
            }
            let piece = text.substring_char(i, i + 1);
            out.append(piece);
            i += 1;
        }
    }
    proof {
        assert(text@.skip(n as int) =~= Seq::<char>::empty());
        assert(out@ + Seq::<char>::empty() =~= out@);
    }
    out
}

pub open spec fn spec_digit(d: nat) -> char {
    if d == 0 {
        '0'
    } else if d == 1 {
        '1'
    } else if d == 2 {
        '2'
    } else if d == 3 {
        '3'
    } else if d == 4 {
        '4'
    } else if d == 5 {
        '5'
    } else if d == 6 {
        '6'
    } else if d == 7 {
        '7'
    } else if d == 8 {
        '8'
    } else {
        '9'
    }
}

/// Decimal rendering of `n`, most significant digit first.
pub open spec fn spec_dec(n: nat) -> Seq<char>
    decreases n,
{
    if n < 10 {
        seq![spec_digit(n)]
    } else {
        spec_dec(n / 10) + seq![spec_digit(n % 10)]
    }
}

fn digit_str(d: usize) -> (r: &'static str)
    requires
        d < 10,
    ensures
        r@ == seq![spec_digit(d as nat)],
{
    let r: &'static str = if d == 0 {
        "0"
    } else if d == 1 {
        "1"
    } else if d == 2 {
        "2"
    } else if d == 3 {
        "3"
    } else if d == 4 {
        "4"
    } else if d == 5 {
        "5"
    } else if d == 6 {
        "6"
    } else if d == 7 {
        "7"
    } else if d == 8 {
        "8"
    } else {
        "9"
    };
    proof {
        reveal_strlit("0");
        reveal_strlit("1");
        reveal_strlit("2");
        reveal_strlit("3");
        reveal_strlit("4");
        reveal_strlit("5");
        reveal_strlit("6");
        reveal_strlit("7");
        reveal_strlit("8");
        reveal_strlit("9");
        assert(r@ =~= seq![spec_digit(d as nat)]);
    }
    r
}

/// Decimal rendering of `n` as a `String`.
pub fn dec_str(n: usize) -> (r: String)
    ensures
        r@ == spec_dec(n as nat),
    decreases n,
{
    if n < 10 {
        String::from_str(digit_str(n))
    } else {
        let mut s = dec_str(n / 10);
        s.append(digit_str(n % 10));
        s
    }
}

} // verus!

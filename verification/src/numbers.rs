//! The grammar of numeric fields.
//!
//! Device attributes travel on the wire as decimal text.  A field is
//! accepted when it matches the grammar below (after an optional sign: a
//! digit string with an optional point and an optional exponent, or one of
//! the case-insensitive special words `inf`, `infinity`, `nan`); any other
//! field leaves the attribute it addresses unchanged.

use vstd::prelude::*;

verus! {

/// Whether `c` is a decimal digit.
pub open spec fn is_digit(c: char) -> bool {
    '0' <= c && c <= '9'
}

/// Whether every character of `s` is a decimal digit.
pub open spec fn all_digits(s: Seq<char>) -> bool {
    forall|i: int| 0 <= i < s.len() ==> is_digit(#[trigger] s[i])
}

/// A nonempty digit string.
pub open spec fn is_count(s: Seq<char>) -> bool {
    s.len() > 0 && all_digits(s)
}

/// The first position of `s` holding `a` or `b`, or `-1` when there is
/// none.
pub open spec fn first_char_in(s: Seq<char>, a: char, b: char) -> int
    decreases s.len(),
{
    if s.len() == 0 {
        -1
    } else if s[0] == a || s[0] == b {
        0
    } else {
        let r = first_char_in(s.drop_first(), a, b);
        if r == -1 {
            -1
        } else {
            r + 1
        }
    }
}

/// What the first found position means: it holds `a` or `b`, nothing
/// before it does, and `-1` means no position does.
pub proof fn lemma_first_char_in(s: Seq<char>, a: char, b: char)
    ensures
        first_char_in(s, a, b) >= -1,
        first_char_in(s, a, b) == -1 ==> forall|m: int|
            0 <= m < s.len() ==> s[m] != a && s[m] != b,
        first_char_in(s, a, b) >= 0 ==> {
            let r = first_char_in(s, a, b);
            &&& r < s.len()
            &&& (s[r] == a || s[r] == b)
            &&& forall|m: int| 0 <= m < r ==> s[m] != a && s[m] != b
        },
    decreases s.len(),
{
    if s.len() == 0 {
    } else if s[0] == a || s[0] == b {
    } else {
        let t = s.drop_first();
        lemma_first_char_in(t, a, b);
        let rt = first_char_in(t, a, b);
        if rt == -1 {
            assert forall|m: int| 0 <= m < s.len() implies s[m] != a && s[m] != b by {
                if m >= 1 {
                    assert(s[m] == t[m - 1]);
                }
            }
        } else {
            assert(s[rt + 1] == t[rt]);
            assert forall|m: int| 0 <= m < rt + 1 implies s[m] != a && s[m] != b by {
                if m >= 1 {
                    assert(s[m] == t[m - 1]);
                }
            }
        }
    }
}

/// `s` with one leading sign character removed, if it has one.
pub open spec fn strip_sign(s: Seq<char>) -> Seq<char> {
    if s.len() > 0 && (s[0] == '+' || s[0] == '-') {
        s.drop_first()
    } else {
        s
    }
}

/// The digits-and-point part: digits with an optional point somewhere,
/// at least one digit in all.
pub open spec fn is_mantissa(s: Seq<char>) -> bool {
    let d = first_char_in(s, '.', '.');
    if d == -1 {
        is_count(s)
    } else {
        s.len() > 1 && all_digits(s.subrange(0, d)) && all_digits(
            s.subrange(d + 1, s.len() as int),
        )
    }
}

/// The part after the exponent marker: an optionally signed nonempty
/// digit string.
pub open spec fn is_exponent(s: Seq<char>) -> bool {
    is_count(strip_sign(s))
}

/// A number: a mantissa, optionally followed by `e` or `E` and an
/// exponent.
pub open spec fn is_plain_number(s: Seq<char>) -> bool {
    let e = first_char_in(s, 'e', 'E');
    if e == -1 {
        is_mantissa(s)
    } else {
        is_mantissa(s.subrange(0, e)) && is_exponent(s.subrange(e + 1, s.len() as int))
    }
}

/// Whether `c` spells the lower-case letter `l`, in either case.
pub open spec fn ci_is(c: char, l: char) -> bool {
    c == l || ('a' <= l && l <= 'z' && c as u32 + 32 == l as u32)
}

/// Whether `s` spells the lower-case word `lit`, case-insensitively.
pub open spec fn ci_eq(s: Seq<char>, lit: Seq<char>) -> bool {
    s.len() == lit.len() && forall|i: int| 0 <= i < s.len() ==> ci_is(#[trigger] s[i], lit[i])
}

/// The special words `inf`, `infinity` and `nan`, in any case.
pub open spec fn is_special(s: Seq<char>) -> bool {
    ci_eq(s, seq!['i', 'n', 'f']) || ci_eq(s, seq!['i', 'n', 'f', 'i', 'n', 'i', 't', 'y']) || ci_eq(
        s,
        seq!['n', 'a', 'n'],
    )
}

/// A well-formed numeric field: an optional sign, then a number or a
/// special word.
pub open spec fn is_number_text(s: Seq<char>) -> bool {
    is_special(strip_sign(s)) || is_plain_number(strip_sign(s))
}

/// Whether every character of `v[from..]` is a decimal digit.
fn all_digits_from(v: &Vec<char>, from: usize, to: usize) -> (r: bool)
    requires
        from <= to <= v@.len(),
    ensures
        r == all_digits(v@.subrange(from as int, to as int)),
{
    let mut i: usize = from;
    while i < to
        invariant
            from <= i <= to,
            forall|m: int| from <= m < i ==> is_digit(#[trigger] v@[m]),
        decreases to - i,
    {
        let c = v[i];
        if !('0' <= c && c <= '9') {
            proof {
                assert(v@.subrange(from as int, to as int)[i - from] == v@[i as int]);
            }
            return false;
        }
        i = i + 1;
    }
    proof {
        assert forall|m: int| 0 <= m < to - from implies is_digit(
            #[trigger] v@.subrange(from as int, to as int)[m],
        ) by {
            assert(v@.subrange(from as int, to as int)[m] == v@[from + m]);
        }
    }
    true
}

/// The first position of `v[from..]` holding `a` or `b`, as
/// [`first_char_in`] of that suffix.
fn find_char_in(v: &Vec<char>, from: usize, a: char, b: char) -> (r: Option<usize>)
    requires
        from <= v@.len(),
    ensures
        match r {
            Some(j) => from <= j < v@.len() && j - from == first_char_in(
                v@.subrange(from as int, v@.len() as int),
                a,
                b,
            ),
            None => first_char_in(v@.subrange(from as int, v@.len() as int), a, b) == -1,
        },
{
    let n = v.len();
    let ghost t = v@.subrange(from as int, v@.len() as int);
    let mut i: usize = from;
    while i < n
        invariant
            from <= i <= n,
            n == v@.len(),
            t == v@.subrange(from as int, v@.len() as int),
            forall|m: int| 0 <= m < i - from ==> t[m] != a && t[m] != b,
        decreases n - i,
    {
        let c = v[i];
        proof {
            assert(t[i - from] == v@[i as int]);
        }
        if c == a || c == b {
            proof {
                lemma_first_char_in(t, a, b);
                let r = first_char_in(t, a, b);
                if r == -1 {
                    assert(false);
                } else if r < i - from {
                    assert(t[r] == a || t[r] == b);
                    assert(false);
                } else if r > i - from {
                    assert(t[i - from] != a && t[i - from] != b);
                    assert(false);
                }
            }
            return Some(i);
        }
        i = i + 1;
    }
    proof {
        lemma_first_char_in(t, a, b);
        let r = first_char_in(t, a, b);
        if r >= 0 {
            assert(t[r] == a || t[r] == b);
            assert(false);
        }
    }
    None
}

/// Whether `v[from..]` spells the lower-case word `lit`,
/// case-insensitively.
fn ci_eq_from(v: &Vec<char>, from: usize, lit: &Vec<char>) -> (r: bool)
    requires
        from <= v@.len(),
    ensures
        r == ci_eq(v@.subrange(from as int, v@.len() as int), lit@),
{
    let ghost t = v@.subrange(from as int, v@.len() as int);
    if v.len() - from != lit.len() {
        return false;
    }
    let mut i: usize = 0;
    while i < lit.len()
        invariant
            0 <= i <= lit@.len(),
            from + lit@.len() == v@.len(),
            t == v@.subrange(from as int, v@.len() as int),
            forall|m: int| 0 <= m < i ==> ci_is(#[trigger] t[m], lit@[m]),
        decreases lit@.len() - i,
    {
        let c = v[from + i];
        let l = lit[i];
        proof {
            assert(t[i as int] == v@[from + i]);
        }
        let ci = c == l || ('a' <= l && l <= 'z' && (l as u32) - 32 == (c as u32));
        if !ci {
            proof {
                assert(!ci_is(t[i as int], lit@[i as int]));
            }
            return false;
        }
        i = i + 1;
    }
    true
}

/// Whether `s` is a well-formed numeric field, decided against
/// [`is_number_text`].
#[verifier::rlimit(100)]
pub fn number_text(s: &str) -> (r: bool)
    ensures
        r == is_number_text(s@),
{
    let v = crate::text::chars_of(s);
    let n = v.len();
    let mut start: usize = 0;
    if n > 0 {
        let c = v[0];
        if c == '+' || c == '-' {
            start = 1;
        }
    }
    let ghost t = strip_sign(v@);
    proof {
        assert(t =~= v@.subrange(start as int, n as int));
    }
    let inf_word: Vec<char> = vec!['i', 'n', 'f'];
    let infinity_word: Vec<char> = vec!['i', 'n', 'f', 'i', 'n', 'i', 't', 'y'];
    let nan_word: Vec<char> = vec!['n', 'a', 'n'];
    if ci_eq_from(&v, start, &inf_word) || ci_eq_from(&v, start, &infinity_word) || ci_eq_from(
        &v,
        start,
        &nan_word,
    ) {
        proof {
            assert(inf_word@ =~= seq!['i', 'n', 'f']);
            assert(infinity_word@ =~= seq!['i', 'n', 'f', 'i', 'n', 'i', 't', 'y']);
            assert(nan_word@ =~= seq!['n', 'a', 'n']);
        }
        return true;
    }
    proof {
        assert(inf_word@ =~= seq!['i', 'n', 'f']);
        assert(infinity_word@ =~= seq!['i', 'n', 'f', 'i', 'n', 'i', 't', 'y']);
        assert(nan_word@ =~= seq!['n', 'a', 'n']);
    }
    let mantissa_end: usize;
    let exp_ok: bool;
    match find_char_in(&v, start, 'e', 'E') {
        Some(e) => {
            mantissa_end = e;
            let mut exp_start: usize = e + 1;
            if exp_start < n {
                let c = v[exp_start];
                if c == '+' || c == '-' {
                    exp_start = exp_start + 1;
                }
            }
            let ghost epart = t.subrange(e - start + 1, t.len() as int);
            proof {
                assert(epart =~= v@.subrange(e + 1, n as int));
                assert(strip_sign(epart) =~= v@.subrange(exp_start as int, n as int));
            }
            exp_ok = exp_start < n && all_digits_from(&v, exp_start, n);
        },
        None => {
            mantissa_end = n;
            exp_ok = true;
        },
    }
    let ghost mant = t.subrange(0, mantissa_end - start);
    proof {
        assert(mant =~= v@.subrange(start as int, mantissa_end as int));
    }
    let mant_ok: bool;
    match find_char_in_range(&v, start, mantissa_end, '.') {
        Some(d) => {
            mant_ok = mantissa_end - start > 1 && all_digits_from(&v, start, d) && all_digits_from(
                &v,
                d + 1,
                mantissa_end,
            );
            proof {
                let dd = d - start;
                assert(mant.subrange(0, dd) =~= v@.subrange(start as int, d as int));
                assert(mant.subrange(dd + 1, mant.len() as int) =~= v@.subrange(
                    d + 1,
                    mantissa_end as int,
                ));
            }
        },
        None => {
            mant_ok = mantissa_end > start && all_digits_from(&v, start, mantissa_end);
        },
    }
    mant_ok && exp_ok
}

/// The first position of `v[from..to]` holding `c`, as
/// [`first_char_in`] of that range.
fn find_char_in_range(v: &Vec<char>, from: usize, to: usize, c: char) -> (r: Option<usize>)
    requires
        from <= to <= v@.len(),
    ensures
        match r {
            Some(j) => from <= j < to && j - from == first_char_in(
                v@.subrange(from as int, to as int),
                c,
                c,
            ),
            None => first_char_in(v@.subrange(from as int, to as int), c, c) == -1,
        },
{
    let ghost t = v@.subrange(from as int, to as int);
    let mut i: usize = from;
    while i < to
        invariant
            from <= i <= to,
            t == v@.subrange(from as int, to as int),
            forall|m: int| 0 <= m < i - from ==> t[m] != c,
        decreases to - i,
    {
        proof {
            assert(t[i - from] == v@[i as int]);
        }
        if v[i] == c {
            proof {
                lemma_first_char_in(t, c, c);
                let r = first_char_in(t, c, c);
                if r == -1 {
                    assert(false);
                } else if r < i - from {
                    assert(t[r] == c);
                    assert(false);
                } else if r > i - from {
                    assert(t[i - from] != c);
                    assert(false);
                }
            }
            return Some(i);
        }
        i = i + 1;
    }
    proof {
        lemma_first_char_in(t, c, c);
        let r = first_char_in(t, c, c);
        if r >= 0 {
            assert(t[r] == c);
            assert(false);
        }
    }
    None
}

} // verus!

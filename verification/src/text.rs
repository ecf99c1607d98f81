//! Character-level text utilities: building strings, trimming, splitting by
//! a separator token, and joining fields back together.
//!
//! Requests and responses of the protocol are separator-joined text, so the
//! whole dispatcher rests on the functions here.  Everything is specified
//! over `Seq<char>`, the view of `str` and `String`.

use vstd::prelude::*;

verus! {

/// The Unicode `White_Space` code points, the set that field trimming
/// strips from both ends of a field.
pub open spec fn is_space(c: char) -> bool {
    c == ' ' || c == '\t' || c == '\n' || c == '\u{0B}' || c == '\u{0C}' || c == '\r'
        || c == '\u{85}' || c == '\u{A0}' || c == '\u{1680}' || c == '\u{2000}' || c == '\u{2001}'
        || c == '\u{2002}' || c == '\u{2003}' || c == '\u{2004}' || c == '\u{2005}'
        || c == '\u{2006}' || c == '\u{2007}' || c == '\u{2008}' || c == '\u{2009}'
        || c == '\u{200A}' || c == '\u{2028}' || c == '\u{2029}' || c == '\u{202F}'
        || c == '\u{205F}' || c == '\u{3000}'
}

/// Whether `c` is whitespace, decided against [`is_space`].
pub fn is_space_char(c: char) -> (r: bool)
    ensures
        r == is_space(c),
{
    c == ' ' || c == '\t' || c == '\n' || c == '\u{0B}' || c == '\u{0C}' || c == '\r'
        || c == '\u{85}' || c == '\u{A0}' || c == '\u{1680}' || c == '\u{2000}' || c == '\u{2001}'
        || c == '\u{2002}' || c == '\u{2003}' || c == '\u{2004}' || c == '\u{2005}'
        || c == '\u{2006}' || c == '\u{2007}' || c == '\u{2008}' || c == '\u{2009}'
        || c == '\u{200A}' || c == '\u{2028}' || c == '\u{2029}' || c == '\u{202F}'
        || c == '\u{205F}' || c == '\u{3000}'
}

/// Relies on `String::push`: appends one character to the string.
#[verifier::external_body]
pub fn push_char(s: &mut String, c: char)
    ensures
        final(s)@ == old(s)@.push(c),
{
    s.push(c);
}

/// The characters of `s`, collected into a vector.
pub fn chars_of(s: &str) -> (v: Vec<char>)
    ensures
        v@ == s@,
{
    let n = s.unicode_len();
    let mut v: Vec<char> = Vec::new();
    let mut i: usize = 0;
    while i < n
        invariant
            i <= n,
            n == s@.len(),
            v@ == s@.subrange(0, i as int),
        decreases n - i,
    {
        v.push(s.get_char(i));
        proof {
            assert(s@.subrange(0, i as int).push(s@[i as int]) =~= s@.subrange(0, i + 1));
        }
        i = i + 1;
    }
    proof {
        assert(s@.subrange(0, s@.len() as int) =~= s@);
    }
    v
}

/// A string holding exactly the characters `v[from..to]`.
pub fn string_of_range(v: &Vec<char>, from: usize, to: usize) -> (s: String)
    requires
        from <= to <= v@.len(),
    ensures
        s@ == v@.subrange(from as int, to as int),
{
    let mut s = String::new();
    let mut i: usize = from;
    while i < to
        invariant
            from <= i <= to,
            s@ == v@.subrange(from as int, i as int),
        decreases to - i,
    {
        push_char(&mut s, v[i]);
        proof {
            assert(v@.subrange(from as int, i as int).push(v@[i as int]) =~= v@.subrange(
                from as int,
                i + 1,
            ));
        }
        i = i + 1;
    }
    s
}

/// Whether two string slices hold the same characters.
pub fn str_eq(a: &str, b: &str) -> (r: bool)
    ensures
        r == (a@ == b@),
{
    let oa = a.to_owned();
    let ob = b.to_owned();
    oa == ob
}

/// `s` with leading whitespace removed.
pub open spec fn drop_leading(s: Seq<char>) -> Seq<char>
    decreases s.len(),
{
    if s.len() > 0 && is_space(s[0]) {
        drop_leading(s.drop_first())
    } else {
        s
    }
}

/// `s` with trailing whitespace removed.
pub open spec fn drop_trailing(s: Seq<char>) -> Seq<char>
    decreases s.len(),
{
    if s.len() > 0 && is_space(s.last()) {
        drop_trailing(s.drop_last())
    } else {
        s
    }
}

/// `s` with whitespace removed from both ends, the meaning of field
/// trimming.
pub open spec fn trimmed(s: Seq<char>) -> Seq<char> {
    drop_trailing(drop_leading(s))
}

/// A copy of `s` with whitespace removed from both ends.
pub fn trim_str(s: &str) -> (r: String)
    ensures
        r@ == trimmed(s@),
{
    let v = chars_of(s);
    let len = v.len();
    proof {
        assert(v@.subrange(0, len as int) =~= s@);
    }
    let mut start: usize = 0;
    while start < len && is_space_char(v[start])
        invariant
            start <= len,
            drop_leading(s@) == drop_leading(v@.subrange(start as int, len as int)),
        decreases len - start,
    {
        proof {
            assert(v@.subrange(start as int, len as int).drop_first() =~= v@.subrange(
                start + 1,
                len as int,
            ));
        }
        start = start + 1;
    }
    proof {
        let tail = v@.subrange(start as int, len as int);
        assert(drop_leading(tail) == tail);
    }
    let mut end: usize = len;
    while end > start && is_space_char(v[end - 1])
        invariant
            start <= end <= len,
            drop_leading(s@) == v@.subrange(start as int, len as int),
            drop_trailing(v@.subrange(start as int, len as int)) == drop_trailing(
                v@.subrange(start as int, end as int),
            ),
        decreases end,
    {
        proof {
            assert(v@.subrange(start as int, end as int).drop_last() =~= v@.subrange(
                start as int,
                end - 1,
            ));
        }
        end = end - 1;
    }
    proof {
        let core = v@.subrange(start as int, end as int);
        assert(drop_trailing(core) == core);
    }
    string_of_range(&v, start, end)
}

/// A copy of `s` with whitespace removed from its end only.
pub fn trim_end_str(s: &str) -> (r: String)
    ensures
        r@ == drop_trailing(s@),
{
    let v = chars_of(s);
    let len = v.len();
    proof {
        assert(v@.subrange(0, len as int) =~= s@);
    }
    let mut end: usize = len;
    while end > 0 && is_space_char(v[end - 1])
        invariant
            end <= len,
            drop_trailing(s@) == drop_trailing(v@.subrange(0, end as int)),
        decreases end,
    {
        proof {
            assert(v@.subrange(0, end as int).drop_last() =~= v@.subrange(0, end - 1));
        }
        end = end - 1;
    }
    proof {
        let core = v@.subrange(0, end as int);
        assert(drop_trailing(core) == core);
    }
    string_of_range(&v, 0, end)
}

/// Whether `sep` occurs in `s` at position `i`.
pub open spec fn match_at(s: Seq<char>, sep: Seq<char>, i: int) -> bool {
    0 <= i && i + sep.len() <= s.len() && s.subrange(i, i + sep.len()) == sep
}

/// The position of the first occurrence of `sep` in `s` at or after `i`,
/// or `-1` when there is none.
pub open spec fn first_match_from(s: Seq<char>, sep: Seq<char>, i: int) -> int
    decreases s.len() - i,
{
    if i < 0 || sep.len() == 0 || i + sep.len() > s.len() {
        -1
    } else if match_at(s, sep, i) {
        i
    } else {
        first_match_from(s, sep, i + 1)
    }
}

/// `s` split at each leftmost occurrence of `sep`, the separator itself
/// dropped.  Splitting never yields fewer than one field: a string without
/// the separator is one field, the empty string is one empty field.
pub open spec fn split_seq(s: Seq<char>, sep: Seq<char>) -> Seq<Seq<char>>
    decreases s.len(),
{
    if sep.len() == 0 || s.len() == 0 {
        seq![s]
    } else if s.len() >= sep.len() && s.subrange(0, sep.len() as int) == sep {
        seq![Seq::<char>::empty()] + split_seq(s.skip(sep.len() as int), sep)
    } else {
        let r = split_seq(s.drop_first(), sep);
        r.update(0, seq![s[0]] + r[0])
    }
}

/// Splitting yields at least one field.
pub proof fn lemma_split_seq_len(s: Seq<char>, sep: Seq<char>)
    ensures
        split_seq(s, sep).len() >= 1,
    decreases s.len(),
{
    if sep.len() == 0 || s.len() == 0 {
    } else if s.len() >= sep.len() && s.subrange(0, sep.len() as int) == sep {
        lemma_split_seq_len(s.skip(sep.len() as int), sep);
    } else {
        lemma_split_seq_len(s.drop_first(), sep);
    }
}

/// A first occurrence found at or after `i` is a real occurrence, at or
/// after `i`, with none before it.
proof fn lemma_first_match_from(s: Seq<char>, sep: Seq<char>, i: int)
    requires
        0 <= i,
        sep.len() > 0,
    ensures
        first_match_from(s, sep, i) == -1 || first_match_from(s, sep, i) >= i,
        first_match_from(s, sep, i) >= 0 ==> match_at(s, sep, first_match_from(s, sep, i)),
        first_match_from(s, sep, i) == -1 ==> forall|m: int|
            i <= m ==> !match_at(s, sep, m),
        forall|m: int| i <= m < first_match_from(s, sep, i) ==> !match_at(s, sep, m),
    decreases s.len() - i,
{
    if i + sep.len() > s.len() {
        assert forall|m: int| i <= m implies !match_at(s, sep, m) by {}
    } else if match_at(s, sep, i) {
    } else {
        lemma_first_match_from(s, sep, i + 1);
    }
}

/// Occurrences in a suffix of `s` are occurrences in `s`, shifted.
proof fn lemma_first_match_shift(s: Seq<char>, sep: Seq<char>, base: int, i: int)
    requires
        0 <= base <= s.len(),
        base <= i,
        sep.len() > 0,
    ensures
        first_match_from(s, sep, i) >= 0 ==> first_match_from(s.skip(base), sep, i - base)
            == first_match_from(s, sep, i) - base,
        first_match_from(s, sep, i) == -1 ==> first_match_from(s.skip(base), sep, i - base) == -1,
    decreases s.len() - i,
{
    let t = s.skip(base);
    if i + sep.len() > s.len() {
    } else {
        assert(match_at(s, sep, i) == match_at(t, sep, i - base)) by {
            if i + sep.len() <= s.len() {
                assert(s.subrange(i, i + sep.len()) =~= t.subrange(i - base, i - base + sep.len()));
            }
        }
        if match_at(s, sep, i) {
        } else {
            lemma_first_match_shift(s, sep, base, i + 1);
        }
    }
}

/// One splitting step: the first field of `split_seq` runs up to the first
/// occurrence of the separator, and the remaining fields split the rest.
proof fn lemma_split_seq_step(s: Seq<char>, sep: Seq<char>)
    requires
        sep.len() > 0,
    ensures
        first_match_from(s, sep, 0) == -1 ==> split_seq(s, sep) =~= seq![s],
        first_match_from(s, sep, 0) >= 0 ==> split_seq(s, sep) =~= seq![
            s.subrange(0, first_match_from(s, sep, 0)),
        ] + split_seq(s.skip(first_match_from(s, sep, 0) + sep.len()), sep),
    decreases s.len(),
{
    let j = first_match_from(s, sep, 0);
    lemma_first_match_from(s, sep, 0);
    if s.len() == 0 {
        assert(j == -1);
    } else if s.len() >= sep.len() && s.subrange(0, sep.len() as int) == sep {
        assert(match_at(s, sep, 0));
        assert(j == 0);
        assert(s.subrange(0, 0) =~= Seq::<char>::empty());
    } else {
        let r = split_seq(s.drop_first(), sep);
        lemma_split_seq_len(s.drop_first(), sep);
        assert(!match_at(s, sep, 0));
        lemma_first_match_shift(s, sep, 1, 1);
        let j1 = first_match_from(s.drop_first(), sep, 0);
        assert(s.drop_first() =~= s.skip(1));
        lemma_split_seq_step(s.drop_first(), sep);
        if j == -1 {
            assert(j1 == -1);
            assert(r =~= seq![s.drop_first()]);
            assert(seq![s[0]] + s.drop_first() =~= s);
        } else {
            assert(j >= 1);
            assert(j1 == j - 1);
            assert(r =~= seq![s.drop_first().subrange(0, j1)] + split_seq(
                s.drop_first().skip(j1 + sep.len()),
                sep,
            ));
            assert(seq![s[0]] + s.drop_first().subrange(0, j1) =~= s.subrange(0, j));
            assert(s.drop_first().skip(j1 + sep.len()) =~= s.skip(j + sep.len()));
        }
    }
}

/// Whether `sep` occurs in `v` at position `i`, decided by comparing
/// characters.
fn match_at_exec(v: &Vec<char>, sep: &Vec<char>, i: usize) -> (r: bool)
    requires
        i + sep@.len() <= v@.len(),
    ensures
        r == match_at(v@, sep@, i as int),
{
    let n = v.len();
    let m = sep.len();
    let mut k: usize = 0;
    while k < m
        invariant
            k <= m,
            n == v@.len(),
            m == sep@.len(),
            i + m <= n,
            forall|q: int| 0 <= q < k ==> v@[i + q] == sep@[q],
        decreases m - k,
    {
        if v[i + k] != sep[k] {
            proof {
                assert(v@.subrange(i as int, i + sep@.len())[k as int] != sep@[k as int]);
            }
            return false;
        }
        k = k + 1;
    }
    proof {
        assert(v@.subrange(i as int, i + sep@.len()) =~= sep@);
    }
    true
}

/// The position of the first occurrence of `sep` in `v` at or after
/// `from`, or `None` when there is none.
fn find_from(v: &Vec<char>, sep: &Vec<char>, from: usize) -> (r: Option<usize>)
    requires
        sep@.len() > 0,
        from <= v@.len(),
    ensures
        match r {
            Some(j) => j as int == first_match_from(v@, sep@, from as int),
            None => first_match_from(v@, sep@, from as int) == -1,
        },
{
    let n = v.len();
    let mut i: usize = from;
    loop
        invariant
            from <= i <= n,
            n == v@.len(),
            first_match_from(v@, sep@, from as int) == first_match_from(v@, sep@, i as int),
        decreases n - i,
    {
        if n - i < sep.len() {
            return None;
        }
        if match_at_exec(v, sep, i) {
            return Some(i);
        }
        i = i + 1;
    }
}

/// `s` split by `sep`, as strings; agrees with [`split_seq`] field for
/// field.
#[verifier::rlimit(60)]
pub fn split_str(s: &str, sep: &str) -> (r: Vec<String>)
    requires
        sep@.len() > 0,
    ensures
        r.deep_view() == split_seq(s@, sep@),
{
    let v = chars_of(s);
    let sepv = chars_of(sep);
    let n = v.len();
    let mut out: Vec<String> = Vec::new();
    let mut pos: usize = 0;
    proof {
        assert(v@.skip(0) =~= v@);
        assert(out.deep_view() + split_seq(v@.skip(0), sep@) =~= split_seq(s@, sep@));
    }
    loop
        invariant
            pos <= v@.len(),
            n == v@.len(),
            sepv@.len() > 0,
            v@ == s@,
            sepv@ == sep@,
            split_seq(s@, sep@) =~= out.deep_view() + split_seq(v@.skip(pos as int), sep@),
        decreases v@.len() - pos,
    {
        proof {
            lemma_split_seq_step(v@.skip(pos as int), sepv@);
            lemma_first_match_shift(v@, sepv@, pos as int, pos as int);
            lemma_first_match_from(v@, sepv@, pos as int);
        }
        match find_from(&v, &sepv, pos) {
            Some(j) => {
                let field = string_of_range(&v, pos, j);
                out.push(field);
                proof {
                    let suffix = v@.skip(pos as int);
                    let j1 = first_match_from(suffix, sepv@, 0);
                    assert(suffix.subrange(0, j1) =~= v@.subrange(pos as int, j as int));
                    assert(suffix.skip(j1 + sepv@.len()) =~= v@.skip(j + sepv@.len()));
                }
                pos = j + sepv.len();
            },
            None => {
                let field = string_of_range(&v, pos, v.len());
                out.push(field);
                proof {
                    assert(v@.subrange(pos as int, v@.len() as int) =~= v@.skip(pos as int));
                }
                return out;
            },
        }
    }
}

/// The concatenation of `sep + item` for each item, the shape of a
/// response tail.
pub open spec fn joined_suffix(items: Seq<Seq<char>>, sep: Seq<char>) -> Seq<char>
    decreases items.len(),
{
    if items.len() == 0 {
        Seq::<char>::empty()
    } else {
        sep + items[0] + joined_suffix(items.drop_first(), sep)
    }
}

/// Appending one more item extends the joined text on the right.
#[verifier::rlimit(60)]
pub proof fn lemma_joined_suffix_push(items: Seq<Seq<char>>, sep: Seq<char>, x: Seq<char>)
    ensures
        joined_suffix(items.push(x), sep) =~= joined_suffix(items, sep) + sep + x,
    decreases items.len(),
{
    if items.len() == 0 {
        assert(items.push(x).drop_first() =~= items);
    } else {
        assert(items.push(x).drop_first() =~= items.drop_first().push(x));
        assert(items.push(x)[0] == items[0]);
        lemma_joined_suffix_push(items.drop_first(), sep, x);
    }
}

/// Appends `sep + item` to `out` for each item of `items`.
pub fn append_joined(out: &mut String, items: &Vec<String>, sep: &str)
    ensures
        final(out)@ == old(out)@ + joined_suffix(items.deep_view(), sep@),
{
    let n = items.len();
    let mut i: usize = 0;
    while i < n
        invariant
            i <= n,
            n == items@.len(),
            out@ == old(out)@ + joined_suffix(items.deep_view().take(i as int), sep@),
        decreases n - i,
    {
        out.append(sep);
        out.append(items[i].as_str());
        proof {
            lemma_joined_suffix_push(items.deep_view().take(i as int), sep@, items@[i as int]@);
            assert(items.deep_view().take(i as int).push(items@[i as int]@) =~= items.deep_view()
                .take(i + 1));
            assert(out@ =~= old(out)@ + joined_suffix(items.deep_view().take(i + 1), sep@));
        }
        i = i + 1;
    }
    proof {
        assert(items.deep_view().take(n as int) =~= items.deep_view());
    }
}

/// The items joined by `sep`: empty for no items, otherwise the first item
/// followed by `sep + item` for each further one.
pub open spec fn sep_joined(items: Seq<Seq<char>>, sep: Seq<char>) -> Seq<char> {
    if items.len() == 0 {
        Seq::<char>::empty()
    } else {
        items[0] + joined_suffix(items.drop_first(), sep)
    }
}

/// The items joined by `sep`, as a string; agrees with [`sep_joined`].
pub fn join_str(items: &Vec<String>, sep: &str) -> (r: String)
    ensures
        r@ == sep_joined(items.deep_view(), sep@),
{
    if items.len() == 0 {
        return String::new();
    }
    let mut out = items[0].clone();
    let mut rest: Vec<String> = Vec::new();
    let mut i: usize = 1;
    while i < items.len()
        invariant
            1 <= i <= items@.len(),
            rest@ == items@.subrange(1, i as int),
        decreases items@.len() - i,
    {
        rest.push(items[i].clone());
        proof {
            assert(items@.subrange(1, i as int).push(items@[i as int]) =~= items@.subrange(
                1,
                i + 1,
            ));
        }
        i = i + 1;
    }
    proof {
        assert(rest.deep_view() =~= items.deep_view().drop_first());
    }
    append_joined(&mut out, &rest, sep);
    out
}

} // verus!


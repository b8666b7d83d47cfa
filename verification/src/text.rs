//! Text building blocks: decimal rendering, character access, suffix tests,
//! joining and pattern replacement over `String`s.

use vstd::prelude::*;

verus! {

/// The ASCII digit for a value below ten.
pub open spec fn digit_char(d: nat) -> char {
    (d + 48) as char
}

/// The decimal rendering of a natural number, without leading zeros.
pub open spec fn decimal(n: nat) -> Seq<char>
    decreases n,
{
    if n < 10 {
        seq![digit_char(n)]
    } else {
        decimal(n / 10).push(digit_char(n % 10))
    }
}

/// The decimal rendering of a number, padded with a leading zero to at least
/// two digits (what `{:02}` prints).
pub open spec fn padded2(n: nat) -> Seq<char> {
    if n < 10 {
        seq!['0'] + decimal(n)
    } else {
        decimal(n)
    }
}

/// The parts, in order, with `sep` between each two neighbours.
pub open spec fn join(parts: Seq<Seq<char>>, sep: Seq<char>) -> Seq<char>
    decreases parts.len(),
{
    if parts.len() == 0 {
        Seq::empty()
    } else if parts.len() == 1 {
        parts[0]
    } else {
        join(parts.drop_last(), sep) + sep + parts.last()
    }
}

/// Whether `suffix` is a suffix of `s`.
pub open spec fn has_suffix(s: Seq<char>, suffix: Seq<char>) -> bool {
    suffix.len() <= s.len() && s.subrange(s.len() - suffix.len(), s.len() as int) == suffix
}

/// Every leftmost non-overlapping occurrence of `pat` in `s` replaced by
/// `rep`, scanning from the start (what `str::replace` computes for a
/// non-empty pattern; an empty pattern leaves `s` as it is here).
pub open spec fn replace_all(s: Seq<char>, pat: Seq<char>, rep: Seq<char>) -> Seq<char>
    decreases s.len(),
{
    if pat.len() == 0 || s.len() < pat.len() {
        s
    } else if s.take(pat.len() as int) == pat {
        rep + replace_all(s.skip(pat.len() as int), pat, rep)
    } else {
        seq![s[0]] + replace_all(s.skip(1), pat, rep)
    }
}

/// Whether a character is in the ASCII range.
pub open spec fn is_ascii_char(c: char) -> bool {
    (c as u32) < 128
}

/// The ASCII lowercase of a character: `A`..`Z` become `a`..`z`, every other
/// character is kept.
pub open spec fn ascii_lower(c: char) -> char {
    if 'A' <= c && c <= 'Z' {
        ((c as u32) + 32) as char
    } else {
        c
    }
}

/// What `str::to_lowercase` returns for a string: its Unicode lowercase.
pub uninterp spec fn lowercase(s: Seq<char>) -> Seq<char>;

/// Calls `str::to_lowercase`. The contract names the result `lowercase(s@)`,
/// a function of the string alone, and states the one fact of the Unicode
/// lowercase mapping that callers rely on: on ASCII text it lowers `A`..`Z`
/// and keeps every other character.
#[verifier::external_body]
pub(crate) fn to_lowercase(s: &str) -> (r: String)
    ensures
        r@ == lowercase(s@),
        (forall|i: int| 0 <= i < s@.len() ==> is_ascii_char(#[trigger] s@[i])) ==> r@ == s@.map_values(
            |c: char| ascii_lower(c),
        ),
{
    s.to_lowercase()
}

/// Calls `String::push`: appends one character.
#[verifier::external_body]
pub(crate) fn push_char(s: &mut String, c: char)
    ensures
        final(s)@ == old(s)@.push(c),
{
    s.push(c)
}

/// The characters of a string slice, in order.
pub fn chars_of(s: &str) -> (r: Vec<char>)
    ensures
        r@ == s@,
{
    let mut r: Vec<char> = Vec::new();
    for c in it: s.chars()
        invariant
            r@ == it.seq().take(it.index() as int),
    {
        r.push(c);
    }
    r
}

/// Appends the characters of `t` to `s`.
pub fn push_chars(s: &mut String, t: &[char])
    ensures
        final(s)@ == old(s)@ + t@,
{
    let ghost start = s@;
    let mut i: usize = 0;
    while i < t.len()
        invariant
            i <= t.len(),
            s@ == start + t@.take(i as int),
        decreases t.len() - i,
    {
        push_char(s, t[i]);
        i = i + 1;
        assert(t@.take(i as int) == t@.take(i - 1).push(t@[i - 1]));
    }
    assert(t@.take(t.len() as int) == t@);
}

/// Appends the characters of `t` to `s`.
pub fn push_str(s: &mut String, t: &str)
    ensures
        final(s)@ == old(s)@ + t@,
{
    s.append(t);
}

/// A string holding the given characters.
pub fn string_of(t: &[char]) -> (r: String)
    ensures
        r@ == t@,
{
    let mut r = String::new();
    push_chars(&mut r, t);
    assert(r@ == Seq::<char>::empty() + t@);
    r
}

/// The digit character for a value below ten.
fn digit(d: u64) -> (c: char)
    requires
        d < 10,
    ensures
        c == digit_char(d as nat),
{
    let b: u8 = 48u8 + (d as u8);
    b as char
}

/// Appends the decimal rendering of `n` to `s`.
pub fn push_decimal(s: &mut String, n: u64)
    ensures
        final(s)@ == old(s)@ + decimal(n as nat),
    decreases n,
{
    let ghost start = s@;
    if n >= 10 {
        push_decimal(s, n / 10);
    }
    push_char(s, digit(n % 10));
    assert(s@ == start + decimal(n as nat));
}

/// The decimal rendering of `n`.
pub fn decimal_string(n: u64) -> (r: String)
    ensures
        r@ == decimal(n as nat),
{
    let mut r = String::new();
    push_decimal(&mut r, n);
    assert(r@ == Seq::<char>::empty() + decimal(n as nat));
    r
}

/// Appends `n` rendered with at least two digits.
pub fn push_padded2(s: &mut String, n: u64)
    ensures
        final(s)@ == old(s)@ + padded2(n as nat),
{
    let ghost start = s@;
    if n < 10 {
        push_char(s, '0');
    }
    push_decimal(s, n);
    assert(s@ == start + padded2(n as nat));
}

/// Whether two strings hold the same characters.
pub fn same_text(a: &str, b: &str) -> (r: bool)
    ensures
        r == (a@ == b@),
{
    let x = chars_of(a);
    let y = chars_of(b);
    if x.len() != y.len() {
        return false;
    }
    let mut j: usize = 0;
    while j < x.len()
        invariant
            x@ == a@,
            y@ == b@,
            x.len() == y.len(),
            j <= x.len(),
            forall|k: int| 0 <= k < j ==> x@[k] == y@[k],
        decreases x.len() - j,
    {
        if x[j] != y[j] {
            return false;
        }
        j = j + 1;
    }
    assert(x@ =~= y@);
    true
}

/// Whether `s` ends with `suffix` (what `str::ends_with` answers).
pub fn ends_with(s: &str, suffix: &str) -> (r: bool)
    ensures
        r == has_suffix(s@, suffix@),
{
    let a = chars_of(s);
    let b = chars_of(suffix);
    if b.len() > a.len() {
        return false;
    }
    let off = a.len() - b.len();
    let mut j: usize = 0;
    while j < b.len()
        invariant
            a@ == s@,
            b@ == suffix@,
            off + b.len() == a.len(),
            j <= b.len(),
            forall|k: int| 0 <= k < j ==> a@[off + k] == b@[k],
        decreases b.len() - j,
    {
        if a[off + j] != b[j] {
            assert(a@.subrange(off as int, a@.len() as int)[j as int] != b@[j as int]);
            return false;
        }
        j = j + 1;
    }
    assert(a@.subrange(off as int, a@.len() as int) =~= b@);
    true
}

/// Whether `pat` occurs in `s` at position `i`.
fn matches_at(s: &[char], pat: &[char], i: usize) -> (r: bool)
    requires
        i + pat@.len() <= s@.len(),
    ensures
        r == (s@.skip(i as int).take(pat@.len() as int) == pat@),
{
    let mut j: usize = 0;
    while j < pat.len()
        invariant
            i + pat.len() <= s.len(),
            j <= pat.len(),
            forall|k: int| 0 <= k < j ==> s@[i + k] == pat@[k],
        decreases pat.len() - j,
    {
        if s[i + j] != pat[j] {
            assert(s@.skip(i as int).take(pat@.len() as int)[j as int] != pat@[j as int]);
            return false;
        }
        j = j + 1;
    }
    assert(s@.skip(i as int).take(pat@.len() as int) =~= pat@);
    true
}

/// Whether `pat` occurs in `s` at position `i`.
pub open spec fn occurs_at(s: Seq<char>, pat: Seq<char>, i: int) -> bool {
    0 <= i && i + pat.len() <= s.len() && s.subrange(i, i + pat.len()) == pat
}

/// Replacing a pattern that does not occur changes nothing.
pub proof fn lemma_replace_absent(s: Seq<char>, pat: Seq<char>, rep: Seq<char>)
    requires
        forall|i: int| !#[trigger] occurs_at(s, pat, i),
    ensures
        replace_all(s, pat, rep) == s,
    decreases s.len(),
{
    if pat.len() == 0 || s.len() < pat.len() {
    } else {
        assert(s.take(pat.len() as int) =~= s.subrange(0, pat.len() as int));
        assert(!occurs_at(s, pat, 0));
        let t = s.skip(1);
        assert forall|i: int| !#[trigger] occurs_at(t, pat, i) by {
            if occurs_at(t, pat, i) {
                assert(t.subrange(i, i + pat.len()) =~= s.subrange(i + 1, i + 1 + pat.len()));
                assert(occurs_at(s, pat, i + 1));
            }
        }
        lemma_replace_absent(t, pat, rep);
        assert(s =~= seq![s[0]] + t);
    }
}

/// Whether a character is an ASCII digit.
pub open spec fn is_digit(c: char) -> bool {
    '0' <= c && c <= '9'
}

/// The value of a decimal digit string, most significant digit first.
pub open spec fn parse_decimal(s: Seq<char>) -> nat
    decreases s.len(),
{
    if s.len() == 0 {
        0
    } else {
        10 * parse_decimal(s.drop_last()) + ((s.last() as u32) - 48) as nat
    }
}

/// A decimal rendering is a non-empty string of digits that reads back as
/// the number.
pub proof fn lemma_decimal_reads_back(n: nat)
    ensures
        decimal(n).len() > 0,
        forall|i: int| 0 <= i < decimal(n).len() ==> is_digit(#[trigger] decimal(n)[i]),
        parse_decimal(decimal(n)) == n,
    decreases n,
{
    if n >= 10 {
        lemma_decimal_reads_back(n / 10);
        let d = decimal(n);
        assert(d.drop_last() =~= decimal(n / 10));
        let r = n % 10;
        assert(digit_char(r) as u32 == r + 48);
        assert(d.last() == digit_char(r));
        assert(parse_decimal(d) == 10 * parse_decimal(d.drop_last()) + r);
        assert(10 * (n / 10) + r == n);
    } else {
        assert(digit_char(n) as u32 == n + 48);
        let d = decimal(n);
        assert(d.drop_last().len() == 0);
        assert(parse_decimal(d.drop_last()) == 0);
        assert(parse_decimal(d) == 10 * parse_decimal(d.drop_last()) + n);
    }
}

/// The first position at or after `i` where a non-empty `pat` occurs in `s`.
pub open spec fn find(s: Seq<char>, pat: Seq<char>, i: int) -> Option<int>
    decreases s.len() - i,
{
    if pat.len() == 0 || i < 0 || i + pat.len() > s.len() {
        None
    } else if occurs_at(s, pat, i) {
        Some(i)
    } else {
        find(s, pat, i + 1)
    }
}

/// A found position is an occurrence inside the string.
pub proof fn lemma_find_bounds(s: Seq<char>, pat: Seq<char>, i: int)
    ensures
        find(s, pat, i) matches Some(p) ==> i <= p && pat.len() > 0 && p + pat.len() <= s.len()
            && occurs_at(s, pat, p),
    decreases s.len() - i,
{
    if pat.len() == 0 || i < 0 || i + pat.len() > s.len() {
    } else if occurs_at(s, pat, i) {
    } else {
        lemma_find_bounds(s, pat, i + 1);
    }
}

/// The pieces of `s` between the leftmost non-overlapping occurrences of a
/// non-empty `sep` (what `str::split` yields for a string pattern).
pub open spec fn split(s: Seq<char>, sep: Seq<char>) -> Seq<Seq<char>>
    decreases s.len(),
{
    match find(s, sep, 0) {
        Some(p) => {
            proof {
                lemma_find_bounds(s, sep, 0);
            }
            seq![s.take(p)] + split(s.skip(p + sep.len()), sep)
        },
        None => seq![s],
    }
}

/// Searching from `i` finds `p` when `p` is the first occurrence from `i` on.
proof fn lemma_find_first(s: Seq<char>, pat: Seq<char>, i: int, p: int)
    requires
        pat.len() > 0,
        0 <= i <= p,
        occurs_at(s, pat, p),
        forall|k: int| i <= k < p ==> !#[trigger] occurs_at(s, pat, k),
    ensures
        find(s, pat, i) == Some(p),
    decreases p - i,
{
    if i < p {
        assert(!occurs_at(s, pat, i));
        lemma_find_first(s, pat, i + 1, p);
    }
}

/// Searching finds nothing where the pattern does not occur.
proof fn lemma_find_none(s: Seq<char>, pat: Seq<char>, i: int)
    requires
        forall|k: int| k >= i ==> !#[trigger] occurs_at(s, pat, k),
    ensures
        find(s, pat, i) is None,
    decreases s.len() - i,
{
    if pat.len() == 0 || i < 0 || i + pat.len() > s.len() {
    } else {
        assert(!occurs_at(s, pat, i));
        lemma_find_none(s, pat, i + 1);
    }
}

/// Joining unfolded from the front.
proof fn lemma_join_front(parts: Seq<Seq<char>>, sep: Seq<char>)
    requires
        parts.len() >= 2,
    ensures
        join(parts, sep) == parts[0] + sep + join(parts.drop_first(), sep),
    decreases parts.len(),
{
    if parts.len() == 2 {
        assert(parts.drop_last() =~= seq![parts[0]]);
        assert(parts.drop_first() =~= seq![parts[1]]);
        assert(join(parts.drop_last(), sep) == parts[0]);
        assert(join(parts.drop_first(), sep) == parts[1]);
        assert(join(parts, sep) == join(parts.drop_last(), sep) + sep + parts.last());
    } else {
        let dl = parts.drop_last();
        let df = parts.drop_first();
        lemma_join_front(dl, sep);
        assert(dl.drop_first() =~= df.drop_last());
        assert(df.last() == parts.last());
        assert(dl[0] == parts[0]);
        assert(join(df, sep) == join(df.drop_last(), sep) + sep + df.last());
        assert(join(parts, sep) == join(dl, sep) + sep + parts.last());
        assert(join(parts, sep) =~= parts[0] + sep + join(df, sep));
    }
}

/// A digit-free separator never occurs where a digit stands.
proof fn lemma_no_occurrence_at_digit(s: Seq<char>, sep: Seq<char>, k: int)
    requires
        sep.len() > 0,
        forall|j: int| 0 <= j < sep.len() ==> !is_digit(#[trigger] sep[j]),
        0 <= k < s.len(),
        is_digit(s[k]),
    ensures
        !occurs_at(s, sep, k),
{
    if occurs_at(s, sep, k) {
        assert(s.subrange(k, k + sep.len())[0] == s[k]);
    }
}

/// Splitting on a separator that holds no digit gives back digit strings
/// that were joined with it.
pub proof fn lemma_split_join(parts: Seq<Seq<char>>, sep: Seq<char>)
    requires
        parts.len() > 0,
        sep.len() > 0,
        forall|j: int| 0 <= j < sep.len() ==> !is_digit(#[trigger] sep[j]),
        forall|k: int, j: int|
            0 <= k < parts.len() && 0 <= j < parts[k].len() ==> is_digit(#[trigger] parts[k][j]),
    ensures
        split(join(parts, sep), sep) == parts,
    decreases parts.len(),
{
    let s = join(parts, sep);
    let d0 = parts[0];
    if parts.len() == 1 {
        assert forall|k: int| k >= 0 implies !#[trigger] occurs_at(s, sep, k) by {
            if k < s.len() {
                assert(is_digit(parts[0][k]));
                lemma_no_occurrence_at_digit(s, sep, k);
            }
        }
        lemma_find_none(s, sep, 0);
        assert(split(s, sep) =~= seq![s]);
    } else {
        lemma_join_front(parts, sep);
        let rest = join(parts.drop_first(), sep);
        let p = d0.len() as int;
        assert(s.subrange(p, p + sep.len()) =~= sep);
        assert forall|k: int| 0 <= k < p implies !#[trigger] occurs_at(s, sep, k) by {
            assert(s[k] == d0[k]);
            assert(is_digit(parts[0][k]));
            lemma_no_occurrence_at_digit(s, sep, k);
        }
        lemma_find_first(s, sep, 0, p);
        assert(s.take(p) =~= d0);
        assert(s.skip(p + sep.len()) =~= rest);
        let tail = parts.drop_first();
        assert forall|k: int, j: int| 0 <= k < tail.len() && 0 <= j < tail[k].len() implies is_digit(
            #[trigger] tail[k][j],
        ) by {
            assert(tail[k] == parts[k + 1]);
        }
        lemma_split_join(tail, sep);
        assert(split(s, sep) == seq![d0] + split(rest, sep));
        assert(seq![d0] + tail =~= parts);
    }
}

/// Unfolding `replace_all` once when the rest is shorter than the pattern.
proof fn lemma_replace_short(s: Seq<char>, pat: Seq<char>, rep: Seq<char>)
    requires
        s.len() < pat.len(),
    ensures
        replace_all(s, pat, rep) == s,
{
}

/// Replaces every leftmost non-overlapping occurrence of a non-empty `pat`
/// in `s` by `rep`.
pub fn replace(s: &str, pat: &str, rep: &str) -> (r: String)
    requires
        pat@.len() > 0,
    ensures
        r@ == replace_all(s@, pat@, rep@),
{
    let cs = chars_of(s);
    let ps = chars_of(pat);
    let rs = chars_of(rep);
    let mut out = String::new();
    let mut i: usize = 0;
    assert(cs@.skip(0) =~= cs@);
    while i < cs.len()
        invariant
            cs@ == s@,
            ps@ == pat@,
            rs@ == rep@,
            ps@.len() > 0,
            i <= cs.len(),
            out@ + replace_all(cs@.skip(i as int), ps@, rs@) == replace_all(cs@, ps@, rs@),
        decreases cs.len() - i,
    {
        let ghost rest = cs@.skip(i as int);
        if ps.len() <= cs.len() - i && matches_at(cs.as_slice(), ps.as_slice(), i) {
            assert(rest.take(ps@.len() as int) == ps@);
            assert(rest.skip(ps@.len() as int) =~= cs@.skip(i + ps@.len()));
            push_chars(&mut out, rs.as_slice());
            i = i + ps.len();
        } else {
            assert(rest.skip(1) =~= cs@.skip(i + 1));
            assert(rest[0] == cs@[i as int]);
            if !(ps.len() <= cs.len() - i) {
                proof {
                    lemma_replace_short(rest, ps@, rs@);
                    lemma_replace_short(rest.skip(1), ps@, rs@);
                    assert(rest =~= seq![rest[0]] + rest.skip(1));
                }
            }
            push_char(&mut out, cs[i]);
            i = i + 1;
        }
    }
    assert(cs@.skip(cs@.len() as int) =~= Seq::<char>::empty());
    out
}

/// Appends the decimal renderings of `values`, with `sep` between each two.
pub fn join_decimals(values: &[u32], sep: &str) -> (r: String)
    ensures
        r@ == join(values@.map_values(|v: u32| decimal(v as nat)), sep@),
{
    let ghost parts = values@.map_values(|v: u32| decimal(v as nat));
    let mut out = String::new();
    let mut i: usize = 0;
    while i < values.len()
        invariant
            i <= values.len(),
            parts == values@.map_values(|v: u32| decimal(v as nat)),
            out@ == join(parts.take(i as int), sep@),
        decreases values.len() - i,
    {
        if i > 0 {
            push_str(&mut out, sep);
        }
        push_decimal(&mut out, values[i] as u64);
        proof {
            let next = parts.take(i + 1);
            assert(next.drop_last() =~= parts.take(i as int));
            assert(next.last() == decimal(values@[i as int] as nat));
            if i == 0 {
                assert(out@ =~= join(next, sep@));
            }
        }
        i = i + 1;
    }
    assert(parts.take(values.len() as int) =~= parts);
    out
}

} // verus!

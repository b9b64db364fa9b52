//! Text as character sequences: splitting, trimming and numbers.

use vstd::prelude::*;
use vstd::slice::slice_subrange;

verus! {

/// The position of the first `x` in `s`, or the length of `s` when there is
/// none.
pub open spec fn first_index<T>(s: Seq<T>, x: T) -> nat
    decreases s.len(),
{
    if s.len() == 0 || s[0] == x {
        0
    } else {
        1 + first_index(s.drop_first(), x)
    }
}

/// The pieces of `s` between the separators.
pub open spec fn split<T>(s: Seq<T>, sep: T) -> Seq<Seq<T>>
    decreases s.len(),
{
    let k = first_index(s, sep);
    if k >= s.len() {
        seq![s]
    } else {
        seq![s.take(k as int)] + split(s.skip((k + 1) as int), sep)
    }
}

/// The characters with the Unicode property `White_Space`.
pub open spec fn is_space(c: char) -> bool {
    let u = c as u32;
    ||| 0x09 <= u <= 0x0d
    ||| u == 0x20
    ||| u == 0x85
    ||| u == 0xa0
    ||| u == 0x1680
    ||| 0x2000 <= u <= 0x200a
    ||| u == 0x2028
    ||| u == 0x2029
    ||| u == 0x202f
    ||| u == 0x205f
    ||| u == 0x3000
}

/// `s` without the white space at its start.
pub open spec fn trim_start(s: Seq<char>) -> Seq<char>
    decreases s.len(),
{
    if s.len() > 0 && is_space(s[0]) {
        trim_start(s.drop_first())
    } else {
        s
    }
}

/// `s` without the white space at its end.
pub open spec fn trim_end(s: Seq<char>) -> Seq<char>
    decreases s.len(),
{
    if s.len() > 0 && is_space(s.last()) {
        trim_end(s.drop_last())
    } else {
        s
    }
}

/// `s` without the white space around it.
pub open spec fn trim(s: Seq<char>) -> Seq<char> {
    trim_end(trim_start(s))
}

/// Whether `s` begins with `p`.
pub open spec fn begins_with(s: Seq<char>, p: Seq<char>) -> bool {
    s.len() >= p.len() && s.take(p.len() as int) == p
}

/// The decimal digits of `n`.
pub open spec fn decimal(n: nat) -> Seq<char>
    decreases n,
{
    if n < 10 {
        seq![digit_char(n)]
    } else {
        decimal(n / 10).push(digit_char(n % 10))
    }
}

/// The character of a digit below ten.
pub open spec fn digit_char(d: nat) -> char {
    (48 + d) as char
}

/// Whether `c` is one of the ten decimal digits.
pub open spec fn is_digit(c: char) -> bool {
    '0' <= c <= '9'
}

/// The number that a sequence of decimal digits stands for.
pub open spec fn digits_value(s: Seq<char>) -> nat
    decreases s.len(),
{
    if s.len() == 0 {
        0
    } else {
        (10 * digits_value(s.drop_last()) + (s.last() as u32 - 48)) as nat
    }
}

/// The 64-bit number written in `s`: at least one digit, nothing but digits
/// save one leading plus sign, and a value that fits.
pub open spec fn number(s: Seq<char>) -> Option<u64> {
    let d = without_plus(s);
    if d.len() > 0 && all_digits(d) && digits_value(d) <= u64::MAX {
        Some(digits_value(d) as u64)
    } else {
        None
    }
}

/// `s` without one leading plus sign.
pub open spec fn without_plus(s: Seq<char>) -> Seq<char> {
    if s.len() > 0 && s[0] == '+' {
        s.drop_first()
    } else {
        s
    }
}

/// Whether `s` consists of decimal digits.
pub open spec fn all_digits(s: Seq<char>) -> bool {
    forall|i: int| 0 <= i < s.len() ==> is_digit(#[trigger] s[i])
}

pub proof fn lemma_first_index<T>(s: Seq<T>, x: T)
    ensures
        0 <= first_index(s, x) <= s.len(),
        forall|i: int| 0 <= i < first_index(s, x) ==> s[i] != x,
        first_index(s, x) < s.len() ==> s[first_index(s, x) as int] == x,
    decreases s.len(),
{
    if s.len() > 0 && s[0] != x {
        let t = s.drop_first();
        lemma_first_index(t, x);
        assert forall|i: int| 0 <= i < first_index(s, x) implies s[i] != x by {
            if i > 0 {
                assert(t[i - 1] != x);
            }
        }
    }
}

/// A position with `x` and none before it is the first index.
pub proof fn lemma_first_index_is<T>(s: Seq<T>, x: T, k: int)
    requires
        0 <= k <= s.len(),
        forall|i: int| 0 <= i < k ==> s[i] != x,
        k < s.len() ==> s[k] == x,
    ensures
        first_index(s, x) == k,
{
    lemma_first_index(s, x);
}

/// Sequences joined by a separator split into the pieces of both.
pub proof fn lemma_split_join<T>(a: Seq<T>, b: Seq<T>, sep: T)
    ensures
        split(a.push(sep) + b, sep) == split(a, sep) + split(b, sep),
    decreases a.len(),
{
    let s = a.push(sep) + b;
    let k = first_index(a, sep) as int;
    lemma_first_index(a, sep);
    lemma_first_index_is(s, sep, k);
    if k == a.len() {
        assert(s.take(k) =~= a);
        assert(s.skip(k + 1) =~= b);
    } else {
        let a2 = a.skip(k + 1);
        lemma_split_join(a2, b, sep);
        assert(s.take(k) =~= a.take(k));
        assert(s.skip(k + 1) =~= a2.push(sep) + b);
    }
    assert(split(s, sep) =~= split(a, sep) + split(b, sep));
}

/// Text with no space at either end is left as it is.
pub proof fn lemma_trim_same(s: Seq<char>)
    requires
        s.len() > 0 ==> !is_space(s[0]) && !is_space(s.last()),
    ensures
        trim(s) == s,
{
}

/// Decimal digits are read back as the number they were written for.
pub proof fn law_decimal_read_back(n: nat)
    ensures
        decimal(n).len() > 0,
        all_digits(decimal(n)),
        digits_value(decimal(n)) == n,
        n <= u64::MAX ==> number(decimal(n)) == Some(n as u64),
    decreases n,
{
    let s = decimal(n);
    if n < 10 {
        assert(s.drop_last() =~= Seq::empty());
        assert(digits_value(s.drop_last()) == 0);
    } else {
        law_decimal_read_back(n / 10);
        assert(s.drop_last() =~= decimal(n / 10));
        assert forall|i: int| 0 <= i < s.len() implies is_digit(#[trigger] s[i]) by {
            if i < s.len() - 1 {
                assert(is_digit(decimal(n / 10)[i]));
            }
        }
    }
    assert(is_digit(s[0]));
}

/// Gives `std::str::from_utf8` its contract: the text is there exactly when
/// the bytes are valid UTF-8, and its own bytes are the ones given.
#[verifier::external_body]
pub(crate) fn utf8_text(bytes: &[u8]) -> (text: Option<&str>)
    ensures
        text is Some <==> vstd::utf8::valid_utf8(bytes@),
        text matches Some(t) ==> vstd::utf8::encode_utf8(t@) == bytes@,
{
    std::str::from_utf8(bytes).ok()
}

/// `String::push` appends one character.
pub assume_specification[ String::push ](s: &mut String, c: char)
    ensures
        final(s)@ == old(s)@.push(c),
;

/// The characters of `s`.
pub fn chars_of(s: &str) -> (v: Vec<char>)
    ensures
        v@ == s@,
{
    let mut v: Vec<char> = Vec::new();
    for c in it: s.chars()
        invariant
            v@ == it.seq().take(it.index() as int),
            it.seq() == s@,
    {
        v.push(c);
    }
    assert(v@ =~= s@);
    v
}

/// The string made of the characters of `v`.
pub fn string_of(v: &[char]) -> (s: String)
    ensures
        s@ == v@,
{
    let mut s = String::new();
    let mut i: usize = 0;
    while i < v.len()
        invariant
            i <= v@.len(),
            s@ == v@.take(i as int),
        decreases v@.len() - i,
    {
        s.push(v[i]);
        i += 1;
        assert(v@.take(i as int) =~= v@.take(i - 1).push(v@[i - 1]));
    }
    assert(v@.take(i as int) =~= v@);
    s
}

/// Whether `v` holds exactly the characters of `s`.
pub fn is_text(v: &[char], s: &str) -> (r: bool)
    ensures
        r == (v@ == s@),
{
    let t = chars_of(s);
    if v.len() != t.len() {
        return false;
    }
    let mut i: usize = 0;
    while i < v.len()
        invariant
            i <= v@.len(),
            v@.len() == t@.len(),
            t@ == s@,
            v@.take(i as int) == t@.take(i as int),
        decreases v@.len() - i,
    {
        if v[i] != t[i] {
            return false;
        }
        i += 1;
        assert(v@.take(i as int) =~= v@.take(i - 1).push(v@[i - 1]));
        assert(t@.take(i as int) =~= t@.take(i - 1).push(t@[i - 1]));
    }
    assert(v@.take(i as int) =~= v@);
    assert(t@.take(i as int) =~= t@);
    true
}

/// What follows `p` at the start of `v`, if `v` begins with it.
pub fn after_prefix<'a>(v: &'a [char], p: &str) -> (r: Option<&'a [char]>)
    ensures
        r is Some <==> begins_with(v@, p@),
        r matches Some(rest) ==> rest@ == v@.skip(p@.len() as int),
{
    let n: usize = chars_of(p).len();
    if v.len() < n {
        return None;
    }
    let head = slice_subrange(v, 0, n);
    assert(head@ =~= v@.take(n as int));
    if !is_text(head, p) {
        return None;
    }
    let rest = slice_subrange(v, n, v.len());
    assert(rest@ =~= v@.skip(n as int));
    Some(rest)
}

fn space(c: char) -> (r: bool)
    ensures
        r == is_space(c),
{
    let u: u32 = c as u32;
    (0x09 <= u && u <= 0x0d) || u == 0x20 || u == 0x85 || u == 0xa0 || u == 0x1680 || (0x2000 <= u
        && u <= 0x200a) || u == 0x2028 || u == 0x2029 || u == 0x202f || u == 0x205f || u == 0x3000
}

/// `s` without the white space around it.
pub fn trimmed(s: &[char]) -> (r: &[char])
    ensures
        r@ == trim(s@),
{
    let mut i: usize = 0;
    assert(s@.skip(0) =~= s@);
    while i < s.len() && space(s[i])
        invariant
            i <= s@.len(),
            trim_start(s@.skip(i as int)) == trim_start(s@),
        decreases s@.len() - i,
    {
        assert(s@.skip(i as int).drop_first() =~= s@.skip(i + 1));
        i += 1;
    }
    let mut j: usize = s.len();
    assert(s@.subrange(i as int, j as int) =~= s@.skip(i as int));
    while j > i && space(s[j - 1])
        invariant
            i <= j <= s@.len(),
            trim_end(s@.subrange(i as int, j as int)) == trim(s@),
        decreases j - i,
    {
        assert(s@.subrange(i as int, j as int).drop_last() =~= s@.subrange(i as int, j - 1));
        j -= 1;
    }
    slice_subrange(s, i, j)
}

/// The first position of `c` in `s` at or after `from`, or the length of `s`.
pub fn index_of(s: &[char], from: usize, c: char) -> (k: usize)
    requires
        from <= s@.len(),
    ensures
        from <= k <= s@.len(),
        k == from + first_index(s@.skip(from as int), c),
{
    let mut k: usize = from;
    while k < s.len() && s[k] != c
        invariant
            from <= k <= s@.len(),
            forall|i: int| from <= i < k ==> s@[i] != c,
        decreases s@.len() - k,
    {
        k += 1;
    }
    proof {
        lemma_first_index_is(s@.skip(from as int), c, k - from);
    }
    k
}

/// Appends the decimal digits of `n`.
pub fn push_decimal(out: &mut Vec<char>, n: u32)
    ensures
        final(out)@ == old(out)@ + decimal(n as nat),
    decreases n,
{
    if n >= 10 {
        push_decimal(out, n / 10);
    }
    out.push((48 + (n % 10) as u8) as char);
    assert(out@ =~= old(out)@ + decimal(n as nat));
}

/// Appends the characters of `s`.
pub fn push_text(out: &mut Vec<char>, s: &str)
    ensures
        final(out)@ == old(out)@ + s@,
{
    let mut t = chars_of(s);
    out.append(&mut t);
}

/// The 64-bit number written in `s`.
pub fn parse_number(s: &[char]) -> (r: Option<u64>)
    ensures
        r == number(s@),
{
    let start: usize = if s.len() > 0 && s[0] == '+' {
        1
    } else {
        0
    };
    let ghost d = without_plus(s@);
    assert(d =~= s@.skip(start as int));
    if s.len() == start {
        return None;
    }
    let mut acc: u64 = 0;
    let mut fits: bool = true;
    let mut i: usize = start;
    while i < s.len()
        invariant
            start <= i <= s@.len(),
            d == s@.skip(start as int),
            d == without_plus(s@),
            forall|j: int| 0 <= j < i - start ==> is_digit(#[trigger] d[j]),
            fits ==> acc == digits_value(d.take(i - start)),
            !fits ==> digits_value(d.take(i - start)) > u64::MAX,
        decreases s@.len() - i,
    {
        let c: char = s[i];
        assert(d[i - start] == c);
        if c < '0' || c > '9' {
            assert(!is_digit(d[i - start]));
            return None;
        }
        let v: u64 = (c as u32 - 48) as u64;
        assert(d.take(i + 1 - start).drop_last() =~= d.take(i - start));
        if fits {
            if acc > (u64::MAX - v) / 10 {
                fits = false;
            } else {
                acc = acc * 10 + v;
            }
        }
        i += 1;
    }
    assert(d.take(i - start) =~= d);
    if fits {
        Some(acc)
    } else {
        None
    }
}

/// The pieces with a separator between each two.
pub open spec fn rejoin<T>(pieces: Seq<Seq<T>>, sep: T) -> Seq<T>
    decreases pieces.len(),
{
    if pieces.len() == 0 {
        Seq::empty()
    } else if pieces.len() == 1 {
        pieces[0]
    } else {
        pieces[0].push(sep) + rejoin(pieces.drop_first(), sep)
    }
}

/// The first index of `x` is where `x` stands for the first time; it is the
/// length exactly where `x` does not occur.
pub proof fn law_first_index<T>(s: Seq<T>, x: T)
    ensures
        first_index(s, x) <= s.len(),
        !s.take(first_index(s, x) as int).contains(x),
        first_index(s, x) < s.len() ==> s[first_index(s, x) as int] == x,
        first_index(s, x) == s.len() <==> !s.contains(x),
{
    lemma_first_index(s, x);
    let k = first_index(s, x) as int;
    let head = s.take(k);
    if head.contains(x) {
        let i = choose|i: int| 0 <= i < head.len() && head[i] == x;
        assert(s[i] == x);
    }
    if k == s.len() {
        assert(head =~= s);
    }
}

/// Splitting loses nothing and leaves no separator: the pieces are free of it
/// and, joined again, give what was split.
pub proof fn law_split_rejoins<T>(s: Seq<T>, sep: T)
    ensures
        split(s, sep).len() > 0,
        forall|i: int| 0 <= i < split(s, sep).len() ==> !(#[trigger] split(s, sep)[i]).contains(sep),
        rejoin(split(s, sep), sep) == s,
    decreases s.len(),
{
    let k = first_index(s, sep) as int;
    let pieces = split(s, sep);
    law_first_index(s, sep);
    if k == s.len() {
        assert(s.take(k) =~= s);
    } else {
        let head = s.take(k);
        let rest = s.skip(k + 1);
        law_split_rejoins(rest, sep);
        let tail = split(rest, sep);
        assert(pieces.drop_first() =~= tail);
        assert(pieces[0] == head);
        assert forall|i: int| 0 <= i < pieces.len() implies !(#[trigger] pieces[i]).contains(
            sep,
        ) by {
            if i > 0 {
                assert(pieces[i] == tail[i - 1]);
            }
        }
        assert(s =~= head.push(sep) + rest);
    }
}

/// White space is what Unicode calls so: the tab, the line breaks, the space
/// and the spaces beyond ASCII, and no other character.
pub proof fn law_space_characters(c: char)
    ensures
        is_space(c) <==> seq![
            '\t', '\n', '\u{b}', '\u{c}', '\r', ' ', '\u{85}', '\u{a0}', '\u{1680}',
            '\u{2000}', '\u{2001}', '\u{2002}', '\u{2003}', '\u{2004}', '\u{2005}',
            '\u{2006}', '\u{2007}', '\u{2008}', '\u{2009}', '\u{200a}', '\u{2028}',
            '\u{2029}', '\u{202f}', '\u{205f}', '\u{3000}',
        ].contains(c),
{
    let all = seq![
        '\t', '\n', '\u{b}', '\u{c}', '\r', ' ', '\u{85}', '\u{a0}', '\u{1680}',
        '\u{2000}', '\u{2001}', '\u{2002}', '\u{2003}', '\u{2004}', '\u{2005}',
        '\u{2006}', '\u{2007}', '\u{2008}', '\u{2009}', '\u{200a}', '\u{2028}',
        '\u{2029}', '\u{202f}', '\u{205f}', '\u{3000}',
    ];
    if is_space(c) {
        let u = c as u32 as int;
        let i = if u <= 0xd {
            u - 9
        } else if u == 0x20 {
            5
        } else if u == 0x85 {
            6
        } else if u == 0xa0 {
            7
        } else if u == 0x1680 {
            8
        } else if u <= 0x200a {
            u - 0x2000 + 9
        } else if u == 0x2028 {
            20
        } else if u == 0x2029 {
            21
        } else if u == 0x202f {
            22
        } else if u == 0x205f {
            23
        } else {
            24
        };
        assert(all[i] == c);
    }
}

/// All of `s` is white space.
pub open spec fn all_space(s: Seq<char>) -> bool {
    forall|i: int| 0 <= i < s.len() ==> is_space(#[trigger] s[i])
}

proof fn lemma_trim_start(s: Seq<char>) -> (i: int)
    ensures
        0 <= i <= s.len(),
        trim_start(s) == s.skip(i),
        all_space(s.take(i)),
        i < s.len() ==> !is_space(s[i]),
    decreases s.len(),
{
    if s.len() > 0 && is_space(s[0]) {
        let t = s.drop_first();
        let j = lemma_trim_start(t);
        let i = j + 1;
        assert(t.skip(j) =~= s.skip(i));
        assert forall|k: int| 0 <= k < i implies is_space(#[trigger] s.take(i)[k]) by {
            if k > 0 {
                assert(s.take(i)[k] == t.take(j)[k - 1]);
            }
        }
        i
    } else {
        assert(s.skip(0) =~= s);
        0
    }
}

proof fn lemma_trim_end(s: Seq<char>) -> (j: int)
    ensures
        0 <= j <= s.len(),
        trim_end(s) == s.take(j),
        all_space(s.skip(j)),
        j > 0 ==> !is_space(s[j - 1]),
    decreases s.len(),
{
    if s.len() > 0 && is_space(s.last()) {
        let t = s.drop_last();
        let j = lemma_trim_end(t);
        assert(t.take(j) =~= s.take(j));
        assert forall|k: int| 0 <= k < s.len() - j implies is_space(#[trigger] s.skip(j)[k]) by {
            if k < s.len() - j - 1 {
                assert(s.skip(j)[k] == t.skip(j)[k]);
            }
        }
        j
    } else {
        assert(s.take(s.len() as int) =~= s);
        s.len() as int
    }
}

/// Trimming takes white space off both ends and nothing else: what is taken
/// off is white space, and what stays neither begins nor ends with any.
pub proof fn law_trim(s: Seq<char>) -> (ends: (Seq<char>, Seq<char>))
    ensures
        s == ends.0 + trim(s) + ends.1,
        all_space(ends.0),
        all_space(ends.1),
        trim(s).len() > 0 ==> !is_space(trim(s)[0]) && !is_space(trim(s).last()),
{
    let i = lemma_trim_start(s);
    let t = s.skip(i);
    let j = lemma_trim_end(t);
    assert(s =~= s.take(i) + t.take(j) + t.skip(j));
    if j > 0 {
        assert(t.take(j)[0] == s[i]);
        assert(t.take(j).last() == t[j - 1]);
    }
    (s.take(i), t.skip(j))
}

/// White space around text that neither begins nor ends with any is trimmed
/// away, whatever it is.
pub proof fn law_trim_padded(before: Seq<char>, s: Seq<char>, after: Seq<char>)
    requires
        all_space(before),
        all_space(after),
        s.len() > 0 ==> !is_space(s[0]) && !is_space(s.last()),
    ensures
        trim(before + s + after) == s,
    decreases before.len() + after.len(),
{
    let all = before + s + after;
    if before.len() > 0 {
        let b = before.drop_first();
        assert(all.drop_first() =~= b + s + after);
        assert forall|i: int| 0 <= i < b.len() implies is_space(#[trigger] b[i]) by {
            assert(b[i] == before[i + 1]);
        }
        assert(all[0] == before[0]);
        law_trim_padded(b, s, after);
    } else if s.len() == 0 {
        assert(all =~= after);
        if after.len() > 0 {
            let a = after.drop_first();
            assert forall|i: int| 0 <= i < a.len() implies is_space(#[trigger] a[i]) by {
                assert(a[i] == after[i + 1]);
            }
            assert(is_space(after[0]));
            law_trim_padded(before, s, a);
            assert(before + s + a =~= a);
        }
    } else {
        assert(all[0] == s[0]);
        assert(trim_start(all) == all);
        if after.len() > 0 {
            let a = after.drop_last();
            assert(all.drop_last() =~= before + s + a);
            assert forall|i: int| 0 <= i < a.len() implies is_space(#[trigger] a[i]) by {
                assert(a[i] == after[i]);
            }
            assert(all.last() == after[after.len() - 1]);
            law_trim_padded(before, s, a);
            assert((before + s + a)[0] == s[0]);
        } else {
            assert(all =~= s);
        }
    }
}

/// A text begins with another exactly when it is that text with something
/// after it.
pub proof fn law_begins_with(s: Seq<char>, p: Seq<char>, rest: Seq<char>)
    ensures
        begins_with(p + rest, p),
        begins_with(s, p) ==> s == p + s.skip(p.len() as int),
{
    assert((p + rest).take(p.len() as int) =~= p);
    if begins_with(s, p) {
        assert(s =~= p + s.skip(p.len() as int));
    }
}

/// Decimal notation counts in tens: a digit more makes the number ten times
/// as large and adds the digit, the single digits count from zero to nine,
/// and no number is written with a zero in front but zero itself.
pub proof fn law_decimal_notation(s: Seq<char>, d: char, n: nat)
    requires
        all_digits(s),
        is_digit(d),
    ensures
        digits_value(s.push(d)) == 10 * digits_value(s) + (d as int - '0' as int),
        digits_value(seq![d]) == d as int - '0' as int,
        decimal(n).len() > 1 ==> decimal(n)[0] != '0',
{
    assert(s.push(d).drop_last() =~= s);
    assert(seq![d].drop_last() =~= Seq::empty());
    assert(digits_value(Seq::empty()) == 0);
    lemma_first_digit(n);
}

/// There are ten decimal digits.
pub proof fn law_digits(c: char)
    ensures
        is_digit(c) <==> seq!['0', '1', '2', '3', '4', '5', '6', '7', '8', '9'].contains(c),
{
    let all = seq!['0', '1', '2', '3', '4', '5', '6', '7', '8', '9'];
    if is_digit(c) {
        assert(all[c as int - 48] == c);
    }
}

pub proof fn lemma_first_digit(n: nat)
    ensures
        decimal(n).len() > 0,
        n > 0 ==> decimal(n)[0] != '0',
    decreases n,
{
    if n >= 10 {
        lemma_first_digit(n / 10);
        assert(decimal(n)[0] == decimal(n / 10)[0]);
    }
}

/// What counts as a 64-bit number: digits, with or without one plus sign in
/// front, whose value fits. Without a digit, with any other character, or
/// with a value that does not fit, there is no number.
pub proof fn law_number(d: Seq<char>, s: Seq<char>, i: int)
    requires
        d.len() > 0,
        all_digits(d),
        0 <= i < s.len(),
        !is_digit(s[i]),
        i > 0 || s[0] != '+',
    ensures
        digits_value(d) <= u64::MAX ==> number(d) == Some(digits_value(d) as u64),
        digits_value(d) > u64::MAX ==> number(d) is None,
        number(seq!['+'] + d) == number(d),
        number(s) is None,
        number(Seq::empty()) is None,
        number(seq!['+']) is None,
{
    assert(is_digit(d[0]));
    assert((seq!['+'] + d).drop_first() =~= d);
    assert(seq!['+'].drop_first() =~= Seq::empty());
    let t = without_plus(s);
    if s[0] == '+' {
        assert(t[i - 1] == s[i]);
    } else {
        assert(t[i] == s[i]);
    }
}

} // verus!

//! File paths as bytes, with `/` between their components.
//!
//! Components are what stands between separators; empty ones and single dots
//! count for nothing, as in `std::path`.

use vstd::prelude::*;
use vstd::slice::slice_subrange;
use vstd::utf8::{encode_utf8, valid_utf8};
#[allow(unused_imports)]
use vstd::utf8::{
    encode_utf8_decode_utf8, encode_utf8_valid_utf8, is_ascii_chars_encode_utf8,
    is_char_boundary_iff_not_is_continuation_byte, is_continuation_byte, is_leading_byte_width_1,
    pop_first_scalar, valid_utf8_split,
};
use crate::text::{push_decimal, push_text, string_of, utf8_text};
use crate::wire::push_bytes;
#[allow(unused_imports)]
use crate::text::{
    decimal, is_digit, law_decimal_read_back, lemma_first_index_is, lemma_split_join, split,
};

verus! {

pub const SLASH: u8 = 47;

pub const DOT: u8 = 46;

/// Whether a component names something: it is neither empty nor a single dot.
pub open spec fn is_name(c: Seq<u8>) -> bool {
    c.len() > 0 && c != seq![DOT]
}

/// The named components of a path.
#[verifier::opaque]
pub open spec fn names(p: Seq<u8>) -> Seq<Seq<u8>> {
    split(p, SLASH).filter(|c: Seq<u8>| is_name(c))
}

/// The last component, unless the path has none or ends by going up.
pub open spec fn file_name(p: Seq<u8>) -> Option<Seq<u8>> {
    if names(p).len() == 0 || names(p).last() == seq![DOT, DOT] {
        None
    } else {
        Some(names(p).last())
    }
}

/// `rest` taken relative to `dir`; an absolute `rest` stands for itself.
pub open spec fn join(dir: Seq<u8>, rest: Seq<u8>) -> Seq<u8> {
    if rest.len() > 0 && rest[0] == SLASH {
        rest
    } else if dir.len() == 0 || dir.last() == SLASH {
        dir + rest
    } else {
        dir.push(SLASH) + rest
    }
}

/// How much of a path stands before its components: the root, or a leading
/// single dot.
pub open spec fn prefix_len(p: Seq<u8>) -> nat {
    if p.len() > 0 && (p[0] == SLASH || (p[0] == DOT && (p.len() == 1 || p[1] == SLASH))) {
        1
    } else {
        0
    }
}

/// Where the last component of `p` begins, looking no further back than `b`.
pub open spec fn tail_start(p: Seq<u8>, b: nat) -> nat
    decreases p.len(),
{
    if p.len() <= b {
        b
    } else if p.last() == SLASH {
        p.len()
    } else {
        tail_start(p.drop_last(), b)
    }
}

/// `p` without its last component and the separator before it.
pub open spec fn without_tail(p: Seq<u8>, b: nat) -> Seq<u8> {
    let i = tail_start(p, b);
    p.take(if i > b {
        i - 1
    } else {
        b as int
    })
}

/// `p` without the components at its end that name nothing.
pub open spec fn strip(p: Seq<u8>, b: nat) -> Seq<u8>
    decreases p.len(),
{
    if p.len() <= b || is_name(p.skip(tail_start(p, b) as int)) {
        p
    } else {
        proof {
            lemma_tail_start(p, b);
        }
        strip(without_tail(p, b), b)
    }
}

/// The path without its last component; the root and the empty path have no
/// parent.
pub open spec fn parent(p: Seq<u8>) -> Option<Seq<u8>> {
    let b = prefix_len(p);
    let q = strip(p, b);
    if q.len() > b {
        Some(strip(without_tail(q, b), b))
    } else if p.len() > 0 && p[0] == DOT {
        Some(Seq::empty())
    } else {
        None
    }
}

/// The position of the last dot of a file name, or zero when there is none.
pub open spec fn last_dot(f: Seq<u8>) -> nat
    decreases f.len(),
{
    if f.len() == 0 {
        0
    } else if f.last() == DOT {
        (f.len() - 1) as nat
    } else {
        last_dot(f.drop_last())
    }
}

/// A file name without its extension. A dot at the very start begins no
/// extension.
pub open spec fn stem(f: Seq<u8>) -> Seq<u8> {
    if last_dot(f) == 0 {
        f
    } else {
        f.take(last_dot(f) as int)
    }
}

/// What follows the last dot of a file name, unless that dot is at the very
/// start.
pub open spec fn extension(f: Seq<u8>) -> Option<Seq<u8>> {
    if last_dot(f) == 0 {
        None
    } else {
        Some(f.skip((last_dot(f) + 1) as int))
    }
}

/// `stem (n).extension`. A stem that is no text gives way to `file`, and an
/// extension that is no text is left out.
pub open spec fn numbered(f: Option<Seq<u8>>, n: u32) -> Seq<u8> {
    let s = match f {
        Some(f) if valid_utf8(stem(f)) => stem(f),
        _ => encode_utf8("file"@),
    };
    let e = match f {
        Some(f) => extension(f),
        None => None,
    };
    let base = s + encode_utf8(" ("@ + decimal(n as nat) + ")"@);
    match e {
        Some(e) if valid_utf8(e) => base.push(DOT) + e,
        _ => base,
    }
}

/// The path of the `n`th alternative to `base`, beside it.
pub open spec fn alternative(base: Seq<u8>, n: u32) -> Seq<u8> {
    let dir = match parent(base) {
        Some(d) => d,
        None => Seq::empty(),
    };
    join(dir, numbered(file_name(base), n))
}

pub proof fn lemma_tail_start(p: Seq<u8>, b: nat)
    ensures
        b <= tail_start(p, b),
        p.len() > b ==> tail_start(p, b) <= p.len() && without_tail(p, b).len() < p.len(),
        forall|i: int| tail_start(p, b) <= i < p.len() ==> p[i] != SLASH,
        tail_start(p, b) > b ==> p[tail_start(p, b) - 1] == SLASH,
    decreases p.len(),
{
    if p.len() > b && p.last() != SLASH {
        lemma_tail_start(p.drop_last(), b);
        assert forall|i: int| tail_start(p, b) <= i < p.len() implies p[i] != SLASH by {
            if i < p.len() - 1 {
                assert(p.drop_last()[i] != SLASH);
            }
        }
    }
}

proof fn lemma_names_join(a: Seq<u8>, b: Seq<u8>)
    ensures
        names(a.push(SLASH) + b) == names(a) + names(b),
{
    reveal(names);
    lemma_split_join(a, b, SLASH);
    Seq::<Seq<u8>>::filter_distributes_over_add(
        split(a, SLASH),
        split(b, SLASH),
        |c: Seq<u8>| is_name(c),
    );
}

/// The names of a path of one component.
pub proof fn lemma_names_single(t: Seq<u8>)
    requires
        forall|i: int| 0 <= i < t.len() ==> t[i] != SLASH,
    ensures
        names(t) == (if is_name(t) {
            seq![t]
        } else {
            Seq::empty()
        }),
{
    lemma_first_index_is(t, SLASH, t.len() as int);
    reveal(names);
    reveal(Seq::filter);
    let keep = |c: Seq<u8>| is_name(c);
    let one = split(t, SLASH);
    assert(one =~= seq![t]);
    assert(one.drop_last() =~= Seq::<Seq<u8>>::empty());
    assert(one.drop_last().filter(keep) =~= Seq::<Seq<u8>>::empty());
    assert(names(t) =~= if is_name(t) {
        seq![t]
    } else {
        Seq::empty()
    });
}

/// `b` counts the bytes before the components of `p`.
spec fn prefixed(p: Seq<u8>, b: nat) -> bool {
    ||| b == 0
    ||| b == 1 && p.len() >= 1 && (p[0] == SLASH || (p[0] == DOT && (p.len() == 1 || p[1]
        == SLASH)))
}

proof fn lemma_without_tail(p: Seq<u8>, b: nat)
    requires
        prefixed(p, b),
        p.len() > b,
    ensures
        prefixed(without_tail(p, b), b),
        without_tail(p, b).len() < p.len(),
        ({
            let t = p.skip(tail_start(p, b) as int);
            names(p) == names(without_tail(p, b)) + (if is_name(t) {
                seq![t]
            } else {
                Seq::empty()
            })
        }),
{
    lemma_tail_start(p, b);
    let i = tail_start(p, b) as int;
    let t = p.skip(i);
    lemma_names_single(t);
    lemma_names_single(Seq::empty());
    if i > 0 {
        let a = p.take(i - 1);
        assert(p =~= a.push(SLASH) + t);
        lemma_names_join(a, t);
        if i == b {
            lemma_names_join(Seq::empty(), Seq::empty());
            assert(a =~= Seq::empty());
            assert(without_tail(p, b) =~= Seq::empty().push(SLASH) + Seq::<u8>::empty());
        }
    } else {
        assert(p =~= t);
        assert(without_tail(p, b) =~= Seq::empty());
    }
    assert(names(p) =~= names(without_tail(p, b)) + names(t));
}

proof fn lemma_strip(p: Seq<u8>, b: nat)
    requires
        prefixed(p, b),
    ensures
        prefixed(strip(p, b), b),
        names(strip(p, b)) == names(p),
        strip(p, b).len() <= p.len(),
        strip(p, b).len() > b ==> ({
            let q = strip(p, b);
            let t = q.skip(tail_start(q, b) as int);
            is_name(t) && names(q) == names(without_tail(q, b)).push(t)
        }),
        strip(p, b).len() <= b ==> names(p).len() == 0,
    decreases p.len(),
{
    if p.len() <= b {
        lemma_names_single(Seq::empty());
        if p.len() == 0 {
            assert(p =~= Seq::empty());
        } else if p[0] == SLASH {
            lemma_names_join(Seq::empty(), Seq::empty());
            assert(p =~= Seq::empty().push(SLASH) + Seq::<u8>::empty());
        } else {
            assert(p =~= seq![DOT]);
            lemma_names_single(p);
        }
    } else {
        lemma_without_tail(p, b);
        let t = p.skip(tail_start(p, b) as int);
        if is_name(t) {
            assert(names(p) =~= names(without_tail(p, b)).push(t));
        } else {
            lemma_strip(without_tail(p, b), b);
            assert(names(p) =~= names(without_tail(p, b)));
        }
    }
}

fn tail_start_of(p: &[u8], b: usize) -> (i: usize)
    requires
        b <= p@.len(),
    ensures
        i == tail_start(p@, b as nat),
        b <= i <= p@.len(),
{
    let mut i: usize = p.len();
    assert(p@.take(i as int) =~= p@);
    while i > b && p[i - 1] != SLASH
        invariant
            b <= i <= p@.len(),
            tail_start(p@, b as nat) == tail_start(p@.take(i as int), b as nat),
        decreases i,
    {
        assert(p@.take(i as int).drop_last() =~= p@.take(i - 1));
        i -= 1;
    }
    i
}

fn names_something(c: &[u8]) -> (r: bool)
    ensures
        r == is_name(c@),
{
    if c.len() == 1 {
        assert(c@ == seq![DOT] <==> c@[0] == DOT) by {
            assert(c@ =~= seq![c@[0]]);
        }
        c[0] != DOT
    } else {
        c.len() > 0
    }
}

fn drop_tail(p: &[u8], b: usize) -> (r: &[u8])
    requires
        b < p@.len(),
    ensures
        r@ == without_tail(p@, b as nat),
        b <= r@.len() < p@.len(),
{
    let i: usize = tail_start_of(p, b);
    let n: usize = if i > b {
        i - 1
    } else {
        b
    };
    assert(p@.subrange(0, n as int) =~= p@.take(n as int));
    slice_subrange(p, 0, n)
}

fn stripped(p: &[u8], b: usize) -> (r: &[u8])
    requires
        b <= p@.len(),
    ensures
        r@ == strip(p@, b as nat),
        b <= r@.len(),
{
    let mut q: &[u8] = p;
    while q.len() > b
        invariant
            b <= q@.len(),
            strip(q@, b as nat) == strip(p@, b as nat),
        ensures
            q@ == strip(p@, b as nat),
        decreases q@.len(),
    {
        let i: usize = tail_start_of(q, b);
        let t = slice_subrange(q, i, q.len());
        assert(t@ =~= q@.skip(i as int));
        if names_something(t) {
            break;
        }
        q = drop_tail(q, b);
    }
    q
}

fn prefix_of(p: &[u8]) -> (b: usize)
    ensures
        b == prefix_len(p@),
        b <= p@.len(),
        prefixed(p@, b as nat),
{
    if p.len() > 0 && (p[0] == SLASH || (p[0] == DOT && (p.len() == 1 || p[1] == SLASH))) {
        1
    } else {
        0
    }
}

/// The last component of a path, unless it has none or ends by going up.
pub fn file_name_of(p: &[u8]) -> (r: Option<Vec<u8>>)
    ensures
        r is Some <==> file_name(p@) is Some,
        r matches Some(f) ==> file_name(p@) == Some(f@),
{
    let b: usize = prefix_of(p);
    let q = stripped(p, b);
    proof {
        lemma_strip(p@, b as nat);
    }
    if q.len() <= b {
        return None;
    }
    let i: usize = tail_start_of(q, b);
    let t = slice_subrange(q, i, q.len());
    assert(t@ =~= q@.skip(i as int));
    assert(names(p@).last() == t@);
    if t.len() == 2 && t[0] == DOT && t[1] == DOT {
        assert(t@ =~= seq![DOT, DOT]);
        return None;
    }
    let mut f: Vec<u8> = Vec::new();
    push_bytes(&mut f, t);
    assert(f@ =~= t@);
    Some(f)
}

/// The path without its last component, or an empty path when it has none.
fn parent_of(p: &[u8]) -> (r: &[u8])
    ensures
        r@ == (match parent(p@) {
            Some(d) => d,
            None => Seq::empty(),
        }),
{
    let b: usize = prefix_of(p);
    let q = stripped(p, b);
    if q.len() > b {
        stripped(drop_tail(q, b), b)
    } else {
        let r = slice_subrange(p, 0, 0);
        assert(r@ =~= Seq::<u8>::empty());
        r
    }
}

/// `rest` taken relative to `dir`.
pub fn joined(dir: &[u8], rest: &[u8]) -> (r: Vec<u8>)
    ensures
        r@ == join(dir@, rest@),
{
    let mut r: Vec<u8> = Vec::new();
    if !(rest.len() > 0 && rest[0] == SLASH) {
        push_bytes(&mut r, dir);
        if dir.len() > 0 && dir[dir.len() - 1] != SLASH {
            r.push(SLASH);
        }
    }
    push_bytes(&mut r, rest);
    assert(r@ =~= join(dir@, rest@));
    r
}

fn last_dot_of(f: &[u8]) -> (k: usize)
    ensures
        k == last_dot(f@),
        f@.len() > 0 ==> k < f@.len(),
{
    let mut n: usize = f.len();
    assert(f@.take(n as int) =~= f@);
    while n > 0 && f[n - 1] != DOT
        invariant
            n <= f@.len(),
            last_dot(f@.take(n as int)) == last_dot(f@),
        decreases n,
    {
        assert(f@.take(n as int).drop_last() =~= f@.take(n - 1));
        n -= 1;
    }
    if n == 0 {
        0
    } else {
        n - 1
    }
}

fn numbered_name(f: Option<Vec<u8>>, n: u32) -> (r: Vec<u8>)
    ensures
        r@ == numbered(
            (match f {
                Some(f) => Some(f@),
                None => None,
            }),
            n,
        ),
{
    let mut suffix: Vec<char> = Vec::new();
    push_text(&mut suffix, " (");
    push_decimal(&mut suffix, n);
    push_text(&mut suffix, ")");
    assert(suffix@ =~= " ("@ + decimal(n as nat) + ")"@);
    let suffix = string_of(suffix.as_slice());
    let mut r: Vec<u8> = Vec::new();
    match f {
        None => {
            push_bytes(&mut r, "file".as_bytes());
            push_bytes(&mut r, suffix.as_str().as_bytes());
            assert(r@ =~= encode_utf8("file"@) + encode_utf8(suffix@));
        },
        Some(f) => {
            let k: usize = last_dot_of(f.as_slice());
            let s = slice_subrange(f.as_slice(), 0, if k == 0 {
                f.len()
            } else {
                k
            });
            assert(s@ =~= stem(f@));
            match utf8_text(s) {
                Some(_) => push_bytes(&mut r, s),
                None => push_bytes(&mut r, "file".as_bytes()),
            }
            push_bytes(&mut r, suffix.as_str().as_bytes());
            let ghost base = r@;
            if k > 0 {
                let e = slice_subrange(f.as_slice(), k + 1, f.len());
                assert(e@ =~= f@.skip(k + 1));
                if utf8_text(e).is_some() {
                    r.push(DOT);
                    push_bytes(&mut r, e);
                }
            }
            assert(r@ =~= numbered(Some(f@), n));
        },
    }
    r
}

/// The path of the `n`th alternative to `base`: `name.ext` becomes
/// `name (n).ext` in the same directory.
pub fn uniquified(base: &[u8], n: u32) -> (r: Vec<u8>)
    ensures
        r@ == alternative(base@, n),
{
    let name = numbered_name(file_name_of(base), n);
    joined(parent_of(base), name.as_slice())
}

/// What a file name is: one component that names something and does not go
/// up, free of separators.
pub open spec fn is_plain(f: Seq<u8>) -> bool {
    &&& is_name(f)
    &&& f != seq![DOT, DOT]
    &&& forall|i: int| 0 <= i < f.len() ==> f[i] != SLASH
}

/// The file name taken from any path is a single plain component, whatever
/// directories and `..` the path holds.
pub proof fn law_file_name_plain(p: Seq<u8>)
    ensures
        file_name(p) matches Some(f) ==> is_plain(f),
{
    let b = prefix_len(p);
    lemma_strip(p, b);
    let q = strip(p, b);
    lemma_tail_start(q, b);
    if q.len() > b {
        let t = q.skip(tail_start(q, b) as int);
        assert(names(p).last() == t);
        assert forall|i: int| 0 <= i < t.len() implies t[i] != SLASH by {
            assert(q[tail_start(q, b) + i] != SLASH);
        }
    }
}

/// A path joined to a relative one has the components of both.
pub proof fn law_join_names(dir: Seq<u8>, rest: Seq<u8>)
    requires
        rest.len() > 0 ==> rest[0] != SLASH,
    ensures
        names(join(dir, rest)) == names(dir) + names(rest),
{
    lemma_names_single(Seq::empty());
    if dir.len() == 0 {
        assert(dir =~= Seq::empty());
        assert(dir + rest =~= rest);
        assert(names(dir) + names(rest) =~= names(rest));
    } else if dir.last() == SLASH {
        let d = dir.drop_last();
        assert(dir =~= d.push(SLASH) + Seq::<u8>::empty());
        assert(dir + rest =~= d.push(SLASH) + rest);
        lemma_names_join(d, Seq::empty());
        lemma_names_join(d, rest);
        assert(names(d) + Seq::<Seq<u8>>::empty() =~= names(d));
    } else {
        lemma_names_join(dir, rest);
    }
}

/// The parent of a path has all of its components but the last.
pub proof fn law_parent_names(p: Seq<u8>)
    requires
        names(p).len() > 0,
    ensures
        parent(p) matches Some(d) && names(d) == names(p).drop_last(),
{
    let b = prefix_len(p);
    lemma_strip(p, b);
    let q = strip(p, b);
    lemma_without_tail(q, b);
    lemma_strip(without_tail(q, b), b);
    assert(names(p).drop_last() =~= names(without_tail(q, b)));
}

proof fn lemma_suffix(n: u32)
    ensures
        ({
            let c = " ("@ + decimal(n as nat) + ")"@;
            let e = encode_utf8(c);
            &&& e.len() == c.len() >= 4
            &&& forall|i: int| 0 <= i < e.len() ==> #[trigger] e[i] != SLASH && e[i] != DOT
        }),
        valid_utf8(encode_utf8(" ("@ + decimal(n as nat) + ")"@)),
{
    let c = " ("@ + decimal(n as nat) + ")"@;
    reveal_strlit(" (");
    reveal_strlit(")");
    law_decimal_read_back(n as nat);
    let d = decimal(n as nat);
    assert forall|i: int| 0 <= i < c.len() implies '\0' <= #[trigger] c[i] <= '\u{7f}' && c[i] != '/'
        && c[i] != '.' by {
        if 2 <= i < 2 + d.len() {
            assert(c[i] == d[i - 2]);
            assert(is_digit(d[i - 2]));
        }
    }
    is_ascii_chars_encode_utf8(c);
    let e = encode_utf8(c);
    assert forall|i: int| 0 <= i < e.len() implies #[trigger] e[i] != SLASH && e[i] != DOT by {
        assert(c[i] as u8 == e[i]);
    }
    encode_utf8_valid_utf8(c);
}

proof fn lemma_file_text()
    ensures
        ({
            let e = encode_utf8("file"@);
            e.len() == 4 && e[0] != SLASH && forall|i: int|
                0 <= i < e.len() ==> #[trigger] e[i] != SLASH && e[i] != DOT
        }),
{
    let c = "file"@;
    reveal_strlit("file");
    is_ascii_chars_encode_utf8(c);
    assert forall|i: int| 0 <= i < 4 implies #[trigger] encode_utf8(c)[i] != SLASH && encode_utf8(
        c,
    )[i] != DOT by {
        assert(c[i] as u8 == encode_utf8(c)[i]);
    }
}

proof fn lemma_last_dot(f: Seq<u8>)
    ensures
        f.len() > 0 ==> last_dot(f) < f.len(),
        last_dot(f) > 0 ==> f[last_dot(f) as int] == DOT,
    decreases f.len(),
{
    if f.len() > 0 && f.last() != DOT {
        lemma_last_dot(f.drop_last());
    }
}

/// An alternative name is again a plain component.
pub proof fn law_numbered_plain(f: Seq<u8>, n: u32)
    requires
        is_plain(f),
    ensures
        is_plain(numbered(Some(f), n)),
{
    lemma_suffix(n);
    lemma_file_text();
    lemma_last_dot(f);
    let r = numbered(Some(f), n);
    let s = if valid_utf8(stem(f)) {
        stem(f)
    } else {
        encode_utf8("file"@)
    };
    let u = encode_utf8(" ("@ + decimal(n as nat) + ")"@);
    assert forall|i: int| 0 <= i < r.len() implies r[i] != SLASH by {
        if i < s.len() {
            assert(r[i] == s[i]);
        } else if i < s.len() + u.len() {
            assert(r[i] == u[i - s.len()]);
        } else if i > s.len() + u.len() {
            let e = extension(f).unwrap();
            let j = i - s.len() - u.len() - 1;
            assert(r[i] == e[j]);
            assert(e[j] == f[last_dot(f) + 1 + j]);
        }
    }
    assert(r.len() >= 4);
}

proof fn lemma_strip_prefix(p: Seq<u8>, b: nat)
    requires
        b <= p.len(),
    ensures
        b <= strip(p, b).len() <= p.len(),
        strip(p, b) == p.take(strip(p, b).len() as int),
        b < strip(p, b).len() < p.len() ==> p[strip(p, b).len() as int] == SLASH,
    decreases p.len(),
{
    if p.len() <= b || is_name(p.skip(tail_start(p, b) as int)) {
        assert(p =~= p.take(p.len() as int));
    } else {
        lemma_tail_start(p, b);
        let w = without_tail(p, b);
        lemma_strip_prefix(w, b);
        assert(strip(p, b) =~= p.take(strip(p, b).len() as int));
        if b < strip(p, b).len() < w.len() {
            assert(w[strip(p, b).len() as int] == p[strip(p, b).len() as int]);
        }
    }
}

/// Whether a path starts at the root.
pub open spec fn is_absolute(p: Seq<u8>) -> bool {
    p.len() > 0 && p[0] == SLASH
}

/// An alternative lies beside the path it replaces: it starts at the root if
/// that does, and it has the same components but for the last, which is the
/// numbered name.
pub proof fn law_alternative_beside(base: Seq<u8>, n: u32)
    requires
        file_name(base) is Some,
    ensures
        names(alternative(base, n)) == names(base).drop_last().push(
            numbered(file_name(base), n),
        ),
        is_absolute(alternative(base, n)) == is_absolute(base),
{
    let f = file_name(base).unwrap();
    let r = numbered(Some(f), n);
    law_file_name_plain(base);
    law_numbered_plain(f, n);
    law_parent_names(base);
    let d = parent(base).unwrap();
    law_join_names(d, r);
    lemma_names_single(r);
    assert(names(d) + seq![r] =~= names(base).drop_last().push(r));
    let b = prefix_len(base);
    let q = strip(base, b);
    lemma_strip(base, b);
    lemma_strip_prefix(base, b);
    lemma_tail_start(q, b);
    lemma_strip_prefix(without_tail(q, b), b);
}

proof fn lemma_numbered_injective(f: Option<Seq<u8>>, n: u32, m: u32)
    requires
        numbered(f, n) == numbered(f, m),
    ensures
        n == m,
{
    let s = match f {
        Some(f) if valid_utf8(stem(f)) => stem(f),
        _ => encode_utf8("file"@),
    };
    let cn = " ("@ + decimal(n as nat) + ")"@;
    let cm = " ("@ + decimal(m as nat) + ")"@;
    let un = encode_utf8(cn);
    let um = encode_utf8(cm);
    let rn = numbered(f, n);
    let rm = numbered(f, m);
    let more: nat = match f {
        Some(f) => match extension(f) {
            Some(e) if valid_utf8(e) => 1 + e.len(),
            _ => 0,
        },
        None => 0,
    };
    assert(rn.len() == s.len() + un.len() + more);
    assert(rm.len() == s.len() + um.len() + more);
    assert(un =~= rn.subrange(s.len() as int, (s.len() + un.len()) as int));
    assert(um =~= rm.subrange(s.len() as int, (s.len() + um.len()) as int));
    encode_utf8_decode_utf8(cn);
    encode_utf8_decode_utf8(cm);
    assert(cn == cm);
    let k = " ("@.len() as int;
    assert(decimal(n as nat) =~= cn.subrange(k, cn.len() - ")"@.len()));
    assert(decimal(m as nat) =~= cm.subrange(k, cm.len() - ")"@.len()));
    law_decimal_read_back(n as nat);
    law_decimal_read_back(m as nat);
}

/// Different numbers give different names.
pub proof fn law_numbered_distinct(f: Option<Seq<u8>>, n: u32, m: u32)
    requires
        n != m,
    ensures
        numbered(f, n) != numbered(f, m),
{
    if numbered(f, n) == numbered(f, m) {
        lemma_numbered_injective(f, n, m);
    }
}

/// An alternative to a name that is text differs from the name itself.
pub proof fn law_numbered_differs(f: Seq<u8>, n: u32)
    requires
        valid_utf8(f),
    ensures
        numbered(Some(f), n) != f,
{
    lemma_suffix(n);
    lemma_last_dot(f);
    let k = last_dot(f) as int;
    if k > 0 {
        assert(!is_continuation_byte(DOT));
        is_char_boundary_iff_not_is_continuation_byte(f, k);
        valid_utf8_split(f, k);
        let rest = f.subrange(k, f.len() as int);
        assert(stem(f) =~= f.subrange(0, k));
        let e = extension(f).unwrap();
        assert(e =~= rest.subrange(1, rest.len() as int));
        assert(rest[0] == DOT);
        assert(valid_utf8(rest));
        assert(is_leading_byte_width_1(DOT));
        assert(pop_first_scalar(rest) =~= e);
    }
}

/// What follows a separator in a path that is text is text.
proof fn lemma_text_after_slash(p: Seq<u8>, i: int)
    requires
        valid_utf8(p),
        0 < i <= p.len(),
        p[i - 1] == SLASH,
    ensures
        valid_utf8(p.skip(i)),
{
    assert(!is_continuation_byte(SLASH));
    is_char_boundary_iff_not_is_continuation_byte(p, i - 1);
    valid_utf8_split(p, i - 1);
    let rest = p.subrange(i - 1, p.len() as int);
    assert(rest[0] == SLASH);
    assert(is_leading_byte_width_1(SLASH));
    assert(pop_first_scalar(rest) =~= p.skip(i));
}

/// The file name of a path that is text is text.
pub proof fn law_file_name_text(p: Seq<u8>)
    requires
        valid_utf8(p),
    ensures
        file_name(p) matches Some(f) ==> valid_utf8(f),
{
    let b = prefix_len(p);
    let q = strip(p, b);
    lemma_strip(p, b);
    lemma_strip_prefix(p, b);
    lemma_tail_start(q, b);
    if q.len() > b {
        let n = q.len() as int;
        if n < p.len() {
            assert(!is_continuation_byte(SLASH));
            is_char_boundary_iff_not_is_continuation_byte(p, n);
            valid_utf8_split(p, n);
            assert(q =~= p.subrange(0, n));
        } else {
            assert(q =~= p);
        }
        assert(valid_utf8(q));
        let i = tail_start(q, b) as int;
        assert(names(p).last() == q.skip(i));
        if i > 0 {
            assert(q[i - 1] == SLASH);
            lemma_text_after_slash(q, i);
        } else {
            assert(q.skip(0) =~= q);
        }
    }
}

/// The components of a path are what stands between its separators: a
/// separator joins the components of what stands before it and behind it, and
/// a piece without one is a component itself unless it is empty or a dot.
pub proof fn law_names(a: Seq<u8>, b: Seq<u8>, piece: Seq<u8>)
    requires
        !piece.contains('/' as u8),
    ensures
        names(a.push('/' as u8) + b) == names(a) + names(b),
        piece.len() == 0 || piece == seq!['.' as u8] ==> names(piece).len() == 0,
        piece.len() > 0 && piece != seq!['.' as u8] ==> names(piece) == seq![piece],
{
    assert forall|i: int| 0 <= i < piece.len() implies piece[i] != SLASH by {
        assert(piece.contains(piece[i]));
    }
    lemma_names_join(a, b);
    lemma_names_single(piece);
}

/// The file name is the last component: separators and single dots behind it
/// do not matter, and a path that ends by going up, or holds no component,
/// has none.
pub proof fn law_file_name(dir: Seq<u8>, leaf: Seq<u8>)
    requires
        leaf.len() > 0,
        !leaf.contains('/' as u8),
        leaf != seq!['.' as u8],
        leaf != seq!['.' as u8, '.' as u8],
    ensures
        file_name(leaf) == Some(leaf),
        file_name(dir.push('/' as u8) + leaf) == Some(leaf),
        file_name(dir.push('/' as u8)) == file_name(dir),
        file_name(dir.push('/' as u8).push('.' as u8)) == file_name(dir),
        file_name(dir.push('/' as u8) + seq!['.' as u8, '.' as u8]) is None,
        file_name(seq!['.' as u8, '.' as u8]) is None,
        file_name(seq!['.' as u8]) is None,
        file_name(Seq::empty()) is None,
{
    let none = Seq::<u8>::empty();
    let dot = seq![DOT];
    let up = seq![DOT, DOT];
    law_names(dir, leaf, leaf);
    law_names(dir, none, none);
    law_names(dir, dot, dot);
    law_names(dir, up, up);
    assert(dir.push(SLASH) + none =~= dir.push(SLASH));
    assert(dir.push(SLASH) + dot =~= dir.push(SLASH).push(DOT));
    assert(names(dir) + names(none) =~= names(dir));
    assert(names(dir) + names(dot) =~= names(dir));
    assert((names(dir) + names(leaf)).last() == leaf);
    assert((names(dir) + names(up)).last() == up);
    assert(up.len() == 2 && dot.len() == 1);
}

/// Joining puts a separator between a directory and a relative path unless
/// the directory ends with one, and nothing before the directory or behind
/// the path; an absolute path stands for itself.
pub proof fn law_join_bytes(dir: Seq<u8>, rest: Seq<u8>)
    ensures
        rest.len() > 0 && rest[0] == '/' as u8 ==> join(dir, rest) == rest,
        !(rest.len() > 0 && rest[0] == '/' as u8) ==> {
            &&& join(Seq::empty(), rest) == rest
            &&& dir.len() > 0 && dir.last() != '/' as u8 ==> join(dir, rest) == dir + seq![
                '/' as u8,
            ] + rest
            &&& join(dir.push('/' as u8), rest) == dir + seq!['/' as u8] + rest
        },
{
    assert(Seq::<u8>::empty() + rest =~= rest);
    assert(dir.push(SLASH) + rest =~= dir + seq![SLASH] + rest);
}

/// A number in parentheses after a space, as bytes.
pub open spec fn number_suffix(n: u32) -> Seq<u8> {
    encode_utf8(" ("@ + decimal(n as nat) + ")"@)
}

proof fn lemma_last_dot_at(s: Seq<u8>, e: Seq<u8>)
    requires
        !e.contains(DOT),
    ensures
        last_dot(s.push(DOT) + e) == s.len(),
    decreases e.len(),
{
    let f = s.push(DOT) + e;
    if e.len() > 0 {
        let d = e.drop_last();
        assert(e.contains(e.last()));
        assert(f.drop_last() =~= s.push(DOT) + d);
        assert forall|i: int| 0 <= i < d.len() implies d[i] != DOT by {
            assert(e.contains(e[i]));
        }
        lemma_last_dot_at(s, d);
    }
}

proof fn lemma_no_dot(f: Seq<u8>)
    requires
        forall|i: int| 0 < i < f.len() ==> f[i] != DOT,
    ensures
        last_dot(f) == 0,
    decreases f.len(),
{
    if f.len() > 1 {
        assert(f.last() == f[f.len() - 1]);
        assert forall|i: int| 0 < i < f.drop_last().len() implies f.drop_last()[i] != DOT by {
            assert(f[i] != DOT);
        }
        lemma_no_dot(f.drop_last());
    } else {
        reveal_with_fuel(last_dot, 2);
    }
}

/// The number goes between the name and its extension, which begins at the
/// last dot: `s.e` becomes `s (n).e`, and a name whose only dot, if any, is
/// its first byte becomes `s (n)`. A name or an extension that is no text is
/// not carried over: the one becomes `file` and the other is left out.
pub proof fn law_numbered_form(s: Seq<u8>, e: Seq<u8>, n: u32)
    requires
        s.len() > 0,
        !e.contains('.' as u8),
    ensures
        valid_utf8(s) && valid_utf8(e) ==> numbered(Some(s.push('.' as u8) + e), n) == s
            + number_suffix(n) + seq!['.' as u8] + e,
        valid_utf8(s) && !valid_utf8(e) ==> numbered(Some(s.push('.' as u8) + e), n) == s
            + number_suffix(n),
        !valid_utf8(s) && valid_utf8(e) ==> numbered(Some(s.push('.' as u8) + e), n)
            == encode_utf8("file"@) + number_suffix(n) + seq!['.' as u8] + e,
        !valid_utf8(s) && !valid_utf8(e) ==> numbered(Some(s.push('.' as u8) + e), n)
            == encode_utf8("file"@) + number_suffix(n),
        valid_utf8(e) ==> numbered(Some(e), n) == e + number_suffix(n),
        !valid_utf8(e) ==> numbered(Some(e), n) == encode_utf8("file"@) + number_suffix(n),
        !valid_utf8(seq!['.' as u8] + e) ==> numbered(Some(seq!['.' as u8] + e), n) == encode_utf8(
            "file"@,
        ) + number_suffix(n),
        valid_utf8(seq!['.' as u8] + e) ==> numbered(Some(seq!['.' as u8] + e), n) == seq![
            '.' as u8,
        ] + e + number_suffix(n),
        numbered(None, n) == encode_utf8("file"@) + number_suffix(n),
{
    let f = s.push(DOT) + e;
    lemma_last_dot_at(s, e);
    assert(stem(f) =~= s);
    assert(extension(f) == Some(e)) by {
        assert(f.skip((s.len() + 1) as int) =~= e);
    }
    let r = numbered(Some(f), n);
    let u = number_suffix(n);
    if valid_utf8(e) {
        if valid_utf8(s) {
            assert(r =~= s + u + seq![DOT] + e);
        } else {
            assert(r =~= encode_utf8("file"@) + u + seq![DOT] + e);
        }
    }
    assert forall|i: int| 0 <= i < e.len() implies e[i] != DOT by {
        assert(e.contains(e[i]));
    }
    lemma_no_dot(e);
    lemma_no_dot(seq![DOT] + e);
}

proof fn lemma_tail_of(d: Seq<u8>, t: Seq<u8>, b: nat)
    requires
        forall|i: int| 0 <= i < t.len() ==> t[i] != SLASH,
        b <= d.len() + 1,
    ensures
        tail_start(d.push(SLASH) + t, b) == d.len() + 1,
    decreases t.len(),
{
    let p = d.push(SLASH) + t;
    if t.len() > 0 {
        assert(p.drop_last() =~= d.push(SLASH) + t.drop_last());
        assert(p.last() == t[t.len() - 1]);
        lemma_tail_of(d, t.drop_last(), b);
    } else {
        assert(p =~= d.push(SLASH));
    }
}

proof fn lemma_tail_whole(t: Seq<u8>)
    requires
        forall|i: int| 0 <= i < t.len() ==> t[i] != SLASH,
    ensures
        tail_start(t, 0) == 0,
    decreases t.len(),
{
    if t.len() > 0 {
        assert(t.last() == t[t.len() - 1]);
        lemma_tail_whole(t.drop_last());
    }
}

/// `dir` ends with a plain component.
proof fn lemma_dir_stripped(dir: Seq<u8>, above: Option<Seq<u8>>, last: Seq<u8>)
    requires
        is_plain(last),
        match above {
            Some(a) => dir == a.push(SLASH) + last,
            None => dir == last,
        },
    ensures
        dir.len() > prefix_len(dir),
        strip(dir, prefix_len(dir)) == dir,
{
    let b = prefix_len(dir);
    match above {
        Some(a) => {
            if a.len() == 0 {
                assert(dir[0] == SLASH);
            } else {
                assert(dir[0] == a[0]);
            }
            lemma_tail_of(a, last, b);
            assert(dir.skip((a.len() + 1) as int) =~= last);
        },
        None => {
            assert(dir[0] != SLASH);
            if dir.len() == 1 {
                assert(dir =~= seq![dir[0]]);
            }
            assert(b == 0);
            lemma_tail_whole(dir);
            assert(dir.skip(0) =~= dir);
        },
    }
}

/// An alternative to a file has the very bytes of its directory: only the
/// name behind the last separator changes.
pub proof fn law_alternative_same_dir(
    dir: Seq<u8>,
    above: Option<Seq<u8>>,
    last: Seq<u8>,
    leaf: Seq<u8>,
    n: u32,
)
    requires
        is_plain(leaf),
        is_plain(last),
        match above {
            Some(a) => dir == a.push('/' as u8) + last,
            None => dir == last,
        },
    ensures
        alternative(dir.push('/' as u8) + leaf, n) == dir.push('/' as u8) + numbered(Some(leaf), n),
        alternative(seq!['/' as u8] + leaf, n) == seq!['/' as u8] + numbered(Some(leaf), n),
        alternative(leaf, n) == numbered(Some(leaf), n),
{
    let r = numbered(Some(leaf), n);
    law_numbered_plain(leaf, n);
    assert(!leaf.contains(SLASH));
    // Below a directory.
    let base = dir.push(SLASH) + leaf;
    lemma_dir_stripped(dir, above, last);
    let b = prefix_len(dir);
    assert(base[0] == dir[0]);
    assert(dir.len() > 1 ==> base[1] == dir[1]);
    if dir.len() == 1 {
        assert(dir =~= last);
        assert(dir =~= seq![dir[0]]);
    }
    assert(prefix_len(base) == b);
    lemma_tail_of(dir, leaf, b);
    assert(base.skip((dir.len() + 1) as int) =~= leaf);
    assert(strip(base, b) == base);
    assert(without_tail(base, b) =~= dir);
    assert(parent(base) == Some(dir));
    law_file_name(dir, leaf);
    assert(dir.last() == last.last() && last.contains(last.last()));
    assert(dir.last() != SLASH) by {
        assert(dir.last() == last[last.len() - 1]);
    }
    assert(alternative(base, n) == dir.push(SLASH) + r);
    // Below the root.
    let none = Seq::<u8>::empty();
    let top = seq![SLASH] + leaf;
    assert(top =~= none.push(SLASH) + leaf);
    lemma_tail_of(none, leaf, 1);
    assert(top.skip(1) =~= leaf);
    assert(strip(top, 1) == top);
    assert(without_tail(top, 1) =~= seq![SLASH]);
    assert(strip(seq![SLASH], 1) == seq![SLASH]);
    assert(parent(top) == Some(seq![SLASH]));
    law_file_name(none, leaf);
    assert(alternative(top, n) =~= seq![SLASH] + r);
    // Nowhere.
    assert(leaf[0] != SLASH);
    if leaf.len() == 1 {
        assert(leaf =~= seq![leaf[0]]);
    }
    assert(prefix_len(leaf) == 0);
    lemma_tail_whole(leaf);
    assert(leaf.skip(0) =~= leaf);
    assert(strip(leaf, 0) == leaf);
    assert(without_tail(leaf, 0) =~= none);
    assert(parent(leaf) == Some(none));
    assert(none + r =~= r);
    assert(alternative(leaf, n) == r);
}

/// A path without a file name gets `file` with the number: in place of the
/// `..` that it ends with, or all alone where it has no component.
pub proof fn law_alternative_nameless(base: Seq<u8>, n: u32)
    requires
        file_name(base) is None,
    ensures
        ({
            let name = encode_utf8("file"@) + number_suffix(n);
            let path = alternative(base, n);
            &&& names(base).len() == 0 ==> path == name
            &&& names(base).len() > 0 ==> names(path) == names(base).drop_last().push(name)
                && is_absolute(path) == is_absolute(base)
        }),
{
    let r = numbered(None, n);
    law_numbered_form(seq![DOT], Seq::empty(), n);
    lemma_file_text();
    lemma_suffix(n);
    let e = encode_utf8("file"@);
    let u = number_suffix(n);
    assert forall|i: int| 0 <= i < r.len() implies r[i] != SLASH by {
        if i < e.len() {
            assert(r[i] == e[i]);
        } else {
            assert(r[i] == u[i - e.len()]);
        }
    }
    lemma_names_single(r);
    let b = prefix_len(base);
    let q = strip(base, b);
    lemma_strip(base, b);
    if names(base).len() > 0 {
        law_parent_names(base);
        let d = parent(base).unwrap();
        law_join_names(d, r);
        assert(names(d) + seq![r] =~= names(base).drop_last().push(r));
        lemma_strip_prefix(base, b);
        lemma_tail_start(q, b);
        lemma_strip_prefix(without_tail(q, b), b);
    } else {
        if q.len() > b {
            assert(names(q).len() > 0);
        }
        assert(Seq::<u8>::empty() + r =~= r);
    }
}

} // verus!

//! The description of a file that the host wants to transfer.
//!
//! It is a key file with one section that matters:
//!
//! ```ini
//! [vdagent-file-xfer]
//! name=document.pdf
//! size=12345
//! ```

use vstd::prelude::*;
use vstd::slice::slice_subrange;
use vstd::utf8::{decode_utf8, encode_utf8_decode_utf8, valid_utf8};
#[allow(unused_imports)]
use vstd::utf8::{encode_scalar, encode_utf8, encode_utf8_valid_utf8};
use crate::text::{chars_of, index_of, is_text, parse_number, string_of, trimmed, utf8_text};
#[allow(unused_imports)]
use crate::text::{
    all_space, decimal, first_index, is_digit, is_space, law_decimal_read_back, law_first_index,
    law_trim_padded, lemma_first_index, lemma_first_index_is, lemma_split_join, lemma_trim_same,
    number, split, trim,
};

verus! {

/// Whether a line, without the space around it, opens a section.
pub open spec fn is_header(t: Seq<char>) -> bool {
    t.len() > 0 && t[0] == '[' && t.last() == ']'
}

/// The key and the value of a line, without the space around each. Blank
/// lines, comments, section headers and lines without an equals sign have
/// none.
pub open spec fn entry(line: Seq<char>) -> Option<(Seq<char>, Seq<char>)> {
    let t = trim(line);
    let k = first_index(t, '=') as int;
    if t.len() == 0 || t[0] == '#' || is_header(t) || k >= t.len() {
        None
    } else {
        Some((trim(t.take(k)), trim(t.skip(k + 1))))
    }
}

/// Whether the lines end inside the section of the transfer: the last section
/// header among them opens it.
pub open spec fn in_section(lines: Seq<Seq<char>>) -> bool
    decreases lines.len(),
{
    if lines.len() == 0 {
        false
    } else if is_header(trim(lines.last())) {
        trim(lines.last()) == "[vdagent-file-xfer]"@
    } else {
        in_section(lines.drop_last())
    }
}

/// The value that the last entry for `key` in the section of the transfer
/// gives.
pub open spec fn last_value(lines: Seq<Seq<char>>, key: Seq<char>) -> Option<Seq<char>>
    decreases lines.len(),
{
    if lines.len() == 0 {
        None
    } else {
        match entry(lines.last()) {
            Some((k, v)) if k == key && in_section(lines) => Some(v),
            _ => last_value(lines.drop_last(), key),
        }
    }
}

/// The bytes before the first NUL.
pub open spec fn before_nul(data: Seq<u8>) -> Seq<u8> {
    data.take(first_index(data, 0u8) as int)
}

/// The name and the size that a key file announces: there must be UTF-8 text
/// up to the first NUL, with a name and a size, and the size that counts must
/// be a number.
pub open spec fn announced(data: Seq<u8>) -> Option<(Seq<char>, u64)> {
    let text = before_nul(data);
    let lines = split(decode_utf8(text), '\n');
    if !valid_utf8(text) {
        None
    } else {
        match (last_value(lines, "name"@), last_value(lines, "size"@)) {
            (Some(name), Some(size)) => match number(size) {
                Some(n) => Some((name, n)),
                None => None,
            },
            _ => None,
        }
    }
}

/// What the lines read so far have given.
struct Found {
    in_section: bool,
    name: Option<String>,
    size: Option<u64>,
}

impl Found {
    /// `size` stays empty after a size that is no number.
    spec fn describes(self, lines: Seq<Seq<char>>) -> bool {
        &&& self.in_section == in_section(lines)
        &&& match last_value(lines, "name"@) {
            Some(v) => self.name matches Some(n) && n@ == v,
            None => self.name is None,
        }
        &&& self.size == match last_value(lines, "size"@) {
            Some(v) => number(v),
            None => None,
        }
    }
}

/// Takes one more line into account.
fn read_line(found: Found, line: &[char], Ghost(lines): Ghost<Seq<Seq<char>>>) -> (r: Found)
    requires
        found.describes(lines),
    ensures
        r.describes(lines.push(line@)),
{
    let ghost more = lines.push(line@);
    assert(more.drop_last() =~= lines);
    let t = trimmed(line);
    if t.len() == 0 || t[0] == '#' {
        return found;
    }
    if t[0] == '[' && t[t.len() - 1] == ']' {
        return Found { in_section: is_text(t, "[vdagent-file-xfer]"), ..found };
    }
    if !found.in_section {
        return found;
    }
    let k: usize = index_of(t, 0, '=');
    assert(t@.skip(0) =~= t@);
    if k == t.len() {
        return found;
    }
    let key = trimmed(slice_subrange(t, 0, k));
    let value = trimmed(slice_subrange(t, k + 1, t.len()));
    assert(t@.subrange(0, k as int) =~= t@.take(k as int));
    assert(t@.subrange(k + 1, t@.len() as int) =~= t@.skip(k + 1));
    assert(entry(line@) == Some((key@, value@)));
    proof {
        reveal_strlit("name");
        reveal_strlit("size");
        assert("name"@[0] != "size"@[0]);
    }
    if is_text(key, "name") {
        Found { name: Some(string_of(value)), ..found }
    } else if is_text(key, "size") {
        Found { size: parse_number(value), ..found }
    } else {
        found
    }
}

/// The position of the first NUL, or the length of `data`.
fn text_end(data: &[u8]) -> (end: usize)
    ensures
        end == first_index(data@, 0u8),
        end <= data@.len(),
{
    let mut end: usize = 0;
    while end < data.len() && data[end] != 0
        invariant
            end <= data@.len(),
            forall|i: int| 0 <= i < end ==> data@[i] != 0,
        decreases data@.len() - end,
    {
        end += 1;
    }
    proof {
        lemma_first_index_is(data@, 0u8, end as int);
    }
    end
}

/// Splitting `s` at its first newline splits off its first line.
proof fn lemma_split_step(s: Seq<char>, done: Seq<Seq<char>>, all: Seq<Seq<char>>)
    requires
        all == done + split(s, '\n'),
    ensures
        ({
            let k = first_index(s, '\n') as int;
            &&& k <= s.len()
            &&& k == s.len() ==> all == done.push(s.take(k))
            &&& k < s.len() ==> all == done.push(s.take(k)) + split(s.skip(k + 1), '\n')
        }),
{
    lemma_first_index(s, '\n');
    let k = first_index(s, '\n') as int;
    if k == s.len() {
        assert(s.take(k) =~= s);
        assert(all =~= done.push(s.take(k)));
    } else {
        assert(all =~= done.push(s.take(k)) + split(s.skip(k + 1), '\n'));
    }
}

/// The name and the size that the key file of a transfer announces.
pub fn parse_start_keyfile(data: &[u8]) -> (r: Option<(String, u64)>)
    ensures
        r is Some <==> announced(data@) is Some,
        r matches Some((name, size)) ==> announced(data@) == Some((name@, size)),
{
    let end: usize = text_end(data);
    let bytes = slice_subrange(data, 0, end);
    assert(bytes@ =~= before_nul(data@));
    let text = match utf8_text(bytes) {
        Some(t) => t,
        None => return None,
    };
    proof {
        encode_utf8_decode_utf8(text@);
    }
    let chars = chars_of(text);
    let ghost all = split(chars@, '\n');
    let mut found = Found { in_section: false, name: None, size: None };
    let mut pos: usize = 0;
    let ghost mut done: Seq<Seq<char>> = Seq::empty();
    assert(chars@.skip(0) =~= chars@);
    assert(all =~= done + split(chars@.skip(0), '\n'));
    loop
        invariant_except_break
            pos <= chars@.len(),
            found.describes(done),
            all == done + split(chars@.skip(pos as int), '\n'),
        ensures
            found.describes(all),
        decreases chars@.len() - pos,
    {
        let eol: usize = index_of(chars.as_slice(), pos, '\n');
        let line = slice_subrange(chars.as_slice(), pos, eol);
        proof {
            lemma_split_step(chars@.skip(pos as int), done, all);
        }
        assert(line@ =~= chars@.skip(pos as int).take(eol - pos));
        found = read_line(found, line, Ghost(done));
        proof {
            done = done.push(line@);
        }
        if eol == chars.len() {
            break;
        }
        assert(chars@.skip(pos as int).skip(eol - pos + 1) =~= chars@.skip(eol + 1));
        pos = eol + 1;
    }
    match (found.name, found.size) {
        (Some(name), Some(size)) => Some((name, size)),
        _ => None,
    }
}

/// The key file for a name and a size.
pub open spec fn keyfile_text(name: Seq<char>, size: u64) -> Seq<char> {
    "[vdagent-file-xfer]"@.push('\n') + ("name="@ + name).push('\n') + ("size="@ + decimal(
        size as nat,
    )).push('\n')
}

proof fn lemma_scalar_no_nul(ch: char)
    requires
        ch != '\0',
    ensures
        !encode_scalar(ch as u32).contains(0),
{
    let c = ch as u32;
    assert(c != 0);
    assert(c != 0 && c <= 0x7f ==> (c & 0x7f) as u8 != 0) by (bit_vector);
    assert(0xc0u8 | ((c >> 6) & 0x1f) as u8 != 0) by (bit_vector);
    assert(0xe0u8 | ((c >> 12) & 0x0f) as u8 != 0) by (bit_vector);
    assert(0xf0u8 | ((c >> 18) & 0x7) as u8 != 0) by (bit_vector);
    assert(0x80u8 | (c & 0x3f) as u8 != 0) by (bit_vector);
    assert(0x80u8 | ((c >> 6) & 0x3f) as u8 != 0) by (bit_vector);
    assert(0x80u8 | ((c >> 12) & 0x3f) as u8 != 0) by (bit_vector);
}

proof fn lemma_encode_no_nul(s: Seq<char>)
    requires
        forall|i: int| 0 <= i < s.len() ==> s[i] != '\0',
    ensures
        forall|i: int| 0 <= i < encode_utf8(s).len() ==> encode_utf8(s)[i] != 0,
    decreases s.len(),
{
    if s.len() > 0 {
        lemma_encode_no_nul(s.drop_first());
        lemma_scalar_no_nul(s[0]);
        let e = encode_scalar(s[0] as u32);
        let all = encode_utf8(s);
        assert forall|i: int| 0 <= i < all.len() implies all[i] != 0 by {
            if i < e.len() {
                assert(all[i] == e[i] && e.contains(e[i]));
            } else {
                assert(all[i] == encode_utf8(s.drop_first())[i - e.len()]);
            }
        }
    }
}

proof fn lemma_entry(key: Seq<char>, value: Seq<char>)
    requires
        key.len() > 0,
        key[0] != '#',
        key[0] != '[',
        forall|i: int| 0 <= i < key.len() ==> !is_space(#[trigger] key[i]) && key[i] != '=',
        value.len() > 0 ==> !is_space(value[0]) && !is_space(value.last()),
    ensures
        entry(key.push('=') + value) == Some((key, value)),
        !is_header(trim(key.push('=') + value)),
{
    let line = key.push('=') + value;
    let k = key.len() as int;
    assert(line[0] == key[0]);
    lemma_trim_same(line);
    assert forall|i: int| 0 <= i < k implies line[i] != '=' by {
        assert(line[i] == key[i]);
    }
    lemma_first_index_is(line, '=', k);
    assert(line.take(k) =~= key);
    assert(line.skip(k + 1) =~= value);
    assert(key.last() == key[k - 1]);
    lemma_trim_same(key);
    lemma_trim_same(value);
}

proof fn lemma_keyfile_lines(name: Seq<char>, size: u64)
    requires
        !name.contains('\n'),
    ensures
        split(keyfile_text(name, size), '\n') == seq![
            "[vdagent-file-xfer]"@,
            "name="@ + name,
            "size="@ + decimal(size as nat),
            Seq::empty(),
        ],
{
    let l1 = "[vdagent-file-xfer]"@;
    let l2 = "name="@ + name;
    let l3 = "size="@ + decimal(size as nat);
    reveal_strlit("[vdagent-file-xfer]");
    reveal_strlit("name=");
    reveal_strlit("size=");
    law_decimal_read_back(size as nat);
    assert forall|i: int| 0 <= i < l2.len() implies l2[i] != '\n' by {
        if i >= 5 {
            assert(l2[i] == name[i - 5]);
        }
    }
    assert forall|i: int| 0 <= i < l3.len() implies l3[i] != '\n' by {
        if i >= 5 {
            assert(l3[i] == decimal(size as nat)[i - 5]);
            assert(is_digit(decimal(size as nat)[i - 5]));
        }
    }
    let end = Seq::<char>::empty();
    lemma_first_index_is(l1, '\n', l1.len() as int);
    lemma_first_index_is(l2, '\n', l2.len() as int);
    lemma_first_index_is(l3, '\n', l3.len() as int);
    lemma_first_index_is(end, '\n', 0);
    lemma_split_join(l3, end, '\n');
    lemma_split_join(l2, l3.push('\n') + end, '\n');
    lemma_split_join(l1, l2.push('\n') + (l3.push('\n') + end), '\n');
    assert(keyfile_text(name, size) =~= l1.push('\n') + (l2.push('\n') + (l3.push('\n') + end)));
    assert(split(keyfile_text(name, size), '\n') =~= seq![l1, l2, l3, end]);
}

proof fn lemma_keyfile_values(name: Seq<char>, size: u64, lines: Seq<Seq<char>>)
    requires
        name.len() > 0 ==> !is_space(name[0]) && !is_space(name.last()),
        lines == seq![
            "[vdagent-file-xfer]"@,
            "name="@ + name,
            "size="@ + decimal(size as nat),
            Seq::empty(),
        ],
    ensures
        last_value(lines, "name"@) == Some(name),
        last_value(lines, "size"@) == Some(decimal(size as nat)),
{
    let d = decimal(size as nat);
    reveal_strlit("[vdagent-file-xfer]");
    reveal_strlit("name=");
    reveal_strlit("size=");
    reveal_strlit("name");
    reveal_strlit("size");
    law_decimal_read_back(size as nat);
    assert(is_digit(d[0]) && is_digit(d[d.len() - 1]));
    assert("name="@ =~= "name"@.push('='));
    assert("size="@ =~= "size"@.push('='));
    lemma_trim_same("[vdagent-file-xfer]"@);
    lemma_trim_same(Seq::empty());
    lemma_entry("name"@, name);
    lemma_entry("size"@, d);
    assert("name"@[0] != "size"@[0]);
    let l3 = lines.drop_last();
    let l2 = l3.drop_last();
    let l1 = l2.drop_last();
    let l0 = l1.drop_last();
    assert(l3.last() == "size="@ + d);
    assert(l2.last() == "name="@ + name);
    assert(l1.last() == "[vdagent-file-xfer]"@);
    assert(in_section(l1));
    assert(in_section(l2));
    assert(in_section(l3));
    assert(last_value(l2, "name"@) == Some(name));
    assert(last_value(l3, "name"@) == Some(name));
    assert(last_value(l3, "size"@) == Some(d));
}

/// A key file written for a name and a size announces them, whatever follows
/// a NUL after it. The name must fit on one line and have no space around it.
pub proof fn law_keyfile_read_back(name: Seq<char>, size: u64, after: Seq<u8>)
    requires
        !name.contains('\n'),
        !name.contains('\0'),
        name.len() > 0 ==> !is_space(name[0]) && !is_space(name.last()),
        after.len() > 0 ==> after[0] == 0,
    ensures
        announced(encode_utf8(keyfile_text(name, size)) + after) == Some((name, size)),
{
    let text = keyfile_text(name, size);
    let bytes = encode_utf8(text);
    let data = bytes + after;
    let d = decimal(size as nat);
    reveal_strlit("[vdagent-file-xfer]");
    reveal_strlit("name=");
    reveal_strlit("size=");
    law_decimal_read_back(size as nat);
    assert forall|i: int| 0 <= i < text.len() implies text[i] != '\0' by {
        let n = name.len() as int;
        if 25 <= i < 25 + n {
            assert(text[i] == name[i - 25]);
        } else if 31 + n <= i < 31 + n + d.len() {
            assert(text[i] == d[i - 31 - n]);
            assert(is_digit(d[i - 31 - n]));
        }
    }
    lemma_encode_no_nul(text);
    assert forall|i: int| 0 <= i < bytes.len() implies data[i] != 0 by {
        assert(data[i] == bytes[i]);
    }
    lemma_first_index_is(data, 0u8, bytes.len() as int);
    assert(before_nul(data) =~= bytes);
    encode_utf8_valid_utf8(text);
    encode_utf8_decode_utf8(text);
    lemma_keyfile_lines(name, size);
    lemma_keyfile_values(name, size, split(text, '\n'));
}

/// Only the section of the transfer counts: lines under another section's
/// header change nothing.
pub proof fn law_other_section_ignored(
    lines: Seq<Seq<char>>,
    header: Seq<char>,
    more: Seq<Seq<char>>,
    key: Seq<char>,
)
    requires
        is_header(trim(header)),
        trim(header) != "[vdagent-file-xfer]"@,
        forall|i: int| 0 <= i < more.len() ==> !is_header(trim(#[trigger] more[i])),
    ensures
        last_value(lines.push(header) + more, key) == last_value(lines, key),
        !in_section(lines.push(header) + more),
    decreases more.len(),
{
    let all = lines.push(header) + more;
    if more.len() == 0 {
        assert(all =~= lines.push(header));
        assert(all.drop_last() =~= lines);
    } else {
        law_other_section_ignored(lines, header, more.drop_last(), key);
        assert(all.drop_last() =~= lines.push(header) + more.drop_last());
        assert(all.last() == more[more.len() - 1]);
    }
}

/// A line opens a section exactly when it stands in square brackets.
pub proof fn law_header(t: Seq<char>, inner: Seq<char>)
    ensures
        is_header(seq!['['] + inner + seq![']']),
        is_header(t) ==> t.len() >= 2 && t == seq!['['] + t.subrange(1, t.len() - 1) + seq![']'],
{
    let h = seq!['['] + inner + seq![']'];
    assert(h[0] == '[' && h.last() == ']');
    if is_header(t) {
        assert(t =~= seq!['['] + t.subrange(1, t.len() - 1) + seq![']']);
    }
}

/// A line with an equals sign is an entry: the key is what stands before the
/// first one and the value all that stands behind it, each without the white
/// space around it. White space around the line does not matter.
pub proof fn law_entry(before: Seq<char>, a: Seq<char>, b: Seq<char>, after: Seq<char>)
    requires
        all_space(before),
        all_space(after),
        !a.contains('='),
        ({
            let t = a.push('=') + b;
            &&& !is_space(t[0]) && !is_space(t.last())
            &&& t[0] != '#'
            &&& !(t[0] == '[' && t.last() == ']')
        }),
    ensures
        entry(before + (a.push('=') + b) + after) == Some((trim(a), trim(b))),
{
    let t = a.push('=') + b;
    let k = a.len() as int;
    law_trim_padded(before, t, after);
    assert forall|i: int| 0 <= i < k implies t[i] != '=' by {
        assert(t[i] == a[i]);
    }
    lemma_first_index_is(t, '=', k);
    assert(t.take(k) =~= a);
    assert(t.skip(k + 1) =~= b);
}

/// A blank line, a comment, a section header and a line without an equals
/// sign are no entries, whatever white space stands around them.
pub proof fn law_no_entry(before: Seq<char>, t: Seq<char>, after: Seq<char>)
    requires
        all_space(before),
        all_space(after),
        t.len() > 0 ==> !is_space(t[0]) && !is_space(t.last()),
        t.len() == 0 || t[0] == '#' || (t[0] == '[' && t.last() == ']') || !t.contains('='),
    ensures
        entry(before + t + after) is None,
{
    law_trim_padded(before, t, after);
    law_first_index(t, '=');
}

/// The lines end inside the section exactly when some line opens it and no
/// header follows that line.
pub proof fn law_in_section(lines: Seq<Seq<char>>)
    ensures
        in_section(lines) <==> exists|h: int|
            0 <= h < lines.len() && trim(#[trigger] lines[h]) == "[vdagent-file-xfer]"@ && (forall|
                j: int,
            |
                h < j < lines.len() ==> !is_header(trim(#[trigger] lines[j]))),
    decreases lines.len(),
{
    reveal_strlit("[vdagent-file-xfer]");
    assert(is_header("[vdagent-file-xfer]"@));
    if lines.len() > 0 {
        let n = lines.len() - 1;
        let before = lines.drop_last();
        law_in_section(before);
        assert(lines.last() == lines[n]);
        if in_section(before) {
            let h = choose|h: int|
                0 <= h < before.len() && trim(#[trigger] before[h]) == "[vdagent-file-xfer]"@ && (
                forall|j: int|
                    h < j < before.len() ==> !is_header(trim(#[trigger] before[j])));
            assert(lines[h] == before[h]);
            if !is_header(trim(lines[n])) {
                assert forall|j: int| h < j < lines.len() implies !is_header(
                    trim(#[trigger] lines[j]),
                ) by {
                    if j < n {
                        assert(lines[j] == before[j]);
                    }
                }
            }
        }
        if exists|h: int|
            0 <= h < lines.len() && trim(#[trigger] lines[h]) == "[vdagent-file-xfer]"@ && (forall|
                j: int,
            |
                h < j < lines.len() ==> !is_header(trim(#[trigger] lines[j]))) {
            let h = choose|h: int|
                0 <= h < lines.len() && trim(#[trigger] lines[h]) == "[vdagent-file-xfer]"@ && (
                forall|j: int|
                    h < j < lines.len() ==> !is_header(trim(#[trigger] lines[j])));
            if h < n {
                assert(before[h] == lines[h]);
                assert forall|j: int| h < j < before.len() implies !is_header(
                    trim(#[trigger] before[j]),
                ) by {
                    assert(before[j] == lines[j]);
                }
                assert(!is_header(trim(lines[n])));
            }
        }
    }
}

/// Line `i` is an entry for `key` in the section of the transfer.
pub open spec fn gives(lines: Seq<Seq<char>>, i: int, key: Seq<char>) -> bool {
    &&& 0 <= i < lines.len()
    &&& entry(lines[i]) matches Some((k, _)) && k == key
    &&& in_section(lines.take(i + 1))
}

/// Of all the entries for a key in the section the last one counts; without
/// any there is no value.
pub proof fn law_last_value(lines: Seq<Seq<char>>, key: Seq<char>, i: int)
    requires
        i == -1 || gives(lines, i, key),
        forall|j: int| i < j < lines.len() ==> !#[trigger] gives(lines, j, key),
    ensures
        i == -1 ==> last_value(lines, key) is None,
        i >= 0 ==> last_value(lines, key) == Some(entry(lines[i]).unwrap().1),
    decreases lines.len(),
{
    if lines.len() > 0 {
        let n = lines.len() - 1;
        let before = lines.drop_last();
        assert(lines.take(n + 1) =~= lines);
        assert(lines.last() == lines[n]);
        if i < n {
            assert(!gives(lines, n, key));
            assert forall|j: int| i < j < before.len() implies !#[trigger] gives(
                before,
                j,
                key,
            ) by {
                assert(before.take(j + 1) =~= lines.take(j + 1));
                assert(!gives(lines, j, key));
            }
            if i >= 0 {
                assert(before.take(i + 1) =~= lines.take(i + 1));
                assert(before[i] == lines[i]);
            }
            law_last_value(before, key, i);
        }
    }
}

/// A key file announces a file exactly when its lines give a name and a size
/// and the size is a number; the announcement is that name and that number.
pub proof fn law_announced(text: Seq<char>, name: Seq<char>, size: u64)
    requires
        !text.contains('\0'),
    ensures
        announced(encode_utf8(text)) == Some((name, size)) <==> {
            let lines = split(text, '\n');
            &&& last_value(lines, "name"@) == Some(name)
            &&& last_value(lines, "size"@) matches Some(d)
            &&& number(d) == Some(size)
        },
{
    let bytes = encode_utf8(text);
    assert forall|i: int| 0 <= i < text.len() implies text[i] != '\0' by {
        assert(text.contains(text[i]));
    }
    lemma_encode_no_nul(text);
    lemma_first_index_is(bytes, 0u8, bytes.len() as int);
    assert(before_nul(bytes) =~= bytes);
    encode_utf8_valid_utf8(text);
    encode_utf8_decode_utf8(text);
}

/// A NUL ends the key file: whatever follows it, the announcement is the same.
/// What stands before it must be text.
pub proof fn law_nul_ends_keyfile(data: Seq<u8>, after: Seq<u8>)
    requires
        !data.contains(0),
    ensures
        announced(data.push(0) + after) == announced(data),
        !valid_utf8(data) ==> announced(data) is None,
{
    let all = data.push(0) + after;
    let n = data.len() as int;
    assert forall|i: int| 0 <= i < n implies data[i] != 0 && all[i] != 0 by {
        assert(data.contains(data[i]));
        assert(all[i] == data[i]);
    }
    lemma_first_index_is(data, 0u8, n);
    lemma_first_index_is(all, 0u8, n);
    assert(before_nul(all) =~= data);
    assert(before_nul(data) =~= data);
}

} // verus!

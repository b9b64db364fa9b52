//! Where transferred files land.
//!
//! In order: the directory in `XDG_DOWNLOAD_DIR`, the download directory of
//! `user-dirs.dirs`, `Downloads` in the home directory, `/tmp`.

use vstd::prelude::*;
use vstd::slice::slice_subrange;
use vstd::utf8::encode_utf8;
use crate::path::joined;
use crate::text::{after_prefix, chars_of, index_of, string_of, trimmed};
use crate::wire::push_bytes;
#[allow(unused_imports)]
use crate::path::{join, law_join_bytes};
#[allow(unused_imports)]
use crate::text::{
    all_space, begins_with, is_space, law_begins_with, law_trim_padded, lemma_first_index, split,
    trim,
};
#[allow(unused_imports)]
use vstd::utf8::is_ascii_chars_encode_utf8;

verus! {

/// `s` without the double quotes at its start.
pub open spec fn unquote_start(s: Seq<char>) -> Seq<char>
    decreases s.len(),
{
    if s.len() > 0 && s[0] == '"' {
        unquote_start(s.drop_first())
    } else {
        s
    }
}

/// `s` without the double quotes at its end.
pub open spec fn unquote_end(s: Seq<char>) -> Seq<char>
    decreases s.len(),
{
    if s.len() > 0 && s.last() == '"' {
        unquote_end(s.drop_last())
    } else {
        s
    }
}

/// The value of the first line that sets the download directory, without
/// space and quotes around it.
pub open spec fn download_value(lines: Seq<Seq<char>>) -> Option<Seq<char>>
    decreases lines.len(),
{
    if lines.len() == 0 {
        None
    } else {
        let t = trim(lines[0]);
        if begins_with(t, "XDG_DOWNLOAD_DIR="@) {
            Some(unquote_end(unquote_start(trim(t.skip("XDG_DOWNLOAD_DIR="@.len() as int)))))
        } else {
            download_value(lines.drop_first())
        }
    }
}

/// The directory that a value stands for: one that begins with `$HOME/` is
/// taken relative to the home directory, if that is known.
pub open spec fn download_path(value: Seq<char>, home: Option<Seq<u8>>) -> Option<Seq<u8>> {
    if begins_with(value, "$HOME/"@) {
        match home {
            Some(h) => Some(join(h, encode_utf8(value.skip("$HOME/"@.len() as int)))),
            None => None,
        }
    } else {
        Some(encode_utf8(value))
    }
}

/// The download directory that the text of `user-dirs.dirs` sets.
pub open spec fn user_download(text: Seq<char>, home: Option<Seq<u8>>) -> Option<Seq<u8>> {
    match download_value(split(text, '\n')) {
        Some(v) => download_path(v, home),
        None => None,
    }
}

/// An optional path with its bytes as a sequence.
pub open spec fn path_view(p: Option<Vec<u8>>) -> Option<Seq<u8>> {
    match p {
        Some(p) => Some(p@),
        None => None,
    }
}

fn unquoted(s: &[char]) -> (r: &[char])
    ensures
        r@ == unquote_end(unquote_start(s@)),
{
    let mut i: usize = 0;
    assert(s@.skip(0) =~= s@);
    while i < s.len() && s[i] == '"'
        invariant
            i <= s@.len(),
            unquote_start(s@.skip(i as int)) == unquote_start(s@),
        decreases s@.len() - i,
    {
        assert(s@.skip(i as int).drop_first() =~= s@.skip(i + 1));
        i += 1;
    }
    let mut j: usize = s.len();
    assert(s@.subrange(i as int, j as int) =~= s@.skip(i as int));
    while j > i && s[j - 1] == '"'
        invariant
            i <= j <= s@.len(),
            unquote_end(s@.subrange(i as int, j as int)) == unquote_end(unquote_start(s@)),
        decreases j - i,
    {
        assert(s@.subrange(i as int, j as int).drop_last() =~= s@.subrange(i as int, j - 1));
        j -= 1;
    }
    slice_subrange(s, i, j)
}

fn utf8_bytes(s: &[char]) -> (r: Vec<u8>)
    ensures
        r@ == encode_utf8(s@),
{
    let t = string_of(s);
    let mut r: Vec<u8> = Vec::new();
    push_bytes(&mut r, t.as_str().as_bytes());
    assert(r@ =~= encode_utf8(s@));
    r
}

fn resolve_value(value: &[char], home: &Option<Vec<u8>>) -> (r: Option<Vec<u8>>)
    ensures
        path_view(r) == download_path(value@, path_view(*home)),
{
    match after_prefix(value, "$HOME/") {
        Some(rel) => match home {
            Some(h) => Some(joined(h.as_slice(), utf8_bytes(rel).as_slice())),
            None => None,
        },
        None => Some(utf8_bytes(value)),
    }
}

/// The download directory that the text of `user-dirs.dirs` sets: the first
/// line with `XDG_DOWNLOAD_DIR=` counts.
pub fn read_user_dirs_download(text: &str, home: &Option<Vec<u8>>) -> (r: Option<Vec<u8>>)
    ensures
        path_view(r) == user_download(text@, path_view(*home)),
{
    let chars = chars_of(text);
    let mut pos: usize = 0;
    assert(chars@.skip(0) =~= chars@);
    loop
        invariant
            pos <= chars@.len(),
            chars@ == text@,
            download_value(split(chars@.skip(pos as int), '\n')) == download_value(
                split(text@, '\n'),
            ),
        decreases chars@.len() - pos,
    {
        let eol: usize = index_of(chars.as_slice(), pos, '\n');
        let line = slice_subrange(chars.as_slice(), pos, eol);
        let ghost s = chars@.skip(pos as int);
        let ghost lines = split(s, '\n');
        let ghost k = eol - pos;
        proof {
            lemma_first_index(s, '\n');
            if k < s.len() {
                assert(s.skip(k + 1) =~= chars@.skip(eol + 1));
                assert(lines.drop_first() =~= split(chars@.skip(eol + 1), '\n'));
            } else {
                assert(lines.drop_first() =~= Seq::empty());
                assert(s.take(k) =~= s);
            }
            assert(lines[0] == s.take(k));
        }
        assert(line@ =~= s.take(k));
        let t = trimmed(line);
        match after_prefix(t, "XDG_DOWNLOAD_DIR=") {
            Some(rest) => {
                return resolve_value(unquoted(trimmed(rest)), home);
            },
            None => {},
        }
        if eol == chars.len() {
            assert(download_value(lines.drop_first()) is None);
            return None;
        }
        pos = eol + 1;
    }
}

/// Where `user-dirs.dirs` is: in the configuration directory, which without
/// `XDG_CONFIG_HOME` is `.config` in the home directory.
pub open spec fn user_dirs_path(config: Option<Seq<u8>>, home: Option<Seq<u8>>) -> Option<
    Seq<u8>,
> {
    match (config, home) {
        (Some(c), _) => Some(join(c, encode_utf8("user-dirs.dirs"@))),
        (None, Some(h)) => Some(
            join(join(h, encode_utf8(".config"@)), encode_utf8("user-dirs.dirs"@)),
        ),
        (None, None) => None,
    }
}

/// The path of `user-dirs.dirs`, given the values of `XDG_CONFIG_HOME` and
/// `HOME`.
pub fn user_dirs_file(config: &Option<Vec<u8>>, home: &Option<Vec<u8>>) -> (r: Option<Vec<u8>>)
    ensures
        path_view(r) == user_dirs_path(path_view(*config), path_view(*home)),
{
    let file = "user-dirs.dirs".as_bytes();
    match config {
        Some(c) => Some(joined(c.as_slice(), file)),
        None => match home {
            Some(h) => Some(
                joined(joined(h.as_slice(), ".config".as_bytes()).as_slice(), file),
            ),
            None => None,
        },
    }
}

/// The directory that new files land in.
pub open spec fn save_dir(
    download: Option<Seq<u8>>,
    user_dirs: Option<Seq<u8>>,
    home: Option<Seq<u8>>,
) -> Seq<u8> {
    match (download, user_dirs, home) {
        (Some(d), _, _) => d,
        (None, Some(d), _) => d,
        (None, None, Some(h)) => join(h, encode_utf8("Downloads"@)),
        (None, None, None) => encode_utf8("/tmp"@),
    }
}

/// Picks the directory that new files land in: the value of
/// `XDG_DOWNLOAD_DIR`, else what `user-dirs.dirs` sets, else `Downloads` in
/// the directory in `HOME`, else `/tmp`.
pub fn resolve_save_dir(
    download: Option<Vec<u8>>,
    user_dirs: Option<Vec<u8>>,
    home: Option<Vec<u8>>,
) -> (r: Vec<u8>)
    ensures
        r@ == save_dir(path_view(download), path_view(user_dirs), path_view(home)),
{
    if let Some(d) = download {
        return d;
    }
    if let Some(d) = user_dirs {
        return d;
    }
    if let Some(h) = home {
        return joined(h.as_slice(), "Downloads".as_bytes());
    }
    let mut r: Vec<u8> = Vec::new();
    push_bytes(&mut r, "/tmp".as_bytes());
    assert(r@ =~= encode_utf8("/tmp"@));
    r
}

/// Without a home directory a value under `$HOME/` sets nothing, and with no
/// other setting files land in `/tmp`.
pub proof fn law_no_home_means_tmp(text: Seq<char>, value: Seq<char>)
    requires
        download_value(split(text, '\n')) == Some(value),
        begins_with(value, "$HOME/"@),
    ensures
        save_dir(None, user_download(text, None), None) == encode_utf8("/tmp"@),
{
}

/// The order of the choices: `XDG_DOWNLOAD_DIR` wins whatever else is set,
/// then the setting of `user-dirs.dirs` whatever the home directory, then
/// `Downloads` in the home directory, then `/tmp`.
pub proof fn law_save_dir_order(
    d: Seq<u8>,
    u: Seq<u8>,
    home: Seq<u8>,
    user_dirs: Option<Seq<u8>>,
    any_home: Option<Seq<u8>>,
)
    requires
        home.len() > 0 ==> home.last() != '/' as u8,
    ensures
        save_dir(Some(d), user_dirs, any_home) == d,
        save_dir(None, Some(u), any_home) == u,
        home.len() > 0 ==> save_dir(None, None, Some(home)) == home + seq!['/' as u8]
            + encode_utf8("Downloads"@),
        save_dir(None, None, Some(home.push('/' as u8))) == home + seq!['/' as u8] + encode_utf8(
            "Downloads"@,
        ),
        save_dir(None, None, Some(d)) == join(d, encode_utf8("Downloads"@)),
        save_dir(None, None, None) == encode_utf8("/tmp"@),
{
    let leaf = encode_utf8("Downloads"@);
    reveal_strlit("Downloads");
    lemma_relative("Downloads"@);
    law_join_bytes(home, leaf);
}

/// Text that begins with an ASCII character other than a slash is a relative
/// path.
proof fn lemma_relative(c: Seq<char>)
    requires
        c.len() > 0,
        c[0] != '/',
        forall|i: int| 0 <= i < c.len() ==> '\0' <= #[trigger] c[i] <= '\u{7f}',
    ensures
        encode_utf8(c).len() == c.len(),
        encode_utf8(c)[0] != '/' as u8,
{
    is_ascii_chars_encode_utf8(c);
    assert(c[0] as u8 == encode_utf8(c)[0]);
}

/// Where the settings are looked for: in `user-dirs.dirs` of the
/// configuration directory if one is named, whatever the home directory, and
/// otherwise as if `.config` of the home directory were named.
pub proof fn law_user_dirs_place(
    config: Seq<u8>,
    home: Seq<u8>,
    any: Seq<u8>,
    any_home: Option<Seq<u8>>,
)
    requires
        config.len() > 0 && config.last() != '/' as u8,
        home.len() > 0 && home.last() != '/' as u8,
    ensures
        user_dirs_path(Some(config), any_home) == Some(
            config + seq!['/' as u8] + encode_utf8("user-dirs.dirs"@),
        ),
        user_dirs_path(None, Some(home)) == user_dirs_path(
            Some(home + seq!['/' as u8] + encode_utf8(".config"@)),
            any_home,
        ),
        user_dirs_path(Some(any), any_home) == Some(join(any, encode_utf8("user-dirs.dirs"@))),
        user_dirs_path(None, Some(any)) == user_dirs_path(
            Some(join(any, encode_utf8(".config"@))),
            any_home,
        ),
        user_dirs_path(None, None) is None,
{
    reveal_strlit("user-dirs.dirs");
    reveal_strlit(".config");
    lemma_relative("user-dirs.dirs"@);
    lemma_relative(".config"@);
    law_join_bytes(config, encode_utf8("user-dirs.dirs"@));
    law_join_bytes(home, encode_utf8(".config"@));
}

/// All of `s` is double quotes.
pub open spec fn all_quotes(s: Seq<char>) -> bool {
    forall|i: int| 0 <= i < s.len() ==> #[trigger] s[i] == '"'
}

/// Any number of quotes around a value is taken off, and nothing else.
pub proof fn law_unquoted(before: Seq<char>, s: Seq<char>, after: Seq<char>)
    requires
        all_quotes(before),
        all_quotes(after),
        s.len() > 0,
        s[0] != '"',
        s.last() != '"',
    ensures
        unquote_end(unquote_start(before + s + after)) == s,
        unquote_end(unquote_start(before)) == Seq::<char>::empty(),
    decreases before.len() + after.len(),
{
    let all = before + s + after;
    if before.len() > 0 {
        let b = before.drop_first();
        assert(all.drop_first() =~= b + s + after);
        assert forall|i: int| 0 <= i < b.len() implies #[trigger] b[i] == '"' by {
            assert(b[i] == before[i + 1]);
        }
        assert(all[0] == before[0]);
        law_unquoted(b, s, after);
    } else {
        assert(before =~= Seq::empty());
        assert(all[0] == s[0]);
        if after.len() > 0 {
            let a = after.drop_last();
            assert(all.drop_last() =~= before + s + a);
            assert forall|i: int| 0 <= i < a.len() implies #[trigger] a[i] == '"' by {
                assert(a[i] == after[i]);
            }
            assert(all.last() == after[after.len() - 1]);
            law_unquoted(before, s, a);
            assert((before + s + a)[0] == s[0]);
        } else {
            assert(all =~= s);
        }
    }
}

/// The first line that sets the download directory counts, whatever the lines
/// behind it say; without one there is no value.
pub proof fn law_first_setting(lines: Seq<Seq<char>>, i: int, value: Seq<char>)
    requires
        0 <= i <= lines.len(),
        forall|j: int|
            0 <= j < i ==> !begins_with(trim(#[trigger] lines[j]), "XDG_DOWNLOAD_DIR="@),
        i < lines.len() ==> trim(lines[i]) == "XDG_DOWNLOAD_DIR="@ + value,
    ensures
        i < lines.len() ==> download_value(lines) == Some(
            unquote_end(unquote_start(trim(value))),
        ),
        i == lines.len() ==> download_value(lines) is None,
    decreases i,
{
    if i == 0 {
        if lines.len() > 0 {
            law_begins_with(lines[0], "XDG_DOWNLOAD_DIR="@, value);
            assert(("XDG_DOWNLOAD_DIR="@ + value).skip("XDG_DOWNLOAD_DIR="@.len() as int) =~= value);
        }
    } else {
        let rest = lines.drop_first();
        assert forall|j: int| 0 <= j < i - 1 implies !begins_with(
            trim(#[trigger] rest[j]),
            "XDG_DOWNLOAD_DIR="@,
        ) by {
            assert(rest[j] == lines[j + 1]);
        }
        assert(!begins_with(trim(lines[0]), "XDG_DOWNLOAD_DIR="@));
        law_first_setting(rest, i - 1, value);
    }
}

/// A value under `$HOME/` is a path in the home directory, and sets nothing
/// without one; any other value is a path as it stands, with or without a home
/// directory.
pub proof fn law_download_path(
    rel: Seq<char>,
    value: Seq<char>,
    home: Seq<u8>,
    any_home: Option<Seq<u8>>,
)
    requires
        !begins_with(value, "$HOME/"@),
    ensures
        download_path("$HOME/"@ + rel, Some(home)) == Some(join(home, encode_utf8(rel))),
        download_path("$HOME/"@ + rel, None) is None,
        download_path(value, any_home) == Some(encode_utf8(value)),
{
    law_begins_with(value, "$HOME/"@, rel);
    assert(("$HOME/"@ + rel).skip("$HOME/"@.len() as int) =~= rel);
}

/// What the text of `user-dirs.dirs` sets: on its first line with
/// `XDG_DOWNLOAD_DIR=`, the value behind it, whatever white space stands
/// around the line and the value and whatever quotes stand around the value.
pub proof fn law_user_download(
    text: Seq<char>,
    i: int,
    before: Seq<char>,
    gap: Seq<char>,
    open: Seq<char>,
    value: Seq<char>,
    close: Seq<char>,
    after: Seq<char>,
    home: Option<Seq<u8>>,
)
    requires
        all_space(before) && all_space(gap) && all_space(after),
        all_quotes(open) && all_quotes(close),
        value.len() > 0 && value[0] != '"' && value.last() != '"',
        !is_space((open + value + close)[0]) && !is_space((open + value + close).last()),
        ({
            let lines = split(text, '\n');
            &&& 0 <= i < lines.len()
            &&& lines[i] == before + ("XDG_DOWNLOAD_DIR="@ + (gap + (open + value + close)))
                + after
            &&& forall|j: int|
                0 <= j < i ==> !begins_with(trim(#[trigger] lines[j]), "XDG_DOWNLOAD_DIR="@)
        }),
    ensures
        user_download(text, home) == download_path(value, home),
{
    let quoted = open + value + close;
    let line = "XDG_DOWNLOAD_DIR="@ + (gap + quoted);
    reveal_strlit("XDG_DOWNLOAD_DIR=");
    assert(line[0] == 'X');
    assert(line.last() == quoted.last());
    law_trim_padded(before, line, after);
    law_trim_padded(gap, quoted, Seq::empty());
    assert(gap + quoted + Seq::<char>::empty() =~= gap + quoted);
    law_unquoted(open, value, close);
    law_first_setting(split(text, '\n'), i, gap + quoted);
}

/// Whatever the first setting says, even if it is empty, is what the text
/// sets.
pub proof fn law_first_setting_used(
    text: Seq<char>,
    i: int,
    value: Seq<char>,
    home: Option<Seq<u8>>,
)
    requires
        ({
            let lines = split(text, '\n');
            &&& 0 <= i < lines.len()
            &&& trim(lines[i]) == "XDG_DOWNLOAD_DIR="@ + value
            &&& forall|j: int|
                0 <= j < i ==> !begins_with(trim(#[trigger] lines[j]), "XDG_DOWNLOAD_DIR="@)
        }),
    ensures
        user_download(text, home) == download_path(
            unquote_end(unquote_start(trim(value))),
            home,
        ),
{
    law_first_setting(split(text, '\n'), i, value);
}

/// Text without a line that sets the download directory sets nothing.
pub proof fn law_nothing_set(text: Seq<char>, home: Option<Seq<u8>>)
    requires
        forall|j: int|
            0 <= j < split(text, '\n').len() ==> !begins_with(
                trim(#[trigger] split(text, '\n')[j]),
                "XDG_DOWNLOAD_DIR="@,
            ),
    ensures
        user_download(text, home) is None,
{
    let lines = split(text, '\n');
    law_first_setting(lines, lines.len() as int, Seq::empty());
}

} // verus!

//! Path strings as character sequences. Both `/` and `\` are treated as
//! separators; joining inserts `/`. The file name is what follows the last
//! separator; its extension is what follows the last dot, provided that
//! dot is not the name's first character (so dot-files have no extension),
//! matching the standard library's path semantics on plain names.

use vstd::prelude::*;

verus! {

/// Whether `c` separates path components.
pub open spec fn is_sep(c: char) -> bool {
    c == '/' || c == '\\'
}

/// The index right after the last separator of `p`; `0` when `p` has none.
pub open spec fn split_point(p: Seq<char>) -> int
    decreases p.len(),
{
    if p.len() == 0 {
        0
    } else if is_sep(p.last()) {
        p.len() as int
    } else {
        split_point(p.drop_last())
    }
}

/// The file-name part of `p`: everything after the last separator.
pub open spec fn file_name_of(p: Seq<char>) -> Seq<char> {
    p.skip(split_point(p))
}

/// The index of the last dot of a file name, `-1` when it has none.
pub open spec fn ext_dot(name: Seq<char>) -> int
    decreases name.len(),
{
    if name.len() == 0 {
        -1
    } else if name.last() == '.' {
        name.len() - 1
    } else {
        ext_dot(name.drop_last())
    }
}

/// Whether a file name carries an extension: a dot after its first
/// character.
pub open spec fn name_has_extension(name: Seq<char>) -> bool {
    ext_dot(name) > 0
}

/// The stem of a file name: what precedes the extension's dot, or the
/// whole name when there is no extension.
pub open spec fn stem_of_name(name: Seq<char>) -> Seq<char> {
    if name_has_extension(name) {
        name.take(ext_dot(name))
    } else {
        name
    }
}

/// The stem of the file name of the path `p`.
pub open spec fn file_stem_of(p: Seq<char>) -> Seq<char> {
    stem_of_name(file_name_of(p))
}

/// Whether the path `p` names a file-like entry: its file name carries an
/// extension.
pub open spec fn path_has_extension(p: Seq<char>) -> bool {
    name_has_extension(file_name_of(p))
}

/// The parent of `p`: what precedes the last separator (the separator
/// itself when it leads the path), or `.` when `p` has no separator.
pub open spec fn parent_of(p: Seq<char>) -> Seq<char> {
    let k = split_point(p);
    if k == 0 {
        seq!['.']
    } else if k == 1 {
        p.take(1)
    } else {
        p.take(k - 1)
    }
}

/// `dir` and `name` joined: `name` when `dir` is empty, appended directly
/// when `dir` already ends with a separator, and with `/` in between
/// otherwise.
pub open spec fn join_of(dir: Seq<char>, name: Seq<char>) -> Seq<char> {
    if dir.len() == 0 {
        name
    } else if is_sep(dir.last()) {
        dir + name
    } else {
        dir + seq!['/'] + name
    }
}

/// A separator index with nothing but non-separators after it pins down
/// `split_point`.
proof fn lemma_split_point_at(p: Seq<char>, i: int)
    requires
        0 <= i < p.len(),
        is_sep(p[i]),
        forall|j: int| i < j < p.len() ==> !is_sep(#[trigger] p[j]),
    ensures
        split_point(p) == i + 1,
    decreases p.len(),
{
    if i == p.len() - 1 {
    } else {
        assert(!is_sep(p.last()));
        assert(p.drop_last()[i] == p[i]);
        lemma_split_point_at(p.drop_last(), i);
    }
}

/// A path without separators has split point zero.
proof fn lemma_split_point_none(p: Seq<char>)
    requires
        forall|j: int| 0 <= j < p.len() ==> !is_sep(#[trigger] p[j]),
    ensures
        split_point(p) == 0,
    decreases p.len(),
{
    if p.len() > 0 {
        lemma_split_point_none(p.drop_last());
    }
}

/// A dot index with no later dot pins down `ext_dot`.
proof fn lemma_ext_dot_at(name: Seq<char>, i: int)
    requires
        0 <= i < name.len(),
        name[i] == '.',
        forall|j: int| i < j < name.len() ==> #[trigger] name[j] != '.',
    ensures
        ext_dot(name) == i,
    decreases name.len(),
{
    if i == name.len() - 1 {
    } else {
        assert(name.last() != '.');
        assert(name.drop_last()[i] == name[i]);
        lemma_ext_dot_at(name.drop_last(), i);
    }
}

/// A name without dots has no extension dot.
proof fn lemma_ext_dot_none(name: Seq<char>)
    requires
        forall|j: int| 0 <= j < name.len() ==> #[trigger] name[j] != '.',
    ensures
        ext_dot(name) == -1,
    decreases name.len(),
{
    if name.len() > 0 {
        lemma_ext_dot_none(name.drop_last());
    }
}

/// The index right after the last separator, as an executable search.
fn find_split_point(s: &str) -> (r: usize)
    ensures
        r == split_point(s@),
        r <= s@.len(),
{
    let len = s.unicode_len();
    let mut i: usize = len;
    while i > 0
        invariant
            0 <= i <= len,
            len == s@.len(),
            forall|j: int| i <= j < s@.len() ==> !is_sep(#[trigger] s@[j]),
        decreases i,
    {
        i = i - 1;
        let c = s.get_char(i);
        if c == '/' || c == '\\' {
            proof {
                lemma_split_point_at(s@, i as int);
            }
            return i + 1;
        }
    }
    proof {
        lemma_split_point_none(s@);
    }
    0
}

/// The file name of the path `s`.
pub fn file_name(s: &str) -> (r: String)
    ensures
        r@ == file_name_of(s@),
{
    let len = s.unicode_len();
    let k = find_split_point(s);
    let name = s.substring_char(k, len);
    String::from_str(name)
}

/// The stem of the file name of the path `s`: the file name without its
/// extension.
pub fn file_stem(s: &str) -> (r: String)
    ensures
        r@ == file_stem_of(s@),
{
    let len = s.unicode_len();
    let k = find_split_point(s);
    let name = s.substring_char(k, len);
    let nlen = name.unicode_len();
    match crate::text::rfind_char(name, '.') {
        Some(i) => {
            proof {
                lemma_ext_dot_at(name@, i as int);
            }
            if i > 0 {
                String::from_str(name.substring_char(0, i))
            } else {
                String::from_str(name)
            }
        },
        None => {
            proof {
                lemma_ext_dot_none(name@);
            }
            String::from_str(name)
        },
    }
}

/// Whether the file name of `s` carries an extension.
pub fn has_extension(s: &str) -> (r: bool)
    ensures
        r == path_has_extension(s@),
{
    let len = s.unicode_len();
    let k = find_split_point(s);
    let name = s.substring_char(k, len);
    match crate::text::rfind_char(name, '.') {
        Some(i) => {
            proof {
                lemma_ext_dot_at(name@, i as int);
            }
            i > 0
        },
        None => {
            proof {
                lemma_ext_dot_none(name@);
            }
            false
        },
    }
}

/// The parent of the path `s`.
pub fn parent(s: &str) -> (r: String)
    ensures
        r@ == parent_of(s@),
{
    let k = find_split_point(s);
    if k == 0 {
        proof {
            reveal_strlit(".");
        }
        let r = String::from_str(".");
        assert(r@ =~= parent_of(s@));
        r
    } else if k == 1 {
        String::from_str(s.substring_char(0, 1))
    } else {
        String::from_str(s.substring_char(0, k - 1))
    }
}

/// The extension of the file name of `p`, without its dot, when there is
/// one.
pub open spec fn extension_of(p: Seq<char>) -> Option<Seq<char>> {
    let name = file_name_of(p);
    if name_has_extension(name) {
        Some(name.skip(ext_dot(name) + 1))
    } else {
        None
    }
}

/// The MIME type a file is served under, by its extension: the known
/// video containers, and a generic byte stream for everything else.
pub open spec fn mime_of(p: Seq<char>) -> Seq<char> {
    match extension_of(p) {
        Some(e) => if e == "mp4"@ {
            "video/mp4"@
        } else if e == "mkv"@ {
            "video/x-matroska"@
        } else if e == "webm"@ {
            "video/webm"@
        } else {
            "application/octet-stream"@
        },
        None => "application/octet-stream"@,
    }
}

/// The MIME type to serve the file at `s` under.
pub fn mime_for_path(s: &str) -> (r: &'static str)
    ensures
        r@ == mime_of(s@),
{
    let len = s.unicode_len();
    let k = find_split_point(s);
    let name = s.substring_char(k, len);
    let nlen = name.unicode_len();
    match crate::text::rfind_char(name, '.') {
        Some(i) => {
            proof {
                lemma_ext_dot_at(name@, i as int);
            }
            if i > 0 {
                let ext = name.substring_char(i + 1, nlen);
                if crate::text::str_eq(ext, "mp4") {
                    "video/mp4"
                } else if crate::text::str_eq(ext, "mkv") {
                    "video/x-matroska"
                } else if crate::text::str_eq(ext, "webm") {
                    "video/webm"
                } else {
                    "application/octet-stream"
                }
            } else {
                "application/octet-stream"
            }
        },
        None => {
            proof {
                lemma_ext_dot_none(name@);
            }
            "application/octet-stream"
        },
    }
}

/// Joins `dir` and `name` into one path.
pub fn join_path(dir: &str, name: &str) -> (r: String)
    ensures
        r@ == join_of(dir@, name@),
{
    let dlen = dir.unicode_len();
    if dlen == 0 {
        return String::from_str(name);
    }
    let last = dir.get_char(dlen - 1);
    let mut r = String::from_str(dir);
    if last == '/' || last == '\\' {
        r.append(name);
        r
    } else {
        proof {
            reveal_strlit("/");
        }
        r.append("/");
        r.append(name);
        assert(r@ =~= join_of(dir@, name@));
        r
    }
}

} // verus!

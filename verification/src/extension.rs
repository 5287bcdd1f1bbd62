//! The lower-cased extension of a file path.
use vstd::prelude::*;

use crate::text::{ascii_lower_text, ascii_lowercase, chars_of, opt_chars, opt_text};

verus! {

/// What `std::path::Path::file_name` gives for the path text `p`: its final
/// component, if it is a normal one. The splitting into components follows
/// the path rules of the platform the crate is built for.
pub uninterp spec fn path_file_name(p: Seq<char>) -> Option<Seq<char>>;

/// `std::path::Path::file_name`, with the path built from `file_path` and
/// the name handed back as a `String` (a name taken from a `str` is always
/// valid UTF-8). The contract only ties the result to `path_file_name`.
#[verifier::external_body]
fn file_name_of(file_path: &str) -> (name: Option<String>)
    ensures
        opt_text(name) == path_file_name(file_path@),
{
    std::path::Path::new(file_path).file_name().and_then(|n| n.to_str()).map(|n| n.to_string())
}

/// Index of the last `c` in `s`, or -1 when there is none.
pub open spec fn last_index_of(s: Seq<char>, c: char) -> int
    decreases s.len(),
{
    if s.len() == 0 {
        -1
    } else if s.last() == c {
        s.len() - 1
    } else {
        last_index_of(s.drop_last(), c)
    }
}

/// The extension of a file name, as `Path::extension` documents it: none
/// for `..`, none without an embedded `.`, none when the only `.` is the
/// first character, and otherwise the part after the final `.`.
pub open spec fn name_extension(name: Seq<char>) -> Option<Seq<char>> {
    let dot = last_index_of(name, '.');
    if name == seq!['.', '.'] || dot <= 0 {
        None
    } else {
        Some(name.skip(dot + 1))
    }
}

/// The lower-cased extension of a path, if it has one.
pub open spec fn path_extension(p: Seq<char>) -> Option<Seq<char>> {
    match path_file_name(p) {
        Some(name) => match name_extension(name) {
            Some(ext) => Some(ascii_lower_text(ext)),
            None => None,
        },
        None => None,
    }
}

proof fn lemma_last_index_bound(s: Seq<char>, c: char)
    ensures
        -1 <= last_index_of(s, c) < s.len(),
        last_index_of(s, c) >= 0 ==> s[last_index_of(s, c)] == c,
    decreases s.len(),
{
    if s.len() > 0 && s.last() != c {
        lemma_last_index_bound(s.drop_last(), c);
    }
}

/// If `s[k]` is `c` and nothing after it is, `k` is the last index of `c`;
/// with `k == -1`, `c` does not occur at all.
proof fn lemma_last_index_is(s: Seq<char>, c: char, k: int)
    requires
        -1 <= k < s.len(),
        k >= 0 ==> s[k] == c,
        forall|j: int| k < j < s.len() ==> #[trigger] s[j] != c,
    ensures
        last_index_of(s, c) == k,
    decreases s.len(),
{
    if s.len() > 0 && k < s.len() - 1 {
        let t = s.drop_last();
        assert forall|j: int| k < j < t.len() implies #[trigger] t[j] != c by {
            assert(t[j] == s[j]);
        }
        if k >= 0 {
            assert(t[k] == s[k]);
        }
        lemma_last_index_is(t, c, k);
    }
}

/// The extension of a file name (not lower-cased).
fn extension_of_name(name: &[char]) -> (ext: Option<Vec<char>>)
    ensures
        opt_chars(ext) == name_extension(name@),
{
    let n = name.len();
    let mut i: usize = n;
    while i > 0 && name[i - 1] != '.'
        invariant
            i <= n,
            n == name@.len(),
            forall|j: int| i <= j < n ==> #[trigger] name@[j] != '.',
        decreases i,
    {
        i = i - 1;
    }
    proof {
        lemma_last_index_is(name@, '.', i - 1);
    }
    if n == 2 && name[0] == '.' && name[1] == '.' {
        assert(name@ =~= seq!['.', '.']);
        return None;
    }
    proof {
        if name@ == seq!['.', '.'] {
            assert(name@[0] == '.' && name@[1] == '.');
        }
    }
    if i <= 1 {
        return None;
    }
    let mut out: Vec<char> = Vec::new();
    let mut j = i;
    while j < n
        invariant
            i <= j <= n,
            n == name@.len(),
            out@ == name@.subrange(i as int, j as int),
        decreases n - j,
    {
        out.push(name[j]);
        assert(name@.subrange(i as int, j as int).push(name@[j as int]) =~= name@.subrange(
            i as int,
            j + 1,
        ));
        j = j + 1;
    }
    assert(out@ =~= name@.skip(i as int));
    Some(out)
}

/// The extension of `file_path`, lower-cased the ASCII way, as the
/// characters of the text.
pub fn extension_chars(file_path: &str) -> (ext: Option<Vec<char>>)
    ensures
        opt_chars(ext) == path_extension(file_path@),
{
    match file_name_of(file_path) {
        Some(name) => {
            let name_chars = chars_of(name.as_str());
            match extension_of_name(name_chars.as_slice()) {
                Some(e) => Some(ascii_lowercase(e.as_slice())),
                None => None,
            }
        },
        None => None,
    }
}

/// The extension of `file_path`, lower-cased the ASCII way.
pub fn file_extension(file_path: &str) -> (ext: Option<String>)
    ensures
        opt_text(ext) == path_extension(file_path@),
{
    match extension_chars(file_path) {
        Some(e) => Some(crate::text::string_from_chars(e.as_slice())),
        None => None,
    }
}

} // verus!

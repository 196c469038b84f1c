//! Where a download is written: the last name of a path, the reduction of an
//! API-supplied filename to a safe basename, and the target of a save.
//! Paths use `/` as separator.

use vstd::prelude::*;

use crate::parse::{split_chars, split_on};
use crate::text::{chars_eq_str, chars_of, push_all, push_str, string_from_chars};

verus! {

/// A path piece that names something: non-empty and not `.`.
pub open spec fn named(piece: Seq<char>) -> bool {
    piece.len() > 0 && piece != "."@
}

/// The index of the last named piece before `n`, if any.
pub open spec fn last_named(pieces: Seq<Seq<char>>, n: int) -> Option<int>
    decreases n,
{
    if n <= 0 {
        None
    } else if named(pieces[n - 1]) {
        Some(n - 1)
    } else {
        last_named(pieces, n - 1)
    }
}

/// `path` with every platform `separator` written as `/`.
pub open spec fn slashed(path: Seq<char>, separator: char) -> Seq<char>
    decreases path.len(),
{
    if path.len() == 0 {
        Seq::empty()
    } else {
        let rest = slashed(path.drop_last(), separator);
        if path.last() == separator {
            rest.push('/')
        } else {
            rest.push(path.last())
        }
    }
}

/// The final component of a path whose components are separated by `/` or
/// the platform `separator`, when it is a name.
pub fn file_name_sep(path: &str, separator: char) -> (r: Option<String>)
    ensures
        match file_name_of(slashed(path@, separator)) {
            Some(n) => r matches Some(s) && s@ == n,
            None => r is None,
        },
{
    let chars = chars_of(path);
    let mut norm: Vec<char> = Vec::new();
    let mut i: usize = 0;
    while i < chars.len()
        invariant
            i <= chars@.len(),
            norm@ == slashed(chars@.subrange(0, i as int), separator),
        decreases chars@.len() - i,
    {
        let c = chars[i];
        proof {
            assert(chars@.subrange(0, i + 1).drop_last() =~= chars@.subrange(0, i as int));
        }
        if c == separator {
            norm.push('/');
        } else {
            norm.push(c);
        }
        i = i + 1;
    }
    proof {
        assert(chars@.subrange(0, chars@.len() as int) =~= chars@);
    }
    file_name_chars(&norm)
}

/// The final component of a path when it is a name (`Path::file_name`):
/// the last piece between `/` separators that is neither empty nor `.`;
/// `None` when there is none or it is `..`.
pub open spec fn file_name_of(path: Seq<char>) -> Option<Seq<char>> {
    let pieces = split_on(path, '/');
    match last_named(pieces, pieces.len() as int) {
        Some(i) => if pieces[i] == ".."@ {
            None
        } else {
            Some(pieces[i])
        },
        None => None,
    }
}

/// The final component of a path when it is a name.
pub fn file_name(path: &str) -> (r: Option<String>)
    ensures
        match file_name_of(path@) {
            Some(n) => r matches Some(s) && s@ == n,
            None => r is None,
        },
{
    let chars = chars_of(path);
    file_name_chars(&chars)
}

fn file_name_chars(path: &Vec<char>) -> (r: Option<String>)
    ensures
        match file_name_of(path@) {
            Some(n) => r matches Some(s) && s@ == n,
            None => r is None,
        },
{
    let pieces = split_chars(path, '/');
    let ghost ps = split_on(path@, '/');
    let mut n: usize = pieces.len();
    while n > 0 && (pieces[n - 1].len() == 0 || chars_eq_str(&pieces[n - 1], "."))
        invariant
            n <= pieces@.len(),
            pieces@.len() == ps.len(),
            forall|i: int| 0 <= i < pieces@.len() ==> (#[trigger] pieces@[i])@ == ps[i],
            last_named(ps, ps.len() as int) == last_named(ps, n as int),
        decreases n,
    {
        n = n - 1;
    }
    if n == 0 {
        return None;
    }
    assert(pieces@[n - 1]@ == ps[n - 1]);
    if chars_eq_str(&pieces[n - 1], "..") {
        return None;
    }
    Some(string_from_chars(&pieces[n - 1]))
}

/// `name` with every `\` turned into `/` and every NUL removed.
pub open spec fn normalized_name(name: Seq<char>) -> Seq<char>
    decreases name.len(),
{
    if name.len() == 0 {
        Seq::empty()
    } else {
        let rest = normalized_name(name.drop_last());
        let c = name.last();
        if c == '\\' {
            rest.push('/')
        } else if c == '\0' {
            rest
        } else {
            rest.push(c)
        }
    }
}

/// The safe basename of an API-supplied filename: its last name after
/// normalizing separators, else `download`.
pub open spec fn safe_name_of(name: Seq<char>) -> Seq<char> {
    match file_name_of(normalized_name(name)) {
        Some(n) => n,
        None => "download"@,
    }
}

/// Reduce an API-supplied filename to a safe basename (no path traversal).
pub fn safe_name(name: &str) -> (r: String)
    ensures
        r@ == safe_name_of(name@),
{
    let chars = chars_of(name);
    let mut norm: Vec<char> = Vec::new();
    let mut i: usize = 0;
    while i < chars.len()
        invariant
            i <= chars@.len(),
            norm@ == normalized_name(chars@.subrange(0, i as int)),
        decreases chars@.len() - i,
    {
        let c = chars[i];
        proof {
            assert(chars@.subrange(0, i + 1).drop_last() =~= chars@.subrange(0, i as int));
        }
        if c == '\\' {
            norm.push('/');
        } else if c != '\0' {
            norm.push(c);
        }
        i = i + 1;
    }
    proof {
        assert(chars@.subrange(0, chars@.len() as int) =~= chars@);
    }
    match file_name_chars(&norm) {
        Some(n) => n,
        None => crate::json::owned("download"),
    }
}

/// A safe name holds no separator and is neither empty, `.` nor `..`: joined
/// to a directory it stays inside it.
pub proof fn safe_name_stays_inside(name: Seq<char>)
    ensures
        safe_name_of(name).len() > 0,
        safe_name_of(name) != "."@,
        safe_name_of(name) != ".."@,
        avoids(safe_name_of(name), '/'),
        avoids(safe_name_of(name), '\\'),
{
    let norm = normalized_name(name);
    lemma_normalized_has_no_backslash(name);
    let pieces = split_on(norm, '/');
    lemma_split_acc_avoids(norm, '/', Seq::empty(), '/');
    lemma_split_acc_avoids(norm, '/', Seq::empty(), '\\');
    reveal_strlit("download");
    reveal_strlit(".");
    reveal_strlit("..");
    let d = "download"@;
    assert(d.len() == 8 && d[0] == 'd' && d[1] == 'o');
    assert(avoids(d, '/'));
    assert(avoids(d, '\\'));
    assert(d != "."@);
    assert(d != ".."@);
    if let Some(k) = last_named(pieces, pieces.len() as int) {
        lemma_last_named_is_named(pieces, pieces.len() as int);
        assert(avoids(pieces[k], '/'));
        assert(avoids(pieces[k], '\\'));
    }
}

proof fn lemma_last_named_is_named(pieces: Seq<Seq<char>>, n: int)
    requires
        n <= pieces.len(),
    ensures
        last_named(pieces, n) matches Some(k) ==> 0 <= k < n && named(pieces[k]),
    decreases n,
{
    if n > 0 && !named(pieces[n - 1]) {
        lemma_last_named_is_named(pieces, n - 1);
    }
}

/// `s` holds no `c`.
pub open spec fn avoids(s: Seq<char>, c: char) -> bool {
    forall|i: int| 0 <= i < s.len() ==> s[i] != c
}

/// The pieces of a split avoid the separator, and every character that the
/// whole avoids.
proof fn lemma_split_acc_avoids(s: Seq<char>, sep: char, cur: Seq<char>, c: char)
    requires
        avoids(cur, c),
        c == sep || avoids(s, c),
    ensures
        forall|k: int|
            0 <= k < crate::parse::split_on_acc(s, sep, cur).len() ==> #[trigger] avoids(
                crate::parse::split_on_acc(s, sep, cur)[k],
                c,
            ),
    decreases s.len(),
{
    if s.len() > 0 {
        let tail = s.drop_first();
        assert(c == sep || avoids(tail, c)) by {
            if c != sep {
                assert forall|i: int| 0 <= i < tail.len() implies tail[i] != c by {
                    assert(tail[i] == s[i + 1]);
                }
            }
        }
        if s[0] == sep {
            lemma_split_acc_avoids(tail, sep, Seq::empty(), c);
            let rest = crate::parse::split_on_acc(tail, sep, Seq::empty());
            let all = seq![cur] + rest;
            assert(crate::parse::split_on_acc(s, sep, cur) == all);
            assert forall|k: int| 0 <= k < all.len() implies #[trigger] avoids(all[k], c) by {
                if k > 0 {
                    assert(all[k] == rest[k - 1]);
                } else {
                    assert(all[k] == cur);
                }
            }
            assert forall|k: int| 0 <= k < crate::parse::split_on_acc(s, sep, cur).len() implies #[trigger] avoids(
                crate::parse::split_on_acc(s, sep, cur)[k], c) by {
                assert(avoids(all[k], c));
            }
        } else {
            let next = cur.push(s[0]);
            assert(avoids(next, c)) by {
                assert forall|i: int| 0 <= i < next.len() implies next[i] != c by {
                    if i < cur.len() {
                        assert(next[i] == cur[i]);
                    }
                }
            }
            lemma_split_acc_avoids(tail, sep, next, c);
            assert(crate::parse::split_on_acc(s, sep, cur) == crate::parse::split_on_acc(tail, sep, next));
        }
    } else {
        let all = crate::parse::split_on_acc(s, sep, cur);
        assert(all == seq![cur]);
        assert(all[0] == cur);
    }
}

proof fn lemma_normalized_has_no_backslash(name: Seq<char>)
    ensures
        avoids(normalized_name(name), '\\'),
    decreases name.len(),
{
    if name.len() > 0 {
        lemma_normalized_has_no_backslash(name.drop_last());
        let rest = normalized_name(name.drop_last());
        assert forall|i: int| 0 <= i < normalized_name(name).len() implies #[trigger] normalized_name(
            name,
        )[i] != '\\' by {
            if i < rest.len() {
                assert(normalized_name(name)[i] == rest[i]);
            }
        }
    }
}

/// Whether a save target names a directory: it is one, or its text ends with
/// `/` or the platform separator.
pub open spec fn looks_like_dir(path: Seq<char>, is_dir: bool, separator: char) -> bool {
    is_dir || (path.len() > 0 && (path.last() == '/' || path.last() == separator))
}

/// `dir` joined with `name`: the platform `separator` is added unless `dir`
/// is empty or already ends with `/` or the separator.
pub open spec fn joined(dir: Seq<char>, name: Seq<char>, separator: char) -> Seq<char> {
    if dir.len() == 0 || dir.last() == '/' || dir.last() == separator {
        dir + name
    } else {
        dir + seq![separator] + name
    }
}

/// The file a save writes: inside a directory target, the safe basename of
/// the API filename (else `download`); otherwise the target itself.
pub open spec fn save_target(path: Seq<char>, is_dir: bool, separator: char, filename: Option<Seq<char>>) -> Seq<char> {
    if looks_like_dir(path, is_dir, separator) {
        joined(
            path,
            safe_name_of(
                match filename {
                    Some(f) => f,
                    None => "download"@,
                },
            ),
            separator,
        )
    } else {
        path
    }
}

/// The file a save writes. `is_dir` says whether `path_or_dir` is an
/// existing directory; `separator` is the platform's path separator.
pub fn resolve_target(path_or_dir: &str, is_dir: bool, separator: char, filename: Option<&str>) -> (r: String)
    ensures
        r@ == save_target(
            path_or_dir@,
            is_dir,
            separator,
            match filename {
                Some(f) => Some(f@),
                None => None,
            },
        ),
{
    let p = chars_of(path_or_dir);
    let n = p.len();
    let dir = is_dir || (n > 0 && (p[n - 1] == '/' || p[n - 1] == separator));
    if !dir {
        return crate::json::owned(path_or_dir);
    }
    let name = match filename {
        Some(f) => safe_name(f),
        None => safe_name("download"),
    };
    let mut out = p;
    if n > 0 && out[n - 1] != '/' && out[n - 1] != separator {
        out.push(separator);
    }
    push_str(&mut out, name.as_str());
    string_from_chars(&out)
}

} // verus!

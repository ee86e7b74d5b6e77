//! Safety rules for the relative paths inside a plugin package.
use vstd::prelude::*;

use crate::plugin::{lemma_split_on_nonempty, piece_ranges, split_on};
use crate::text::{ascii_upper, chars_of, concat, str_eq, to_ascii_upper};

verus! {

/// The largest manifest a package may hold, in bytes.
pub const MAX_MANIFEST_BYTES: u64 = 262144;

/// The largest prompt or script module a package may hold, in bytes.
pub const MAX_PROMPT_BYTES: u64 = 2097152;

/// The largest icon a package may hold, in bytes.
pub const MAX_ICON_BYTES: u64 = 1048576;

/// The largest extracted package, in bytes.
pub const MAX_EXTRACTED_BYTES: u64 = 33554432;

/// The device names that Windows reserves, whatever their extension.
pub open spec fn reserved_stem(s: Seq<char>) -> bool {
    s == "CON"@ || s == "PRN"@ || s == "AUX"@ || s == "NUL"@ || s == "COM1"@ || s == "COM2"@ || s
        == "COM3"@ || s == "COM4"@ || s == "COM5"@ || s == "COM6"@ || s == "COM7"@ || s == "COM8"@
        || s == "COM9"@ || s == "LPT1"@ || s == "LPT2"@ || s == "LPT3"@ || s == "LPT4"@ || s
        == "LPT5"@ || s == "LPT6"@ || s == "LPT7"@ || s == "LPT8"@ || s == "LPT9"@
}

/// `s` without its trailing dots and spaces.
pub open spec fn trim_dots_spaces(s: Seq<char>) -> Seq<char>
    decreases s.len(),
{
    if s.len() > 0 && (s.last() == '.' || s.last() == ' ') {
        trim_dots_spaces(s.drop_last())
    } else {
        s
    }
}

/// A file name Windows reserves: its part before the first dot, without
/// trailing spaces, is a device name in any letter case.
pub open spec fn reserved_windows_name(name: Seq<char>) -> bool {
    reserved_stem(ascii_upper(trim_dots_spaces(before_first(name, '.'))))
}

/// The part of `s` before the first `c`, or all of `s`.
pub open spec fn before_first(s: Seq<char>, c: char) -> Seq<char>
    decreases s.len(),
{
    if s.len() == 0 || s[0] == c {
        Seq::empty()
    } else {
        seq![s[0]] + before_first(s.drop_first(), c)
    }
}

/// The part before the first `c` ends at the first `c`.
pub proof fn lemma_before_first(s: Seq<char>, c: char, end: int)
    requires
        0 <= end <= s.len(),
        forall|j: int| 0 <= j < end ==> s[j] != c,
        end == s.len() || s[end] == c,
    ensures
        before_first(s, c) == s.take(end),
    decreases s.len(),
{
    if end > 0 {
        lemma_before_first(s.drop_first(), c, end - 1);
        assert(seq![s[0]] + s.drop_first().take(end - 1) =~= s.take(end));
    } else {
        assert(s.take(0) =~= Seq::<char>::empty());
    }
}

/// Whether Windows reserves `name` as a device name.
pub fn is_reserved_windows_name(name: &str) -> (r: bool)
    ensures
        r == reserved_windows_name(name@),
{
    let v = chars_of(name);
    let mut end: usize = 0;
    while end < v.len() && v[end] != '.'
        invariant
            end <= v.len(),
            forall|j: int| 0 <= j < end ==> v@[j] != '.',
        decreases v.len() - end,
    {
        end += 1;
    }
    proof {
        lemma_before_first(v@, '.', end as int);
    }
    let mut e = end;
    while e > 0 && (v[e - 1] == '.' || v[e - 1] == ' ')
        invariant
            e <= end <= v.len(),
            trim_dots_spaces(v@.take(end as int)) == trim_dots_spaces(v@.take(e as int)),
        decreases e,
    {
        assert(v@.take(e as int).drop_last() =~= v@.take(e - 1));
        e -= 1;
    }
    assert(trim_dots_spaces(v@.take(e as int)) == v@.take(e as int));
    let stem = crate::text::string_from_range(&v, 0, e);
    assert(v@.subrange(0, e as int) =~= v@.take(e as int));
    let upper = to_ascii_upper(stem.as_str());
    let u = upper.as_str();
    let names = [
        "CON", "PRN", "AUX", "NUL", "COM1", "COM2", "COM3", "COM4", "COM5", "COM6", "COM7", "COM8",
        "COM9", "LPT1", "LPT2", "LPT3", "LPT4", "LPT5", "LPT6", "LPT7", "LPT8", "LPT9",
    ];
    let mut found = false;
    let mut i: usize = 0;
    while i < 22
        invariant
            0 <= i <= 22,
            names@ == seq![
                "CON", "PRN", "AUX", "NUL", "COM1", "COM2", "COM3", "COM4", "COM5", "COM6", "COM7",
                "COM8", "COM9", "LPT1", "LPT2", "LPT3", "LPT4", "LPT5", "LPT6", "LPT7", "LPT8",
                "LPT9",
            ],
            found == exists|j: int| 0 <= j < i && names@[j]@ == u@,
        decreases 22 - i,
    {
        if str_eq(names[i], u) {
            found = true;
        }
        i += 1;
    }
    proof {
        if reserved_stem(u@) {
            assert(exists|j: int| 0 <= j < 22 && names@[j]@ == u@);
        }
        if found {
            let j = choose|j: int| 0 <= j < 22 && names@[j]@ == u@;
            assert(reserved_stem(u@));
        }
    }
    found
}

/// How a path piece fares: skipped (empty, or `.` after the first), refused
/// as a non-normal component (`..`, or a leading `.`), refused as a Windows
/// name, or accepted.
pub enum PieceVerdict {
    Skip,
    Unsafe,
    UnsafeWindows,
    Accept,
}

/// The verdict on piece number `k` of a path.
pub open spec fn piece_verdict(p: Seq<char>, k: int) -> PieceVerdict {
    if p.len() == 0 {
        PieceVerdict::Skip
    } else if p == "."@ {
        if k == 0 {
            PieceVerdict::Unsafe
        } else {
            PieceVerdict::Skip
        }
    } else if p == ".."@ {
        PieceVerdict::Unsafe
    } else if p.last() == '.' || p.last() == ' ' || reserved_windows_name(p) {
        PieceVerdict::UnsafeWindows
    } else {
        PieceVerdict::Accept
    }
}

/// The first refusing verdict among `pieces[k..]`, if any.
pub open spec fn first_refusal(pieces: Seq<Seq<char>>, k: int) -> Option<PieceVerdict>
    decreases pieces.len() - k,
{
    if k < 0 || k >= pieces.len() {
        None
    } else {
        match piece_verdict(pieces[k], k) {
            PieceVerdict::Unsafe => Some(PieceVerdict::Unsafe),
            PieceVerdict::UnsafeWindows => Some(PieceVerdict::UnsafeWindows),
            _ => first_refusal(pieces, k + 1),
        }
    }
}

/// What checking a package-relative path gives: `None` for a safe path,
/// otherwise whether the refusal is about a Windows name.
pub open spec fn path_refusal(v: Seq<char>) -> Option<bool> {
    if v.len() == 0 || v[0] == '/' || v[0] == '\\' || v.contains(':') || v.contains('\\') {
        Some(false)
    } else {
        match first_refusal(split_on(v, '/'), 0) {
            Some(PieceVerdict::UnsafeWindows) => Some(true),
            Some(_) => Some(false),
            None => None,
        }
    }
}

/// The verdict on the piece `v[from..to]`, number `k` of its path.
fn check_piece(v: &Vec<char>, from: usize, to: usize, k: usize) -> (r: PieceVerdict)
    requires
        from <= to <= v.len(),
    ensures
        r == piece_verdict(v@.subrange(from as int, to as int), k as int),
{
    let ghost p = v@.subrange(from as int, to as int);
    proof {
        reveal_strlit(".");
        reveal_strlit("..");
        reveal_strlit(" ");
        assert("."@ =~= seq!['.']);
        assert(" "@ =~= seq![' ']);
    }
    if to == from {
        return PieceVerdict::Skip;
    }
    if to - from == 1 && v[from] == '.' {
        assert(p =~= "."@);
        return if k == 0 {
            PieceVerdict::Unsafe
        } else {
            PieceVerdict::Skip
        };
    }
    if to - from == 2 && v[from] == '.' && v[from + 1] == '.' {
        assert(p =~= ".."@);
        return PieceVerdict::Unsafe;
    }
    assert(p != "."@) by {
        if p == "."@ {
            assert(p.len() == 1 && p[0] == '.');
        }
    }
    assert(p != ".."@) by {
        if p == ".."@ {
            assert(p.len() == 2 && p[0] == '.' && p[1] == '.');
        }
    }
    let last = v[to - 1];
    assert(p.last() == last);

    let name = crate::text::string_from_range(v, from, to);
    if last == '.' || last == ' ' || is_reserved_windows_name(name.as_str()) {
        PieceVerdict::UnsafeWindows
    } else {
        PieceVerdict::Accept
    }
}

/// Accepts a package-relative path and returns it; refuses an empty or
/// rooted path, a drive or stream (`:`), a backslash, a `..` or leading `.`
/// component, and a component that Windows would misread (trailing dot or
/// space, or a reserved device name).
pub fn validate_relative_path(value: &str) -> (r: Result<String, String>)
    ensures
        match path_refusal(value@) {
            None => r matches Ok(p) && p@ == value@,
            Some(true) => r matches Err(e) && e@ == "unsafe Windows plugin path '"@ + value@ + "'"@,
            Some(false) => r matches Err(e) && e@ == "unsafe plugin path '"@ + value@ + "'"@,
        },
{
    let v = chars_of(value);
    let unsafe_message = quote_path("unsafe plugin path '", value);
    if v.len() == 0 || v[0] == '/' || v[0] == '\\' || crate::text::chars_contain(&v, ':')
        || crate::text::chars_contain(&v, '\\') {
        return Err(unsafe_message);
    }
    let n = v.len();
    let mut start: usize = 0;
    let mut k: usize = 0;
    let mut i: usize = 0;
    assert(v@.take(0) =~= Seq::<char>::empty());
    while i < n
        invariant
            n == v.len(),
            v@ == value@,
            unsafe_message@ == "unsafe plugin path '"@ + value@ + "'"@,
            v@.len() > 0 && v@[0] != '/' && v@[0] != '\\' && !v@.contains(':') && !v@.contains('\\'),
            start <= i <= n,
            k <= i,
            k + 1 == split_on(v@.take(i as int), '/').len(),
            split_on(v@.take(i as int), '/').last() == v@.subrange(start as int, i as int),
            forall|j: int|
                0 <= j < k ==> piece_verdict(#[trigger] split_on(v@.take(i as int), '/')[j], j) is Skip
                    || piece_verdict(split_on(v@.take(i as int), '/')[j], j) is Accept,
        decreases n - i,
    {
        proof {
            lemma_split_on_nonempty(v@.take(i as int), '/');
            assert(v@.take(i + 1).drop_last() =~= v@.take(i as int));
        }
        if v[i] == '/' {
            let verdict = check_piece(&v, start, i, k);
            proof {
                let done = split_on(v@.take(i as int), '/');
                let next = split_on(v@.take(i + 1), '/');
                assert(next =~= done.push(Seq::<char>::empty()));
            }
            match verdict {
                PieceVerdict::Unsafe => {
                    proof {
                        lemma_refusal_found(v@, i + 1, k as int);
                    }
                    return Err(unsafe_message);
                },
                PieceVerdict::UnsafeWindows => {
                    proof {
                        lemma_refusal_found(v@, i + 1, k as int);
                    }
                    return Err(quote_path("unsafe Windows plugin path '", value));
                },
                _ => {},
            }
            start = i + 1;
            i += 1;
            k += 1;
            assert(v@.subrange(start as int, i as int) =~= Seq::<char>::empty());
        } else {
            proof {
                let done = split_on(v@.take(i as int), '/');
                let next = split_on(v@.take(i + 1), '/');
                assert(next.len() == done.len());
                assert forall|j: int| 0 <= j < k implies next[j] == done[j] by {}
            }
            i += 1;
            assert(v@.subrange(start as int, i as int) =~= v@.subrange(start as int, i - 1).push(
                v@[i - 1],
            ));
        }
    }
    assert(v@.take(n as int) =~= v@);
    let verdict = check_piece(&v, start, n, k);
    match verdict {
        PieceVerdict::Unsafe => {
            proof {
                lemma_refusal_found(v@, n as int, k as int);
            }
            Err(unsafe_message)
        },
        PieceVerdict::UnsafeWindows => {
            proof {
                lemma_refusal_found(v@, n as int, k as int);
            }
            Err(quote_path("unsafe Windows plugin path '", value))
        },
        _ => {
            proof {
                let pieces = split_on(v@, '/');
                lemma_no_refusal(pieces, 0);
            }
            Ok(value.to_owned())
        },
    }
}

/// `head value'`.
fn quote_path(head: &str, value: &str) -> (r: String)
    ensures
        r@ == head@ + value@ + "'"@,
{
    let h = concat(head, value);
    concat(h.as_str(), "'")
}

/// When the pieces before `k` pass and piece `k` refuses, the first refusal
/// is piece `k`'s.
proof fn lemma_refusal_found(v: Seq<char>, i: int, k: int)
    requires
        0 <= i <= v.len(),
        0 <= k < split_on(v.take(i), '/').len(),
        forall|j: int|
            0 <= j < k ==> piece_verdict(#[trigger] split_on(v.take(i), '/')[j], j) is Skip
                || piece_verdict(split_on(v.take(i), '/')[j], j) is Accept,
        !(piece_verdict(split_on(v.take(i), '/')[k], k) is Skip || piece_verdict(
            split_on(v.take(i), '/')[k],
            k,
        ) is Accept),
        k < split_on(v.take(i), '/').len() - 1 || i == v.len(),
    ensures
        first_refusal(split_on(v, '/'), 0) == Some(piece_verdict(split_on(v.take(i), '/')[k], k)),
{
    lemma_pieces_of_longer_prefix(v, i, v.len() as int, k);
    assert(v.take(v.len() as int) =~= v);
    lemma_first_refusal_at(split_on(v, '/'), 0, k);
}

/// The complete pieces of a prefix are pieces of the whole text.
proof fn lemma_pieces_of_longer_prefix(v: Seq<char>, i: int, n: int, k: int)
    requires
        0 <= i <= n <= v.len(),
        0 <= k < split_on(v.take(i), '/').len(),
        k < split_on(v.take(i), '/').len() - 1 || i == n || v[i] == '/',
    ensures
        forall|j: int| 0 <= j <= k ==> split_on(v.take(n), '/')[j] == split_on(v.take(i), '/')[j],
        split_on(v.take(n), '/').len() > k,
    decreases n - i,
{
    if n > i {
        lemma_split_on_nonempty(v.take(i), '/');
        lemma_split_on_nonempty(v.take(i + 1), '/');
        assert(v.take(i + 1).drop_last() =~= v.take(i));
        assert(v.take(i + 1).last() == v[i]);
        if k < split_on(v.take(i), '/').len() - 1 {
            lemma_pieces_of_longer_prefix(v, i + 1, n, k);
        } else {
            assert(v[i] == '/');
            lemma_pieces_of_longer_prefix(v, i + 1, n, k);
        }
    }
    assert(v.take(v.len() as int) =~= v);
}

/// Pieces before `k` that pass leave the first refusal to piece `k`.
proof fn lemma_first_refusal_at(pieces: Seq<Seq<char>>, j: int, k: int)
    requires
        0 <= j <= k < pieces.len(),
        forall|m: int|
            j <= m < k ==> piece_verdict(#[trigger] pieces[m], m) is Skip || piece_verdict(
                pieces[m],
                m,
            ) is Accept,
        !(piece_verdict(pieces[k], k) is Skip || piece_verdict(pieces[k], k) is Accept),
    ensures
        first_refusal(pieces, j) == Some(piece_verdict(pieces[k], k)),
    decreases k - j,
{
    if j < k {
        lemma_first_refusal_at(pieces, j + 1, k);
    }
}

/// When every piece passes there is no refusal.
proof fn lemma_no_refusal(pieces: Seq<Seq<char>>, j: int)
    requires
        0 <= j,
        forall|m: int|
            j <= m < pieces.len() ==> piece_verdict(#[trigger] pieces[m], m) is Skip
                || piece_verdict(pieces[m], m) is Accept,
    ensures
        first_refusal(pieces, j) is None,
    decreases pieces.len() - j,
{
    if j < pieces.len() {
        lemma_no_refusal(pieces, j + 1);
    }
}

/// The name of the last component of a path split into `pieces`, as
/// `Path::file_name` gives it: empty and `.` pieces are skipped, except that
/// a leading `.` or a leading empty piece (a root) ends the search, and a
/// last component `..` has no name.
pub open spec fn last_component_name(ps: Seq<Seq<char>>) -> Option<Seq<char>>
    decreases ps.len(),
{
    if ps.len() == 0 {
        None
    } else if ps.len() == 1 {
        if ps[0].len() == 0 || ps[0] == "."@ || ps[0] == ".."@ {
            None
        } else {
            Some(ps[0])
        }
    } else if ps.last().len() == 0 || ps.last() == "."@ {
        last_component_name(ps.drop_last())
    } else if ps.last() == ".."@ {
        None
    } else {
        Some(ps.last())
    }
}

/// The file name of a `/`-separated path.
pub open spec fn file_name(v: Seq<char>) -> Option<Seq<char>> {
    last_component_name(split_on(v, '/'))
}

/// The index of the last `c` in `s`.
pub open spec fn last_index_of(s: Seq<char>, c: char) -> Option<int>
    decreases s.len(),
{
    if s.len() == 0 {
        None
    } else if s.last() == c {
        Some(s.len() - 1)
    } else {
        last_index_of(s.drop_last(), c)
    }
}

/// The last index of a character lies within the text and holds it.
proof fn lemma_last_index_of(s: Seq<char>, c: char)
    ensures
        last_index_of(s, c) matches Some(i) ==> 0 <= i < s.len() && s[i] == c,
    decreases s.len(),
{
    if s.len() > 0 && s.last() != c {
        lemma_last_index_of(s.drop_last(), c);
    }
}

/// The extension of a file name, as `Path::extension` gives it: what
/// follows the last `.`, when something precedes that `.`.
pub open spec fn extension(name: Seq<char>) -> Option<Seq<char>> {
    match last_index_of(name, '.') {
        Some(i) => if i > 0 {
            Some(name.subrange(i + 1, name.len() as int))
        } else {
            None
        },
        None => None,
    }
}

/// What kind of piece `p` is for file-name purposes.
fn piece_class(v: &Vec<char>, from: usize, to: usize) -> (r: u8)
    requires
        from <= to <= v.len(),
    ensures
        r == 0 <==> v@.subrange(from as int, to as int).len() == 0,
        r == 1 <==> v@.subrange(from as int, to as int) == "."@,
        r == 2 <==> v@.subrange(from as int, to as int) == ".."@,
        r <= 3,
{
    let ghost p = v@.subrange(from as int, to as int);
    proof {
        reveal_strlit(".");
        reveal_strlit("..");
    }
    if to == from {
        assert(p != "."@ && p != ".."@) by {
            assert("."@.len() == 1);
            assert(".."@.len() == 2);
        }
        return 0;
    }
    if to - from == 1 && v[from] == '.' {
        assert(p =~= "."@);
        return 1;
    }
    if to - from == 2 && v[from] == '.' && v[from + 1] == '.' {
        assert(p =~= ".."@);
        return 2;
    }
    assert(p != "."@) by {
        if p == "."@ {
            assert(p.len() == 1 && p[0] == '.');
        }
    }
    assert(p != ".."@) by {
        if p == ".."@ {
            assert(p.len() == 2 && p[0] == '.' && p[1] == '.');
        }
    }
    3
}

/// The file name of a `/`-separated path, as a range of `v`.
fn file_name_range(v: &Vec<char>) -> (r: Option<(usize, usize)>)
    ensures
        match file_name(v@) {
            Some(n) => r matches Some((a, b)) && a <= b <= v@.len() && v@.subrange(a as int, b as int)
                == n,
            None => r is None,
        },
{
    let ranges = piece_ranges(v, '/');
    let ghost ps = split_on(v@, '/');
    let mut best: Option<(usize, usize)> = None;
    let mut k: usize = 0;
    while k < ranges.len()
        invariant
            k <= ranges@.len() == ps.len(),
            ps == split_on(v@, '/'),
            forall|j: int|
                0 <= j < ranges@.len() ==> (#[trigger] ranges@[j]).0 <= ranges@[j].1 <= v@.len()
                    && v@.subrange(ranges@[j].0 as int, ranges@[j].1 as int) == ps[j],
            match last_component_name(ps.take(k as int)) {
                Some(n) => best matches Some((a, b)) && a <= b <= v@.len() && v@.subrange(
                    a as int,
                    b as int,
                ) == n,
                None => best is None,
            },
        decreases ranges.len() - k,
    {
        let (a, b) = ranges[k];
        let class = piece_class(v, a, b);
        proof {
            assert(ps.take(k + 1).drop_last() =~= ps.take(k as int));
            assert(ps.take(k + 1).last() == ps[k as int]);
            if k == 0 {
                assert(ps.take(1)[0] == ps[0]);
            }
        }
        if k == 0 {
            best = if class == 3 {
                Some((a, b))
            } else {
                None
            };
        } else if class == 2 {
            best = None;
        } else if class == 3 {
            best = Some((a, b));
        }
        k += 1;
    }
    assert(ps.take(ps.len() as int) =~= ps);
    best
}

/// The index of the last `c` in `v[from..to]`, relative to `from`.
fn last_index_in(v: &Vec<char>, from: usize, to: usize, c: char) -> (r: Option<usize>)
    requires
        from <= to <= v.len(),
    ensures
        match last_index_of(v@.subrange(from as int, to as int), c) {
            Some(i) => r == Some(i as usize),
            None => r is None,
        },
        r matches Some(i) ==> i < to - from,
{
    let ghost s = v@.subrange(from as int, to as int);
    let mut j: usize = to;
    assert(s.take(to - from) =~= s);
    while j > from
        invariant
            from <= j <= to <= v.len(),
            s == v@.subrange(from as int, to as int),
            last_index_of(s, c) == last_index_of(s.take(j - from), c),
        decreases j,
    {
        let ghost t = s.take(j - from);
        assert(t.last() == v@[j - 1]);
        if v[j - 1] == c {
            return Some(j - 1 - from);
        }
        assert(t.drop_last() =~= s.take(j - 1 - from));
        j -= 1;
    }
    assert(s.take(0) =~= Seq::<char>::empty());
    None
}

/// Whether a file name's extension is exactly `ext`.
fn has_extension(v: &Vec<char>, from: usize, to: usize, ext: &str) -> (r: bool)
    requires
        from <= to <= v.len(),
    ensures
        r == (extension(v@.subrange(from as int, to as int)) == Some(ext@)),
{
    let ghost name = v@.subrange(from as int, to as int);
    proof {
        lemma_last_index_of(name, '.');
    }
    match last_index_in(v, from, to, '.') {
        Some(i) => if i > 0 {
            let tail = crate::text::string_from_range(v, from + i + 1, to);
            assert(v@.subrange(from + i + 1, to as int) =~= name.subrange(i + 1, name.len() as int));
            str_eq(tail.as_str(), ext)
        } else {
            false
        },
        None => false,
    }
}

/// Every component of the path is a plain name: no root, no leading `.`,
/// no `..`.
pub open spec fn all_normal(v: Seq<char>) -> bool {
    &&& (v.len() == 0 || v[0] != '/')
    &&& split_on(v, '/')[0] != "."@
    &&& forall|k: int| 0 <= k < split_on(v, '/').len() ==> #[trigger] split_on(v, '/')[k] != ".."@
}

/// A package-relative path to a `.js` module: no `:` or `\`, only plain
/// components, and the extension `js`.
pub open spec fn js_path_ok(v: Seq<char>) -> bool {
    &&& !v.contains(':')
    &&& !v.contains('\\')
    &&& all_normal(v)
    &&& file_name(v) matches Some(n) && extension(n) == Some("js"@)
}

/// Whether every component of `v` is a plain name.
fn check_all_normal(v: &Vec<char>) -> (r: bool)
    ensures
        r == all_normal(v@),
{
    let ranges = piece_ranges(v, '/');
    let ghost ps = split_on(v@, '/');
    proof {
        lemma_split_on_nonempty(v@, '/');
    }
    if v.len() > 0 && v[0] == '/' {
        return false;
    }
    let (a0, b0) = ranges[0];
    if piece_class(v, a0, b0) == 1 {
        return false;
    }
    let mut k: usize = 0;
    while k < ranges.len()
        invariant
            k <= ranges@.len() == ps.len(),
            ps == split_on(v@, '/'),
            forall|j: int|
                0 <= j < ranges@.len() ==> (#[trigger] ranges@[j]).0 <= ranges@[j].1 <= v@.len()
                    && v@.subrange(ranges@[j].0 as int, ranges@[j].1 as int) == ps[j],
            forall|j: int| 0 <= j < k ==> #[trigger] ps[j] != ".."@,
        decreases ranges.len() - k,
    {
        let (a, b) = ranges[k];
        if piece_class(v, a, b) == 2 {
            return false;
        }
        k += 1;
    }
    true
}

/// Accepts the entry module path of a script package.
pub fn validate_relative_js_path(value: &str) -> (r: Result<String, String>)
    ensures
        js_path_ok(value@) ==> (r matches Ok(p) && p@ == value@),
        !js_path_ok(value@) ==> (r matches Err(e) && e@
            == "script entry must be a package-relative .js path"@),
{
    let v = chars_of(value);
    let ok = !crate::text::chars_contain(&v, ':') && !crate::text::chars_contain(&v, '\\')
        && check_all_normal(&v) && match file_name_range(&v) {
        Some((a, b)) => has_extension(&v, a, b, "js"),
        None => false,
    };
    if ok {
        Ok(value.to_string())
    } else {
        Err("script entry must be a package-relative .js path".to_string())
    }
}

/// The size limit of a package file, by its name: the manifest, the icon,
/// prompts and modules, anything else.
pub open spec fn file_size_limit(path: Seq<char>) -> u64 {
    match file_name(path) {
        Some(n) => if n == "manifest.toml"@ {
            MAX_MANIFEST_BYTES
        } else if n == "icon.svg"@ {
            MAX_ICON_BYTES
        } else if extension(n) == Some("md"@) || extension(n) == Some("js"@) {
            MAX_PROMPT_BYTES
        } else {
            MAX_EXTRACTED_BYTES
        },
        None => MAX_EXTRACTED_BYTES,
    }
}

/// Refuses a package file of `size` bytes that exceeds the limit for its
/// name.
pub fn validate_file_limit(path: &str, size: u64) -> (r: Result<(), String>)
    ensures
        size <= file_size_limit(path@) ==> r is Ok,
        size > file_size_limit(path@) ==> (r matches Err(e) && e@ == "plugin file '"@ + path@
            + "' exceeds its size limit"@),
{
    let v = chars_of(path);
    let limit = match file_name_range(&v) {
        Some((a, b)) => {
            let name = crate::text::string_from_range(&v, a, b);
            if str_eq(name.as_str(), "manifest.toml") {
                MAX_MANIFEST_BYTES
            } else if str_eq(name.as_str(), "icon.svg") {
                MAX_ICON_BYTES
            } else if has_extension(&v, a, b, "md") || has_extension(&v, a, b, "js") {
                MAX_PROMPT_BYTES
            } else {
                MAX_EXTRACTED_BYTES
            }
        },
        None => MAX_EXTRACTED_BYTES,
    };
    if size > limit {
        let head = concat("plugin file '", path);
        Err(concat(head.as_str(), "' exceeds its size limit"))
    } else {
        Ok(())
    }
}

/// Whether the file name of `path` has the extension `ext`.
pub fn path_has_extension(path: &str, ext: &str) -> (r: bool)
    ensures
        r == (file_name(path@) matches Some(n) && extension(n) == Some(ext@)),
{
    let v = chars_of(path);
    match file_name_range(&v) {
        Some((a, b)) => has_extension(&v, a, b, ext),
        None => false,
    }
}


/// Whether every platform reads the path `p` alike: it holds no `\` or
/// `:`, and does not start with `//`.
pub open spec fn portable_path(p: Seq<char>) -> bool {
    &&& !p.contains('\\')
    &&& !p.contains(':')
    &&& !(p.len() >= 2 && p[0] == '/' && p[1] == '/')
}

/// The components of a path that every platform reads alike, as
/// `Path::components` gives them: `/` for a root, `.` for a leading `.` of
/// a relative path, then the pieces between `/` but empty ones and `.`.
pub open spec fn path_components(p: Seq<char>) -> Seq<Seq<char>> {
    let pieces = crate::script_modules::split_slash(p);
    let head: Seq<Seq<char>> = if p.len() > 0 && p[0] == '/' {
        seq!["/"@]
    } else if pieces[0] == "."@ {
        seq!["."@]
    } else {
        Seq::empty()
    };
    head + pieces.filter(|q: Seq<char>| q.len() > 0 && q != "."@)
}

/// What comparing the paths `a` and `b` by `Path`'s `==` may give:
/// equal texts name the same place, and where every platform reads both
/// alike their components decide. Elsewhere the platform decides.
pub open spec fn path_outcome(a: Seq<char>, b: Seq<char>, same: bool) -> bool {
    &&& a == b ==> same
    &&& portable_path(a) && portable_path(b) ==> same == (path_components(a) == path_components(b))
}

/// Compares two paths with `std::path::Path`'s `==`, which compares their
/// components. The contract claims that equal texts compare equal, and
/// that on paths without `\` or `:` that do not start with `//` the
/// components, split at `/`, decide. On other paths the platform's
/// separators and prefixes decide, and nothing is claimed.
#[verifier::external_body]
pub(crate) fn same_path(a: &str, b: &str) -> (r: bool)
    ensures
        path_outcome(a@, b@, r),
{
    std::path::Path::new(a) == std::path::Path::new(b)
}

} // verus!

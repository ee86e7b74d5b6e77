//! The hash that identifies a package's files: SHA-256 over each file's
//! package-relative path (with `/` separators), a zero byte, its bytes and a
//! `0xff` byte, in the order of the paths in lower case; written in hex.
//! Walking the directory and reading the files are the caller's work.
use vstd::prelude::*;

use sha2::Digest;

use crate::settings::{lemma_lex_lt_irreflexive, lemma_lex_lt_total, lemma_lex_lt_transitive, lex_less, lex_lt};
use crate::text::{chars_of, lowercase, push_char, to_lowercase};
use vstd::seq_lib::to_multiset_insert;
use vstd::utf8::encode_utf8;

verus! {

/// What SHA-256 makes of `data`.
pub uninterp spec fn sha256_digest(data: Seq<u8>) -> Seq<u8>;

/// Hashes `data` with `sha2::Sha256::digest`: the 32-byte digest. The
/// contract names the digest and states its length, and claims no more.
#[verifier::external_body]
fn sha256(data: &[u8]) -> (r: Vec<u8>)
    ensures
        r@ == sha256_digest(data@),
        r@.len() == 32,
{
    sha2::Sha256::digest(data).to_vec()
}

/// The lowercase hex digit of `n`, below 16.
pub open spec fn hex_digit(n: u8) -> char {
    if n < 10 {
        (n + 48) as char
    } else {
        (n + 87) as char
    }
}

/// `bytes` in lowercase hex, two digits a byte, high digit first.
pub open spec fn hex_text(bytes: Seq<u8>) -> Seq<char>
    decreases bytes.len(),
{
    if bytes.len() == 0 {
        Seq::empty()
    } else {
        hex_text(bytes.drop_last()) + seq![
            hex_digit(bytes.last() / 16),
            hex_digit(bytes.last() % 16),
        ]
    }
}

/// Writes `bytes` with `hex::encode`: lowercase hex, two digits a byte.
#[verifier::external_body]
fn hex_encode(bytes: &[u8]) -> (r: String)
    ensures
        r@ == hex_text(bytes@),
{
    hex::encode(bytes)
}

/// A package-relative path with `/` for each `\`.
pub open spec fn slashed(path: Seq<char>) -> Seq<char> {
    path.map_values(|c: char| if c == '\\' {
        '/'
    } else {
        c
    })
}

/// What one file adds to the hashed bytes.
pub open spec fn entry_bytes(path: Seq<char>, content: Seq<u8>) -> Seq<u8> {
    encode_utf8(slashed(path)) + seq![0u8] + content + seq![255u8]
}

/// The hashed bytes of `files`, in order.
pub open spec fn hash_input(files: Seq<(Seq<char>, Seq<u8>)>) -> Seq<u8>
    decreases files.len(),
{
    if files.len() == 0 {
        Seq::empty()
    } else {
        hash_input(files.drop_last()) + entry_bytes(files.last().0, files.last().1)
    }
}

/// Whether `files` are in the order of their paths in lower case.
pub open spec fn by_path(files: Seq<(Seq<char>, Seq<u8>)>) -> bool {
    forall|i: int, j: int|
        0 <= i < j < files.len() ==> !lex_lt(lowercase(#[trigger] files[j].0), lowercase(#[trigger] files[i].0))
}

/// The models of a list of files.
pub open spec fn files_view(v: Seq<(String, Vec<u8>)>) -> Seq<(Seq<char>, Seq<u8>)> {
    v.map_values(|f: (String, Vec<u8>)| (f.0@, f.1@))
}

/// The files ordered by their paths in lower case, equal ones kept in
/// their order.
fn order_by_path(files: Vec<(String, Vec<u8>)>) -> (r: Vec<(String, Vec<u8>)>)
    ensures
        by_path(files_view(r@)),
        files_view(r@).to_multiset() == files_view(files@).to_multiset(),
{
    let ghost input = files_view(files@);
    let mut rest = files;
    let mut out: Vec<(String, Vec<u8>)> = Vec::new();
    let mut keys: Vec<Vec<char>> = Vec::new();
    let ghost mut taken: Seq<(Seq<char>, Seq<u8>)> = Seq::empty();
    assert(input =~= taken + files_view(rest@));
    assert(files_view(out@) =~= taken);
    while rest.len() > 0
        invariant
            input == taken + files_view(rest@),
            by_path(files_view(out@)),
            files_view(out@).to_multiset() == taken.to_multiset(),
            keys@.len() == out@.len(),
            forall|k: int| 0 <= k < keys@.len() ==> #[trigger] keys@[k]@ == lowercase(out@[k].0@),
        decreases rest.len(),
    {
        let ghost r0 = files_view(rest@);
        let x = rest.remove(0);
        proof {
            assert(files_view(rest@) =~= r0.subrange(1, r0.len() as int));
            assert(input =~= taken.push((x.0@, x.1@)) + files_view(rest@));
        }
        let kx = chars_of(to_lowercase(x.0.as_str()).as_str());
        let ghost ov = files_view(out@);
        let mut p: usize = 0;
        while p < out.len() && !lex_less(&kx, &keys[p])
            invariant
                p <= out.len(),
                ov == files_view(out@),
                keys@.len() == out@.len(),
                forall|k: int| 0 <= k < keys@.len() ==> #[trigger] keys@[k]@ == lowercase(out@[k].0@),
                forall|k: int| 0 <= k < p ==> !lex_lt(kx@, lowercase(#[trigger] ov[k].0)),
            decreases out.len() - p,
        {
            assert(ov[p as int].0 == out@[p as int].0@);
            p += 1;
        }
        let ghost xv = (x.0@, x.1@);
        proof {
            assert(kx@ == lowercase(xv.0));
            if p < out.len() {
                assert(ov[p as int].0 == out@[p as int].0@);
                assert(lex_lt(kx@, lowercase(ov[p as int].0)));
            }
            assert forall|i: int, j: int|
                0 <= i < j < ov.len() + 1 implies !lex_lt(
                lowercase(#[trigger] ov.insert(p as int, xv)[j].0),
                lowercase(#[trigger] ov.insert(p as int, xv)[i].0),
            ) by {
                let s = ov.insert(p as int, xv);
                if j < p {
                    assert(s[i] == ov[i] && s[j] == ov[j]);
                } else if j == p {
                    assert(s[i] == ov[i]);
                } else if i < p {
                    assert(s[i] == ov[i] && s[j] == ov[j - 1]);
                } else if i == p {
                    assert(s[j] == ov[j - 1]);
                    let a = lowercase(ov[j - 1].0);
                    let b = lowercase(ov[p as int].0);
                    if lex_lt(a, kx@) {
                        if j - 1 == p {
                            lemma_lex_lt_transitive(kx@, b, kx@);
                            lemma_lex_lt_irreflexive(kx@);
                        } else {
                            lemma_lex_lt_transitive(a, kx@, b);
                        }
                    }
                } else {
                    assert(s[i] == ov[i - 1] && s[j] == ov[j - 1]);
                }
            }
            to_multiset_insert(ov, p as int, xv);
            vstd::seq_lib::to_multiset_build(taken, xv);
        }
        let ghost kv = keys@;
        let ghost outv = out@;
        out.insert(p, x);
        keys.insert(p, kx);
        proof {
            assert(files_view(out@) =~= ov.insert(p as int, xv));
            assert forall|k: int| 0 <= k < keys@.len() implies #[trigger] keys@[k]@ == lowercase(out@[k].0@) by {
                if k < p {
                    assert(keys@[k] == kv[k] && out@[k] == outv[k]);
                } else if k > p {
                    assert(keys@[k] == kv[k - 1] && out@[k] == outv[k - 1]);
                }
            }
            taken = taken.push(xv);
        }
    }
    assert(taken =~= input);
    out
}

/// Appends the bytes of `v` to `out`.
fn append_bytes(out: &mut Vec<u8>, v: &[u8])
    ensures
        final(out)@ == old(out)@ + v@,
{
    let ghost start = out@;
    let mut i: usize = 0;
    while i < v.len()
        invariant
            i <= v@.len(),
            out@ == start + v@.take(i as int),
        decreases v.len() - i,
    {
        out.push(v[i]);
        proof {
            assert(v@.take(i + 1) =~= v@.take(i as int).push(v@[i as int]));
        }
        i += 1;
    }
    assert(v@.take(i as int) =~= v@);
}

/// A path with `/` for each `\`.
fn with_slashes(path: &str) -> (r: String)
    ensures
        r@ == slashed(path@),
{
    let cs = chars_of(path);
    let mut r = String::new();
    let mut i: usize = 0;
    while i < cs.len()
        invariant
            i <= cs@.len(),
            cs@ == path@,
            r@ == slashed(path@).take(i as int),
        decreases cs.len() - i,
    {
        let c = if cs[i] == '\\' {
            '/'
        } else {
            cs[i]
        };
        push_char(&mut r, c);
        proof {
            assert(slashed(path@).take(i + 1) =~= slashed(path@).take(i as int).push(c));
        }
        i += 1;
    }
    assert(slashed(path@).take(i as int) =~= slashed(path@));
    r
}

/// The hash of a package's files, given by package-relative path and
/// content in any order: the files are taken in the order of their paths in
/// lower case (files whose paths differ only in case in either order).
pub fn package_hash(files: Vec<(String, Vec<u8>)>) -> (r: String)
    ensures
        exists|o: Seq<(Seq<char>, Seq<u8>)>|
            by_path(o) && o.to_multiset() == files_view(files@).to_multiset() && r@ == hex_text(
                sha256_digest(hash_input(o)),
            ),
{
    let ghost fv = files_view(files@);
    let ordered = order_by_path(files);
    let ghost ov = files_view(ordered@);
    let mut data: Vec<u8> = Vec::new();
    let mut i: usize = 0;
    assert(ov.take(0) =~= Seq::<(Seq<char>, Seq<u8>)>::empty());
    while i < ordered.len()
        invariant
            i <= ordered@.len(),
            ov == files_view(ordered@),
            data@ == hash_input(ov.take(i as int)),
        decreases ordered.len() - i,
    {
        let path = with_slashes(ordered[i].0.as_str());
        append_bytes(&mut data, path.as_str().as_bytes());
        data.push(0u8);
        append_bytes(&mut data, ordered[i].1.as_slice());
        data.push(255u8);
        proof {
            assert(ov.take(i + 1).drop_last() =~= ov.take(i as int));
            assert(ov.take(i + 1).last() == (ordered@[i as int].0@, ordered@[i as int].1@));
            assert(data@ =~= hash_input(ov.take(i + 1)));
        }
        i += 1;
    }
    assert(ov.take(i as int) =~= ov);
    let digest = sha256(data.as_slice());
    let r = hex_encode(digest.as_slice());
    assert(by_path(ov) && ov.to_multiset() == fv.to_multiset() && r@ == hex_text(sha256_digest(hash_input(ov))));
    r
}

} // verus!

//! How a script package's modules find each other, and what a script's
//! return value makes of its output. A module imports another only by a
//! relative specifier (`./` or `../`), resolved against the importing
//! module's path without climbing above the package's own directory, and
//! only a module of the package resolves. Running the modules is the script
//! engine's work.
use vstd::prelude::*;

use crate::script_http::OUTPUT_LIMIT;
use crate::text::{chars_of, chars_start_with, push_char, str_eq};
use vstd::utf8::encode_utf8;

verus! {

/// `s` cut at each `/`, as `str::split('/')` cuts it: there is always one
/// piece more than there are slashes.
pub open spec fn split_slash(s: Seq<char>) -> Seq<Seq<char>>
    decreases s.len(),
{
    if s.len() == 0 {
        seq![Seq::empty()]
    } else {
        let r = split_slash(s.drop_last());
        if s.last() == '/' {
            r.push(Seq::empty())
        } else {
            r.update(r.len() - 1, r.last().push(s.last()))
        }
    }
}

/// The pieces joined with `/` between them.
pub open spec fn join_slash(parts: Seq<Seq<char>>) -> Seq<char>
    decreases parts.len(),
{
    if parts.len() == 0 {
        Seq::empty()
    } else if parts.len() == 1 {
        parts[0]
    } else {
        join_slash(parts.drop_last()) + "/"@ + parts.last()
    }
}

/// One piece of a specifier applied to the directory `parts`: `.` and
/// empty pieces stay, `..` goes up while more than two pieces remain, and
/// anything else goes down.
pub open spec fn resolve_step(parts: Option<Seq<Seq<char>>>, piece: Seq<char>) -> Option<Seq<Seq<char>>> {
    match parts {
        None => None,
        Some(p) => if piece == "."@ || piece.len() == 0 {
            Some(p)
        } else if piece == ".."@ {
            if p.len() > 2 {
                Some(p.drop_last())
            } else {
                None
            }
        } else {
            Some(p.push(piece))
        },
    }
}

/// The pieces applied in order to `start`.
pub open spec fn resolve_pieces(start: Seq<Seq<char>>, pieces: Seq<Seq<char>>) -> Option<Seq<Seq<char>>>
    decreases pieces.len(),
{
    if pieces.len() == 0 {
        Some(start)
    } else {
        resolve_step(resolve_pieces(start, pieces.drop_last()), pieces.last())
    }
}

/// The module path that `name`, imported from the module at `base`, names:
/// `None` for a specifier that is not relative or that climbs too far.
pub open spec fn module_target(base: Seq<char>, name: Seq<char>) -> Option<Seq<char>> {
    if !("./"@.is_prefix_of(name) || "../"@.is_prefix_of(name)) {
        None
    } else {
        match resolve_pieces(split_slash(base).drop_last(), split_slash(name)) {
            None => None,
            Some(p) => Some(join_slash(p)),
        }
    }
}

/// The models of a list of texts.
pub open spec fn texts_view(v: Seq<String>) -> Seq<Seq<char>> {
    v.map_values(|s: String| s@)
}

proof fn lemma_split_nonempty(s: Seq<char>)
    ensures
        split_slash(s).len() >= 1,
    decreases s.len(),
{
    if s.len() > 0 {
        lemma_split_nonempty(s.drop_last());
    }
}

/// `s` cut at each `/`.
fn split_at_slashes(s: &str) -> (r: Vec<String>)
    ensures
        texts_view(r@) == split_slash(s@),
{
    let cs = chars_of(s);
    let mut parts: Vec<String> = Vec::new();
    let mut current = String::new();
    let mut i: usize = 0;
    assert(cs@.take(0) =~= Seq::<char>::empty());
    assert(texts_view(parts@).push(current@) =~= split_slash(cs@.take(0)));
    while i < cs.len()
        invariant
            i <= cs@.len(),
            cs@ == s@,
            texts_view(parts@).push(current@) == split_slash(cs@.take(i as int)),
        decreases cs.len() - i,
    {
        let ghost before = texts_view(parts@).push(current@);
        proof {
            assert(cs@.take(i + 1).drop_last() =~= cs@.take(i as int));
            assert(cs@.take(i + 1).last() == cs@[i as int]);
            lemma_split_nonempty(cs@.take(i as int));
        }
        if cs[i] == '/' {
            let ghost cur = current@;
            let mut done = String::new();
            std::mem::swap(&mut done, &mut current);
            parts.push(done);
            assert(texts_view(parts@).push(current@) =~= before.push(Seq::empty()));
        } else {
            let ghost pv = texts_view(parts@);
            push_char(&mut current, cs[i]);
            assert(texts_view(parts@).push(current@) =~= before.update(before.len() - 1, before.last().push(cs@[i as int])));
        }
        i += 1;
    }
    assert(cs@.take(i as int) =~= cs@);
    let ghost pv = parts@;
    let ghost cv = current@;
    parts.push(current);
    assert(texts_view(parts@) =~= texts_view(pv).push(cv));
    parts
}

/// The pieces joined with `/`.
fn join_at_slashes(parts: &Vec<String>) -> (r: String)
    ensures
        r@ == join_slash(texts_view(parts@)),
{
    let ghost tv = texts_view(parts@);
    let mut out = String::new();
    let mut i: usize = 0;
    assert(tv.take(0) =~= Seq::<Seq<char>>::empty());
    while i < parts.len()
        invariant
            i <= parts@.len(),
            tv == texts_view(parts@),
            out@ == join_slash(tv.take(i as int)),
        decreases parts.len() - i,
    {
        proof {
            assert(tv.take(i + 1).drop_last() =~= tv.take(i as int));
            assert(tv.take(i + 1).last() == parts@[i as int]@);
        }
        if i > 0 {
            out = crate::text::concat(out.as_str(), "/");
        } else {
            assert(tv.take(1) =~= seq![tv[0]]);
        }
        out = crate::text::concat(out.as_str(), parts[i].as_str());
        i += 1;
    }
    assert(tv.take(i as int) =~= tv);
    out
}

/// The path `name` names when the module at `base` imports it, if it is
/// one of `modules`: `None` for a specifier that is not relative, that
/// climbs above the package, or that names no module of it.
pub fn resolve_module(base: &str, name: &str, modules: &Vec<String>) -> (r: Option<String>)
    ensures
        match module_target(base@, name@) {
            Some(t) => if texts_view(modules@).contains(t) {
                r matches Some(x) && x@ == t
            } else {
                r is None
            },
            None => r is None,
        },
{
    let n = chars_of(name);
    if !(chars_start_with(&n, &chars_of("./")) || chars_start_with(&n, &chars_of("../"))) {
        return None;
    }
    let mut parts = split_at_slashes(base);
    proof {
        lemma_split_nonempty(base@);
    }
    parts.pop();
    let pieces = split_at_slashes(name);
    let ghost pv = texts_view(pieces@);
    let ghost start = split_slash(base@).drop_last();
    assert(texts_view(parts@) =~= start);
    let mut i: usize = 0;
    assert(pv.take(0) =~= Seq::<Seq<char>>::empty());
    while i < pieces.len()
        invariant
            i <= pieces@.len(),
            pv == texts_view(pieces@),
            pv == split_slash(name@),
            start == split_slash(base@).drop_last(),
            "./"@.is_prefix_of(name@) || "../"@.is_prefix_of(name@),
            resolve_pieces(start, pv.take(i as int)) == Some(texts_view(parts@)),
        decreases pieces.len() - i,
    {
        proof {
            assert(pv.take(i + 1).drop_last() =~= pv.take(i as int));
            assert(pv.take(i + 1).last() == pieces@[i as int]@);
        }
        let piece = pieces[i].as_str();
        let ghost before = texts_view(parts@);
        if str_eq(piece, ".") || piece.unicode_len() == 0 {
        } else if str_eq(piece, "..") {
            if parts.len() > 2 {
                let ghost pp = parts@;
                parts.pop();
                assert(texts_view(parts@) =~= before.drop_last());
            } else {
                proof {
                    lemma_resolve_stays_failed(start, pv, i as int + 1);
                }
                assert(pv.take(pieces@.len() as int) =~= pv);
                return None;
            }
        } else {
            let ghost pp = parts@;
            parts.push(pieces[i].clone());
            assert(texts_view(parts@) =~= before.push(piece@));
        }
        i += 1;
    }
    assert(pv.take(i as int) =~= pv);
    let target = join_at_slashes(&parts);
    assert(module_target(base@, name@) == Some(target@));
    let ghost mv = texts_view(modules@);
    let mut k: usize = 0;
    while k < modules.len()
        invariant
            k <= modules@.len(),
            mv == texts_view(modules@),
            module_target(base@, name@) == Some(target@),
            forall|j: int| 0 <= j < k ==> mv[j] != target@,
        decreases modules.len() - k,
    {
        if str_eq(modules[k].as_str(), target.as_str()) {
            assert(mv[k as int] == target@);
            return Some(target);
        }
        k += 1;
    }
    None
}

/// Once resolving fails it stays failed.
proof fn lemma_resolve_stays_failed(start: Seq<Seq<char>>, pieces: Seq<Seq<char>>, n: int)
    requires
        0 <= n <= pieces.len(),
        resolve_pieces(start, pieces.take(n)) is None,
    ensures
        resolve_pieces(start, pieces) is None,
    decreases pieces.len() - n,
{
    if n < pieces.len() {
        assert(pieces.take(n + 1).drop_last() =~= pieces.take(n));
        lemma_resolve_stays_failed(start, pieces, n + 1);
    } else {
        assert(pieces.take(n) =~= pieces);
    }
}


/// What a script's handler returned, as the script engine reads it.
pub enum ScriptReturn {
    /// A string.
    Plain(String),
    /// An object `{ type: 'text', text }`.
    Text(String),
    /// An object `{ type: 'complete' }`.
    Complete,
    /// An object of another `type`.
    OtherType,
    /// Neither a string nor an object.
    Nothing,
}

/// What a handler's return value makes of the invocation's result, after
/// `existing` bytes were streamed: the final text, at most 2 MiB with what
/// was streamed, and none when output was streamed.
pub open spec fn final_output_of(ret: ScriptReturn, existing: usize) -> Result<Seq<char>, Seq<char>> {
    match ret {
        ScriptReturn::Nothing => Err("script returned undefined; return a text result or { type: 'complete' }"@),
        ScriptReturn::OtherType => Err(
            "script result must be text, { type: 'text', text }, or { type: 'complete' }"@,
        ),
        _ => {
            let t = match ret {
                ScriptReturn::Plain(x) => x@,
                ScriptReturn::Text(x) => x@,
                _ => Seq::empty(),
            };
            if encode_utf8(t).len() + existing > OUTPUT_LIMIT {
                Err("script output exceeds 2 MiB"@)
            } else if existing > 0 && t.len() > 0 {
                Err("a script cannot both append streamed output and return final text"@)
            } else {
                Ok(t)
            }
        },
    }
}

/// The invocation's final text from what its handler returned, after
/// `existing` bytes of streamed output.
pub fn final_output(ret: ScriptReturn, existing: usize) -> (r: Result<String, String>)
    ensures
        match final_output_of(ret, existing) {
            Ok(t) => r matches Ok(x) && x@ == t,
            Err(e) => r matches Err(x) && x@ == e,
        },
{
    let text = match ret {
        ScriptReturn::Nothing => {
            return Err("script returned undefined; return a text result or { type: 'complete' }".to_string());
        },
        ScriptReturn::OtherType => {
            return Err("script result must be text, { type: 'text', text }, or { type: 'complete' }".to_string());
        },
        ScriptReturn::Plain(x) => x,
        ScriptReturn::Text(x) => x,
        ScriptReturn::Complete => String::new(),
    };
    let bytes = text.as_str().as_bytes().len();
    if bytes > OUTPUT_LIMIT || existing > OUTPUT_LIMIT - bytes {
        return Err("script output exceeds 2 MiB".to_string());
    }
    if existing > 0 && text.as_str().unicode_len() > 0 {
        return Err("a script cannot both append streamed output and return final text".to_string());
    }
    Ok(text)
}

} // verus!

//! Which files may be attached to a chat message, and the fenced code blocks
//! of an answer that can be copied on their own.
use vstd::prelude::*;

use crate::plugin::{lemma_split_on_nonempty, split_on};
use crate::text::{ascii_lower, char_is_whitespace, chars_of, concat, str_eq, to_ascii_lower, trim_start};

verus! {

/// The most attachments one message may carry.
pub const MAX_ATTACHMENTS: usize = 8;

/// The largest image attachment, in bytes.
pub const MAX_IMAGE_BYTES: u64 = 8388608;

/// The largest text attachment, in bytes.
pub const MAX_TEXT_BYTES: u64 = 524288;

/// The media type of an image file extension (lowercase), if it is one.
pub open spec fn image_type_of(ext: Seq<char>) -> Option<Seq<char>> {
    if ext == "png"@ {
        Some("image/png"@)
    } else if ext == "jpg"@ || ext == "jpeg"@ {
        Some("image/jpeg"@)
    } else if ext == "webp"@ {
        Some("image/webp"@)
    } else if ext == "gif"@ {
        Some("image/gif"@)
    } else {
        None
    }
}

/// The media type of an image file extension (lowercase), if it is one.
pub fn image_media_type(extension: &str) -> (r: Option<&'static str>)
    ensures
        match image_type_of(extension@) {
            Some(t) => r matches Some(s) && s@ == t,
            None => r is None,
        },
{
    if str_eq(extension, "png") {
        Some("image/png")
    } else if str_eq(extension, "jpg") || str_eq(extension, "jpeg") {
        Some("image/jpeg")
    } else if str_eq(extension, "webp") {
        Some("image/webp")
    } else if str_eq(extension, "gif") {
        Some("image/gif")
    } else {
        None
    }
}

/// The extensions (lowercase) of the text and code files that may be
/// attached.
pub open spec fn text_extensions() -> Seq<Seq<char>> {
    seq![
        "txt"@, "md"@, "markdown"@, "rs"@, "js"@, "jsx"@, "ts"@, "tsx"@, "json"@, "toml"@, "yaml"@,
        "yml"@, "py"@, "go"@, "java"@, "c"@, "cc"@, "cpp"@, "h"@, "hpp"@, "css"@, "html"@, "xml"@,
        "csv"@, "log"@,
    ]
}

/// Whether `extension` (lowercase) is that of an attachable text file.
pub fn is_text_extension(extension: &str) -> (r: bool)
    ensures
        r == text_extensions().contains(extension@),
{
    let names = [
        "txt", "md", "markdown", "rs", "js", "jsx", "ts", "tsx", "json", "toml", "yaml", "yml",
        "py", "go", "java", "c", "cc", "cpp", "h", "hpp", "css", "html", "xml", "csv", "log",
    ];
    let ghost views = text_extensions();
    let mut i: usize = 0;
    while i < 25
        invariant
            0 <= i <= 25,
            views == text_extensions(),
            names@.len() == 25,
            forall|j: int| 0 <= j < 25 ==> (#[trigger] names@[j])@ == views[j],
            forall|j: int| 0 <= j < i ==> views[j] != extension@,
        decreases 25 - i,
    {
        if str_eq(names[i], extension) {
            assert(views[i as int] == extension@);
            return true;
        }
        i += 1;
    }
    false
}

/// The lines of `s` as `str::lines` yields them: the pieces between
/// newlines, a `\r` before a newline removed, without a final empty piece.
pub open spec fn text_lines(s: Seq<char>) -> Seq<Seq<char>> {
    let pieces = split_on(s, '\n');
    let complete = pieces.drop_last().map_values(|p: Seq<char>| strip_one_cr(p));
    if pieces.last().len() == 0 {
        complete
    } else {
        complete.push(pieces.last())
    }
}

/// `p` without one trailing `\r`.
pub open spec fn strip_one_cr(p: Seq<char>) -> Seq<char> {
    if p.len() > 0 && p.last() == '\r' {
        p.drop_last()
    } else {
        p
    }
}

/// `s` without its trailing newlines.
pub open spec fn trim_newlines_end(s: Seq<char>) -> Seq<char>
    decreases s.len(),
{
    if s.len() > 0 && s.last() == '\n' {
        trim_newlines_end(s.drop_last())
    } else {
        s
    }
}

/// A line that opens or closes a fence: three backticks after optional
/// leading whitespace.
pub open spec fn is_fence(line: Seq<char>) -> bool {
    let t = trim_start(line);
    t.len() >= 3 && t[0] == '`' && t[1] == '`' && t[2] == '`'
}

/// The scan of fenced blocks: the blocks closed so far and the content of
/// the open block, if any.
pub open spec fn fence_scan(lines: Seq<Seq<char>>) -> (Seq<Seq<char>>, Option<Seq<char>>)
    decreases lines.len(),
{
    if lines.len() == 0 {
        (Seq::empty(), None)
    } else {
        let (blocks, open) = fence_scan(lines.drop_last());
        let line = lines.last();
        if is_fence(line) {
            match open {
                Some(code) => (blocks.push(trim_newlines_end(code)), None),
                None => (blocks, Some(Seq::empty())),
            }
        } else {
            match open {
                Some(code) => (blocks, Some(code + line + seq!['\n'])),
                None => (blocks, None),
            }
        }
    }
}

/// The contents of the closed fenced code blocks of `markdown`, in order.
pub open spec fn code_blocks(markdown: Seq<char>) -> Seq<Seq<char>> {
    fence_scan(text_lines(markdown)).0
}

/// Whether `v[from..to]` is a fence line.
fn check_fence(v: &Vec<char>, from: usize, to: usize) -> (r: bool)
    requires
        from <= to <= v.len(),
    ensures
        r == is_fence(v@.subrange(from as int, to as int)),
{
    let mut p = from;
    assert(v@.subrange(from as int, to as int) =~= v@.subrange(p as int, to as int));
    while p < to && char_is_whitespace(v[p])
        invariant
            from <= p <= to <= v.len(),
            trim_start(v@.subrange(from as int, to as int)) == trim_start(v@.subrange(p as int, to as int)),
        decreases to - p,
    {
        assert(v@.subrange(p as int, to as int).drop_first() =~= v@.subrange(p + 1, to as int));
        p += 1;
    }
    let ghost t = v@.subrange(p as int, to as int);
    assert(trim_start(t) == t);
    to - p >= 3 && v[p] == '`' && v[p + 1] == '`' && v[p + 2] == '`'
}

/// Appends `v[from..to]` to `s`.
fn push_range(s: &mut String, v: &Vec<char>, from: usize, to: usize)
    requires
        from <= to <= v.len(),
    ensures
        final(s)@ == old(s)@ + v@.subrange(from as int, to as int),
{
    let mut i = from;
    while i < to
        invariant
            from <= i <= to <= v.len(),
            s@ == old(s)@ + v@.subrange(from as int, i as int),
        decreases to - i,
    {
        crate::text::push_char(s, v[i]);
        i += 1;
        assert(s@ =~= old(s)@ + v@.subrange(from as int, i as int));
    }
}

/// `s` without its trailing newlines.
fn trimmed_code(s: &String) -> (r: String)
    ensures
        r@ == trim_newlines_end(s@),
{
    let v = chars_of(s.as_str());
    let mut e = v.len();
    assert(v@.take(e as int) =~= v@);
    while e > 0 && v[e - 1] == '\n'
        invariant
            e <= v.len(),
            trim_newlines_end(s@) == trim_newlines_end(v@.take(e as int)),
            v@ == s@,
        decreases e,
    {
        assert(v@.take(e as int).drop_last() =~= v@.take(e - 1));
        e -= 1;
    }
    assert(v@.subrange(0, e as int) =~= v@.take(e as int));
    crate::text::string_from_range(&v, 0, e)
}

/// One step of the fence scan over the line `v[from..to]`.
fn scan_line(
    blocks: &mut Vec<String>,
    current: &mut Option<String>,
    v: &Vec<char>,
    from: usize,
    to: usize,
)
    requires
        from <= to <= v.len(),
    ensures
        ({
            let line = v@.subrange(from as int, to as int);
            let open = match *old(current) {
                Some(c) => Some(c@),
                None => None,
            };
            let step = fence_scan(seq![line]);
            if is_fence(line) {
                match open {
                    Some(code) => crate::provider::strings_view(final(blocks)@)
                        == crate::provider::strings_view(old(blocks)@).push(trim_newlines_end(code))
                        && *final(current) is None,
                    None => final(blocks)@ == old(blocks)@ && (match *final(current) {
                        Some(c) => c@ == Seq::<char>::empty(),
                        None => false,
                    }),
                }
            } else {
                final(blocks)@ == old(blocks)@ && match open {
                    Some(code) => match *final(current) {
                        Some(c) => c@ == code + line + seq!['\n'],
                        None => false,
                    },
                    None => *final(current) is None,
                }
            }
        }),
{
    if check_fence(v, from, to) {
        match current.take() {
            Some(code) => {
                blocks.push(trimmed_code(&code));
                assert(crate::provider::strings_view(blocks@) =~= crate::provider::strings_view(
                    old(blocks)@,
                ).push(trim_newlines_end(code@)));
            },
            None => {
                *current = Some(String::new());
            },
        }
    } else {
        match current {
            Some(code) => {
                push_range(code, v, from, to);
                crate::text::push_char(code, '\n');
            },
            None => {},
        }
    }
}

/// The contents of the closed fenced code blocks of `markdown`, in order;
/// each block is the lines between its fences, without trailing newlines.
/// An unterminated block yields nothing.
pub fn fenced_code_blocks(markdown: &str) -> (r: Vec<String>)
    ensures
        crate::provider::strings_view(r@) == code_blocks(markdown@),
{
    let v = chars_of(markdown);
    let n = v.len();
    let mut blocks: Vec<String> = Vec::new();
    let mut current: Option<String> = None;
    let mut start: usize = 0;
    let mut i: usize = 0;
    assert(v@.take(0) =~= Seq::<char>::empty());
    assert(split_on(v@.take(0), '\n').drop_last().map_values(|p: Seq<char>| strip_one_cr(p)) =~= Seq::<Seq<char>>::empty());
    while i < n
        invariant
            n == v.len(),
            start <= i <= n,
            split_on(v@.take(i as int), '\n').last() == v@.subrange(start as int, i as int),
            ({
                let done = split_on(v@.take(i as int), '\n').drop_last().map_values(
                    |p: Seq<char>| strip_one_cr(p),
                );
                let (bs, open) = fence_scan(done);
                crate::provider::strings_view(blocks@) == bs && open == match current {
                    Some(c) => Some(c@),
                    None => None,
                }
            }),
        decreases n - i,
    {
        proof {
            lemma_split_on_nonempty(v@.take(i as int), '\n');
            assert(v@.take(i + 1).drop_last() =~= v@.take(i as int));
        }
        if v[i] == '\n' {
            let mut end = i;
            if end > start && v[end - 1] == '\r' {
                end -= 1;
            }
            let ghost piece = v@.subrange(start as int, i as int);
            assert(strip_one_cr(piece) == v@.subrange(start as int, end as int)) by {
                if end < i {
                    assert(piece.drop_last() =~= v@.subrange(start as int, end as int));
                } else {
                    assert(piece =~= v@.subrange(start as int, end as int));
                }
            }
            let ghost done_before = split_on(v@.take(i as int), '\n').drop_last().map_values(
                |p: Seq<char>| strip_one_cr(p),
            );
            scan_line(&mut blocks, &mut current, &v, start, end);
            proof {
                let next = split_on(v@.take(i + 1), '\n');
                let done = split_on(v@.take(i as int), '\n');
                assert(next.drop_last() =~= done);
                let done_after = next.drop_last().map_values(|p: Seq<char>| strip_one_cr(p));
                assert(done_after =~= done_before.push(strip_one_cr(piece)));
                assert(done_after.drop_last() =~= done_before);
            }
            start = i + 1;
            i += 1;
            assert(v@.subrange(start as int, i as int) =~= Seq::<char>::empty());
        } else {
            proof {
                let done = split_on(v@.take(i as int), '\n');
                let next = split_on(v@.take(i + 1), '\n');
                assert(next.drop_last() =~= done.drop_last());
            }
            i += 1;
            assert(v@.subrange(start as int, i as int) =~= v@.subrange(start as int, i - 1).push(
                v@[i - 1],
            ));
        }
    }
    assert(v@.take(n as int) =~= v@);
    proof {
        lemma_split_on_nonempty(v@, '\n');
    }
    if start < n {
        let ghost done_before = split_on(v@, '\n').drop_last().map_values(
            |p: Seq<char>| strip_one_cr(p),
        );
        scan_line(&mut blocks, &mut current, &v, start, n);
        proof {
            let lines = text_lines(v@);
            assert(lines.drop_last() =~= done_before);
        }
    }
    blocks
}


/// What attaching the file `name` with `extension`, of `size` bytes,
/// gives: its image media type, or `None` for a text file; refused without
/// a name, for a type that cannot be attached, or above its limit (8 MiB
/// for images, 512 KiB for text). The extension is taken in lower case.
pub open spec fn attachment_outcome(name: Seq<char>, extension: Seq<char>, size: u64) -> Result<
    Option<Seq<char>>,
    Seq<char>,
> {
    let e = ascii_lower(extension);
    if name.len() == 0 {
        Err("The selected file has no usable name."@)
    } else {
        match image_type_of(e) {
            Some(t) => if size > MAX_IMAGE_BYTES {
                Err("“"@ + name + "” is too large. Images are limited to 8 MiB and text files to 512 KiB."@)
            } else {
                Ok(Some(t))
            },
            None => if !text_extensions().contains(e) {
                Err("“"@ + name + "” isn’t supported yet. Attach an image, Markdown, text, or code file."@)
            } else if size > MAX_TEXT_BYTES {
                Err("“"@ + name + "” is too large. Images are limited to 8 MiB and text files to 512 KiB."@)
            } else {
                Ok(None)
            },
        }
    }
}

/// Checks the file `name` with `extension`, of `size` bytes, before it is
/// read: its image media type, `None` for a text file, or why it cannot be
/// attached.
pub fn attachment_check(name: &str, extension: &str, size: u64) -> (r: Result<Option<&'static str>, String>)
    ensures
        match attachment_outcome(name@, extension@, size) {
            Ok(Some(t)) => r matches Ok(Some(x)) && x@ == t,
            Ok(None) => r matches Ok(None),
            Err(e) => r matches Err(x) && x@ == e,
        },
{
    if name.unicode_len() == 0 {
        return Err("The selected file has no usable name.".to_string());
    }
    let e = to_ascii_lower(extension);
    match image_media_type(e.as_str()) {
        Some(t) => if size > MAX_IMAGE_BYTES {
            let head = concat("“", name);
            Err(concat(head.as_str(), "” is too large. Images are limited to 8 MiB and text files to 512 KiB."))
        } else {
            Ok(Some(t))
        },
        None => if !is_text_extension(e.as_str()) {
            let head = concat("“", name);
            Err(concat(head.as_str(), "” isn’t supported yet. Attach an image, Markdown, text, or code file."))
        } else if size > MAX_TEXT_BYTES {
            let head = concat("“", name);
            Err(concat(head.as_str(), "” is too large. Images are limited to 8 MiB and text files to 512 KiB."))
        } else {
            Ok(None)
        },
    }
}

/// How many more files a message holding `held` attachments may take.
pub fn attachment_slots(held: usize) -> (r: usize)
    ensures
        held <= MAX_ATTACHMENTS ==> r == MAX_ATTACHMENTS - held,
        held > MAX_ATTACHMENTS ==> r == 0,
{
    if held <= MAX_ATTACHMENTS {
        MAX_ATTACHMENTS - held
    } else {
        0
    }
}


/// The fence lines among `lines`.
pub open spec fn fence_lines(lines: Seq<Seq<char>>) -> Seq<Seq<char>> {
    lines.filter(|l: Seq<char>| is_fence(l))
}

proof fn lemma_scan_counts(lines: Seq<Seq<char>>)
    ensures
        fence_scan(lines).0.len() == fence_lines(lines).len() / 2,
        fence_scan(lines).1 is Some <==> fence_lines(lines).len() % 2 == 1,
    decreases lines.len(),
{
    let p = |l: Seq<char>| is_fence(l);
    if lines.len() == 0 {
        assert(lines.filter(p) =~= Seq::<Seq<char>>::empty()) by {
            reveal(Seq::filter);
        }
    } else {
        let rest = lines.drop_last();
        lemma_scan_counts(rest);
        assert(lines =~= rest.push(lines.last()));
        rest.lemma_filter_push(lines.last(), p);
    }
}

/// Every closed fence pair gives one block: the blocks of `markdown` are as
/// many as half its fence lines, rounded down.
pub proof fn every_closed_block_is_kept(markdown: Seq<char>)
    ensures
        code_blocks(markdown).len() == fence_lines(text_lines(markdown)).len() / 2,
{
    lemma_scan_counts(text_lines(markdown));
}


/// Fenced blocks read in order: after lines that leave no block open, the
/// blocks of what follows come after the blocks read so far, just as they
/// would be read on their own.
pub proof fn fenced_blocks_read_in_order(first: Seq<Seq<char>>, then: Seq<Seq<char>>)
    requires
        fence_scan(first).1 is None,
    ensures
        fence_scan(first + then).0 == fence_scan(first).0 + fence_scan(then).0,
        fence_scan(first + then).1 == fence_scan(then).1,
    decreases then.len(),
{
    if then.len() == 0 {
        assert(first + then =~= first);
        assert(fence_scan(first).0 + fence_scan(then).0 =~= fence_scan(first).0);
    } else {
        let rest = then.drop_last();
        fenced_blocks_read_in_order(first, rest);
        assert((first + then).drop_last() =~= first + rest);
        assert((first + then).last() == then.last());
        let (b, _) = fence_scan(rest);
        let fb = fence_scan(first).0;
        if fence_scan(rest).1 is Some {
            let code = fence_scan(rest).1->0;
            assert((fb + b).push(trim_newlines_end(code)) =~= fb + b.push(trim_newlines_end(code)));
        }
    }
}

} // verus!

use vstd::prelude::*;

use crate::document::{Document, SecV, Section};
use crate::util::error::{ErrV, Error};
use vstd::utf8::encode_utf8;

verus! {

// ---------------------------------------------------------------------------
// the padded writer
// ---------------------------------------------------------------------------

/// A byte run with every null byte removed, the way the engine's buffer
/// convention strips embedded nulls before padding.
pub open spec fn strip_nul(s: Seq<u8>) -> Seq<u8>
    decreases s.len(),
{
    if s.len() == 0 {
        Seq::empty()
    } else if s.last() == 0 {
        strip_nul(s.drop_last())
    } else {
        strip_nul(s.drop_last()).push(s.last())
    }
}

proof fn lemma_strip_nul_push(s: Seq<u8>, b: u8)
    ensures
        strip_nul(s.push(b)) == if b != 0 {
            strip_nul(s).push(b)
        } else {
            strip_nul(s)
        },
{
    assert(s.push(b).drop_last() =~= s);
    assert(s.push(b).last() == b);
}

proof fn lemma_strip_nul_add(a: Seq<u8>, b: Seq<u8>)
    ensures
        strip_nul(a + b) == strip_nul(a) + strip_nul(b),
    decreases b.len(),
{
    if b.len() == 0 {
        assert(a + b =~= a);
        assert(strip_nul(b) == Seq::<u8>::empty());
        assert(strip_nul(a) + strip_nul(b) =~= strip_nul(a));
    } else {
        lemma_strip_nul_add(a, b.drop_last());
        assert((a + b).drop_last() =~= a + b.drop_last());
        assert((a + b).last() == b.last());
        if b.last() == 0 {
        } else {
            assert((strip_nul(a) + strip_nul(b.drop_last())).push(b.last()) =~= strip_nul(a) + (
            strip_nul(b.drop_last()).push(b.last())));
        }
    }
}

/// The bytes one `key=value` line serializes to: no spaces around the
/// separator, CRLF at the end.
pub open spec fn spec_entry_bytes(e: (Seq<char>, Seq<char>)) -> Seq<u8> {
    encode_utf8(e.0) + seq![61u8] + encode_utf8(e.1) + seq![13u8, 10u8]
}

/// The bytes a run of entries serializes to, in order.
pub open spec fn spec_entries_bytes(es: Seq<(Seq<char>, Seq<char>)>) -> Seq<u8>
    decreases es.len(),
{
    if es.len() == 0 {
        Seq::empty()
    } else {
        spec_entries_bytes(es.drop_last()) + spec_entry_bytes(es.last())
    }
}

/// The bytes one section serializes to: a bracketed header line, except
/// for the unnamed leading section, then its entries. No blank line
/// separates sections.
pub open spec fn spec_section_bytes(s: SecV) -> Seq<u8> {
    (if s.name.len() > 0 {
        seq![91u8] + encode_utf8(s.name) + seq![93u8, 13u8, 10u8]
    } else {
        Seq::empty()
    }) + spec_entries_bytes(s.entries)
}

/// The bytes a whole document serializes to, before null stripping.
pub open spec fn spec_doc_bytes(d: Seq<SecV>) -> Seq<u8>
    decreases d.len(),
{
    if d.len() == 0 {
        Seq::empty()
    } else {
        spec_doc_bytes(d.drop_last()) + spec_section_bytes(d.last())
    }
}

/// The serialized document with embedded null bytes stripped, then
/// right-padded with null bytes up to `size`; content already at or
/// beyond `size` is kept as it is.
pub open spec fn spec_padded_bytes(d: Seq<SecV>, size: nat) -> Seq<u8> {
    let b = strip_nul(spec_doc_bytes(d));
    if b.len() >= size {
        b
    } else {
        b + Seq::new((size - b.len()) as nat, |i: int| 0u8)
    }
}

/// The padded writer's output is never shorter than the requested size,
/// its content holds no null byte, and every byte past the content is
/// null.
pub proof fn lemma_padded_bytes_shape(d: Seq<SecV>, size: nat)
    ensures
        spec_padded_bytes(d, size).len() == if strip_nul(spec_doc_bytes(d)).len() >= size {
            strip_nul(spec_doc_bytes(d)).len()
        } else {
            size
        },
        spec_padded_bytes(d, size).take(strip_nul(spec_doc_bytes(d)).len() as int) == strip_nul(
            spec_doc_bytes(d),
        ),
        forall|k: int|
            0 <= k < strip_nul(spec_doc_bytes(d)).len() ==> spec_padded_bytes(d, size)[k] != 0,
        forall|k: int|
            strip_nul(spec_doc_bytes(d)).len() <= k < spec_padded_bytes(d, size).len()
                ==> spec_padded_bytes(d, size)[k] == 0,
{
    let c = strip_nul(spec_doc_bytes(d));
    assert(spec_padded_bytes(d, size).take(c.len() as int) =~= c);
    lemma_strip_nul_no_nul(spec_doc_bytes(d));
}

/// Nothing that `strip_nul` keeps is a null byte.
proof fn lemma_strip_nul_no_nul(s: Seq<u8>)
    ensures
        forall|k: int| 0 <= k < strip_nul(s).len() ==> strip_nul(s)[k] != 0,
    decreases s.len(),
{
    if s.len() > 0 {
        lemma_strip_nul_no_nul(s.drop_last());
        let kept = strip_nul(s.drop_last());
        assert forall|k: int| 0 <= k < strip_nul(s).len() implies strip_nul(s)[k] != 0 by {
            if s.last() != 0 {
                assert(strip_nul(s) == kept.push(s.last()));
                if k < kept.len() {
                    assert(strip_nul(s)[k] == kept[k]);
                }
            }
        }
    }
}

/// A run without null bytes passes through `strip_nul` unchanged.
proof fn lemma_strip_nul_id(s: Seq<u8>)
    requires
        forall|k: int| 0 <= k < s.len() ==> s[k] != 0,
    ensures
        strip_nul(s) == s,
    decreases s.len(),
{
    if s.len() > 0 {
        assert(forall|k: int|
            0 <= k < s.len() - 1 ==> #[trigger] s.drop_last()[k] == s[k]);
        lemma_strip_nul_id(s.drop_last());
        assert(s.last() != 0);
        assert(s.drop_last().push(s.last()) =~= s);
    }
}

fn push_str_bytes(out: &mut Vec<u8>, s: &str)
    ensures
        final(out)@ == old(out)@ + strip_nul(encode_utf8(s@)),
{
    let bytes = s.as_bytes_vec();
    let n = bytes.len();
    let mut j: usize = 0;
    proof {
        assert(bytes@.take(0) =~= Seq::<u8>::empty());
        assert(strip_nul(Seq::<u8>::empty()) == Seq::<u8>::empty());
    }
    while j < n
        invariant
            n == bytes@.len(),
            j <= n,
            bytes@ == encode_utf8(s@),
            out@ == old(out)@ + strip_nul(bytes@.take(j as int)),
        decreases n - j,
    {
        let b = bytes[j];
        if b != 0 {
            out.push(b);
        }
        proof {
            assert(bytes@.take(j as int + 1) =~= bytes@.take(j as int).push(b));
            lemma_strip_nul_push(bytes@.take(j as int), b);
        }
        j += 1;
    }
    proof {
        assert(bytes@.take(n as int) =~= bytes@);
    }
}

/// Serializes a document with the engine's exact conventions: CRLF line
/// ends, `=` with no spaces, values verbatim, no blank lines; embedded
/// null bytes are stripped, and the buffer is then padded with null bytes
/// up to `padded_size` (no padding when the content is already at least
/// that long).
pub fn ini_to_vec_padded_no_spacing(doc: &Document, padded_size: usize) -> (r: Vec<u8>)
    ensures
        r@ == spec_padded_bytes(doc@, padded_size as nat),
{
    let mut out: Vec<u8> = Vec::new();
    let n = doc.sections.len();
    let mut i: usize = 0;
    proof {
        assert(doc@.take(0) =~= Seq::<SecV>::empty());
        assert(strip_nul(Seq::<u8>::empty()) == Seq::<u8>::empty());
    }
    while i < n
        invariant
            n == doc.sections.len(),
            i <= n,
            out@ == strip_nul(spec_doc_bytes(doc@.take(i as int))),
        decreases n - i,
    {
        let sec = &doc.sections[i];
        let ghost base = out@;
        proof {
            assert(doc@[i as int] == doc.sections@[i as int]@);
        }
        if sec.name.as_str().unicode_len() > 0 {
            out.push(91);
            proof {
                lemma_strip_nul_id(seq![91u8]);
                assert(out@ =~= base + strip_nul(seq![91u8]));
            }
            push_str_bytes(&mut out, sec.name.as_str());
            out.push(93);
            out.push(13);
            out.push(10);
            proof {
                let hdr = seq![91u8] + encode_utf8(sec@.name) + seq![93u8, 13u8, 10u8];
                lemma_strip_nul_add(seq![91u8], encode_utf8(sec@.name));
                lemma_strip_nul_add(seq![91u8] + encode_utf8(sec@.name), seq![93u8, 13u8, 10u8]);
                lemma_strip_nul_id(seq![93u8, 13u8, 10u8]);
                assert(out@ =~= base + strip_nul(hdr));
            }
        }
        let ghost header = out@;
        proof {
            assert(sec@.entries.take(0) =~= Seq::<(Seq<char>, Seq<char>)>::empty());
        }
        let m = sec.entries.len();
        let mut j: usize = 0;
        while j < m
            invariant
                m == sec.entries.len(),
                j <= m,
                header == base + (if sec@.name.len() > 0 {
                    strip_nul(seq![91u8] + encode_utf8(sec@.name) + seq![93u8, 13u8, 10u8])
                } else {
                    Seq::<u8>::empty()
                }),
                out@ == header + strip_nul(spec_entries_bytes(sec@.entries.take(j as int))),
            decreases m - j,
        {
            let ghost before = out@;
            proof {
                assert(sec@.entries[j as int] == (
                    sec.entries@[j as int].0@,
                    sec.entries@[j as int].1@,
                ));
            }
            push_str_bytes(&mut out, sec.entries[j].0.as_str());
            out.push(61);
            push_str_bytes(&mut out, sec.entries[j].1.as_str());
            out.push(13);
            out.push(10);
            proof {
                let e = sec@.entries[j as int];
                lemma_strip_nul_id(seq![61u8]);
                lemma_strip_nul_add(encode_utf8(e.0), seq![61u8]);
                lemma_strip_nul_add(encode_utf8(e.0) + seq![61u8], encode_utf8(e.1));
                lemma_strip_nul_add(
                    encode_utf8(e.0) + seq![61u8] + encode_utf8(e.1),
                    seq![13u8, 10u8],
                );
                lemma_strip_nul_id(seq![13u8, 10u8]);
                assert(out@ =~= before + strip_nul(spec_entry_bytes(e)));
                assert(sec@.entries.take(j as int + 1).drop_last() =~= sec@.entries.take(j as int));
                lemma_strip_nul_add(
                    spec_entries_bytes(sec@.entries.take(j as int)),
                    spec_entry_bytes(e),
                );
                assert(out@ =~= header + strip_nul(
                    spec_entries_bytes(sec@.entries.take(j as int + 1)),
                ));
            }
            j += 1;
        }
        proof {
            assert(sec@.entries.take(m as int) =~= sec@.entries);
            if sec@.name.len() > 0 {
                lemma_strip_nul_add(
                    seq![91u8] + encode_utf8(sec@.name) + seq![93u8, 13u8, 10u8],
                    spec_entries_bytes(sec@.entries),
                );
                assert((seq![91u8] + encode_utf8(sec@.name) + seq![93u8, 13u8, 10u8])
                    + spec_entries_bytes(sec@.entries) =~= spec_section_bytes(sec@));
            } else {
                assert(Seq::<u8>::empty() + spec_entries_bytes(sec@.entries) =~= spec_section_bytes(
                    sec@,
                ));
            }
            assert(out@ =~= base + strip_nul(spec_section_bytes(sec@)));
            assert(doc@.take(i as int + 1).drop_last() =~= doc@.take(i as int));
            assert(doc@.take(i as int + 1).last() == sec@);
            lemma_strip_nul_add(
                spec_doc_bytes(doc@.take(i as int)),
                spec_section_bytes(sec@),
            );
            assert(out@ =~= strip_nul(spec_doc_bytes(doc@.take(i as int + 1))));
        }
        i += 1;
    }
    proof {
        assert(doc@.take(n as int) =~= doc@);
    }
    let clen = out.len();
    let ghost content = out@;
    while out.len() < padded_size
        invariant
            clen <= out@.len(),
            content == out@.take(clen as int),
            content.len() == clen,
            out@.len() <= padded_size || out@.len() == clen,
            forall|k: int| clen <= k < out@.len() ==> out@[k] == 0,
        decreases padded_size - out@.len(),
    {
        out.push(0);
        proof {
            assert(out@.take(clen as int) =~= content);
        }
    }
    proof {
        if clen >= padded_size {
            assert(out@ =~= content);
        } else {
            assert(out@.len() == padded_size);
            assert(out@ =~= content + Seq::new((padded_size - clen) as nat, |k: int| 0u8));
        }
    }
    out
}

// ---------------------------------------------------------------------------
// parsing stored text
// ---------------------------------------------------------------------------

/// What the generic key/value parser makes of a text: its sections with
/// their ordered entries, or nothing when the text is not a well-formed
/// document. The parser is deterministic, so this is a function of the
/// text alone; the library states no more about it than the two clauses
/// of [`parse_ini_text`] below.
pub uninterp spec fn parse_of(text: Seq<char>) -> Option<Seq<SecV>>;

/// Relies on `ini::Ini::load_from_str_opt` for the generic key/value text
/// syntax, with quote support on: surrounding quotes are removed from
/// values, and section order and entry order are preserved as read. The
/// result is [`parse_of`] the text: the sections and their entries as a
/// [`Document`] when the text parses, and a `DocumentSyntax` fault with
/// the parser's message when it does not.
#[verifier::external_body]
fn parse_ini_text(text: &str) -> (r: Result<Document, Error>)
    ensures
        r matches Ok(d) ==> parse_of(text@) == Some(d@),
        r matches Err(e) ==> parse_of(text@) is None && e@ is DocumentSyntax,
{
    let opt = ini::ParseOption { enabled_quote: true, ..Default::default() };
    let to_sec = |p: (Option<&str>, &ini::Properties)| Section {
        name: p.0.unwrap_or("").to_string(),
        entries: p.1.iter().map(|kv| (kv.0.to_string(), kv.1.to_string())).collect(),
    };
    match ini::Ini::load_from_str_opt(text, opt) {
        Ok(parsed) => Ok(Document { sections: parsed.iter().map(to_sec).collect() }),
        Err(e) => Err(Error::DocumentSyntax(e.to_string())),
    }
}

/// The index of the first null character of `s`, if any.
pub open spec fn first_nul(s: Seq<char>) -> Option<int>
    decreases s.len(),
{
    if s.len() == 0 {
        None
    } else if s[0] == '\u{0}' {
        Some(0)
    } else {
        match first_nul(s.drop_first()) {
            Some(i) => Some(i + 1),
            None => None,
        }
    }
}

/// Everything before the first null character of `s`; all of `s` when it
/// holds none.
pub open spec fn before_first_nul(s: Seq<char>) -> Seq<char> {
    match first_nul(s) {
        Some(i) => s.take(i),
        None => s,
    }
}

/// Where the first null of `s` is, given a scan that stopped at `i`.
proof fn lemma_first_nul_at(s: Seq<char>, i: int)
    requires
        0 <= i <= s.len(),
        forall|k: int| 0 <= k < i ==> s[k] != '\u{0}',
        i < s.len() ==> s[i] == '\u{0}',
    ensures
        first_nul(s) == if i < s.len() {
            Some(i)
        } else {
            None::<int>
        },
    decreases s.len(),
{
    if s.len() == 0 {
    } else if i == 0 {
    } else {
        assert(s[0] != '\u{0}');
        let d = s.drop_first();
        assert(forall|k: int| 0 <= k < i - 1 ==> #[trigger] d[k] == s[k + 1]);
        assert(i - 1 < d.len() ==> d[i - 1] == s[i]);
        lemma_first_nul_at(d, i - 1);
    }
}

/// Parses stored text into a [`Document`]: the result is [`parse_of`] the
/// text up to its first null character, so a padded buffer read back from
/// disk parses as its content alone.
pub fn parse_ini_file(content: String) -> (r: Result<Document, Error>)
    ensures
        r matches Ok(d) ==> parse_of(before_first_nul(content@)) == Some(d@),
        r matches Err(e) ==> parse_of(before_first_nul(content@)) is None && e@ is DocumentSyntax,
{
    let text = content.as_str();
    let len = text.unicode_len();
    let mut end: usize = 0;
    while end < len && text.get_char(end) != '\u{0}'
        invariant
            end <= len == text@.len(),
            forall|k: int| 0 <= k < end ==> text@[k] != '\u{0}',
        decreases len - end,
    {
        end += 1;
    }
    proof {
        lemma_first_nul_at(text@, end as int);
    }
    let head = text.substring_char(0, end);
    proof {
        assert(head@ =~= before_first_nul(content@));
    }
    parse_ini_text(head)
}

// ---------------------------------------------------------------------------
// trimming a path to something that exists
// ---------------------------------------------------------------------------

/// Relies on `std::path::Path::exists`: whether anything exists on disk at
/// the path. The answer depends on the file system alone, so nothing is
/// promised about it.
#[verifier::external_body]
pub(crate) fn path_exists(path: &str) -> bool {
    std::path::Path::new(path).exists()
}

/// Relies on `std::path::Path::is_file`: whether the path names an
/// existing regular file. The answer depends on the file system alone, so
/// nothing is promised about it.
#[verifier::external_body]
fn path_is_file(path: &str) -> bool {
    std::path::Path::new(path).is_file()
}

/// Whether `r` is `p` itself, empty, or a prefix of `p` that ends right
/// before a component separator.
pub open spec fn is_trimmed_prefix(r: Seq<char>, p: Seq<char>) -> bool {
    &&& r.len() <= p.len()
    &&& r == p.take(r.len() as int)
    &&& (r.len() == p.len() || r.len() == 0 || p[r.len() as int] == '/')
}

/// The end of the parent of `path`'s prefix of length `end`: the last
/// separator strictly before `end`, or the start.
fn parent_end(path: &str, end: usize) -> (r: usize)
    requires
        end <= path@.len(),
    ensures
        r < end || end == 0,
        r == 0 || path@[r as int] == '/',
        r <= path@.len(),
{
    let mut k = end;
    while k > 0
        invariant
            k <= end <= path@.len(),
        decreases k,
    {
        k -= 1;
        if path.get_char(k) == '/' {
            return k;
        }
    }
    0
}

/// Trims trailing components off `path` until what is left exists on
/// disk, or nothing is left. A path naming an existing file loses that
/// last component first, so the result is a directory whenever it is not
/// empty. The result is always a component-boundary prefix of the input.
pub fn trim_to_existing_dir(path: &str) -> (r: &str)
    ensures
        is_trimmed_prefix(r@, path@),
{
    let len = path.unicode_len();
    let mut end = len;
    if path_is_file(path) {
        end = parent_end(path, end);
    }
    loop
        invariant
            end <= len == path@.len(),
            end == len || end == 0 || path@[end as int] == '/',
        decreases end,
    {
        let prefix = path.substring_char(0, end);
        if end == 0 || path_exists(prefix) {
            proof {
                assert(prefix@ =~= path@.take(end as int));
            }
            return prefix;
        }
        end = parent_end(path, end);
    }
}

} // verus!

//! The boundary codec: schema-defined binary envelopes.
//!
//! Structured data crosses the guest/host boundary as byte buffers.  Two
//! envelope shapes exist: the entry envelope, decoded when the guest is
//! invoked, and the chunk-result envelope, decoded after a host-side
//! chunking call.  Every string field travels as a 32-bit little-endian
//! byte count followed by that many UTF-8 bytes; a field that is not valid
//! UTF-8 fails the decode rather than being repaired.

use vstd::prelude::*;
use vstd::utf8::{decode_utf8, encode_utf8, valid_utf8};

verus! {

/// The kind of document an entry refers to.
#[derive(Clone, Copy, PartialEq, Eq, Structural, Debug)]
pub enum EntryType {
    Link,
    Audio,
    Video,
    Image,
    Pdf,
    Interchange,
    Epub,
    WordDocument,
    Presentation,
    Spreadsheet,
    Html,
    Markdown,
    PlainText,
    Archive,
    Code,
    Comment,
    Other,
}

/// The tag byte that stands for an entry type inside an envelope.
pub open spec fn spec_type_tag(t: EntryType) -> u8 {
    match t {
        EntryType::Link => 0,
        EntryType::Audio => 1,
        EntryType::Video => 2,
        EntryType::Image => 3,
        EntryType::Pdf => 4,
        EntryType::Interchange => 5,
        EntryType::Epub => 6,
        EntryType::WordDocument => 7,
        EntryType::Presentation => 8,
        EntryType::Spreadsheet => 9,
        EntryType::Html => 10,
        EntryType::Markdown => 11,
        EntryType::PlainText => 12,
        EntryType::Archive => 13,
        EntryType::Code => 14,
        EntryType::Comment => 15,
        EntryType::Other => 16,
    }
}

/// The entry type a tag byte stands for, if any.
pub open spec fn spec_type_of_tag(b: u8) -> Option<EntryType> {
    if b == 0 {
        Some(EntryType::Link)
    } else if b == 1 {
        Some(EntryType::Audio)
    } else if b == 2 {
        Some(EntryType::Video)
    } else if b == 3 {
        Some(EntryType::Image)
    } else if b == 4 {
        Some(EntryType::Pdf)
    } else if b == 5 {
        Some(EntryType::Interchange)
    } else if b == 6 {
        Some(EntryType::Epub)
    } else if b == 7 {
        Some(EntryType::WordDocument)
    } else if b == 8 {
        Some(EntryType::Presentation)
    } else if b == 9 {
        Some(EntryType::Spreadsheet)
    } else if b == 10 {
        Some(EntryType::Html)
    } else if b == 11 {
        Some(EntryType::Markdown)
    } else if b == 12 {
        Some(EntryType::PlainText)
    } else if b == 13 {
        Some(EntryType::Archive)
    } else if b == 14 {
        Some(EntryType::Code)
    } else if b == 15 {
        Some(EntryType::Comment)
    } else if b == 16 {
        Some(EntryType::Other)
    } else {
        None
    }
}

/// The tag of a type decodes back to that type.
pub proof fn lemma_type_tag_roundtrip(t: EntryType)
    ensures
        spec_type_of_tag(spec_type_tag(t)) == Some(t),
{
}

/// Returns the tag byte of an entry type.
pub fn type_tag(t: EntryType) -> (r: u8)
    ensures
        r == spec_type_tag(t),
{
    match t {
        EntryType::Link => 0,
        EntryType::Audio => 1,
        EntryType::Video => 2,
        EntryType::Image => 3,
        EntryType::Pdf => 4,
        EntryType::Interchange => 5,
        EntryType::Epub => 6,
        EntryType::WordDocument => 7,
        EntryType::Presentation => 8,
        EntryType::Spreadsheet => 9,
        EntryType::Html => 10,
        EntryType::Markdown => 11,
        EntryType::PlainText => 12,
        EntryType::Archive => 13,
        EntryType::Code => 14,
        EntryType::Comment => 15,
        EntryType::Other => 16,
    }
}

/// Returns the entry type of a tag byte, if the byte is a known tag.
pub fn type_of_tag(b: u8) -> (r: Option<EntryType>)
    ensures
        r == spec_type_of_tag(b),
{
    if b == 0 {
        Some(EntryType::Link)
    } else if b == 1 {
        Some(EntryType::Audio)
    } else if b == 2 {
        Some(EntryType::Video)
    } else if b == 3 {
        Some(EntryType::Image)
    } else if b == 4 {
        Some(EntryType::Pdf)
    } else if b == 5 {
        Some(EntryType::Interchange)
    } else if b == 6 {
        Some(EntryType::Epub)
    } else if b == 7 {
        Some(EntryType::WordDocument)
    } else if b == 8 {
        Some(EntryType::Presentation)
    } else if b == 9 {
        Some(EntryType::Spreadsheet)
    } else if b == 10 {
        Some(EntryType::Html)
    } else if b == 11 {
        Some(EntryType::Markdown)
    } else if b == 12 {
        Some(EntryType::PlainText)
    } else if b == 13 {
        Some(EntryType::Archive)
    } else if b == 14 {
        Some(EntryType::Code)
    } else if b == 15 {
        Some(EntryType::Comment)
    } else if b == 16 {
        Some(EntryType::Other)
    } else {
        None
    }
}

/// The unit of work: a document reference plus metadata.  The identifier
/// is opaque and immutable; the URL is the source location; the optional
/// content carries a raw body for entries that arrive with one inline.
#[derive(Debug)]
pub struct Entry {
    pub id: String,
    pub name: String,
    pub url: String,
    pub etype: EntryType,
    pub content: Option<String>,
}

/// The mathematical value of an entry: its string fields as character
/// sequences.
pub struct EntryV {
    pub id: Seq<char>,
    pub name: Seq<char>,
    pub url: Seq<char>,
    pub etype: EntryType,
    pub content: Option<Seq<char>>,
}

impl View for Entry {
    type V = EntryV;

    open spec fn view(&self) -> EntryV {
        EntryV {
            id: self.id@,
            name: self.name@,
            url: self.url@,
            etype: self.etype,
            content: match self.content {
                Some(c) => Some(c@),
                None => None,
            },
        }
    }
}

/// The four little-endian bytes of a 32-bit count.
pub open spec fn spec_u32_le(n: u32) -> Seq<u8> {
    seq![
        (n & 0xFF) as u8,
        ((n >> 8) & 0xFF) as u8,
        ((n >> 16) & 0xFF) as u8,
        ((n >> 24) & 0xFF) as u8,
    ]
}

/// The 32-bit count carried by four little-endian bytes.
pub open spec fn spec_le_u32(b0: u8, b1: u8, b2: u8, b3: u8) -> u32 {
    (b0 as u32) | ((b1 as u32) << 8) | ((b2 as u32) << 16) | ((b3 as u32) << 24)
}

/// Reading back the four little-endian bytes of a count returns the count.
pub proof fn lemma_u32_le_roundtrip(n: u32)
    ensures
        spec_le_u32(
            spec_u32_le(n)[0],
            spec_u32_le(n)[1],
            spec_u32_le(n)[2],
            spec_u32_le(n)[3],
        ) == n,
{
    assert(((n & 0xFF) as u8 as u32) | ((((n >> 8) & 0xFF) as u8 as u32) << 8) | ((((n >> 16)
        & 0xFF) as u8 as u32) << 16) | ((((n >> 24) & 0xFF) as u8 as u32) << 24) == n)
        by (bit_vector);
}

/// Appends the four little-endian bytes of a count.
pub fn push_u32_le(out: &mut Vec<u8>, n: u32)
    ensures
        final(out)@ == old(out)@ + spec_u32_le(n),
{
    out.push((n & 0xFF) as u8);
    out.push(((n >> 8u32) & 0xFF) as u8);
    out.push(((n >> 16u32) & 0xFF) as u8);
    out.push(((n >> 24u32) & 0xFF) as u8);
    proof {
        assert(out@ =~= old(out)@ + spec_u32_le(n));
    }
}

/// Reads the count stored at `pos` in little-endian order.
pub fn read_u32_le(bytes: &[u8], pos: usize) -> (r: u32)
    requires
        pos + 4 <= bytes@.len(),
    ensures
        r == spec_le_u32(bytes@[pos as int], bytes@[pos + 1], bytes@[pos + 2], bytes@[pos + 3]),
{
    let b0 = bytes[pos] as u32;
    let b1 = bytes[pos + 1] as u32;
    let b2 = bytes[pos + 2] as u32;
    let b3 = bytes[pos + 3] as u32;
    proof {
        let x1 = bytes@[pos + 1] as u32;
        let x2 = bytes@[pos + 2] as u32;
        let x3 = bytes@[pos + 3] as u32;
        assert(x1 << 8 <= 0xFF00 && x2 << 16 <= 0xFF_0000 && x3 << 24 <= 0xFF00_0000)
            by (bit_vector)
            requires
                x1 <= 0xFF && x2 <= 0xFF && x3 <= 0xFF,
        ;
    }
    b0 | (b1 << 8u32) | (b2 << 16u32) | (b3 << 24u32)
}

/// The wire form of one string field: its UTF-8 byte count, little
/// endian, then its UTF-8 bytes.
pub open spec fn spec_str_field(s: Seq<char>) -> Seq<u8> {
    spec_u32_le(encode_utf8(s).len() as u32) + encode_utf8(s)
}

/// A string fits in a field only while its UTF-8 form fits the 32-bit
/// byte count.
pub open spec fn spec_field_fits(s: Seq<char>) -> bool {
    encode_utf8(s).len() <= u32::MAX
}

/// Relies on `String::from_utf8`: it returns the string holding exactly
/// the given bytes when they are valid UTF-8, and refuses them otherwise;
/// vstd's `valid_utf8` and `decode_utf8` model that same encoding.
#[verifier::external_body]
pub(crate) fn string_from_utf8(bytes: Vec<u8>) -> (r: Option<String>)
    ensures
        match r {
            Some(s) => valid_utf8(bytes@) && s@ == decode_utf8(bytes@),
            None => !valid_utf8(bytes@),
        },
{
    String::from_utf8(bytes).ok()
}

/// Appends a slice of bytes.
pub fn push_bytes(out: &mut Vec<u8>, bytes: &[u8])
    ensures
        final(out)@ == old(out)@ + bytes@,
{
    let mut i: usize = 0;
    while i < bytes.len()
        invariant
            i <= bytes@.len(),
            out@ == old(out)@ + bytes@.take(i as int),
        decreases bytes@.len() - i,
    {
        out.push(bytes[i]);
        proof {
            assert(out@ =~= old(out)@ + bytes@.take(i + 1));
        }
        i = i + 1;
    }
    proof {
        assert(out@ =~= old(out)@ + bytes@);
    }
}

/// Appends one string field, or appends nothing when the string does not
/// fit a field.
pub fn push_str_field(out: &mut Vec<u8>, s: &str) -> (ok: bool)
    ensures
        ok == spec_field_fits(s@),
        ok ==> final(out)@ == old(out)@ + spec_str_field(s@),
        !ok ==> final(out)@ == old(out)@,
{
    let b = s.as_bytes();
    if b.len() > u32::MAX as usize {
        return false;
    }
    push_u32_le(out, b.len() as u32);
    push_bytes(out, b);
    proof {
        assert(out@ =~= old(out)@ + spec_str_field(s@));
    }
    true
}

/// An entry fits the envelope only while each of its string fields fits.
pub open spec fn spec_encodable(e: EntryV) -> bool {
    &&& spec_field_fits(e.id)
    &&& spec_field_fits(e.name)
    &&& spec_field_fits(e.url)
    &&& match e.content {
        Some(c) => spec_field_fits(c),
        None => true,
    }
}

/// The bytes of an entry envelope: the type tag, the id, name and url
/// fields, then either a zero byte for no inline content or a one byte
/// followed by the content field.
pub open spec fn spec_encode_entry(e: EntryV) -> Seq<u8> {
    seq![spec_type_tag(e.etype)] + spec_str_field(e.id) + spec_str_field(e.name) + spec_str_field(
        e.url,
    ) + (match e.content {
        Some(c) => seq![1u8] + spec_str_field(c),
        None => seq![0u8],
    })
}

/// Encodes an entry into an envelope, or refuses it when a field does not
/// fit the wire format.
pub fn encode_entry(e: &Entry) -> (r: Option<Vec<u8>>)
    ensures
        match r {
            Some(v) => spec_encodable(e@) && v@ == spec_encode_entry(e@),
            None => !spec_encodable(e@),
        },
{
    let mut out: Vec<u8> = Vec::new();
    out.push(type_tag(e.etype));
    if !push_str_field(&mut out, e.id.as_str()) {
        return None;
    }
    if !push_str_field(&mut out, e.name.as_str()) {
        return None;
    }
    if !push_str_field(&mut out, e.url.as_str()) {
        return None;
    }
    match &e.content {
        None => {
            out.push(0);
        },
        Some(c) => {
            out.push(1);
            if !push_str_field(&mut out, c.as_str()) {
                return None;
            }
        },
    }
    proof {
        assert(out@ =~= spec_encode_entry(e@));
    }
    Some(out)
}

/// The meaning of one string field read at `pos`: the decoded characters
/// and the position just past the field, or nothing when the buffer is
/// truncated or the bytes are not valid UTF-8.
pub open spec fn spec_parse_field(b: Seq<u8>, pos: int) -> Option<(Seq<char>, int)> {
    if 0 <= pos && pos + 4 <= b.len() {
        let n = spec_le_u32(b[pos], b[pos + 1], b[pos + 2], b[pos + 3]) as int;
        if pos + 4 + n <= b.len() && valid_utf8(b.subrange(pos + 4, pos + 4 + n)) {
            Some((decode_utf8(b.subrange(pos + 4, pos + 4 + n)), pos + 4 + n))
        } else {
            None
        }
    } else {
        None
    }
}

/// The meaning of an entry envelope: the entry it carries, or nothing
/// when the buffer is not a well-formed envelope.  Trailing bytes make
/// the envelope malformed.
pub open spec fn spec_decode_entry(b: Seq<u8>) -> Option<EntryV> {
    if b.len() < 1 {
        None
    } else {
        match spec_type_of_tag(b[0]) {
            None => None,
            Some(t) => match spec_parse_field(b, 1) {
                None => None,
                Some((id, p1)) => match spec_parse_field(b, p1) {
                    None => None,
                    Some((name, p2)) => match spec_parse_field(b, p2) {
                        None => None,
                        Some((url, p3)) => if p3 < b.len() && b[p3] == 0 {
                            if p3 + 1 == b.len() {
                                Some(EntryV { id, name, url, etype: t, content: None })
                            } else {
                                None
                            }
                        } else if p3 < b.len() && b[p3] == 1 {
                            match spec_parse_field(b, p3 + 1) {
                                None => None,
                                Some((c, p4)) => if p4 == b.len() {
                                    Some(EntryV { id, name, url, etype: t, content: Some(c) })
                                } else {
                                    None
                                },
                            }
                        } else {
                            None
                        },
                    },
                },
            },
        }
    }
}

/// Reads one string field at `pos`.
fn parse_field(bytes: &[u8], pos: usize) -> (r: Option<(String, usize)>)
    requires
        pos <= bytes@.len(),
    ensures
        match r {
            Some(sp) => {
                &&& spec_parse_field(bytes@, pos as int) == Some((sp.0@, sp.1 as int))
                &&& pos + 4 <= sp.1 <= bytes@.len()
            },
            None => spec_parse_field(bytes@, pos as int) is None,
        },
{
    let len = bytes.len();
    if len - pos < 4 {
        return None;
    }
    let n = read_u32_le(bytes, pos);
    let n_us = n as usize;
    if len - (pos + 4) < n_us {
        return None;
    }
    let start = pos + 4;
    let mut field: Vec<u8> = Vec::new();
    let mut i: usize = 0;
    while i < n_us
        invariant
            i <= n_us,
            start + n_us <= bytes@.len(),
            bytes@.len() <= usize::MAX,
            field@ == bytes@.subrange(start as int, start + i),
        decreases n_us - i,
    {
        field.push(bytes[start + i]);
        proof {
            assert(field@ =~= bytes@.subrange(start as int, start + i + 1));
        }
        i = i + 1;
    }
    match string_from_utf8(field) {
        None => None,
        Some(s) => Some((s, start + n_us)),
    }
}

/// Decodes an entry envelope; yields nothing exactly when the buffer is
/// not a well-formed envelope.
pub fn decode_entry(bytes: &[u8]) -> (r: Option<Entry>)
    ensures
        match r {
            Some(e) => spec_decode_entry(bytes@) == Some(e@),
            None => spec_decode_entry(bytes@) is None,
        },
{
    if bytes.len() < 1 {
        return None;
    }
    let t = match type_of_tag(bytes[0]) {
        None => {
            return None;
        },
        Some(t) => t,
    };
    let (id, p1) = match parse_field(bytes, 1) {
        None => {
            return None;
        },
        Some(sp) => sp,
    };
    let (name, p2) = match parse_field(bytes, p1) {
        None => {
            return None;
        },
        Some(sp) => sp,
    };
    let (url, p3) = match parse_field(bytes, p2) {
        None => {
            return None;
        },
        Some(sp) => sp,
    };
    if p3 >= bytes.len() {
        return None;
    }
    let flag = bytes[p3];
    if flag == 0 {
        if p3 + 1 == bytes.len() {
            Some(Entry { id, name, url, etype: t, content: None })
        } else {
            None
        }
    } else if flag == 1 {
        let (c, p4) = match parse_field(bytes, p3 + 1) {
            None => {
                return None;
            },
            Some(sp) => sp,
        };
        if p4 == bytes.len() {
            Some(Entry { id, name, url, etype: t, content: Some(c) })
        } else {
            None
        }
    } else {
        None
    }
}

/// A string field written after `prefix` reads back as the string it was
/// written from, with the cursor just past it.
proof fn lemma_field_roundtrip(prefix: Seq<u8>, s: Seq<char>, suffix: Seq<u8>)
    requires
        spec_field_fits(s),
    ensures
        spec_parse_field(prefix + spec_str_field(s) + suffix, prefix.len() as int) == Some(
            (s, prefix.len() + 4 + encode_utf8(s).len() as int),
        ),
{
    let b = prefix + spec_str_field(s) + suffix;
    let pos = prefix.len() as int;
    let eb = encode_utf8(s);
    let n = eb.len() as u32;
    assert(spec_str_field(s).len() == 4 + eb.len());
    assert(b[pos] == spec_u32_le(n)[0]);
    assert(b[pos + 1] == spec_u32_le(n)[1]);
    assert(b[pos + 2] == spec_u32_le(n)[2]);
    assert(b[pos + 3] == spec_u32_le(n)[3]);
    lemma_u32_le_roundtrip(n);
    assert(b.subrange(pos + 4, pos + 4 + eb.len()) =~= eb);
    vstd::utf8::encode_utf8_valid_utf8(s);
    vstd::utf8::encode_utf8_decode_utf8(s);
    assert(valid_utf8(eb));
    assert(decode_utf8(eb) == s);
}

/// Round trip: every entry that fits the envelope decodes from its own
/// encoding back to itself.
#[verifier::rlimit(100)]
pub proof fn lemma_entry_roundtrip(e: EntryV)
    requires
        spec_encodable(e),
    ensures
        spec_decode_entry(spec_encode_entry(e)) == Some(e),
{
    let b = spec_encode_entry(e);
    let tag = seq![spec_type_tag(e.etype)];
    let f1 = spec_str_field(e.id);
    let f2 = spec_str_field(e.name);
    let f3 = spec_str_field(e.url);
    let tail = match e.content {
        Some(c) => seq![1u8] + spec_str_field(c),
        None => seq![0u8],
    };
    let p1 = 1 + f1.len() as int;
    let p2 = p1 + f2.len() as int;
    let p3 = p2 + f3.len() as int;
    assert(b[0] == spec_type_tag(e.etype));
    lemma_type_tag_roundtrip(e.etype);
    assert(spec_parse_field(b, 1) == Some((e.id, p1))) by {
        assert(b =~= tag + f1 + (f2 + f3 + tail));
        lemma_field_roundtrip(tag, e.id, f2 + f3 + tail);
    }
    assert(spec_parse_field(b, p1) == Some((e.name, p2))) by {
        assert(b =~= (tag + f1) + f2 + (f3 + tail));
        lemma_field_roundtrip(tag + f1, e.name, f3 + tail);
    }
    assert(spec_parse_field(b, p2) == Some((e.url, p3))) by {
        assert(b =~= (tag + f1 + f2) + f3 + tail);
        lemma_field_roundtrip(tag + f1 + f2, e.url, tail);
    }
    match e.content {
        None => {
            assert(b[p3] == 0);
            assert(p3 + 1 == b.len());
        },
        Some(c) => {
            let p4 = p3 + 1 + spec_str_field(c).len() as int;
            assert(b[p3] == 1);
            assert(spec_parse_field(b, p3 + 1) == Some((c, p4))) by {
                assert(b =~= (tag + f1 + f2 + f3 + seq![1u8]) + spec_str_field(c) + Seq::<
                    u8,
                >::empty());
                lemma_field_roundtrip(tag + f1 + f2 + f3 + seq![1u8], c, Seq::<u8>::empty());
            }
            assert(p4 == b.len());
        },
    }
}

/// The wire form of a list of chunk strings, one field after another.
pub open spec fn spec_chunk_fields(cs: Seq<Seq<char>>) -> Seq<u8>
    decreases cs.len(),
{
    if cs.len() == 0 {
        Seq::empty()
    } else {
        spec_str_field(cs[0]) + spec_chunk_fields(cs.drop_first())
    }
}

/// A chunk list fits the envelope only while the count fits 32 bits and
/// each chunk fits a field.
pub open spec fn spec_chunks_fit(cs: Seq<Seq<char>>) -> bool {
    &&& cs.len() <= u32::MAX
    &&& forall|i: int| 0 <= i < cs.len() ==> spec_field_fits(#[trigger] cs[i])
}

/// The bytes of a chunk-result envelope: the chunk count, little endian,
/// then that many string fields in chunk order.
pub open spec fn spec_encode_chunk_result(cs: Seq<Seq<char>>) -> Seq<u8> {
    spec_u32_le(cs.len() as u32) + spec_chunk_fields(cs)
}

/// Appending one more chunk appends exactly its field bytes.
proof fn lemma_chunk_fields_push(cs: Seq<Seq<char>>, x: Seq<char>)
    ensures
        spec_chunk_fields(cs.push(x)) == spec_chunk_fields(cs) + spec_str_field(x),
    decreases cs.len(),
{
    if cs.len() == 0 {
        assert(cs.push(x)[0] == x);
        assert(cs.push(x).drop_first() =~= cs);
        assert(spec_chunk_fields(cs.push(x)) =~= spec_chunk_fields(cs) + spec_str_field(x));
    } else {
        assert(cs.push(x).drop_first() =~= cs.drop_first().push(x));
        lemma_chunk_fields_push(cs.drop_first(), x);
        assert(spec_chunk_fields(cs.push(x)) =~= spec_chunk_fields(cs) + spec_str_field(x));
    }
}

/// Encodes a chunk list into an envelope, or refuses it when the count
/// or a chunk does not fit the wire format.
pub fn encode_chunk_result(chunks: &Vec<String>) -> (r: Option<Vec<u8>>)
    ensures
        match r {
            Some(v) => spec_chunks_fit(chunks.deep_view()) && v@ == spec_encode_chunk_result(
                chunks.deep_view(),
            ),
            None => !spec_chunks_fit(chunks.deep_view()),
        },
{
    if chunks.len() > u32::MAX as usize {
        return None;
    }
    let mut out: Vec<u8> = Vec::new();
    push_u32_le(&mut out, chunks.len() as u32);
    let mut i: usize = 0;
    while i < chunks.len()
        invariant
            i <= chunks@.len(),
            chunks@.len() <= u32::MAX,
            forall|k: int| 0 <= k < i ==> spec_field_fits(#[trigger] chunks.deep_view()[k]),
            out@ == spec_u32_le(chunks@.len() as u32) + spec_chunk_fields(
                chunks.deep_view().take(i as int),
            ),
        decreases chunks@.len() - i,
    {
        if !push_str_field(&mut out, chunks[i].as_str()) {
            proof {
                assert(!spec_field_fits(chunks.deep_view()[i as int]));
            }
            return None;
        }
        proof {
            assert(chunks.deep_view().take(i + 1) =~= chunks.deep_view().take(i as int).push(
                chunks.deep_view()[i as int],
            ));
            lemma_chunk_fields_push(chunks.deep_view().take(i as int), chunks.deep_view()[i as int]);
            assert(out@ =~= spec_u32_le(chunks@.len() as u32) + spec_chunk_fields(
                chunks.deep_view().take(i + 1),
            ));
        }
        i = i + 1;
    }
    proof {
        assert(chunks.deep_view().take(chunks@.len() as int) =~= chunks.deep_view());
    }
    Some(out)
}

/// The meaning of `k` string fields read in order from `pos`.
pub open spec fn spec_parse_fields(b: Seq<u8>, pos: int, k: nat) -> Option<(Seq<Seq<char>>, int)>
    decreases k,
{
    if k == 0 {
        Some((Seq::empty(), pos))
    } else {
        match spec_parse_field(b, pos) {
            None => None,
            Some((s, p)) => match spec_parse_fields(b, p, (k - 1) as nat) {
                None => None,
                Some((rest, p2)) => Some((seq![s] + rest, p2)),
            },
        }
    }
}

/// The meaning of a chunk-result envelope: the chunk strings it carries
/// in order, or nothing when the buffer is not a well-formed envelope.
pub open spec fn spec_decode_chunk_result(b: Seq<u8>) -> Option<Seq<Seq<char>>> {
    if b.len() < 4 {
        None
    } else {
        let n = spec_le_u32(b[0], b[1], b[2], b[3]);
        match spec_parse_fields(b, 4, n as nat) {
            None => None,
            Some((cs, p)) => if p == b.len() {
                Some(cs)
            } else {
                None
            },
        }
    }
}

/// The fields written for a chunk list read back as that list, with the
/// cursor just past them.
proof fn lemma_chunk_fields_roundtrip(prefix: Seq<u8>, cs: Seq<Seq<char>>)
    requires
        forall|i: int| 0 <= i < cs.len() ==> spec_field_fits(#[trigger] cs[i]),
    ensures
        spec_parse_fields(prefix + spec_chunk_fields(cs), prefix.len() as int, cs.len() as nat)
            == Some((cs, prefix.len() + spec_chunk_fields(cs).len() as int)),
    decreases cs.len(),
{
    let b = prefix + spec_chunk_fields(cs);
    let pos = prefix.len() as int;
    if cs.len() == 0 {
        assert(cs =~= Seq::<Seq<char>>::empty());
        assert(spec_chunk_fields(cs).len() == 0);
    } else {
        let head = cs[0];
        let rest = cs.drop_first();
        assert(spec_field_fits(head));
        assert(forall|i: int| 0 <= i < rest.len() ==> spec_field_fits(#[trigger] rest[i]) && rest[i]
            == cs[i + 1]);
        assert(b =~= prefix + spec_str_field(head) + spec_chunk_fields(rest));
        lemma_field_roundtrip(prefix, head, spec_chunk_fields(rest));
        let p1 = pos + 4 + encode_utf8(head).len() as int;
        assert(spec_parse_field(b, pos) == Some((head, p1)));
        lemma_chunk_fields_roundtrip(prefix + spec_str_field(head), rest);
        assert((prefix + spec_str_field(head)) + spec_chunk_fields(rest) =~= b);
        assert(spec_parse_fields(b, p1, rest.len() as nat) == Some(
            (rest, p1 + spec_chunk_fields(rest).len() as int),
        ));
        assert(seq![head] + rest =~= cs);
        assert(p1 + spec_chunk_fields(rest).len() == pos + spec_chunk_fields(cs).len());
    }
}

/// Round trip: every chunk list that fits the envelope decodes from its
/// own encoding back to itself.
pub proof fn lemma_chunk_result_roundtrip(cs: Seq<Seq<char>>)
    requires
        spec_chunks_fit(cs),
    ensures
        spec_decode_chunk_result(spec_encode_chunk_result(cs)) == Some(cs),
{
    let b = spec_encode_chunk_result(cs);
    let n = cs.len() as u32;
    assert(b[0] == spec_u32_le(n)[0]);
    assert(b[1] == spec_u32_le(n)[1]);
    assert(b[2] == spec_u32_le(n)[2]);
    assert(b[3] == spec_u32_le(n)[3]);
    lemma_u32_le_roundtrip(n);
    assert(b =~= spec_u32_le(n) + spec_chunk_fields(cs));
    lemma_chunk_fields_roundtrip(spec_u32_le(n), cs);
    assert(spec_parse_fields(b, 4, cs.len() as nat) == Some((cs, 4 + spec_chunk_fields(cs).len() as int)));
    assert(4 + spec_chunk_fields(cs).len() == b.len());
}

/// A parse already holding `prefix` and continuing with `r`.
spec fn spec_fields_compose(prefix: Seq<Seq<char>>, r: Option<(Seq<Seq<char>>, int)>) -> Option<
    (Seq<Seq<char>>, int),
> {
    match r {
        None => None,
        Some((rest, p)) => Some((prefix + rest, p)),
    }
}

/// Decodes a chunk-result envelope; yields nothing exactly when the
/// buffer is not a well-formed envelope.
pub fn decode_chunk_result(bytes: &[u8]) -> (r: Option<Vec<String>>)
    ensures
        match r {
            Some(v) => spec_decode_chunk_result(bytes@) == Some(v.deep_view()),
            None => spec_decode_chunk_result(bytes@) is None,
        },
{
    if bytes.len() < 4 {
        return None;
    }
    let n = read_u32_le(bytes, 0);
    let mut out: Vec<String> = Vec::new();
    let mut pos: usize = 4;
    let mut i: u32 = 0;
    proof {
        assert(out.deep_view() + Seq::<Seq<char>>::empty() =~= out.deep_view());
    }
    while i < n
        invariant
            i <= n,
            4 <= pos <= bytes@.len(),
            n == spec_le_u32(bytes@[0], bytes@[1], bytes@[2], bytes@[3]),
            out.deep_view().len() == i,
            spec_parse_fields(bytes@, 4, n as nat) == spec_fields_compose(
                out.deep_view(),
                spec_parse_fields(bytes@, pos as int, (n - i) as nat),
            ),
        decreases n - i,
    {
        match parse_field(bytes, pos) {
            None => {
                proof {
                    assert(spec_parse_fields(bytes@, pos as int, (n - i) as nat) is None);
                    assert(spec_parse_fields(bytes@, 4, n as nat) is None);
                }
                return None;
            },
            Some((s, p2)) => {
                let ghost prev = out.deep_view();
                proof {
                    let rest_r = spec_parse_fields(bytes@, p2 as int, (n - i - 1) as nat);
                    match rest_r {
                        None => {},
                        Some((rest, pp)) => {
                            assert(prev.push(s@) + rest =~= prev + (seq![s@] + rest));
                        },
                    }
                }
                out.push(s);
                pos = p2;
                proof {
                    assert(out.deep_view() =~= prev.push(s@));
                }
                i = i + 1;
            },
        }
    }
    proof {
        assert(out.deep_view() + Seq::<Seq<char>>::empty() =~= out.deep_view());
    }
    if pos == bytes.len() {
        Some(out)
    } else {
        None
    }
}

} // verus!

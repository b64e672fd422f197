use vstd::prelude::*;

use crate::image::{
    outcome_wf, DecodeResult, Image, ImageModel, OutcomeModel, PixelsByColorType, PixelsModel,
};

verus! {

/// The four little-endian bytes of `x`.
pub open spec fn le32(x: u32) -> Seq<u8> {
    seq![
        (x % 256) as u8,
        (x / 256 % 256) as u8,
        (x / 65536 % 256) as u8,
        (x / 16777216) as u8,
    ]
}

/// The number that four little-endian bytes spell.
pub open spec fn le32_value(b: Seq<u8>) -> nat {
    b[0] as nat + b[1] as nat * 256 + b[2] as nat * 65536 + b[3] as nat * 16777216
}

pub proof fn lemma_le32_round_trip(x: u32)
    ensures
        le32_value(le32(x)) == x as nat,
        le32(x).len() == 4,
{
}

/// A valid Unicode scalar value.
pub open spec fn is_scalar(u: u32) -> bool {
    u < 0xD800 || (0xE000 <= u && u <= 0x10FFFF)
}

pub proof fn lemma_char_is_scalar(c: char)
    ensures
        is_scalar(c as u32),
{
}

/// Relies on `str::chars`: the characters of a string, in order.
#[verifier::external_body]
fn chars_of(s: &str) -> (r: Vec<char>)
    ensures
        r@ == s@,
{
    s.chars().collect()
}

/// Relies on `String`'s `FromIterator<char>`: a string of exactly these characters.
#[verifier::external_body]
fn string_of(cs: &[char]) -> (r: String)
    ensures
        r@ == cs@,
{
    cs.iter().collect()
}

/// Relies on `char::from_u32`: the character with this scalar value, if any.
#[verifier::external_body]
fn char_from(u: u32) -> (r: Option<char>)
    ensures
        r is Some <==> is_scalar(u),
        r matches Some(c) ==> c as u32 == u,
{
    char::from_u32(u)
}

/// Appends the four little-endian bytes of `x`.
pub fn push_le32(out: &mut Vec<u8>, x: u32)
    ensures
        final(out)@ == old(out)@ + le32(x),
{
    out.push((x % 256) as u8);
    out.push((x / 256 % 256) as u8);
    out.push((x / 65536 % 256) as u8);
    out.push((x / 16777216) as u8);
    assert(final(out)@ =~= old(out)@ + le32(x));
}

/// Reads four little-endian bytes at `at`.
pub fn read_le32(b: &[u8], at: usize) -> (r: u32)
    requires
        at + 4 <= b@.len(),
    ensures
        r as nat == le32_value(b@.subrange(at as int, at + 4)),
{
    let r = b[at] as u32 + b[at + 1] as u32 * 256 + b[at + 2] as u32 * 65536 + b[at + 3] as u32
        * 16777216;
    r
}

/// The four bytes that carry character `i / 4` of `cs`.
pub open spec fn char_byte(cs: Seq<char>, i: int) -> u8 {
    le32(cs[i / 4] as u32)[i % 4]
}

/// Characters as consecutive little-endian scalar values.
pub open spec fn chars_bytes(cs: Seq<char>) -> Seq<u8> {
    Seq::new(cs.len() * 4, |i: int| char_byte(cs, i))
}

/// The body of a message that carries a decode outcome: a tag byte, then for
/// an image its width, height, layout tag and pixel bytes, for an error its
/// message's characters.
pub open spec fn outcome_payload(o: OutcomeModel) -> Seq<u8> {
    match o {
        OutcomeModel::Image(m) => seq![0u8] + le32(m.width) + le32(m.height) + seq![m.pixels.tag]
            + m.pixels.bytes,
        OutcomeModel::Error(cs) => seq![1u8] + chars_bytes(cs),
    }
}

/// A message on the channel: the body's length in four little-endian bytes,
/// then the body.
pub open spec fn framed(payload: Seq<u8>) -> Seq<u8> {
    le32(payload.len() as u32) + payload
}

/// The outcomes that a well-formed message can carry: images whose buffer
/// matches their grid, in one of the four layouts.
pub open spec fn outcome_valid(o: OutcomeModel) -> bool {
    outcome_wf(o) && match o {
        OutcomeModel::Image(m) => m.pixels.tag <= 3,
        OutcomeModel::Error(_) => true,
    }
}

/// Appends the characters of `s` as little-endian scalar values.
fn push_chars(out: &mut Vec<u8>, s: &str)
    ensures
        final(out)@ == old(out)@ + chars_bytes(s@),
{
    let cs = chars_of(s);
    let ghost start = out@;
    let mut i: usize = 0;
    while i < cs.len()
        invariant
            i <= cs@.len(),
            out@.len() == start.len() + i * 4,
            out@.subrange(0, start.len() as int) == start,
            forall|j: int| 0 <= j < i * 4 ==> #[trigger] out@[start.len() + j] == char_byte(cs@, j),
        decreases cs.len() - i,
    {
        let ghost before = out@;
        push_le32(out, cs[i] as u32);
        proof {
            assert(out@.subrange(0, start.len() as int) =~= start) by {
                assert(before.subrange(0, start.len() as int) == start);
            }
            assert forall|j: int| 0 <= j < (i + 1) * 4 implies #[trigger] out@[start.len() + j]
                == char_byte(cs@, j) by {
                if j < i * 4 {
                    assert(out@[start.len() + j] == before[start.len() + j]);
                } else {
                    assert(j / 4 == i as int);
                    assert(j % 4 == j - i * 4);
                }
            }
        }
        i = i + 1;
    }
    assert(out@ =~= start + chars_bytes(s@)) by {
        assert forall|k: int| 0 <= k < out@.len() implies out@[k] == (start + chars_bytes(s@))[k] by {
            if k < start.len() {
                assert(out@[k] == out@.subrange(0, start.len() as int)[k]);
            } else {
                assert(out@[start.len() + (k - start.len())] == char_byte(cs@, k - start.len()));
            }
        }
    }
}

/// The body of a message carrying `o`.
pub fn encode_outcome(o: &DecodeResult) -> (r: Vec<u8>)
    ensures
        r@ == outcome_payload(o@),
{
    let mut out: Vec<u8> = Vec::new();
    match o {
        DecodeResult::Image(img) => {
            out.push(0u8);
            push_le32(&mut out, img.width);
            push_le32(&mut out, img.height);
            let (tag, bytes) = match &img.pixels {
                PixelsByColorType::K8(v) => (0u8, v),
                PixelsByColorType::KA8(v) => (1u8, v),
                PixelsByColorType::RGB8(v) => (2u8, v),
                PixelsByColorType::RGBA8(v) => (3u8, v),
            };
            out.push(tag);
            let ghost before = out@;
            let mut i: usize = 0;
            while i < bytes.len()
                invariant
                    i <= bytes@.len(),
                    out@ == before + bytes@.subrange(0, i as int),
                decreases bytes.len() - i,
            {
                out.push(bytes[i]);
                assert(bytes@.subrange(0, i + 1) =~= bytes@.subrange(0, i as int).push(bytes@[i as int]));
                i = i + 1;
            }
            assert(bytes@.subrange(0, i as int) =~= bytes@);
            assert(out@ =~= outcome_payload(o@));
        },
        DecodeResult::Error(m) => {
            out.push(1u8);
            push_chars(&mut out, m.as_str());
            assert(out@ =~= outcome_payload(o@));
        },
    }
    out
}

/// The scalar value spelled by the four bytes of group `i`.
pub open spec fn group_value(b: Seq<u8>, i: int) -> u32 {
    le32_value(b.subrange(4 * i, 4 * i + 4)) as u32
}

/// The character with scalar value `u`.
pub open spec fn char_of(u: u32) -> char {
    u as char
}

/// The characters that a run of little-endian scalar values spells, if every
/// group of four bytes is a valid one.
pub open spec fn parse_chars(b: Seq<u8>) -> Option<Seq<char>> {
    let n = b.len() / 4;
    if b.len() % 4 != 0 {
        None
    } else if exists|i: int| 0 <= i < n && !is_scalar(#[trigger] group_value(b, i)) {
        None
    } else {
        Some(Seq::new(n, |i: int| char_of(group_value(b, i))))
    }
}

/// The outcome that a message body carries, if it is well formed.
pub open spec fn parse_outcome(p: Seq<u8>) -> Option<OutcomeModel> {
    if p.len() == 0 {
        None
    } else if p[0] == 0 {
        if p.len() < 10 || p[9] > 3 {
            None
        } else {
            let m = ImageModel {
                width: le32_value(p.subrange(1, 5)) as u32,
                height: le32_value(p.subrange(5, 9)) as u32,
                pixels: PixelsModel { tag: p[9], bytes: p.subrange(10, p.len() as int) },
            };
            if outcome_wf(OutcomeModel::Image(m)) {
                Some(OutcomeModel::Image(m))
            } else {
                None
            }
        }
    } else if p[0] == 1 {
        match parse_chars(p.subrange(1, p.len() as int)) {
            Some(cs) => Some(OutcomeModel::Error(cs)),
            None => None,
        }
    } else {
        None
    }
}

proof fn lemma_chars_round_trip(cs: Seq<char>)
    ensures
        parse_chars(chars_bytes(cs)) == Some(cs),
{
    let b = chars_bytes(cs);
    assert forall|i: int| 0 <= i < cs.len() implies #[trigger] group_value(b, i) == cs[i] as u32 by {
        let g = b.subrange(4 * i, 4 * i + 4);
        assert(g =~= le32(cs[i] as u32)) by {
            assert forall|k: int| 0 <= k < 4 implies g[k] == le32(cs[i] as u32)[k] by {
                assert((4 * i + k) / 4 == i);
                assert((4 * i + k) % 4 == k);
            }
        }
        lemma_le32_round_trip(cs[i] as u32);
    }
    assert forall|i: int| 0 <= i < cs.len() implies is_scalar(#[trigger] group_value(b, i)) by {
        lemma_char_is_scalar(cs[i]);
    }
    assert forall|i: int| 0 <= i < cs.len() implies char_of(#[trigger] group_value(b, i)) == cs[i] by {
        vstd::utf8::char_u32_cast(cs[i], group_value(b, i));
    }
    assert(Seq::new(b.len() / 4, |i: int| char_of(group_value(b, i))) =~= cs);
}

/// Reading back the body of a message reproduces, exactly, the outcome it
/// was written from: images keep width, height, layout and every pixel byte;
/// errors keep every character of their message.
pub proof fn lemma_outcome_round_trip(o: OutcomeModel)
    requires
        outcome_valid(o),
    ensures
        parse_outcome(outcome_payload(o)) == Some(o),
{
    let p = outcome_payload(o);
    match o {
        OutcomeModel::Image(m) => {
            lemma_le32_round_trip(m.width);
            lemma_le32_round_trip(m.height);
            assert(p.subrange(1, 5) =~= le32(m.width));
            assert(p.subrange(5, 9) =~= le32(m.height));
            assert(p.subrange(10, p.len() as int) =~= m.pixels.bytes);
        },
        OutcomeModel::Error(cs) => {
            assert(p.subrange(1, p.len() as int) =~= chars_bytes(cs));
            lemma_chars_round_trip(cs);
        },
    }
}

/// The bytes of `b` from `from` up to `to`.
pub fn copy_range(b: &[u8], from: usize, to: usize) -> (r: Vec<u8>)
    requires
        from <= to <= b@.len(),
    ensures
        r@ == b@.subrange(from as int, to as int),
{
    let mut out: Vec<u8> = Vec::with_capacity(to - from);
    let mut i: usize = from;
    while i < to
        invariant
            from <= i <= to <= b@.len(),
            out@ == b@.subrange(from as int, i as int),
        decreases to - i,
    {
        out.push(b[i]);
        assert(b@.subrange(from as int, i + 1) =~= b@.subrange(from as int, i as int).push(b@[i as int]));
        i = i + 1;
    }
    out
}

/// Reads the characters of a run of little-endian scalar values.
fn read_chars(b: &[u8], from: usize) -> (r: Option<String>)
    requires
        from <= b@.len(),
    ensures
        match r {
            Some(s) => parse_chars(b@.subrange(from as int, b@.len() as int)) == Some(s@),
            None => parse_chars(b@.subrange(from as int, b@.len() as int)) is None,
        },
{
    let ghost t = b@.subrange(from as int, b@.len() as int);
    let blen = b.len();
    let len = blen - from;
    if len % 4 != 0 {
        return None;
    }
    let n = len / 4;
    let mut cs: Vec<char> = Vec::with_capacity(n);
    let mut i: usize = 0;
    while i < n
        invariant
            n == t.len() / 4,
            t.len() % 4 == 0,
            t == b@.subrange(from as int, b@.len() as int),
            blen == b@.len(),
            from <= blen,
            i <= n,
            cs@.len() == i,
            forall|j: int| 0 <= j < i ==> is_scalar(#[trigger] group_value(t, j)),
            forall|j: int| 0 <= j < i ==> #[trigger] cs@[j] == char_of(group_value(t, j)),
        decreases n - i,
    {
        let u = read_le32(b, from + 4 * i);
        assert(b@.subrange(from + 4 * i, from + 4 * i + 4) =~= t.subrange(4 * i, 4 * i + 4));
        assert(u == group_value(t, i as int));
        match char_from(u) {
            Some(c) => {
                proof {
                    vstd::utf8::char_u32_cast(c, u);
                }
                cs.push(c);
            },
            None => {
                return None;
            },
        }
        i = i + 1;
    }
    let s = string_of(cs.as_slice());
    assert(s@ =~= Seq::new(n as nat, |j: int| char_of(group_value(t, j))));
    Some(s)
}

/// Reads the outcome that a message body carries; `None` where the body is
/// not the body of any well-formed outcome.
pub fn decode_outcome(p: &[u8]) -> (r: Option<DecodeResult>)
    ensures
        match r {
            Some(o) => parse_outcome(p@) == Some(o@),
            None => parse_outcome(p@) is None,
        },
{
    if p.len() == 0 {
        return None;
    }
    if p[0] == 0 {
        if p.len() < 10 || p[9] > 3 {
            return None;
        }
        let width = read_le32(p, 1);
        let height = read_le32(p, 5);
        let tag = p[9];
        let bpp: usize = if tag == 0 {
            1
        } else if tag == 1 {
            2
        } else if tag == 2 {
            3
        } else {
            4
        };
        let rest = p.len() - 10;
        let fits = match (width as usize).checked_mul(height as usize) {
            Some(n) => match n.checked_mul(bpp) {
                Some(total) => total == rest,
                None => false,
            },
            None => {
                assert(width as usize * height as usize * bpp > usize::MAX) by (nonlinear_arith)
                    requires
                        width as usize * height as usize > usize::MAX,
                        bpp >= 1,
                ;
                false
            },
        };
        if !fits {
            return None;
        }
        let bytes = copy_range(p, 10, p.len());
        let pixels = if tag == 0 {
            PixelsByColorType::K8(bytes)
        } else if tag == 1 {
            PixelsByColorType::KA8(bytes)
        } else if tag == 2 {
            PixelsByColorType::RGB8(bytes)
        } else {
            PixelsByColorType::RGBA8(bytes)
        };
        Some(DecodeResult::Image(Image { width, height, pixels }))
    } else if p[0] == 1 {
        match read_chars(p, 1) {
            Some(m) => Some(DecodeResult::Error(m)),
            None => None,
        }
    } else {
        None
    }
}

/// The body at the head of a stream and the length of the message holding
/// it, if the stream holds a whole message.
pub open spec fn unframe(s: Seq<u8>) -> Option<(Seq<u8>, nat)> {
    if s.len() < 4 {
        None
    } else {
        let end = 4 + le32_value(s.subrange(0, 4));
        if end > s.len() {
            None
        } else {
            Some((s.subrange(4, end as int), end))
        }
    }
}

/// A message, read from the head of any stream, gives back its body and
/// ends exactly where the message does, whatever follows it.
pub proof fn lemma_frame_round_trip(payload: Seq<u8>, rest: Seq<u8>)
    requires
        payload.len() <= u32::MAX,
    ensures
        unframe(framed(payload) + rest) == Some((payload, framed(payload).len())),
{
    let s = framed(payload) + rest;
    lemma_le32_round_trip(payload.len() as u32);
    assert(s.subrange(0, 4) =~= le32(payload.len() as u32));
    assert(s.subrange(4, 4 + payload.len() as int) =~= payload);
}

/// The message that carries `payload`; `None` where the body is too long for
/// its length to fit in four bytes.
pub fn frame(payload: &[u8]) -> (r: Option<Vec<u8>>)
    ensures
        r is Some <==> payload@.len() <= u32::MAX,
        r matches Some(v) ==> v@ == framed(payload@),
{
    let n = payload.len();
    if n > 0xFFFF_FFFF {
        return None;
    }
    let mut out: Vec<u8> = Vec::new();
    push_le32(&mut out, n as u32);
    let ghost head = out@;
    let mut i: usize = 0;
    while i < n
        invariant
            n == payload@.len(),
            i <= n,
            out@ == head + payload@.subrange(0, i as int),
        decreases n - i,
    {
        out.push(payload[i]);
        assert(payload@.subrange(0, i + 1) =~= payload@.subrange(0, i as int).push(payload@[i as int]));
        i = i + 1;
    }
    assert(payload@.subrange(0, n as int) =~= payload@);
    Some(out)
}

/// The body length that a four-byte message header announces.
pub fn body_length(header: &[u8]) -> (r: Option<u32>)
    ensures
        r is Some <==> header@.len() == 4,
        r matches Some(n) ==> n as nat == le32_value(header@),
{
    if header.len() != 4 {
        return None;
    }
    let n = read_le32(header, 0);
    assert(header@.subrange(0, 4) =~= header@);
    Some(n)
}

/// Splits the message at the head of `stream` into its body and its length.
pub fn split_frame(stream: &[u8]) -> (r: Option<(Vec<u8>, usize)>)
    ensures
        match r {
            Some((body, end)) => unframe(stream@) == Some((body@, end as nat)),
            None => unframe(stream@) is None,
        },
{
    let len = stream.len();
    if len < 4 {
        return None;
    }
    let n = read_le32(stream, 0);
    if n as usize > len - 4 {
        return None;
    }
    let end = 4 + n as usize;
    Some((copy_range(stream, 4, end), end))
}

} // verus!

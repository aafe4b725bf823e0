//! MS-OVBA 2.4.1 "Compressed Container" decompression, shared by every container format.
use crate::models::error::{AppError, AppResult};
use vstd::prelude::*;
use vstd::string::StringExecFns;

verus! {

/// Size of one decompressed chunk.
pub const CHUNK_DECOMPRESSED_SIZE: usize = 4096;

/// Message of the error for a stream that does not start with the signature byte.
pub const BAD_SIGNATURE_MESSAGE: &'static str = "VBA圧縮ストリームのシグネチャバイトが不正です";

/// Message of the error for a copy token that points before the start of the output.
pub const BAD_COPY_TOKEN_MESSAGE: &'static str = "VBA圧縮ストリームのコピートークンが不正な参照位置を指しています";

/// Little-endian 16-bit value of two bytes.
pub open spec fn le16(lo: u8, hi: u8) -> u16 {
    (lo as int + 256 * (hi as int)) as u16
}

pub open spec fn min_int(a: int, b: int) -> int {
    if a <= b { a } else { b }
}

/// The bit count of a copy token (MS-OVBA CopyTokenHelp): ceil(log2(difference)),
/// held between 4 and 12.
pub open spec fn bit_count_spec(difference: nat) -> u32 {
    if difference <= 16 {
        4
    } else if difference <= 32 {
        5
    } else if difference <= 64 {
        6
    } else if difference <= 128 {
        7
    } else if difference <= 256 {
        8
    } else if difference <= 512 {
        9
    } else if difference <= 1024 {
        10
    } else if difference <= 2048 {
        11
    } else {
        12
    }
}

/// Copy length encoded by a token, for a given bit count.
pub open spec fn token_length(token: u16, bit_count: u32) -> nat {
    ((token & (0xFFFFu16 >> bit_count)) as nat) + 3
}

/// Copy offset encoded by a token, for a given bit count.
pub open spec fn token_offset(token: u16, bit_count: u32) -> nat {
    (((token & !(0xFFFFu16 >> bit_count)) >> ((16 - bit_count) as u32)) as nat) + 1
}

/// `out` followed by `n` bytes each copied from `offset` bytes before it (overlapping copy).
pub open spec fn copy_back(out: Seq<u8>, offset: nat, n: nat) -> Seq<u8>
    decreases n,
{
    if n == 0 {
        out
    } else {
        let prev = copy_back(out, offset, (n - 1) as nat);
        prev.push(prev[prev.len() - offset])
    }
}

/// Token sequence of one compressed chunk. `pos` is the read position, `end` the end of
/// the chunk, `start` the output length when the chunk began, `flag`/`bit` the current
/// flag byte and the next bit of it to use (`bit == 8` means a new flag byte is due).
pub open spec fn tokens(c: Seq<u8>, end: int, start: nat, pos: int, out: Seq<u8>, flag: u8, bit: nat) -> Option<Seq<u8>>
    decreases end - pos, 8 - bit,
{
    if pos < 0 || end > c.len() {
        None
    } else if bit >= 8 || pos >= end {
        if pos < end {
            tokens(c, end, start, pos + 1, out, c[pos], 0)
        } else {
            Some(out)
        }
    } else if (flag >> (bit as u8)) & 1 == 0 {
        tokens(c, end, start, pos + 1, out.push(c[pos]), flag, bit + 1)
    } else if pos + 2 > end {
        tokens(c, end, start, pos, out, flag, 8)
    } else {
        let token = le16(c[pos], c[pos + 1]);
        let difference: nat = if out.len() > start { (out.len() - start) as nat } else { 1 };
        let bc = bit_count_spec(difference);
        let length = token_length(token, bc);
        let offset = token_offset(token, bc);
        if offset > out.len() {
            None
        } else {
            tokens(c, end, start, pos + 2, copy_back(out, offset, length), flag, bit + 1)
        }
    }
}

/// Chunk sequence starting at `pos`, with `out` decoded so far.
pub open spec fn chunks(c: Seq<u8>, pos: int, out: Seq<u8>) -> Option<Seq<u8>>
    decreases c.len() - pos,
{
    if pos < 1 || pos + 2 > c.len() {
        Some(out)
    } else {
        let header = le16(c[pos], c[pos + 1]);
        let chunk_size = (header % 4096) as int + 3;
        let chunk_end = min_int(pos + chunk_size, c.len() as int);
        if header < 0x8000 {
            let data_end = min_int(pos + 2 + CHUNK_DECOMPRESSED_SIZE, c.len() as int);
            chunks(c, chunk_end, out + c.subrange(pos + 2, data_end))
        } else {
            match tokens(c, chunk_end, out.len(), pos + 2, out, 0, 8) {
                Some(next) => chunks(c, chunk_end, next),
                None => None,
            }
        }
    }
}

/// The decompressed bytes of a compressed container, or `None` when it is malformed.
pub open spec fn spec_decompress(c: Seq<u8>) -> Option<Seq<u8>> {
    if c.len() == 0 || c[0] != 1 {
        None
    } else {
        chunks(c, 1, Seq::empty())
    }
}

proof fn lemma_copy_back_len(out: Seq<u8>, offset: nat, n: nat)
    ensures
        copy_back(out, offset, n).len() == out.len() + n,
        forall|k: int| 0 <= k < out.len() ==> #[trigger] copy_back(out, offset, n)[k] == out[k],
    decreases n,
{
    if n > 0 {
        lemma_copy_back_len(out, offset, (n - 1) as nat);
    }
}

/// Bit count of a copy token for the given output difference (MS-OVBA CopyTokenHelp).
pub fn bit_count_for(difference: u32) -> (n: u32)
    ensures
        n == bit_count_spec(difference as nat),
        4 <= n <= 12,
{
    let d = if difference == 0 { 1 } else { difference };
    let mut n: u32 = 0;
    let mut p: u64 = 1;
    proof {
        vstd::arithmetic::power2::lemma2_to64();
    }
    // smallest n with 2^n >= d, stopping once the upper clamp is reached
    while p < d as u64 && n < 12
        invariant
            n <= 12,
            p == vstd::arithmetic::power2::pow2(n as nat),
            d >= 1,
            forall|k: nat| k < n ==> vstd::arithmetic::power2::pow2(k) < d,
        decreases 12 - n,
    {
        proof {
            vstd::arithmetic::power2::lemma2_to64();
            vstd::arithmetic::power2::lemma_pow2_adds(n as nat, 1);
        }
        p = p * 2;
        n = n + 1;
    }
    proof {
        vstd::arithmetic::power2::lemma2_to64();
    }
    if n < 4 {
        4
    } else {
        n
    }
}

/// Decodes a compressed container: the signature byte 0x01 followed by chunks.
/// Fails when the signature is missing or a copy token points before the output start.
pub fn decompress(compressed: &[u8]) -> (res: AppResult<Vec<u8>>)
    ensures
        match res {
            Ok(out) => spec_decompress(compressed@) == Some(out@),
            Err(e) => {
                &&& spec_decompress(compressed@) is None
                &&& e is Static
                &&& e.is_recoverable()
                &&& e.message_view() == if compressed@.len() == 0 || compressed@[0] != 1 {
                    BAD_SIGNATURE_MESSAGE@
                } else {
                    BAD_COPY_TOKEN_MESSAGE@
                }
            },
        },
{
    let c = compressed;
    if c.len() == 0 || c[0] != 1 {
        return Err(AppError::static_analysis(String::from_str(BAD_SIGNATURE_MESSAGE)));
    }
    let ghost total = spec_decompress(c@);
    let mut out: Vec<u8> = Vec::new();
    let mut pos: usize = 1;
    while pos < c.len()
        invariant
            1 <= pos,
            c@.len() > 0 && c@[0] == 1,
            c@ == compressed@,
            total == spec_decompress(c@),
            total == chunks(c@, pos as int, out@),
        ensures
            pos + 2 > c.len(),
        decreases c.len() - pos,
    {
        if c.len() - pos < 2 {
            break;
        }
        let header: u16 = (c[pos] as u16) + (c[pos + 1] as u16) * 256;
        let chunk_size: usize = (header % 4096) as usize + 3;
        let chunk_end: usize = if c.len() - pos < chunk_size { c.len() } else { pos + chunk_size };
        let is_compressed = header >= 0x8000;
        let ghost chunk_pos = pos as int;
        let ghost out0 = out@;
        assert(header == le16(c@[chunk_pos], c@[chunk_pos + 1]));
        pos = pos + 2;
        if !is_compressed {
            let end: usize = if c.len() - pos < CHUNK_DECOMPRESSED_SIZE { c.len() } else { pos + CHUNK_DECOMPRESSED_SIZE };
            let mut k: usize = pos;
            while k < end
                invariant
                    pos <= k <= end <= c.len(),
                    out@ == out0 + c@.subrange(pos as int, k as int),
                decreases end - k,
            {
                out.push(c[k]);
                assert(c@.subrange(pos as int, k + 1) =~= c@.subrange(pos as int, k as int).push(c@[k as int]));
                k = k + 1;
            }
        } else {
            let chunk_start_in_out = out.len();
            let ghost chunk_result = tokens(c@, chunk_end as int, chunk_start_in_out as nat, pos as int, out@, 0, 8);
            assert(total == match chunk_result {
                Some(n) => chunks(c@, chunk_end as int, n),
                None => None,
            });
            while pos < chunk_end
                invariant
                    pos <= chunk_end <= c.len(),
                    chunk_start_in_out <= out.len(),
                    chunk_result == tokens(c@, chunk_end as int, chunk_start_in_out as nat, pos as int, out@, 0, 8),
                    c@.len() > 0 && c@[0] == 1,
            c@ == compressed@,
                    total == spec_decompress(c@),
                    total == match chunk_result {
                        Some(n) => chunks(c@, chunk_end as int, n),
                        None => None,
                    },
                decreases chunk_end - pos,
            {
                let flag_byte = c[pos];
                pos = pos + 1;
                let ghost pos_after_flag = pos;
                let mut bit: u8 = 0;
                while bit < 8
                    invariant
                        pos <= chunk_end <= c.len(),
                        pos_after_flag <= pos,
                        bit <= 8,
                        chunk_start_in_out <= out.len(),
                        chunk_result == tokens(c@, chunk_end as int, chunk_start_in_out as nat, pos as int, out@, flag_byte, bit as nat),
                        c@.len() > 0 && c@[0] == 1,
            c@ == compressed@,
                    total == spec_decompress(c@),
                    total == match chunk_result {
                            Some(n) => chunks(c@, chunk_end as int, n),
                            None => None,
                        },
                    ensures
                        bit == 8,
                    decreases 8 - bit,
                {
                    if pos >= chunk_end {
                        assert(tokens(c@, chunk_end as int, chunk_start_in_out as nat, pos as int, out@, flag_byte, bit as nat)
                            == tokens(c@, chunk_end as int, chunk_start_in_out as nat, pos as int, out@, flag_byte, 8));
                        bit = 8;
                        break;
                    }
                    let is_copy_token = (flag_byte >> bit) & 1 == 1;
                    if !is_copy_token {
                        assert((flag_byte >> bit) & 1 == 0) by (bit_vector)
                            requires !((flag_byte >> bit) & 1 == 1);
                        let ghost pre = tokens(c@, chunk_end as int, chunk_start_in_out as nat, pos as int, out@, flag_byte, bit as nat);
                        out.push(c[pos]);
                        pos = pos + 1;
                        assert(pre == tokens(c@, chunk_end as int, chunk_start_in_out as nat, pos as int, out@, flag_byte, bit as nat + 1));
                    } else {
                        if chunk_end - pos < 2 {
                            assert(tokens(c@, chunk_end as int, chunk_start_in_out as nat, pos as int, out@, flag_byte, bit as nat)
                                == tokens(c@, chunk_end as int, chunk_start_in_out as nat, pos as int, out@, flag_byte, 8));
                            bit = 8;
                            break;
                        }
                        let token: u16 = (c[pos] as u16) + (c[pos + 1] as u16) * 256;
                        let ghost spec_token = le16(c@[pos as int], c@[pos + 1]);
                        assert(token == spec_token);
                        let ghost pos0 = pos as int;
                        pos = pos + 2;
                        let diff: usize = out.len() - chunk_start_in_out;
                        let difference: u32 = if diff == 0 { 1 } else if diff > 4096 { 4096 } else { diff as u32 };
                        let ghost spec_difference: nat = if out@.len() > chunk_start_in_out { (out@.len() - chunk_start_in_out) as nat } else { 1 };
                        let bit_count = bit_count_for(difference);
                        assert(bit_count == bit_count_spec(spec_difference));
                        let length_mask: u16 = 0xFFFF >> bit_count;
                        let offset_mask: u16 = !length_mask;
                        let length: usize = (token & length_mask) as usize + 3;
                        let offset: usize = ((token & offset_mask) >> (16 - bit_count)) as usize + 1;
                        assert(length == token_length(spec_token, bit_count));
                        assert(offset == token_offset(spec_token, bit_count));
                        if offset > out.len() {
                            return Err(AppError::static_analysis(String::from_str(BAD_COPY_TOKEN_MESSAGE)));
                        }
                        let copy_source = out.len() - offset;
                        let ghost before = out@;
                        let mut i: usize = 0;
                        while i < length
                            invariant
                                offset >= 1,
                                offset <= before.len(),
                                copy_source == before.len() - offset,
                                out@ == copy_back(before, offset as nat, i as nat),
                                out@.len() == before.len() + i,
                                i <= length,
                            decreases length - i,
                        {
                            proof {
                                lemma_copy_back_len(before, offset as nat, i as nat);
                            }
                            assert(copy_source + i < out.len());
                            let byte = out[copy_source + i];
                            out.push(byte);
                            i = i + 1;
                        }
                        assert(out@ == copy_back(before, token_offset(spec_token, bit_count), token_length(spec_token, bit_count)));
                    }
                    bit = bit + 1;
                }
                assert(tokens(c@, chunk_end as int, chunk_start_in_out as nat, pos as int, out@, flag_byte, 8)
                    == tokens(c@, chunk_end as int, chunk_start_in_out as nat, pos as int, out@, 0, 8));
            }
        }
        pos = chunk_end;
    }
    Ok(out)
}

/// A container holding one stored (uncompressed) chunk of 4096 bytes decompresses to
/// exactly those bytes.
pub proof fn lemma_stored_chunk(payload: Seq<u8>)
    requires
        payload.len() == CHUNK_DECOMPRESSED_SIZE,
    ensures
        spec_decompress(seq![1u8, 0xFFu8, 0x0Fu8] + payload) == Some(payload),
{
    let c = seq![1u8, 0xFFu8, 0x0Fu8] + payload;
    assert(c[0] == 1 && c[1] == 0xFF && c[2] == 0x0F);
    assert(le16(0xFF, 0x0F) == 0x0FFF);
    assert(c.subrange(3, c.len() as int) =~= payload);
    assert(chunks(c, 1, Seq::empty()) == chunks(c, c.len() as int, Seq::empty() + c.subrange(3, c.len() as int)));
    assert(Seq::<u8>::empty() + payload =~= payload);
}

proof fn lemma_copy_back_prefix(p: Seq<u8>, out: Seq<u8>, offset: nat, n: nat)
    requires
        1 <= offset <= out.len(),
    ensures
        copy_back(p + out, offset, n) == p + copy_back(out, offset, n),
    decreases n,
{
    if n > 0 {
        lemma_copy_back_prefix(p, out, offset, (n - 1) as nat);
        lemma_copy_back_len(out, offset, (n - 1) as nat);
        let prev = copy_back(out, offset, (n - 1) as nat);
        let prev_w = p + prev;
        assert(prev_w[prev_w.len() - offset] == prev[prev.len() - offset]);
        assert(prev_w.push(prev_w[prev_w.len() - offset]) =~= p + prev.push(prev[prev.len() - offset]));
    }
}

/// The tokens of a compressed chunk decode the same when the container holds more bytes
/// before them (`w` is `s` with `d` bytes inserted after its signature byte) and the
/// output holds more bytes before them (`p`): the bit counts depend only on the output of
/// the chunk itself.
proof fn lemma_tokens_shift(
    s: Seq<u8>,
    w: Seq<u8>,
    d: int,
    p: Seq<u8>,
    end: int,
    start: nat,
    pos: int,
    out: Seq<u8>,
    flag: u8,
    bit: nat,
    q: Seq<u8>,
)
    requires
        d >= 0,
        w.len() == s.len() + d,
        forall|i: int| 1 <= i < s.len() ==> #[trigger] s[i] == w[i + d],
        pos >= 1,
        tokens(s, end, start, pos, out, flag, bit) == Some(q),
    ensures
        tokens(w, end + d, start + p.len(), pos + d, p + out, flag, bit) == Some(p + q),
    decreases end - pos, 8 - bit,
{
    if pos < 0 || end > s.len() {
    } else if bit >= 8 || pos >= end {
        if pos < end {
            assert(s[pos] == w[pos + d]);
            lemma_tokens_shift(s, w, d, p, end, start, pos + 1, out, s[pos], 0, q);
        }
    } else if (flag >> (bit as u8)) & 1 == 0 {
        assert(s[pos] == w[pos + d]);
        assert((p + out).push(w[pos + d]) =~= p + out.push(s[pos]));
        lemma_tokens_shift(s, w, d, p, end, start, pos + 1, out.push(s[pos]), flag, bit + 1, q);
    } else if pos + 2 > end {
        lemma_tokens_shift(s, w, d, p, end, start, pos, out, flag, 8, q);
    } else {
        assert(s[pos] == w[pos + d]);
        assert(s[pos + 1] == w[pos + 1 + d]);
        let token = le16(s[pos], s[pos + 1]);
        let difference: nat = if out.len() > start { (out.len() - start) as nat } else { 1 };
        let wdiff: nat = if (p + out).len() > start + p.len() { ((p + out).len() - (start + p.len())) as nat } else { 1 };
        assert(difference == wdiff);
        let bc = bit_count_spec(difference);
        let length = token_length(token, bc);
        let offset = token_offset(token, bc);
        if offset <= out.len() {
            lemma_copy_back_prefix(p, out, offset, length);
            lemma_tokens_shift(s, w, d, p, end, start, pos + 2, copy_back(out, offset, length), flag, bit + 1, q);
        }
    }
}

proof fn lemma_chunks_shift(s: Seq<u8>, w: Seq<u8>, d: int, p: Seq<u8>, pos: int, out: Seq<u8>, q: Seq<u8>)
    requires
        d >= 0,
        w.len() == s.len() + d,
        forall|i: int| 1 <= i < s.len() ==> #[trigger] s[i] == w[i + d],
        pos >= 1,
        chunks(s, pos, out) == Some(q),
    ensures
        chunks(w, pos + d, p + out) == Some(p + q),
    decreases s.len() - pos,
{
    if pos + 2 > s.len() {
    } else {
        assert(s[pos] == w[pos + d]);
        assert(s[pos + 1] == w[pos + 1 + d]);
        let header = le16(s[pos], s[pos + 1]);
        let chunk_size = (header % 4096) as int + 3;
        let chunk_end = min_int(pos + chunk_size, s.len() as int);
        assert(min_int(pos + d + chunk_size, w.len() as int) == chunk_end + d);
        if header < 0x8000 {
            let data_end = min_int(pos + 2 + CHUNK_DECOMPRESSED_SIZE, s.len() as int);
            assert(min_int(pos + d + 2 + CHUNK_DECOMPRESSED_SIZE, w.len() as int) == data_end + d);
            assert(w.subrange(pos + d + 2, data_end + d) =~= s.subrange(pos + 2, data_end));
            assert((p + out) + w.subrange(pos + d + 2, data_end + d) =~= p + (out + s.subrange(pos + 2, data_end)));
            lemma_chunks_shift(s, w, d, p, chunk_end, out + s.subrange(pos + 2, data_end), q);
        } else {
            let next = tokens(s, chunk_end, out.len(), pos + 2, out, 0, 8).unwrap();
            lemma_tokens_shift(s, w, d, p, chunk_end, out.len(), pos + 2, out, 0, 8, next);
            assert(out.len() + p.len() == (p + out).len());
            lemma_chunks_shift(s, w, d, p, chunk_end, next, q);
        }
    }
}

/// Chunks decode independently: a stored chunk of 4096 bytes followed by further chunks
/// decompresses to the stored bytes followed by what those further chunks decompress to
/// on their own (the copy tokens of a later chunk take their bit counts from the output
/// of that chunk alone).
pub proof fn lemma_stored_chunk_then(payload: Seq<u8>, rest: Seq<u8>, tail: Seq<u8>)
    requires
        payload.len() == CHUNK_DECOMPRESSED_SIZE,
        spec_decompress(seq![1u8] + rest) == Some(tail),
    ensures
        spec_decompress(seq![1u8, 0xFFu8, 0x0Fu8] + payload + rest) == Some(payload + tail),
{
    let s = seq![1u8] + rest;
    let w = seq![1u8, 0xFFu8, 0x0Fu8] + payload + rest;
    let d: int = 4098;
    assert(w.len() == s.len() + d);
    assert forall|i: int| 1 <= i < s.len() implies #[trigger] s[i] == w[i + d] by {
        assert(s[i] == rest[i - 1]);
        assert(w[i + d] == rest[i + d - 4099]);
    }
    assert(w[0] == 1 && w[1] == 0xFF && w[2] == 0x0F);
    assert(le16(0xFF, 0x0F) == 0x0FFF);
    assert(w.subrange(3, 4099) =~= payload);
    assert(chunks(w, 1, Seq::empty()) == chunks(w, 4099, Seq::empty() + w.subrange(3, 4099)));
    assert(Seq::<u8>::empty() + payload =~= payload);
    assert(payload + Seq::<u8>::empty() =~= payload);
    lemma_chunks_shift(s, w, d, payload, 1, Seq::empty(), tail);
}

} // verus!

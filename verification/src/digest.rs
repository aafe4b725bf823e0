//! SHA-256 digests as lowercase hexadecimal text: file hashes, cache keys, project hashes.
use vstd::prelude::*;
use vstd::utf8::encode_utf8;

verus! {

/// The SHA-256 digest of a byte sequence.
pub uninterp spec fn sha256_digest(data: Seq<u8>) -> Seq<u8>;

/// `<sha2::Sha256 as sha2::Digest>::digest`: the 32-byte SHA-256 digest of the data.
#[verifier::external_body]
fn sha256(data: &[u8]) -> (d: Vec<u8>)
    ensures
        d@ == sha256_digest(data@),
        d@.len() == 32,
{
    <sha2::Sha256 as sha2::Digest>::digest(data).to_vec()
}

/// Lowercase hexadecimal digit.
pub open spec fn hex_digit(n: u8) -> char {
    if n < 10 { (48 + n) as u8 as char } else { (87 + n) as u8 as char }
}

/// Two lowercase hexadecimal digits per byte.
pub open spec fn hex(bytes: Seq<u8>) -> Seq<char>
    decreases bytes.len(),
{
    if bytes.len() == 0 {
        Seq::empty()
    } else {
        hex(bytes.drop_last()) + seq![hex_digit(bytes.last() / 16), hex_digit(bytes.last() % 16)]
    }
}

fn hex_digit_exec(n: u8) -> (c: char)
    requires
        n < 16,
    ensures
        c == hex_digit(n),
{
    if n < 10 { (48 + n) as char } else { (87 + n) as char }
}

pub fn hex_exec(bytes: &[u8]) -> (s: String)
    ensures
        s@ == hex(bytes@),
{
    let mut s = String::new();
    let mut i: usize = 0;
    while i < bytes.len()
        invariant
            i <= bytes.len(),
            s@ == hex(bytes@.take(i as int)),
        decreases bytes.len() - i,
    {
        let b = bytes[i];
        assert(bytes@.take(i + 1).drop_last() =~= bytes@.take(i as int));
        crate::text::push_char(&mut s, hex_digit_exec(b / 16));
        crate::text::push_char(&mut s, hex_digit_exec(b % 16));
        i = i + 1;
    }
    assert(bytes@.take(bytes.len() as int) =~= bytes@);
    s
}

/// The SHA-256 digest of the bytes as hexadecimal text.
pub open spec fn sha256_hex_text(bytes: Seq<u8>) -> Seq<char> {
    hex(sha256_digest(bytes))
}

pub fn sha256_hex(bytes: &[u8]) -> (s: String)
    ensures
        s@ == sha256_hex_text(bytes@),
        s@.len() == 64,
{
    let d = sha256(bytes);
    proof {
        lemma_hex_len(d@);
    }
    hex_exec(d.as_slice())
}

proof fn lemma_hex_len(bytes: Seq<u8>)
    ensures
        hex(bytes).len() == 2 * bytes.len(),
    decreases bytes.len(),
{
    if bytes.len() > 0 {
        lemma_hex_len(bytes.drop_last());
    }
}

/// UTF-8 encoding distributes over concatenation.
pub proof fn lemma_encode_concat(a: Seq<char>, b: Seq<char>)
    ensures
        encode_utf8(a + b) == encode_utf8(a) + encode_utf8(b),
    decreases a.len(),
{
    if a.len() == 0 {
        assert(a + b =~= b);
    } else {
        assert((a + b).drop_first() =~= a.drop_first() + b);
        lemma_encode_concat(a.drop_first(), b);
    }
}

/// Appends the UTF-8 bytes of a text.
pub fn push_utf8(out: &mut Vec<u8>, s: &str)
    ensures
        final(out)@ == old(out)@ + encode_utf8(s@),
{
    let b = s.as_bytes();
    let mut i: usize = 0;
    let ghost start = out@;
    while i < b.len()
        invariant
            b@ == encode_utf8(s@),
            i <= b.len(),
            out@ == start + b@.take(i as int),
        decreases b.len() - i,
    {
        out.push(b[i]);
        assert(out@ =~= start + b@.take(i + 1));
        i = i + 1;
    }
    assert(b@.take(b.len() as int) =~= b@);
}

/// The key of a cached AI result: the digest of "hash:model:prompt version".
pub open spec fn cache_key_text(hash: Seq<char>, model_name: Seq<char>, prompt_version: Seq<char>) -> Seq<char> {
    sha256_hex_text(encode_utf8(hash + ":"@ + model_name + ":"@ + prompt_version))
}

pub fn cache_key(hash: &str, model_name: &str, prompt_version: &str) -> (key: String)
    ensures
        key@ == cache_key_text(hash@, model_name@, prompt_version@),
        key@.len() == 64,
{
    let mut bytes: Vec<u8> = Vec::new();
    push_utf8(&mut bytes, hash);
    push_utf8(&mut bytes, ":");
    push_utf8(&mut bytes, model_name);
    push_utf8(&mut bytes, ":");
    push_utf8(&mut bytes, prompt_version);
    proof {
        lemma_encode_concat(hash@, ":"@);
        lemma_encode_concat(hash@ + ":"@, model_name@);
        lemma_encode_concat(hash@ + ":"@ + model_name@, ":"@);
        lemma_encode_concat(hash@ + ":"@ + model_name@ + ":"@, prompt_version@);
        assert(bytes@ =~= encode_utf8(hash@ + ":"@ + model_name@ + ":"@ + prompt_version@));
    }
    sha256_hex(bytes.as_slice())
}

} // verus!

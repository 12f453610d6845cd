//! The digest that goes with the body of a request.

use vstd::prelude::*;

verus! {

/// The MD5 digest of `data`, as `md5::Md5` computes it.
pub uninterp spec fn md5_digest(data: Seq<u8>) -> Seq<u8>;

/// The 64 symbols of the standard base64 alphabet.
pub open spec fn base64_alphabet() -> Seq<char> {
    "ABCDEFGHIJKLMNOPQRSTUVWXYZabcdefghijklmnopqrstuvwxyz0123456789+/"@
}

/// The byte at a place, with zeros behind the last one.
pub open spec fn byte_at(bytes: Seq<u8>, i: int) -> int {
    if 0 <= i < bytes.len() {
        bytes[i] as int
    } else {
        0
    }
}

/// The six bits that the symbol at a place stands for: four symbols share three
/// bytes, the first symbol having the highest bits.
pub open spec fn sextet(bytes: Seq<u8>, i: int) -> int {
    let first = i / 4 * 3;
    let word = byte_at(bytes, first) * 0x10000 + byte_at(bytes, first + 1) * 0x100 + byte_at(
        bytes,
        first + 2,
    );
    if i % 4 == 0 {
        word / 0x40000
    } else if i % 4 == 1 {
        word / 0x1000 % 64
    } else if i % 4 == 2 {
        word / 0x40 % 64
    } else {
        word % 64
    }
}

/// Standard base64: one symbol for every six bits, and `=` up to a multiple of
/// four symbols.
pub open spec fn base64_standard(bytes: Seq<u8>) -> Seq<char> {
    Seq::new(
        (4 * ((bytes.len() + 2) / 3)) as nat,
        |i: int|
            if 3 * i >= 4 * bytes.len() {
                '='
            } else {
                base64_alphabet()[sextet(bytes, i)]
            },
    )
}

/// `<md5::Md5 as md5::Digest>::digest`: a digest of sixteen bytes that depends on
/// the data alone.
#[verifier::external_body]
fn md5(data: &[u8]) -> (digest: Vec<u8>)
    ensures
        digest@ == md5_digest(data@),
        digest@.len() == 16,
{
    <md5::Md5 as md5::Digest>::digest(data).to_vec()
}

/// `base64::Engine::encode` of the engine `STANDARD`: standard base64 with
/// padding. It needs room for four symbols per three bytes, which there is in
/// every address space for data of the size that is required.
#[verifier::external_body]
fn encode_base64(bytes: &[u8]) -> (encoded: String)
    requires
        bytes@.len() <= 0x4000_0000,
    ensures
        encoded@ == base64_standard(bytes@),
{
    base64::Engine::encode(&base64::engine::general_purpose::STANDARD, bytes)
}

/// The value of the `Content-MD5` header for a body.
pub fn content_md5_base64(body: &[u8]) -> (value: String)
    ensures
        value@ == base64_standard(md5_digest(body@)),
        value@.len() == 24,
        value@[22] == '=',
        value@[23] == '=',
        forall|i: int| 0 <= i < 22 ==> base64_alphabet().contains(#[trigger] value@[i]),
{
    let digest: Vec<u8> = md5(body);
    let value: String = encode_base64(digest.as_slice());
    proof {
        reveal_strlit("ABCDEFGHIJKLMNOPQRSTUVWXYZabcdefghijklmnopqrstuvwxyz0123456789+/");
        assert forall|i: int| 0 <= i < 22 implies base64_alphabet().contains(
            #[trigger] value@[i],
        ) by {
            lemma_sextet(digest@, i);
            assert(base64_alphabet()[sextet(digest@, i)] == value@[i]);
        }
    }
    value
}

proof fn lemma_sextet(bytes: Seq<u8>, i: int)
    requires
        0 <= i,
    ensures
        0 <= sextet(bytes, i) < 64,
{
    let first = i / 4 * 3;
    assert(0 <= byte_at(bytes, first) < 256);
    assert(0 <= byte_at(bytes, first + 1) < 256);
    assert(0 <= byte_at(bytes, first + 2) < 256);
}

} // verus!

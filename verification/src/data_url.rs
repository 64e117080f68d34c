//! Data URLs that carry the bytes of a picture.

use crate::text::join;
use base64::engine::general_purpose;
use base64::Engine;
use vstd::prelude::*;

verus! {

/// How many characters the padded base64 text of `n` bytes takes: four for each
/// group of three bytes that is begun.
pub open spec fn base64_len(n: nat) -> nat {
    (n + 2) / 3 * 4
}

/// Whether the base64 text of `n` bytes fits into memory at all.
pub open spec fn encodable(n: nat) -> bool {
    base64_len(n) <= isize::MAX
}

/// Whether `c` occurs in padded base64 text over the standard alphabet.
pub open spec fn base64_character(c: char) -> bool {
    'A' <= c <= 'Z' || 'a' <= c <= 'z' || '0' <= c <= '9' || c == '+' || c == '/' || c == '='
}

/// The character of the standard alphabet for a value below 64.
pub open spec fn base64_sign(value: int) -> char {
    if value < 26 {
        ('A' as int + value) as char
    } else if value < 52 {
        ('a' as int + value - 26) as char
    } else if value < 62 {
        ('0' as int + value - 52) as char
    } else if value == 62 {
        '+'
    } else {
        '/'
    }
}

/// The padded base64 text of `bytes` over the standard alphabet: each group of three bytes
/// makes four values of six bits, and a group that is not full ends in padding signs.
pub open spec fn base64_standard(bytes: Seq<u8>) -> Seq<char>
    decreases bytes.len(),
{
    let (a, b, c) = (bytes[0] as int, bytes[1] as int, bytes[2] as int);
    if bytes.len() == 0 {
        Seq::empty()
    } else if bytes.len() == 1 {
        seq![base64_sign(a / 4), base64_sign(a % 4 * 16), '=', '=']
    } else if bytes.len() == 2 {
        seq![base64_sign(a / 4), base64_sign(a % 4 * 16 + b / 16), base64_sign(b % 16 * 4), '=']
    } else {
        seq![
            base64_sign(a / 4),
            base64_sign(a % 4 * 16 + b / 16),
            base64_sign(b % 16 * 4 + c / 64),
            base64_sign(c % 64),
        ] + base64_standard(bytes.skip(3))
    }
}

/// The value that a character of the standard alphabet stands for.
pub open spec fn base64_value(sign: char) -> int {
    if 'A' <= sign <= 'Z' {
        sign as int - 'A' as int
    } else if 'a' <= sign <= 'z' {
        sign as int - 'a' as int + 26
    } else if '0' <= sign <= '9' {
        sign as int - '0' as int + 52
    } else if sign == '+' {
        62
    } else {
        63
    }
}

/// The bytes that a padded base64 text stands for.
pub open spec fn base64_bytes(text: Seq<char>) -> Seq<u8>
    decreases text.len(),
{
    if text.len() < 4 {
        Seq::empty()
    } else {
        let (p, q) = (base64_value(text[0]), base64_value(text[1]));
        let (r, s) = (base64_value(text[2]), base64_value(text[3]));
        let first = (p * 4 + q / 16) as u8;
        let second = (q % 16 * 16 + r / 4) as u8;
        let third = (r % 4 * 64 + s) as u8;
        if text[2] == '=' {
            seq![first]
        } else if text[3] == '=' {
            seq![first, second]
        } else {
            seq![first, second, third] + base64_bytes(text.skip(4))
        }
    }
}

proof fn lemma_base64_sign(value: int)
    requires
        0 <= value < 64,
    ensures
        base64_value(base64_sign(value)) == value,
        base64_sign(value) != '=',
        base64_character(base64_sign(value)),
{
}

/// Base64 text can be read back: it stands for the bytes that it was made of.
pub proof fn law_base64_is_read_back(bytes: Seq<u8>)
    ensures
        base64_bytes(base64_standard(bytes)) == bytes,
    decreases bytes.len(),
{
    let text = base64_standard(bytes);
    if bytes.len() > 0 {
        let (a, b, c) = (bytes[0] as int, bytes[1] as int, bytes[2] as int);
        lemma_base64_sign(a / 4);
        lemma_base64_sign(a % 4 * 16);
        lemma_base64_sign(a % 4 * 16 + b / 16);
        lemma_base64_sign(b % 16 * 4);
        lemma_base64_sign(b % 16 * 4 + c / 64);
        lemma_base64_sign(c % 64);
        if bytes.len() >= 3 {
            law_base64_is_read_back(bytes.skip(3));
            assert(text.skip(4) == base64_standard(bytes.skip(3)));
            assert(bytes == seq![bytes[0], bytes[1], bytes[2]] + bytes.skip(3));
        }
    }
    assert(base64_bytes(text) =~= bytes);
}

/// Base64 text takes four characters for each group of three bytes that is begun, all of
/// them from the standard alphabet or the padding sign.
pub proof fn law_base64_shape(bytes: Seq<u8>)
    ensures
        base64_standard(bytes).len() == base64_len(bytes.len()),
        forall|i: int|
            0 <= i < base64_standard(bytes).len() ==> base64_character(
                #[trigger] base64_standard(bytes)[i],
            ),
    decreases bytes.len(),
{
    if bytes.len() > 0 {
        let (a, b, c) = (bytes[0] as int, bytes[1] as int, bytes[2] as int);
        lemma_base64_sign(a / 4);
        lemma_base64_sign(a % 4 * 16);
        lemma_base64_sign(a % 4 * 16 + b / 16);
        lemma_base64_sign(b % 16 * 4);
        lemma_base64_sign(b % 16 * 4 + c / 64);
        lemma_base64_sign(c % 64);
        if bytes.len() >= 3 {
            law_base64_shape(bytes.skip(3));
        }
    }
}

/// Calls `base64::Engine::encode` on `base64::engine::general_purpose::STANDARD`.
///
/// Believed of it: it writes the padded base64 text of the bytes over the standard alphabet,
/// as RFC 4648 defines it. The engine panics where the text cannot be allocated, so such
/// inputs are left out.
#[verifier::external_body]
fn encode_base64(bytes: &[u8]) -> (text: String)
    requires
        encodable(bytes@.len()),
    ensures
        text@ == base64_standard(bytes@),
{
    general_purpose::STANDARD.encode(bytes)
}

/// The data URL of the given type whose payload is `payload`.
pub open spec fn url_text(mime: Seq<char>, payload: Seq<char>) -> Seq<char> {
    "data:"@ + mime + ";base64,"@ + payload
}

/// The data URL that shows `bytes` as a picture of type `mime`.
pub open spec fn data_url_text(mime: Seq<char>, bytes: Seq<u8>) -> Seq<char> {
    url_text(mime, base64_standard(bytes))
}

/// Puts a base64 text into a data URL.
pub fn url_of_payload(mime: &str, payload: &str) -> (url: String)
    ensures
        url@ == url_text(mime@, payload@),
{
    let head = join("data:", mime);
    let head = join(head.as_str(), ";base64,");
    join(head.as_str(), payload)
}

/// Writes `bytes` as a data URL of type `mime`.
pub fn data_url(mime: &str, bytes: &[u8]) -> (url: String)
    requires
        encodable(bytes@.len()),
    ensures
        url@ == data_url_text(mime@, bytes@),
        url@.len() == url_text(mime@, Seq::empty()).len() + base64_len(bytes@.len()),
        forall|i: int|
            url_text(mime@, Seq::empty()).len() <= i < url@.len() ==> base64_character(
                #[trigger] url@[i],
            ),
{
    let payload = encode_base64(bytes);
    let url = url_of_payload(mime, payload.as_str());
    proof {
        law_base64_shape(bytes@);
        let head = url_text(mime@, Seq::empty());
        assert(url@ == head + payload@);
        assert forall|i: int| head.len() <= i < url@.len() implies base64_character(
            #[trigger] url@[i],
        ) by {
            assert(url@[i] == payload@[i - head.len()]);
        }
    }
    url
}

/// Of two data URLs of one type that are the same, the pictures are the same.
pub proof fn law_data_url_determines_the_picture(mime: Seq<char>, a: Seq<u8>, b: Seq<u8>)
    requires
        data_url_text(mime, a) == data_url_text(mime, b),
    ensures
        a == b,
{
    let head = url_text(mime, Seq::empty());
    let n = head.len() as int;
    assert(data_url_text(mime, a).skip(n) == base64_standard(a));
    assert(data_url_text(mime, b).skip(n) == base64_standard(b));
    law_base64_is_read_back(a);
    law_base64_is_read_back(b);
}

/// A data URL is spelled `data:<type>;base64,<payload>`, whatever the type and the payload.
pub proof fn law_data_url_is_spelled_out(mime: Seq<char>, bytes: Seq<u8>)
    ensures
        data_url_text(mime, bytes) == seq!['d', 'a', 't', 'a', ':'] + mime + seq![
            ';',
            'b',
            'a',
            's',
            'e',
            '6',
            '4',
            ',',
        ] + base64_standard(bytes),
{
    reveal_strlit("data:");
    reveal_strlit(";base64,");
    assert("data:"@ == seq!['d', 'a', 't', 'a', ':']);
    assert(";base64,"@ == seq![';', 'b', 'a', 's', 'e', '6', '4', ',']);
}

/// The signs of base64 text are those of the standard alphabet, in its order.
pub proof fn law_base64_alphabet(value: int)
    requires
        0 <= value < 64,
    ensures
        base64_sign(value)
            == "ABCDEFGHIJKLMNOPQRSTUVWXYZabcdefghijklmnopqrstuvwxyz0123456789+/"@[value],
{
    reveal_strlit("ABCDEFGHIJKLMNOPQRSTUVWXYZabcdefghijklmnopqrstuvwxyz0123456789+/");
}

/// Base64 text goes by groups of three bytes: what stands before a group has no say in it.
pub proof fn law_base64_goes_by_groups(group: Seq<u8>, rest: Seq<u8>)
    requires
        group.len() == 3,
    ensures
        base64_standard(group + rest) == base64_standard(group) + base64_standard(rest),
        base64_standard(group).len() == 4,
{
    reveal_with_fuel(base64_standard, 2);
    assert((group + rest).skip(3) == rest);
    assert(group.skip(3) == Seq::<u8>::empty());
}

} // verus!

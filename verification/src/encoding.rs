//! Base64, the text that stands for bytes in results and tokens.
use base64::Engine;
use vstd::prelude::*;

verus! {

/// The alphabets of base64, which differ in their last two letters.
pub enum Alphabet {
    Standard,
    UrlSafe,
}

/// The letter that stands for six bits.
pub open spec fn letter(alphabet: Alphabet, bits: int) -> char {
    if bits < 26 {
        ('A' as int + bits) as char
    } else if bits < 52 {
        ('a' as int + (bits - 26)) as char
    } else if bits < 62 {
        ('0' as int + (bits - 52)) as char
    } else {
        match alphabet {
            Alphabet::Standard => if bits == 62 {
                '+'
            } else {
                '/'
            },
            Alphabet::UrlSafe => if bits == 62 {
                '-'
            } else {
                '_'
            },
        }
    }
}

/// The letters that stand for bytes: four for each three bytes, and two or three for one or
/// two bytes that are left, whose bits are filled up with zeros.
pub open spec fn letters(alphabet: Alphabet, bytes: Seq<u8>) -> Seq<char>
    decreases bytes.len(),
{
    if bytes.len() == 0 {
        Seq::empty()
    } else if bytes.len() == 1 {
        seq![letter(alphabet, bytes[0] as int / 4), letter(alphabet, bytes[0] % 4 * 16)]
    } else if bytes.len() == 2 {
        seq![
            letter(alphabet, bytes[0] as int / 4),
            letter(alphabet, bytes[0] % 4 * 16 + bytes[1] / 16),
            letter(alphabet, bytes[1] % 16 * 4),
        ]
    } else {
        seq![
            letter(alphabet, bytes[0] as int / 4),
            letter(alphabet, bytes[0] % 4 * 16 + bytes[1] / 16),
            letter(alphabet, bytes[1] % 16 * 4 + bytes[2] / 64),
            letter(alphabet, bytes[2] as int % 64),
        ] + letters(alphabet, bytes.skip(3))
    }
}

/// What fills up the letters of some bytes to a multiple of four.
pub open spec fn padding(length: nat) -> Seq<char> {
    if length % 3 == 1 {
        "=="@
    } else if length % 3 == 2 {
        "="@
    } else {
        Seq::empty()
    }
}

/// Bytes as base64 in the standard alphabet, with padding.
pub open spec fn base64_text(bytes: Seq<u8>) -> Seq<char> {
    letters(Alphabet::Standard, bytes) + padding(bytes.len())
}

/// Encodes with `Engine::encode` of `base64`'s general purpose engine `STANDARD`. The
/// contract claims that the text is base64 in the standard alphabet, with padding.
#[verifier::external_body]
pub(crate) fn encode_base64(bytes: &Vec<u8>) -> (r: String)
    ensures
        r@ == base64_text(bytes@),
{
    base64::engine::general_purpose::STANDARD.encode(bytes)
}

/// Encodes with `Engine::encode` of `base64`'s general purpose engine `URL_SAFE_NO_PAD`. The
/// contract claims that the text is base64 in the URL-safe alphabet, without padding.
#[verifier::external_body]
pub(crate) fn encode_token(bytes: &Vec<u8>) -> (r: String)
    ensures
        r@ == letters(Alphabet::UrlSafe, bytes@),
{
    base64::engine::general_purpose::URL_SAFE_NO_PAD.encode(bytes)
}

/// The characters of the URL-safe alphabet.
pub open spec fn token_char(c: char) -> bool {
    ('a' <= c && c <= 'z') || ('A' <= c && c <= 'Z') || ('0' <= c && c <= '9') || c == '-' || c
        == '_'
}

/// Bytes have four letters for each three of them, rounded up, and in the URL-safe alphabet
/// the letters are letters, digits, dashes and underscores.
pub proof fn letters_of_bytes(bytes: Seq<u8>)
    ensures
        letters(Alphabet::UrlSafe, bytes).len() == (4 * bytes.len() + 2) / 3,
        forall|i: int|
            0 <= i < letters(Alphabet::UrlSafe, bytes).len() ==> token_char(
                #[trigger] letters(Alphabet::UrlSafe, bytes)[i],
            ),
    decreases bytes.len(),
{
    if bytes.len() > 2 {
        letters_of_bytes(bytes.skip(3));
        let rest = letters(Alphabet::UrlSafe, bytes.skip(3));
        let all = letters(Alphabet::UrlSafe, bytes);
        assert forall|i: int| 0 <= i < all.len() implies token_char(#[trigger] all[i]) by {
            if i >= 4 {
                assert(all[i] == rest[i - 4]);
            }
        }
    }
}

proof fn lemma_letters_differ(alphabet: Alphabet, a: int, b: int)
    requires
        0 <= a < 64,
        0 <= b < 64,
        letter(alphabet, a) == letter(alphabet, b),
    ensures
        a == b,
{
}

/// The letters of the first three bytes, and where those of the others stand.
proof fn lemma_first_letters(alphabet: Alphabet, bytes: Seq<u8>)
    requires
        bytes.len() > 0,
    ensures
        ({
            let all = letters(alphabet, bytes);
            &&& all.len() == (4 * bytes.len() + 2) / 3
            &&& all[0] == letter(alphabet, bytes[0] as int / 4)
            &&& bytes.len() == 1 ==> all[1] == letter(alphabet, bytes[0] % 4 * 16)
            &&& bytes.len() > 1 ==> all[1] == letter(alphabet, bytes[0] % 4 * 16 + bytes[1] / 16)
            &&& bytes.len() == 2 ==> all[2] == letter(alphabet, bytes[1] % 16 * 4)
            &&& bytes.len() > 2 ==> {
                &&& all[2] == letter(alphabet, bytes[1] % 16 * 4 + bytes[2] / 64)
                &&& all[3] == letter(alphabet, bytes[2] as int % 64)
                &&& all.skip(4) == letters(alphabet, bytes.skip(3))
            }
        }),
{
    lemma_letter_count(alphabet, bytes);
    if bytes.len() > 2 {
        assert(letters(alphabet, bytes).skip(4) =~= letters(alphabet, bytes.skip(3)));
    }
}

/// Different bytes have different letters, in either alphabet.
pub proof fn letters_tell_bytes_apart(alphabet: Alphabet, a: Seq<u8>, b: Seq<u8>)
    requires
        letters(alphabet, a) == letters(alphabet, b),
    ensures
        a == b,
    decreases a.len(),
{
    lemma_letter_count(alphabet, a);
    lemma_letter_count(alphabet, b);
    assert(a.len() == b.len());
    if a.len() > 0 {
        lemma_first_letters(alphabet, a);
        lemma_first_letters(alphabet, b);
        lemma_letters_differ(alphabet, a[0] as int / 4, b[0] as int / 4);
        if a.len() == 1 {
            lemma_letters_differ(alphabet, a[0] % 4 * 16, b[0] % 4 * 16);
            assert(a =~= b);
        } else {
            lemma_letters_differ(
                alphabet,
                a[0] % 4 * 16 + a[1] / 16,
                b[0] % 4 * 16 + b[1] / 16,
            );
            if a.len() == 2 {
                lemma_letters_differ(alphabet, a[1] % 16 * 4, b[1] % 16 * 4);
                assert(a =~= b);
            } else {
                lemma_letters_differ(
                    alphabet,
                    a[1] % 16 * 4 + a[2] / 64,
                    b[1] % 16 * 4 + b[2] / 64,
                );
                lemma_letters_differ(alphabet, a[2] as int % 64, b[2] as int % 64);
                letters_tell_bytes_apart(alphabet, a.skip(3), b.skip(3));
                assert forall|i: int| 0 <= i < a.len() implies a[i] == b[i] by {
                    if i >= 3 {
                        assert(a[i] == a.skip(3)[i - 3]);
                        assert(b[i] == b.skip(3)[i - 3]);
                    }
                }
                assert(a =~= b);
            }
        }
    }
}

proof fn lemma_letter_count(alphabet: Alphabet, bytes: Seq<u8>)
    ensures
        letters(alphabet, bytes).len() == (4 * bytes.len() + 2) / 3,
    decreases bytes.len(),
{
    if bytes.len() > 2 {
        lemma_letter_count(alphabet, bytes.skip(3));
    }
}

/// Different bytes have different base64 texts.
pub proof fn bytes_are_kept(a: Seq<u8>, b: Seq<u8>)
    requires
        base64_text(a) == base64_text(b),
    ensures
        a == b,
{
    reveal_strlit("==");
    reveal_strlit("=");
    let x = letters(Alphabet::Standard, a);
    let y = letters(Alphabet::Standard, b);
    lemma_letter_count(Alphabet::Standard, a);
    lemma_letter_count(Alphabet::Standard, b);
    lemma_no_padding_in_letters(a);
    lemma_no_padding_in_letters(b);
    if x.len() < y.len() {
        assert(base64_text(a)[x.len() as int] == y[x.len() as int]);
        assert(false);
    }
    if y.len() < x.len() {
        assert(base64_text(b)[y.len() as int] == x[y.len() as int]);
        assert(false);
    }
    assert(x =~= base64_text(a).take(x.len() as int));
    assert(y =~= base64_text(b).take(y.len() as int));
    letters_tell_bytes_apart(Alphabet::Standard, a, b);
}

proof fn lemma_no_padding_in_letters(bytes: Seq<u8>)
    ensures
        forall|i: int|
            0 <= i < letters(Alphabet::Standard, bytes).len() ==> #[trigger] letters(
                Alphabet::Standard,
                bytes,
            )[i] != '=',
    decreases bytes.len(),
{
    if bytes.len() > 2 {
        lemma_no_padding_in_letters(bytes.skip(3));
        let rest = letters(Alphabet::Standard, bytes.skip(3));
        let all = letters(Alphabet::Standard, bytes);
        assert forall|i: int| 0 <= i < all.len() implies #[trigger] all[i] != '=' by {
            if i >= 4 {
                assert(all[i] == rest[i - 4]);
            }
        }
    }
}

} // verus!

//! Base64 text of the segmentation service's messages: the colour image goes out as the
//! base64 text of its PNG, and each instance mask comes back as base64 text of a PNG.
//! Encoding and decoding is the `base64` crate's work, with its standard engine.
use vstd::prelude::*;
use base64::Engine;

verus! {

/// The standard base64 alphabet: the character of each 6-bit value.
pub open spec fn alphabet() -> Seq<char> {
    "ABCDEFGHIJKLMNOPQRSTUVWXYZabcdefghijklmnopqrstuvwxyz0123456789+/"@
}

/// Standard base64 with `=` padding: each group of three bytes becomes four characters,
/// and a last group of one or two bytes is padded to four.
pub open spec fn base64_encoding(bytes: Seq<u8>) -> Seq<char>
    decreases bytes.len(),
{
    if bytes.len() == 0 {
        Seq::empty()
    } else if bytes.len() == 1 {
        let a = bytes[0] as int;
        seq![alphabet()[a / 4], alphabet()[(a % 4) * 16], '=', '=']
    } else if bytes.len() == 2 {
        let a = bytes[0] as int;
        let b = bytes[1] as int;
        seq![alphabet()[a / 4], alphabet()[(a % 4) * 16 + b / 16], alphabet()[(b % 16) * 4], '=']
    } else {
        let a = bytes[0] as int;
        let b = bytes[1] as int;
        let c = bytes[2] as int;
        seq![
            alphabet()[a / 4],
            alphabet()[(a % 4) * 16 + b / 16],
            alphabet()[(b % 16) * 4 + c / 64],
            alphabet()[c % 64],
        ] + base64_encoding(bytes.subrange(3, bytes.len() as int))
    }
}

/// The text is the standard base64 encoding of some bytes.
pub open spec fn is_base64(text: Seq<char>) -> bool {
    exists|bytes: Seq<u8>| base64_encoding(bytes) == text
}

/// The length of the encoding of `n` bytes fits in a `usize`.
pub open spec fn encodable_len(n: int) -> bool {
    (n / 3) * 4 + 4 <= usize::MAX
}

/// The character code of each 6-bit value.
spec fn sextet_code(v: int) -> int {
    if v < 26 {
        65 + v
    } else if v < 52 {
        97 + (v - 26)
    } else if v < 62 {
        48 + (v - 52)
    } else if v == 62 {
        43
    } else {
        47
    }
}

proof fn lemma_alphabet_codes()
    ensures
        alphabet().len() == 64,
        forall|v: int| 0 <= v < 64 ==> #[trigger] alphabet()[v] as int == sextet_code(v),
{
    reveal_strlit("ABCDEFGHIJKLMNOPQRSTUVWXYZabcdefghijklmnopqrstuvwxyz0123456789+/");
}

proof fn lemma_alphabet_distinct(v: int, w: int)
    requires
        0 <= v < 64,
        0 <= w < 64,
    ensures
        alphabet()[v] == alphabet()[w] ==> v == w,
        alphabet()[v] != '=',
{
    lemma_alphabet_codes();
    assert(alphabet()[v] as int == sextet_code(v));
    assert(alphabet()[w] as int == sextet_code(w));
}

proof fn lemma_encoding_len(bytes: Seq<u8>)
    ensures
        base64_encoding(bytes).len() == if bytes.len() % 3 == 0 {
            (bytes.len() / 3) * 4
        } else {
            (bytes.len() / 3) * 4 + 4
        },
    decreases bytes.len(),
{
    if bytes.len() >= 3 {
        lemma_encoding_len(bytes.subrange(3, bytes.len() as int));
    }
}

/// Decoding gives back what encoding wrote: two byte strings with the same base64 text
/// are the same bytes.
pub proof fn base64_encoding_is_injective(a: Seq<u8>, b: Seq<u8>)
    requires
        base64_encoding(a) == base64_encoding(b),
    ensures
        a == b,
    decreases a.len(),
{
    let ea = base64_encoding(a);
    let eb = base64_encoding(b);
    lemma_alphabet_codes();
    lemma_encoding_len(a);
    lemma_encoding_len(b);
    if a.len() == 0 || b.len() == 0 {
        assert(a.len() == 0 && b.len() == 0);
        assert(a =~= b);
        return;
    }
    let x0 = a[0] as int;
    let y0 = b[0] as int;
    lemma_alphabet_distinct(x0 / 4, y0 / 4);
    assert(ea[0] == alphabet()[x0 / 4]);
    assert(eb[0] == alphabet()[y0 / 4]);
    assert(x0 / 4 == y0 / 4);
    if a.len() == 1 || b.len() == 1 {
        if a.len() != b.len() {
            if a.len() == 1 {
                assert(ea[2] == '=');
                lemma_alphabet_distinct((b[1] % 16) as int * 4 + if b.len() >= 3 { b[2] as int / 64 } else { 0 }, 0);
                assert(eb[2] != '=');
            } else {
                assert(eb[2] == '=');
                lemma_alphabet_distinct((a[1] % 16) as int * 4 + if a.len() >= 3 { a[2] as int / 64 } else { 0 }, 0);
                assert(ea[2] != '=');
            }
        }
        lemma_alphabet_distinct((x0 % 4) * 16, (y0 % 4) * 16);
        assert(x0 == y0);
        assert(a =~= b);
        return;
    }
    let x1 = a[1] as int;
    let y1 = b[1] as int;
    lemma_alphabet_distinct((x0 % 4) * 16 + x1 / 16, (y0 % 4) * 16 + y1 / 16);
    assert(ea[1] == alphabet()[(x0 % 4) * 16 + x1 / 16]);
    assert(eb[1] == alphabet()[(y0 % 4) * 16 + y1 / 16]);
    assert(x0 == y0 && x1 / 16 == y1 / 16) by {
        assert(0 <= x0 < 256 && 0 <= y0 < 256 && 0 <= x1 < 256 && 0 <= y1 < 256);
        assert((x0 % 4) * 16 + x1 / 16 == (y0 % 4) * 16 + y1 / 16);
    }
    let x2 = if a.len() >= 3 { a[2] as int / 64 } else { 0 };
    let y2 = if b.len() >= 3 { b[2] as int / 64 } else { 0 };
    lemma_alphabet_distinct((x1 % 16) * 4 + x2, (y1 % 16) * 4 + y2);
    assert(ea[2] == alphabet()[(x1 % 16) * 4 + x2]);
    assert(eb[2] == alphabet()[(y1 % 16) * 4 + y2]);
    assert(x1 == y1) by {
        assert(0 <= x2 < 4 && 0 <= y2 < 4);
        assert((x1 % 16) * 4 + x2 == (y1 % 16) * 4 + y2);
    }
    if a.len() == 2 || b.len() == 2 {
        if a.len() != b.len() {
            if a.len() == 2 {
                assert(ea[3] == '=');
                lemma_alphabet_distinct(b[2] as int % 64, 0);
                assert(eb[3] != '=');
            } else {
                assert(eb[3] == '=');
                lemma_alphabet_distinct(a[2] as int % 64, 0);
                assert(ea[3] != '=');
            }
        }
        assert(a =~= b);
        return;
    }
    let x3 = a[2] as int;
    let y3 = b[2] as int;
    lemma_alphabet_distinct(x3 % 64, y3 % 64);
    assert(ea[3] == alphabet()[x3 % 64]);
    assert(eb[3] == alphabet()[y3 % 64]);
    assert(x2 == x3 / 64 && y2 == y3 / 64);
    assert(x3 == y3);
    let ra = a.subrange(3, a.len() as int);
    let rb = b.subrange(3, b.len() as int);
    assert(ea.subrange(4, ea.len() as int) =~= base64_encoding(ra));
    assert(eb.subrange(4, eb.len() as int) =~= base64_encoding(rb));
    base64_encoding_is_injective(ra, rb);
    assert(a =~= seq![a[0], a[1], a[2]] + ra);
    assert(b =~= seq![b[0], b[1], b[2]] + rb);
}

#[verifier::external_type_specification]
#[verifier::external_body]
pub struct ExDecodeError(base64::DecodeError);

/// `base64::engine::general_purpose::STANDARD.encode`: the standard alphabet with `=`
/// padding. The crate panics when the text's length overflows a `usize`, which the
/// `requires` leaves out.
#[verifier::external_body]
fn encode_standard(bytes: &Vec<u8>) -> (res: String)
    requires
        encodable_len(bytes@.len() as int),
    ensures
        res@ == base64_encoding(bytes@),
{
    base64::engine::general_purpose::STANDARD.encode(bytes)
}

/// `base64::engine::general_purpose::STANDARD.decode`: it demands canonical padding and
/// refuses set trailing bits, so it accepts exactly the standard encodings and gives back
/// the bytes encoded. The length bound keeps the crate's size estimate from overflowing.
#[verifier::external_body]
fn decode_standard(text: &String) -> (res: Result<Vec<u8>, base64::DecodeError>)
    requires
        text@.len() <= usize::MAX / 8,
    ensures
        match res {
            Ok(bytes) => base64_encoding(bytes@) == text@,
            Err(_) => !is_base64(text@),
        },
{
    base64::engine::general_purpose::STANDARD.decode(text)
}

/// The base64 text of a PNG, as the segmentation request carries the colour image.
pub fn png_base64(png: &Vec<u8>) -> (res: String)
    requires
        encodable_len(png@.len() as int),
    ensures
        res@ == base64_encoding(png@),
{
    encode_standard(png)
}

/// A mask of the segmentation reply that is not base64 text.
pub struct MaskDecodeError {
    /// The position of the first such mask.
    pub index: usize,
    pub error: base64::DecodeError,
}

/// Decodes the masks of a segmentation reply, in order; the first mask that is not
/// base64 text refuses the whole reply.
pub fn decode_masks(texts: &Vec<String>) -> (res: Result<Vec<Vec<u8>>, MaskDecodeError>)
    requires
        forall|i: int| 0 <= i < texts@.len() ==> #[trigger] texts@[i]@.len() <= usize::MAX / 8,
    ensures
        res is Ok <==> forall|i: int| 0 <= i < texts@.len() ==> is_base64(#[trigger] texts@[i]@),
        res matches Ok(masks) ==> masks@.len() == texts@.len() && forall|i: int|
            0 <= i < texts@.len() ==> base64_encoding(#[trigger] masks@[i]@) == texts@[i]@,
        res matches Err(e) ==> e.index < texts@.len() && !is_base64(texts@[e.index as int]@) && forall|
            j: int,
        | 0 <= j < e.index ==> is_base64(#[trigger] texts@[j]@),
{
    let mut masks: Vec<Vec<u8>> = Vec::new();
    let mut i: usize = 0;
    while i < texts.len()
        invariant
            i <= texts@.len(),
            masks@.len() == i,
            forall|k: int| 0 <= k < texts@.len() ==> #[trigger] texts@[k]@.len() <= usize::MAX / 8,
            forall|k: int| 0 <= k < i ==> base64_encoding(#[trigger] masks@[k]@) == texts@[k]@,
        decreases texts@.len() - i,
    {
        match decode_standard(&texts[i]) {
            Ok(mask) => {
                masks.push(mask);
            },
            Err(error) => {
                proof {
                    assert forall|j: int| 0 <= j < i implies is_base64(#[trigger] texts@[j]@) by {
                        assert(base64_encoding(masks@[j]@) == texts@[j]@);
                    }
                }
                return Err(MaskDecodeError { index: i, error });
            },
        }
        i += 1;
    }
    proof {
        assert forall|j: int| 0 <= j < texts@.len() implies is_base64(#[trigger] texts@[j]@) by {
            assert(base64_encoding(masks@[j]@) == texts@[j]@);
        }
    }
    Ok(masks)
}

} // verus!

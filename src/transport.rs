//! Text transport of encoded images, and the result shapes handed to callers.
use vstd::prelude::*;
use base64::Engine;

verus! {

/// The standard Base64 alphabet, indexed by six-bit value.
pub open spec fn base64_alphabet() -> Seq<char> {
    "ABCDEFGHIJKLMNOPQRSTUVWXYZabcdefghijklmnopqrstuvwxyz0123456789+/"@
}

/// The padded, standard-alphabet Base64 text of `bytes`: each group of three
/// bytes becomes four characters of six bits each, and a last group of one
/// or two bytes is padded with `=`.
pub open spec fn standard_base64(bytes: Seq<u8>) -> Seq<char>
    decreases bytes.len(),
{
    let a = base64_alphabet();
    if bytes.len() == 0 {
        Seq::empty()
    } else if bytes.len() == 1 {
        let b0 = bytes[0] as int;
        seq![a[b0 / 4], a[(b0 % 4) * 16], '=', '=']
    } else if bytes.len() == 2 {
        let (b0, b1) = (bytes[0] as int, bytes[1] as int);
        seq![a[b0 / 4], a[(b0 % 4) * 16 + b1 / 16], a[(b1 % 16) * 4], '=']
    } else {
        let (b0, b1, b2) = (bytes[0] as int, bytes[1] as int, bytes[2] as int);
        seq![a[b0 / 4], a[(b0 % 4) * 16 + b1 / 16], a[(b1 % 16) * 4 + b2 / 64], a[b2 % 64]]
            + standard_base64(bytes.subrange(3, bytes.len() as int))
    }
}

/// The length of the padded Base64 text of `n` bytes: four characters for
/// each started group of three bytes.
pub open spec fn base64_len(n: int) -> int {
    4 * ((n + 2) / 3)
}

/// The padded Base64 text of `n` bytes has `base64_len(n)` characters.
pub proof fn lemma_base64_len(bytes: Seq<u8>)
    ensures
        standard_base64(bytes).len() == base64_len(bytes.len() as int),
    decreases bytes.len(),
{
    if bytes.len() >= 3 {
        lemma_base64_len(bytes.subrange(3, bytes.len() as int));
    }
}

/// Relies on base64's `engine::general_purpose::STANDARD.encode`: it returns
/// the padded standard-alphabet text; it panics only when the length of that
/// text, as its `encoded_len` gives it, overflows `usize`.
#[verifier::external_body]
fn base64_encode(bytes: &[u8]) -> (r: String)
    requires
        base64_len(bytes@.len() as int) <= usize::MAX,
    ensures
        r@ == standard_base64(bytes@),
{
    base64::engine::general_purpose::STANDARD.encode(bytes)
}

/// What the head cutout of one face hands back: the transparent cutout, and
/// optionally an annotated image that shows the face and the hint.
pub enum FaceOutput {
    Cutout { image: String },
    Annotated { image: String, debug: String },
}

/// What a face transplant hands back: the composite, and the correction
/// strength used, in thousandths.
pub struct SwapOutput {
    pub image: String,
    pub strength: u32,
}

/// Packs the encoded cutout, and the encoded annotated image if there is
/// one, as transport text.
pub fn package_cutout(image: &Vec<u8>, debug: Option<&Vec<u8>>) -> (r: FaceOutput)
    requires
        base64_len(image@.len() as int) <= usize::MAX,
        debug is Some ==> base64_len(debug->Some_0@.len() as int) <= usize::MAX,
    ensures
        debug is None <==> r is Cutout,
        r is Cutout ==> r->Cutout_image@ == standard_base64(image@)
            && r->Cutout_image@.len() == base64_len(image@.len() as int),
        r is Annotated ==> r->Annotated_image@ == standard_base64(image@)
            && r->Annotated_debug@ == standard_base64(debug->Some_0@)
            && r->Annotated_image@.len() == base64_len(image@.len() as int)
            && r->Annotated_debug@.len() == base64_len(debug->Some_0@.len() as int),
{
    let text = base64_encode(image.as_slice());
    proof {
        lemma_base64_len(image@);
        if debug is Some {
            lemma_base64_len(debug->Some_0@);
        }
    }
    match debug {
        None => FaceOutput::Cutout { image: text },
        Some(d) => FaceOutput::Annotated { image: text, debug: base64_encode(d.as_slice()) },
    }
}

/// Packs the encoded composite of a face transplant as transport text, with
/// the strength that was used.
pub fn package_swap(image: &Vec<u8>, strength: u32) -> (r: SwapOutput)
    requires
        base64_len(image@.len() as int) <= usize::MAX,
    ensures
        r.image@ == standard_base64(image@),
        r.image@.len() == base64_len(image@.len() as int),
        r.strength == strength,
{
    proof {
        lemma_base64_len(image@);
    }
    SwapOutput { image: base64_encode(image.as_slice()), strength }
}

} // verus!

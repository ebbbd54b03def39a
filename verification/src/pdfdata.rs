use vstd::prelude::*;

verus! {

/// The standard base64 text (with `=` padding) of `data`; a function of
/// the bytes alone.
pub uninterp spec fn base64_of(data: Seq<u8>) -> Seq<char>;

/// Relies on `base64::Engine::encode` with the `STANDARD` engine: the
/// encoding is a function of the input bytes alone, and with padding it
/// produces four characters for every started group of three bytes.  The
/// size bound keeps the engine's output-length computation from
/// overflowing, which would panic.
#[verifier::external_body]
fn base64_encode(data: &Vec<u8>) -> (r: String)
    requires
        data@.len() <= 1_000_000_000,
    ensures
        r@ == base64_of(data@),
        r@.len() == ((data@.len() + 2) / 3) * 4,
{
    base64::Engine::encode(&base64::engine::general_purpose::STANDARD, data)
}

/// The payload the PDF-reading command returns: the file's bytes as
/// standard base64 text.  `None` only for an input too large for the
/// encoder's output length to be computed safely.
pub fn pdf_payload(data: &Vec<u8>) -> (r: Option<String>)
    ensures
        (r is Some) <==> data@.len() <= 1_000_000_000,
        r matches Some(s) ==> s@ == base64_of(data@) && s@.len() == ((data@.len() + 2) / 3) * 4,
{
    if data.len() <= 1_000_000_000 {
        Some(base64_encode(data))
    } else {
        None
    }
}

} // verus!

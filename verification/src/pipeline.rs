use vstd::prelude::*;
use vstd::string::StringExecFns;

use crate::assemble::{assemble_results, assembled, validate_output, EmbeddingResult};
use crate::errors::EmbedError;
use crate::ready::ReadinessCell;
use crate::tensor::{all_wf, build_batch_tensors, BatchTensor, TokenEncoding};

verus! {

/// Declares `tokenizers::Tokenizer` so that it can stand in the runtime
/// state; the verifier sees nothing of its insides.
#[verifier::external_type_specification]
#[verifier::external_body]
pub struct ExTokenizer(tokenizers::Tokenizer);

/// The loaded runtime state: the tokenizer, bundled with the inference
/// session the application loaded beside it.  The session is opaque to the
/// pipeline logic; it is only carried to the invocation boundary.
pub struct MLState<S> {
    pub tokenizer: tokenizers::Tokenizer,
    pub session: S,
}

/// Where the artifact files stand beneath a resource directory: the model
/// and the tokenizer definition of the model family, in that order.
pub fn artifact_paths(resource_dir: &str) -> (r: (String, String))
    ensures
        r.0@ == resource_dir@ + "/all-MiniLM-L6-v2/model.onnx"@,
        r.1@ == resource_dir@ + "/all-MiniLM-L6-v2/tokenizer.json"@,
{
    let mut model = resource_dir.to_owned();
    model.append("/all-MiniLM-L6-v2/model.onnx");
    let mut tokenizer = resource_dir.to_owned();
    tokenizer.append("/all-MiniLM-L6-v2/tokenizer.json");
    (model, tokenizer)
}

/// Relies on `tokenizers::Tokenizer::encode_batch`: it returns one encoding
/// per input, in input order, and an encoding's ids and attention mask are
/// parallel sequences of equal length.  A failure on any chunk fails the
/// whole batch.
#[verifier::external_body]
fn tokenize_batch(
    tokenizer: &tokenizers::Tokenizer,
    chunks: &Vec<String>,
) -> (r: Result<Vec<TokenEncoding>, EmbedError>)
    ensures
        r is Ok ==> (r->Ok_0)@.len() == chunks@.len() && all_wf((r->Ok_0)@),
        r is Err ==> r->Err_0 == EmbedError::TokenizationFailure,
{
    match tokenizer.encode_batch(chunks.clone(), false) {
        Ok(encodings) => Ok(
            encodings
                .into_iter()
                .map(
                    |e| TokenEncoding {
                        ids: e.get_ids().to_vec(),
                        mask: e.get_attention_mask().to_vec(),
                    },
                )
                .collect(),
        ),
        Err(_) => Err(EmbedError::TokenizationFailure),
    }
}

/// The request path up to the model invocation: read the readiness cell
/// (fast-fail when unpublished), return `None` for an empty batch without
/// touching the model, otherwise tokenize every chunk and build the two
/// `[rows, cols]` tensors, padded to this batch's longest encoding.
pub fn prepare_embed_batch<S>(cell: &ReadinessCell<MLState<S>>, chunks: &Vec<String>) -> (r: Result<
    Option<BatchTensor>,
    EmbedError,
>)
    ensures
        !cell.is_ready() ==> r == Err::<Option<BatchTensor>, EmbedError>(
            EmbedError::NotInitialized,
        ),
        cell.is_ready() && chunks@.len() == 0 ==> r == Ok::<Option<BatchTensor>, EmbedError>(None),
        cell.is_ready() && chunks@.len() > 0 ==> (r matches Ok(p) ==> p is Some),
        r matches Ok(p) ==> (p matches Some(t) ==> chunks@.len() > 0 && t.wf() && t.rows
            == chunks@.len() && (exists|encs: Seq<TokenEncoding>|
            all_wf(encs) && encs.len() == chunks@.len() && #[trigger] t.matches(encs))),
        cell.is_ready() && chunks@.len() > 0 && r is Err ==> r == Err::<
            Option<BatchTensor>,
            EmbedError,
        >(EmbedError::TokenizationFailure) || r == Err::<Option<BatchTensor>, EmbedError>(
            EmbedError::ShapeMismatch,
        ),
{
    let state = match cell.read() {
        Ok(s) => s,
        Err(e) => {
            return Err(e);
        },
    };
    if chunks.len() == 0 {
        return Ok(None);
    }
    let encs = match tokenize_batch(&state.tokenizer, chunks) {
        Ok(v) => v,
        Err(e) => {
            return Err(e);
        },
    };
    match build_batch_tensors(&encs) {
        Ok(t) => {
            proof {
                assert(t.matches(encs@));
            }
            Ok(Some(t))
        },
        Err(e) => Err(e),
    }
}

/// The request path after the model invocation: validate that the output
/// tensor is exactly `[chunks.len(), dim]` with a fully populated buffer,
/// then pair row `i` with chunk `i`, preserving input order.
///
/// Exactly `chunks.len()` results come back on success, never fewer.
pub fn finish_embed_batch(
    chunks: &Vec<String>,
    out_shape: &Vec<usize>,
    out_data: &Vec<u32>,
) -> (r: Result<Vec<EmbeddingResult>, EmbedError>)
    ensures
        (r is Ok) <==> (out_shape@.len() == 2 && out_shape@[0] == chunks@.len() && out_data@.len()
            == out_shape@[0] * out_shape@[1]),
        r matches Ok(res) ==> assembled(res@, chunks@, out_shape@[1] as nat, out_data@) && forall|
            i: int,
        | 0 <= i < res@.len() ==> (#[trigger] res@[i]).embedding@.len() == out_shape@[1],
        r is Err ==> r == Err::<Vec<EmbeddingResult>, EmbedError>(EmbedError::ShapeMismatch),
{
    let dim = match validate_output(out_shape, chunks.len(), out_data.len()) {
        Ok(d) => d,
        Err(e) => {
            return Err(e);
        },
    };
    Ok(assemble_results(chunks, dim, out_data))
}

} // verus!

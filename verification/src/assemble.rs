use vstd::prelude::*;

use crate::errors::EmbedError;

verus! {

/// One (chunk, vector) pair of the response.
///
/// The vector is carried as the bit patterns of its 32-bit float entries,
/// so that the assembly logic can be stated and proved over plain integers;
/// the application boundary converts bits to floats.
pub struct EmbeddingResult {
    /// The originating chunk text, unmodified.
    pub chunk_text: String,
    /// The chunk's embedding row, one 32-bit entry per dimension.
    pub embedding: Vec<u32>,
}

/// `res` pairs row `i` of the row-major `[chunks.len(), dim]` buffer `data`
/// with chunk `i`, in input order.
pub open spec fn assembled(
    res: Seq<EmbeddingResult>,
    chunks: Seq<String>,
    dim: nat,
    data: Seq<u32>,
) -> bool {
    &&& res.len() == chunks.len()
    &&& forall|i: int|
        0 <= i < res.len() ==> (#[trigger] res[i]).chunk_text@ == chunks[i]@ && res[i].embedding@
            == data.subrange(i * dim, (i + 1) * dim)
}

/// Result Assembler: pair row `i` of the output buffer with chunk `i`'s
/// original text, preserving input order; no reordering or filtering.
pub fn assemble_results(chunks: &Vec<String>, dim: usize, data: &Vec<u32>) -> (res: Vec<
    EmbeddingResult,
>)
    requires
        data@.len() == chunks@.len() * dim,
    ensures
        assembled(res@, chunks@, dim as nat, data@),
        forall|i: int| 0 <= i < res@.len() ==> (#[trigger] res@[i]).embedding@.len() == dim,
{
    let n = chunks.len();
    let dlen = data.len();
    let mut res: Vec<EmbeddingResult> = Vec::new();
    let mut off: usize = 0;
    let mut i: usize = 0;
    while i < n
        invariant
            i <= n,
            n == chunks@.len(),
            data@.len() == n * dim,
            data@.len() == dlen,
            off == i * dim,
            res@.len() == i,
            forall|k: int|
                0 <= k < i ==> (#[trigger] res@[k]).chunk_text@ == chunks@[k]@ && res@[k].embedding@
                    == data@.subrange(k * dim, (k + 1) * dim),
        decreases n - i,
    {
        proof {
            assert((i + 1) * dim <= n * dim) by (nonlinear_arith)
                requires
                    i < n,
            ;
            assert(i * dim + dim == (i + 1) * dim) by (nonlinear_arith);
        }
        let mut emb: Vec<u32> = Vec::new();
        let mut j: usize = 0;
        while j < dim
            invariant
                j <= dim,
                off == i * dim + j,
                i * dim + dim <= data@.len(),
                data@.len() == dlen,
                emb@ == data@.subrange(i * dim, i * dim + j),
            decreases dim - j,
        {
            emb.push(data[off]);
            proof {
                assert(emb@ =~= data@.subrange(i * dim, i * dim + (j + 1)));
            }
            off += 1;
            j += 1;
        }
        res.push(EmbeddingResult { chunk_text: chunks[i].clone(), embedding: emb });
        i += 1;
    }
    proof {
        assert forall|k: int| 0 <= k < res@.len() implies (#[trigger] res@[k]).embedding@.len()
            == dim by {
            assert(0 <= k * dim && (k + 1) * dim <= n * dim && (k + 1) * dim - k * dim == dim)
                by (nonlinear_arith)
                requires
                    0 <= k < n,
                    0 <= dim,
            ;
        }
    }
    res
}

/// Inference-output validation: the retrieved tensor must have exactly two
/// dimensions, `[rows, dim]`, and its buffer must hold exactly
/// `rows * dim` entries.  Any other rank or extent is a `ShapeMismatch`.
pub fn validate_output(shape: &Vec<usize>, rows: usize, data_len: usize) -> (r: Result<
    usize,
    EmbedError,
>)
    ensures
        (r is Ok) <==> (shape@.len() == 2 && shape@[0] == rows && data_len == shape@[0] * shape@[1]),
        r matches Ok(d) ==> d == shape@[1],
        r is Err ==> r == Err::<usize, EmbedError>(EmbedError::ShapeMismatch),
{
    if shape.len() != 2 {
        return Err(EmbedError::ShapeMismatch);
    }
    if shape[0] != rows {
        return Err(EmbedError::ShapeMismatch);
    }
    let dim = shape[1];
    match rows.checked_mul(dim) {
        Some(expect) if expect == data_len => Ok(dim),
        _ => Err(EmbedError::ShapeMismatch),
    }
}

/// Dimensional-consistency law: all embeddings of any two responses that
/// were each assembled at one output width `d` have identical length.
/// Across requests, a loaded model answers with one fixed width, so every
/// successful call shares that `d`.
pub proof fn lemma_dimensional_consistency(
    a: Seq<EmbeddingResult>,
    b: Seq<EmbeddingResult>,
    d: nat,
)
    requires
        forall|i: int| 0 <= i < a.len() ==> (#[trigger] a[i]).embedding@.len() == d,
        forall|i: int| 0 <= i < b.len() ==> (#[trigger] b[i]).embedding@.len() == d,
    ensures
        forall|i: int, j: int|
            0 <= i < a.len() && 0 <= j < b.len() ==> (#[trigger] a[i]).embedding@.len() == (
            #[trigger] b[j]).embedding@.len(),
{
}

} // verus!

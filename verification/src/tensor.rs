use vstd::prelude::*;

use crate::errors::EmbedError;

verus! {

/// One chunk's tokenization result: token ids and the matching attention
/// mask, kept at their natural (unpadded) length.
pub struct TokenEncoding {
    pub ids: Vec<u32>,
    pub mask: Vec<u32>,
}

impl TokenEncoding {
    /// Ids and mask walk in parallel: equal lengths.
    pub open spec fn wf(self) -> bool {
        self.ids@.len() == self.mask@.len()
    }

    /// The natural token length of the chunk, before any padding.
    pub open spec fn natural_len(self) -> nat {
        self.ids@.len()
    }

    pub fn len(&self) -> (n: usize)
        ensures
            n == self.natural_len(),
    {
        self.ids.len()
    }
}

pub open spec fn all_wf(encs: Seq<TokenEncoding>) -> bool {
    forall|i: int| 0 <= i < encs.len() ==> #[trigger] encs[i].wf()
}

/// The padded length of a batch: the maximum natural length across its
/// encodings, and 0 for an empty batch.
pub open spec fn batch_padded_len(encs: Seq<TokenEncoding>) -> nat
    decreases encs.len(),
{
    if encs.len() == 0 {
        0
    } else {
        let rest = batch_padded_len(encs.drop_last());
        if encs.last().natural_len() > rest {
            encs.last().natural_len()
        } else {
            rest
        }
    }
}

/// No encoding is longer than the batch's padded length.
pub proof fn lemma_padded_len_is_max(encs: Seq<TokenEncoding>)
    ensures
        forall|i: int|
            0 <= i < encs.len() ==> #[trigger] encs[i].natural_len() <= batch_padded_len(encs),
    decreases encs.len(),
{
    if encs.len() > 0 {
        lemma_padded_len_is_max(encs.drop_last());
        assert forall|i: int|
            0 <= i < encs.len() implies #[trigger] encs[i].natural_len() <= batch_padded_len(
            encs,
        ) by {
            if i < encs.len() - 1 {
                assert(encs.drop_last()[i] == encs[i]);
            }
        }
    }
}

/// One row of the id tensor: the encoding's ids, right-padded with 0 up to
/// `cols` entries.
pub open spec fn padded_ids_row(e: TokenEncoding, cols: nat) -> Seq<i64> {
    Seq::new(cols, |j: int| if j < e.ids@.len() { e.ids@[j] as i64 } else { 0 })
}

/// One row of the mask tensor: the encoding's attention mask, right-padded
/// with 0 up to `cols` entries.
pub open spec fn padded_mask_row(e: TokenEncoding, cols: nat) -> Seq<i64> {
    Seq::new(cols, |j: int| if j < e.mask@.len() { e.mask@[j] as i64 } else { 0 })
}

/// The id buffer of a batch: every row padded to `cols`, flattened in chunk
/// order (row-major).
pub open spec fn flat_ids(encs: Seq<TokenEncoding>, cols: nat) -> Seq<i64>
    decreases encs.len(),
{
    if encs.len() == 0 {
        Seq::empty()
    } else {
        flat_ids(encs.drop_last(), cols) + padded_ids_row(encs.last(), cols)
    }
}

/// The mask buffer of a batch, flattened like `flat_ids`.
pub open spec fn flat_mask(encs: Seq<TokenEncoding>, cols: nat) -> Seq<i64>
    decreases encs.len(),
{
    if encs.len() == 0 {
        Seq::empty()
    } else {
        flat_mask(encs.drop_last(), cols) + padded_mask_row(encs.last(), cols)
    }
}

pub proof fn lemma_flat_len(encs: Seq<TokenEncoding>, cols: nat)
    ensures
        flat_ids(encs, cols).len() == encs.len() * cols,
        flat_mask(encs, cols).len() == encs.len() * cols,
    decreases encs.len(),
{
    if encs.len() > 0 {
        lemma_flat_len(encs.drop_last(), cols);
        assert((encs.len() - 1) * cols + cols == encs.len() * cols) by (nonlinear_arith);
    }
}

/// A rectangular pair of `[rows, cols]` tensors, flattened row-major: the
/// token ids and the attention mask of one batch.
pub struct BatchTensor {
    pub rows: usize,
    pub cols: usize,
    pub ids: Vec<i64>,
    pub mask: Vec<i64>,
}

impl BatchTensor {
    /// Both buffers hold exactly `rows * cols` entries: no ragged rows.
    pub open spec fn wf(self) -> bool {
        &&& self.ids@.len() == self.rows * self.cols
        &&& self.mask@.len() == self.rows * self.cols
    }

    /// The tensor is exactly the batch-relative padding and flattening of
    /// the given encodings.
    pub open spec fn matches(self, encs: Seq<TokenEncoding>) -> bool {
        &&& self.rows == encs.len()
        &&& self.cols == batch_padded_len(encs)
        &&& self.ids@ == flat_ids(encs, batch_padded_len(encs))
        &&& self.mask@ == flat_mask(encs, batch_padded_len(encs))
    }
}

/// Batch Tensor Builder: pad every encoding to the longest natural length
/// in this batch, and flatten ids and masks in chunk order into two
/// `[rows, cols]` buffers.
///
/// The only failure is a batch whose `rows * cols` does not fit in `usize`,
/// an internal-invariant violation reported as `ShapeMismatch`.
pub fn build_batch_tensors(encs: &Vec<TokenEncoding>) -> (r: Result<BatchTensor, EmbedError>)
    requires
        all_wf(encs@),
    ensures
        (r is Ok) <==> encs@.len() * batch_padded_len(encs@) <= usize::MAX,
        r matches Ok(t) ==> t.matches(encs@) && t.wf() && forall|i: int|
            0 <= i < encs@.len() ==> #[trigger] encs@[i].natural_len() <= t.cols,
        r is Err ==> r == Err::<BatchTensor, EmbedError>(EmbedError::ShapeMismatch),
{
    let n = encs.len();
    let mut cols: usize = 0;
    let mut i: usize = 0;
    while i < n
        invariant
            i <= n,
            n == encs@.len(),
            cols == batch_padded_len(encs@.subrange(0, i as int)),
        decreases n - i,
    {
        proof {
            assert(encs@.subrange(0, (i + 1) as int).drop_last() =~= encs@.subrange(0, i as int));
            assert(encs@.subrange(0, (i + 1) as int).last() == encs@[i as int]);
        }
        let e = &encs[i];
        let li = e.ids.len();
        if li > cols {
            cols = li;
        }
        i += 1;
    }
    proof {
        assert(encs@.subrange(0, n as int) =~= encs@);
    }
    let total = match n.checked_mul(cols) {
        Some(t) => t,
        None => {
            return Err(EmbedError::ShapeMismatch);
        },
    };
    proof {
        lemma_flat_len(encs@, cols as nat);
    }
    let mut ids: Vec<i64> = Vec::new();
    let mut mask: Vec<i64> = Vec::new();
    let mut row: usize = 0;
    while row < n
        invariant
            row <= n,
            n == encs@.len(),
            all_wf(encs@),
            cols == batch_padded_len(encs@),
            ids@ == flat_ids(encs@.subrange(0, row as int), cols as nat),
            mask@ == flat_mask(encs@.subrange(0, row as int), cols as nat),
        decreases n - row,
    {
        let e = &encs[row];
        let mut j: usize = 0;
        while j < cols
            invariant
                j <= cols,
                row < n,
                n == encs@.len(),
                all_wf(encs@),
                e == &encs@[row as int],
                ids@ == flat_ids(encs@.subrange(0, row as int), cols as nat) + padded_ids_row(
                    encs@[row as int],
                    cols as nat,
                ).subrange(0, j as int),
                mask@ == flat_mask(encs@.subrange(0, row as int), cols as nat) + padded_mask_row(
                    encs@[row as int],
                    cols as nat,
                ).subrange(0, j as int),
            decreases cols - j,
        {
            proof {
                assert(encs@[row as int].wf());
            }
            if j < e.ids.len() {
                ids.push(e.ids[j] as i64);
                mask.push(e.mask[j] as i64);
            } else {
                ids.push(0);
                mask.push(0);
            }
            proof {
                assert(encs@[row as int].wf());
                assert(ids@ =~= flat_ids(encs@.subrange(0, row as int), cols as nat)
                    + padded_ids_row(encs@[row as int], cols as nat).subrange(0, (j + 1) as int));
                assert(mask@ =~= flat_mask(encs@.subrange(0, row as int), cols as nat)
                    + padded_mask_row(encs@[row as int], cols as nat).subrange(0, (j + 1) as int));
            }
            j += 1;
        }
        proof {
            let p = encs@.subrange(0, (row + 1) as int);
            assert(p.drop_last() =~= encs@.subrange(0, row as int));
            assert(p.last() == encs@[row as int]);
            assert(padded_ids_row(encs@[row as int], cols as nat).subrange(0, cols as int)
                =~= padded_ids_row(encs@[row as int], cols as nat));
            assert(padded_mask_row(encs@[row as int], cols as nat).subrange(0, cols as int)
                =~= padded_mask_row(encs@[row as int], cols as nat));
            assert(ids@ == flat_ids(p, cols as nat));
            assert(mask@ == flat_mask(p, cols as nat));
        }
        row += 1;
    }
    proof {
        assert(encs@.subrange(0, n as int) =~= encs@);
        lemma_padded_len_is_max(encs@);
    }
    Ok(BatchTensor { rows: n, cols, ids, mask })
}

} // verus!

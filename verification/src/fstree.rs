use vstd::prelude::*;

use vstd::string::StringSliceAdditionalSpecFns;

verus! {

/// One entry of a filesystem-tree listing.
#[derive(Debug)]
pub struct FileItem {
    pub name: String,
    pub path: String,
    pub is_dir: bool,
    pub children: Option<Vec<FileItem>>,
}

/// The UTF-8 bytes of the lowercase form of `s`; the result depends on the
/// characters of `s` alone.
pub uninterp spec fn lower_bytes_of(s: Seq<char>) -> Seq<u8>;

/// Relies on `str::to_lowercase` (and `String::into_bytes`, which merely
/// exposes the string's bytes): the lowercase form is a function of the
/// input characters alone, and an empty input stays empty.
#[verifier::external_body]
fn lowercase_bytes(s: &str) -> (r: Vec<u8>)
    ensures
        r@ == lower_bytes_of(s@),
        s@.len() == 0 ==> r@.len() == 0,
{
    s.to_lowercase().into_bytes()
}

/// Lexicographic order on byte sequences, the order `str`'s comparison
/// uses: a prefix comes first, otherwise the first differing byte decides.
pub open spec fn lex_le(a: Seq<u8>, b: Seq<u8>) -> bool
    decreases a.len(),
{
    if a.len() == 0 {
        true
    } else if b.len() == 0 {
        false
    } else if a[0] == b[0] {
        lex_le(a.drop_first(), b.drop_first())
    } else {
        a[0] < b[0]
    }
}

/// Skipping a common prefix does not change the lexicographic comparison.
proof fn lemma_lex_le_skip(a: Seq<u8>, b: Seq<u8>, i: int)
    requires
        0 <= i <= a.len(),
        i <= b.len(),
        forall|k: int| 0 <= k < i ==> a[k] == b[k],
    ensures
        lex_le(a, b) == lex_le(a.skip(i), b.skip(i)),
    decreases i,
{
    if i > 0 {
        assert(a.len() > 0 && b.len() > 0 && a[0] == b[0]);
        assert(forall|k: int| 0 <= k < i - 1 ==> a.drop_first()[k] == b.drop_first()[k]);
        lemma_lex_le_skip(a.drop_first(), b.drop_first(), i - 1);
        assert(a.drop_first().skip(i - 1) =~= a.skip(i));
        assert(b.drop_first().skip(i - 1) =~= b.skip(i));
    } else {
        assert(a.skip(0) =~= a);
        assert(b.skip(0) =~= b);
    }
}

/// `lex_le` is total: of any two byte sequences, one comes no later than
/// the other.
pub proof fn lemma_lex_le_total(a: Seq<u8>, b: Seq<u8>)
    ensures
        lex_le(a, b) || lex_le(b, a),
    decreases a.len(),
{
    if a.len() > 0 && b.len() > 0 && a[0] == b[0] {
        lemma_lex_le_total(a.drop_first(), b.drop_first());
    }
}

/// `lex_le` is transitive, so together with totality it orders byte
/// sequences as a total preorder.
pub proof fn lemma_lex_le_trans(a: Seq<u8>, b: Seq<u8>, c: Seq<u8>)
    requires
        lex_le(a, b),
        lex_le(b, c),
    ensures
        lex_le(a, c),
    decreases a.len(),
{
    if a.len() > 0 && b.len() > 0 && c.len() > 0 && a[0] == c[0] {
        if a[0] == b[0] && b[0] == c[0] {
            lemma_lex_le_trans(a.drop_first(), b.drop_first(), c.drop_first());
        }
    }
}

/// The listing order: directories before files, and within each group the
/// case-insensitive alphabetical order of the names.
pub open spec fn entry_le(a: FileItem, b: FileItem) -> bool {
    if a.is_dir != b.is_dir {
        a.is_dir
    } else {
        lex_le(lower_bytes_of(a.name@), lower_bytes_of(b.name@))
    }
}

/// `entry_le` inherits totality from `lex_le`.
pub proof fn lemma_entry_le_total(a: FileItem, b: FileItem)
    ensures
        entry_le(a, b) || entry_le(b, a),
{
    lemma_lex_le_total(lower_bytes_of(a.name@), lower_bytes_of(b.name@));
}

/// `entry_le` inherits transitivity from `lex_le`.
pub proof fn lemma_entry_le_trans(a: FileItem, b: FileItem, c: FileItem)
    requires
        entry_le(a, b),
        entry_le(b, c),
    ensures
        entry_le(a, c),
{
    if a.is_dir == b.is_dir && b.is_dir == c.is_dir {
        lemma_lex_le_trans(
            lower_bytes_of(a.name@),
            lower_bytes_of(b.name@),
            lower_bytes_of(c.name@),
        );
    }
}

/// Byte-wise lexicographic comparison, proved against `lex_le`.
fn byte_lex_le(x: &Vec<u8>, y: &Vec<u8>) -> (r: bool)
    ensures
        r == lex_le(x@, y@),
{
    let xn = x.len();
    let yn = y.len();
    let mut i: usize = 0;
    while i < xn && i < yn
        invariant
            i <= xn,
            i <= yn,
            xn == x@.len(),
            yn == y@.len(),
            forall|k: int| 0 <= k < i ==> x@[k] == y@[k],
        decreases xn - i,
    {
        if x[i] < y[i] {
            proof {
                lemma_lex_le_skip(x@, y@, i as int);
            }
            return true;
        }
        if x[i] > y[i] {
            proof {
                lemma_lex_le_skip(x@, y@, i as int);
            }
            return false;
        }
        i += 1;
    }
    proof {
        lemma_lex_le_skip(x@, y@, i as int);
    }
    xn <= yn
}

fn entry_precedes(a: &FileItem, b: &FileItem) -> (r: bool)
    ensures
        r == entry_le(*a, *b),
{
    if a.is_dir && !b.is_dir {
        true
    } else if !a.is_dir && b.is_dir {
        false
    } else {
        let la = lowercase_bytes(a.name.as_str());
        let lb = lowercase_bytes(b.name.as_str());
        byte_lex_le(&la, &lb)
    }
}

/// Whether `entries` is ordered by the listing order.
pub open spec fn entries_sorted(entries: Seq<FileItem>) -> bool {
    forall|i: int, j: int|
        0 <= i < j < entries.len() ==> entry_le(#[trigger] entries[i], #[trigger] entries[j])
}

/// Sort the entries into the listing order (insertion sort), keeping
/// exactly the same entries.
pub fn sort_file_items(items: &mut Vec<FileItem>)
    ensures
        final(items)@.to_multiset() == old(items)@.to_multiset(),
        entries_sorted(final(items)@),
{
    let n = items.len();
    if n == 0 {
        return;
    }
    let mut i: usize = 1;
    while i < n
        invariant
            1 <= i <= n,
            n == items@.len(),
            items@.to_multiset() == old(items)@.to_multiset(),
            entries_sorted(items@.subrange(0, i as int)),
        decreases n - i,
    {
        let mut p: usize = 0;
        while p < i && entry_precedes(&items[p], &items[i])
            invariant
                p <= i,
                i < n,
                n == items@.len(),
                forall|k: int| 0 <= k < p ==> entry_le(#[trigger] items@[k], items@[i as int]),
            decreases i - p,
        {
            p += 1;
        }
        let ghost pre = items@;
        let x = items.remove(i);
        items.insert(p, x);
        proof {
            assert(pre.contains(pre[i as int]));
            assert(items@ == pre.remove(i as int).insert(p as int, x));
            vstd::seq_lib::to_multiset_insert(pre.remove(i as int), p as int, x);
            vstd::seq_lib::to_multiset_remove(pre, i as int);
            vstd::seq_lib::to_multiset_contains(pre, pre[i as int]);
            assert(pre.to_multiset().count(pre[i as int]) > 0);
            assert(pre.to_multiset().remove(pre[i as int]).insert(pre[i as int])
                =~= pre.to_multiset());
            assert(items@.to_multiset() == pre.to_multiset());
            let s_new = items@;
            assert forall|a: int, b: int|
                0 <= a < b <= i implies entry_le(s_new[a], s_new[b]) by {
                let sp = pre.subrange(0, i as int);
                if b < p {
                    assert(s_new[a] == pre[a] && s_new[b] == pre[b]);
                    assert(entry_le(sp[a], sp[b]));
                } else if b == p {
                    assert(s_new[a] == pre[a] && s_new[b] == pre[i as int]);
                } else {
                    assert(s_new[b] == pre[b - 1]);
                    if a < p {
                        assert(s_new[a] == pre[a]);
                        assert(entry_le(sp[a], sp[b - 1]));
                    } else if a == p {
                        assert(s_new[a] == pre[i as int]);
                        lemma_entry_le_total(pre[p as int], pre[i as int]);
                        if b - 1 > p {
                            assert(entry_le(sp[p as int], sp[b - 1]));
                            lemma_entry_le_trans(pre[i as int], pre[p as int], pre[b - 1]);
                        }
                    } else {
                        assert(s_new[a] == pre[a - 1]);
                        assert(entry_le(sp[a - 1], sp[b - 1]));
                    }
                }
            }
            assert(entries_sorted(items@.subrange(0, (i + 1) as int)));
        }
        i += 1;
    }
    proof {
        assert(items@.subrange(0, n as int) =~= items@);
    }
}

/// Whether a listing entry is hidden (Unix-style): its name starts with a
/// dot.
pub fn is_hidden(name: &str) -> (r: bool)
    ensures
        r == (name.spec_bytes().len() > 0 && name.spec_bytes()[0] == 46u8),
{
    let bs = name.as_bytes();
    if bs.len() > 0 {
        bs[0] == 46u8
    } else {
        false
    }
}

} // verus!

//! Batch orchestration: flattening item inputs into one batched request, and
//! slicing the batched outputs back into per-item fragments.
//!
//! Every slice is clamped to the length of the buffer it is taken from, so an
//! undersized or malformed response yields short (or empty) fragments rather
//! than a fault.

use vstd::prelude::*;

verus! {

/// Per-item value output length.
pub const VALUE_PER_ITEM: usize = 3;

/// Per-item miscvalue output length, when the buffer holds that many.
pub const MISCVALUE_PER_ITEM: usize = 10;

/// Raw outputs of one batched inference call, still batched. Tensors hold the
/// bit patterns of `f32` values.
#[derive(Debug, Clone)]
pub struct InferenceResult {
    pub policy: Vec<u32>,
    pub value: Vec<u32>,
    pub miscvalue: Vec<u32>,
    pub ownership: Option<Vec<u32>>,
    pub policy_dims: Vec<usize>,
}

/// The outputs that belong to one item of a batch.
#[derive(Debug, Clone)]
pub struct ItemOutputs {
    pub policy: Vec<u32>,
    pub value: Vec<u32>,
    pub miscvalue: Vec<u32>,
    pub ownership: Option<Vec<u32>>,
    /// The policy shape of this item alone (batch dimension 1).
    pub policy_dims: Vec<usize>,
}

/// One position to analyse in a batch: its board, one sign per point, and the
/// analysis options that the featurizer reads.
#[derive(Debug, Clone)]
pub struct BatchInput<O> {
    pub sign_map: Vec<Vec<i8>>,
    pub options: O,
}

/// The board edge that a batch shares: that of its first position, or `None`
/// for an empty batch.
pub fn batch_board_size<O>(inputs: &Vec<BatchInput<O>>) -> (r: Option<usize>)
    ensures
        inputs@.len() == 0 ==> r is None,
        inputs@.len() > 0 ==> r == Some(inputs@[0].sign_map@.len() as usize),
{
    if inputs.len() == 0 {
        None
    } else {
        Some(inputs[0].sign_map.len())
    }
}

/// The featurized inputs of one item.
#[derive(Debug, Clone)]
pub struct FeaturizedItem {
    pub bin_input: Vec<u32>,
    pub global_input: Vec<u32>,
}

/// The inputs of one batched inference call, item-major.
#[derive(Debug, Clone)]
pub struct BatchRequest {
    pub bin_input: Vec<u32>,
    pub global_input: Vec<u32>,
    pub batch_size: usize,
}

/// Product of a sequence of dimensions.
pub open spec fn dims_product(s: Seq<usize>) -> int
    decreases s.len(),
{
    if s.len() == 0 {
        1
    } else {
        dims_product(s.drop_last()) * s.last()
    }
}

/// `x`, but no more than `len`.
pub open spec fn clamp(x: int, len: int) -> int {
    if x < len {
        x
    } else {
        len
    }
}

/// The slice of `buf` that item `b` owns when each item owns `size` elements,
/// both bounds clamped to the buffer.
pub open spec fn window(buf: Seq<u32>, size: int, b: int) -> Seq<u32> {
    buf.subrange(clamp(b * size, buf.len() as int), clamp(b * size + size, buf.len() as int))
}

/// Per-item policy length: the product of the declared dimensions after the
/// batch dimension, or the buffer split evenly when no shape was declared.
pub open spec fn policy_item_len(dims: Seq<usize>, policy_len: int, n: int) -> int {
    if dims.len() >= 2 {
        dims_product(dims.subrange(1, dims.len() as int))
    } else {
        policy_len / n
    }
}

/// Per-item miscvalue length: the fixed width when the buffer is large enough
/// for it, else the buffer split evenly.
pub open spec fn misc_item_len(misc_len: int, n: int) -> int {
    if misc_len >= n * MISCVALUE_PER_ITEM {
        MISCVALUE_PER_ITEM as int
    } else {
        misc_len / n
    }
}

/// The policy shape handed with each item: the declared shape with the batch
/// dimension set to 1, or `[1, per-item length]`.
pub open spec fn item_policy_dims(dims: Seq<usize>, policy_len: int, n: int) -> Seq<usize> {
    if dims.len() >= 2 {
        dims.update(0, 1)
    } else {
        seq![1usize, (policy_len / n) as usize]
    }
}

/// What item `b` of a batch of `n` on an edge-`board` board receives.
pub open spec fn item_matches(
    out: ItemOutputs,
    res: InferenceResult,
    n: int,
    board: int,
    b: int,
) -> bool {
    &&& out.policy@ == window(
        res.policy@,
        policy_item_len(res.policy_dims@, res.policy@.len() as int, n),
        b,
    )
    &&& out.value@ == window(res.value@, VALUE_PER_ITEM as int, b)
    &&& out.miscvalue@ == window(res.miscvalue@, misc_item_len(res.miscvalue@.len() as int, n), b)
    &&& match res.ownership {
        Some(own) => out.ownership matches Some(o) && o@ == window(own@, board * board, b),
        None => out.ownership is None,
    }
    &&& out.policy_dims@ == item_policy_dims(res.policy_dims@, res.policy@.len() as int, n)
}

proof fn lemma_capped_step(p: int, d: int, cap: int)
    requires
        p >= 0,
        d >= 0,
        cap >= 0,
    ensures
        clamp(clamp(p, cap) * d, cap) == clamp(p * d, cap),
{
    if p >= cap && d >= 1 {
        assert(p * d >= p) by (nonlinear_arith)
            requires
                d >= 1,
                p >= 0,
        ;
        assert(cap * d >= cap) by (nonlinear_arith)
            requires
                d >= 1,
                cap >= 0,
        ;
    }
}

/// `a * b`, but no more than `cap`.
fn capped_mul(a: usize, b: usize, cap: usize) -> (r: usize)
    ensures
        r == clamp(a * b, cap as int),
{
    if b != 0 && a > cap / b {
        assert(a * b > cap) by (nonlinear_arith)
            requires
                b > 0,
                a > cap / b,
        ;
        cap
    } else {
        assert(a * b <= cap) by (nonlinear_arith)
            requires
                b == 0 || a <= cap / b,
        ;
        a * b
    }
}

/// The product of `dims[1..]`, but no more than `cap`.
fn capped_tail_product(dims: &Vec<usize>, cap: usize) -> (r: usize)
    requires
        dims@.len() >= 1,
    ensures
        r == clamp(dims_product(dims@.subrange(1, dims@.len() as int)), cap as int),
{
    let mut acc: usize = if cap >= 1 {
        1
    } else {
        0
    };
    let mut k: usize = 1;
    while k < dims.len()
        invariant
            1 <= k <= dims@.len(),
            acc == clamp(dims_product(dims@.subrange(1, k as int)), cap as int),
        decreases dims@.len() - k,
    {
        let ghost p = dims_product(dims@.subrange(1, k as int));
        assert(dims@.subrange(1, k + 1).drop_last() =~= dims@.subrange(1, k as int));
        assert(p >= 0) by {
            lemma_product_nonneg(dims@.subrange(1, k as int));
        }
        proof {
            lemma_capped_step(p, dims@[k as int] as int, cap as int);
        }
        acc = capped_mul(acc, dims[k], cap);
        k = k + 1;
    }
    assert(dims@.subrange(1, dims@.len() as int) =~= dims@.subrange(1, k as int));
    acc
}

proof fn lemma_product_nonneg(s: Seq<usize>)
    ensures
        dims_product(s) >= 0,
    decreases s.len(),
{
    if s.len() > 0 {
        lemma_product_nonneg(s.drop_last());
        let p = dims_product(s.drop_last());
        let d = s.last() as int;
        assert(p * d >= 0) by (nonlinear_arith)
            requires
                p >= 0,
                d >= 0,
        ;
    }
}

/// Clamping the per-item size to the buffer length changes no window.
proof fn lemma_window_capped(len: int, size: int, b: int)
    requires
        len >= 0,
        size >= 0,
        b >= 0,
    ensures
        clamp(b * clamp(size, len), len) == clamp(b * size, len),
        clamp(b * clamp(size, len) + clamp(size, len), len) == clamp(b * size + size, len),
{
    if size >= len {
        if b >= 1 {
            assert(b * size >= size && b * len >= len) by (nonlinear_arith)
                requires
                    b >= 1,
                    size >= 0,
                    len >= 0,
            ;
        }
        assert(b * size >= 0 && b * len >= 0) by (nonlinear_arith)
            requires
                b >= 0,
                size >= 0,
                len >= 0,
        ;
    }
}

/// A copy of `buf[start..end]`.
fn copy_range(buf: &Vec<u32>, start: usize, end: usize) -> (r: Vec<u32>)
    requires
        start <= end <= buf@.len(),
    ensures
        r@ == buf@.subrange(start as int, end as int),
{
    let mut out: Vec<u32> = Vec::new();
    let mut i: usize = start;
    while i < end
        invariant
            start <= i <= end,
            end <= buf@.len(),
            out@ == buf@.subrange(start as int, i as int),
        decreases end - i,
    {
        out.push(buf[i]);
        i = i + 1;
        assert(out@ =~= buf@.subrange(start as int, i as int));
    }
    out
}

/// The slice of `buf` that item `b` owns, given a per-item size already
/// clamped to the buffer length.
fn take_window(buf: &Vec<u32>, size: usize, b: usize) -> (r: Vec<u32>)
    requires
        size <= buf@.len(),
    ensures
        r@ == window(buf@, size as int, b as int),
{
    let len = buf.len();
    let start = capped_mul(b, size, len);
    let end = if size < len - start {
        start + size
    } else {
        len
    };
    proof {
        if b * size < len {
            assert(start == b * size);
        } else {
            assert(start == len);
            assert(b * size + size >= len) by (nonlinear_arith)
                requires
                    b * size >= len,
                    size >= 0,
            ;
        }
    }
    copy_range(buf, start, end)
}

/// The slice of `buf` that item `b` owns when each item owns `size` elements.
fn item_window(buf: &Vec<u32>, size: usize, b: usize) -> (r: Vec<u32>)
    ensures
        r@ == window(buf@, size as int, b as int),
{
    let len = buf.len();
    let capped = if size < len {
        size
    } else {
        len
    };
    proof {
        lemma_window_capped(len as int, size as int, b as int);
    }
    take_window(buf, capped, b)
}

/// The policy shape handed with each item.
fn item_dims(dims: &Vec<usize>, policy_len: usize, n: usize) -> (r: Vec<usize>)
    requires
        n >= 1,
    ensures
        r@ == item_policy_dims(dims@, policy_len as int, n as int),
{
    let mut out: Vec<usize> = Vec::new();
    if dims.len() >= 2 {
        out.push(1);
        let mut k: usize = 1;
        while k < dims.len()
            invariant
                1 <= k <= dims@.len(),
                out@ == dims@.update(0, 1).take(k as int),
            decreases dims@.len() - k,
        {
            out.push(dims[k]);
            k = k + 1;
            assert(out@ =~= dims@.update(0, 1).take(k as int));
        }
        assert(out@ =~= dims@.update(0, 1));
    } else {
        out.push(1);
        out.push(policy_len / n);
        assert(out@ =~= seq![1usize, (policy_len / n) as usize]);
    }
    out
}

/// Slices the outputs of one batched call of `batch_size` items, on a board of
/// edge `board_size`, into one fragment per item, in item order.
///
/// Item `b` receives `[b * size, (b + 1) * size)` of each output, both bounds
/// clamped to the output's length: the policy size is the product of the
/// declared dimensions after the first (or the policy split evenly when fewer
/// than two are declared), the value size is 3, the miscvalue size is 10 when the
/// buffer holds 10 per item (else the buffer split evenly), and the ownership
/// size is `board_size * board_size`; ownership is sliced only when present.
pub fn split_batch_outputs(
    result: &InferenceResult,
    batch_size: usize,
    board_size: usize,
) -> (r: Vec<ItemOutputs>)
    requires
        batch_size >= 1,
    ensures
        r@.len() == batch_size,
        forall|b: int|
            0 <= b < batch_size ==> item_matches(
                #[trigger] r@[b],
                *result,
                batch_size as int,
                board_size as int,
                b,
            ),
{
    let n = batch_size;
    let policy_len = result.policy.len();
    let policy_size: usize = if result.policy_dims.len() >= 2 {
        capped_tail_product(&result.policy_dims, policy_len)
    } else {
        policy_len / n
    };
    proof {
        if result.policy_dims@.len() >= 2 {
            lemma_product_nonneg(result.policy_dims@.subrange(1, result.policy_dims@.len() as int));
        }
    }
    let misc_len = result.miscvalue.len();
    let misc_size: usize = if n <= misc_len / MISCVALUE_PER_ITEM {
        MISCVALUE_PER_ITEM
    } else {
        misc_len / n
    };
    assert(misc_size == misc_item_len(misc_len as int, n as int)) by (nonlinear_arith)
        requires
            n >= 1,
            misc_size == (if n <= misc_len / 10 {
                10
            } else {
                misc_len / n
            }),
            MISCVALUE_PER_ITEM == 10,
    ;
    let mut out: Vec<ItemOutputs> = Vec::new();
    let mut b: usize = 0;
    while b < n
        invariant
            n == batch_size,
            n >= 1,
            b <= n,
            out@.len() == b,
            policy_len == result.policy@.len(),
            misc_size == misc_item_len(result.miscvalue@.len() as int, n as int),
            policy_size <= policy_len,
            clamp(policy_item_len(result.policy_dims@, policy_len as int, n as int), policy_len as int)
                == policy_size,
            policy_item_len(result.policy_dims@, policy_len as int, n as int) >= 0,
            forall|i: int|
                0 <= i < b ==> item_matches(
                    #[trigger] out@[i],
                    *result,
                    batch_size as int,
                    board_size as int,
                    i,
                ),
        decreases n - b,
    {
        proof {
            lemma_window_capped(
                policy_len as int,
                policy_item_len(result.policy_dims@, policy_len as int, n as int),
                b as int,
            );
        }
        let policy = take_window(&result.policy, policy_size, b);
        let value = item_window(&result.value, VALUE_PER_ITEM, b);
        let miscvalue = item_window(&result.miscvalue, misc_size, b);
        let ownership = match &result.ownership {
            Some(own) => {
                let own_size = capped_mul(board_size, board_size, own.len());
                proof {
                    lemma_window_capped(
                        own@.len() as int,
                        board_size * board_size,
                        b as int,
                    );
                }
                Some(take_window(own, own_size, b))
            },
            None => None,
        };
        let policy_dims = item_dims(&result.policy_dims, policy_len, n);
        let item = ItemOutputs { policy, value, miscvalue, ownership, policy_dims };
        assert(item_matches(item, *result, batch_size as int, board_size as int, b as int));
        out.push(item);
        b = b + 1;
    }
    out
}

/// Appends all of `src` to `out`.
fn append_all(out: &mut Vec<u32>, src: &Vec<u32>)
    ensures
        final(out)@ == old(out)@ + src@,
{
    let mut j: usize = 0;
    while j < src.len()
        invariant
            j <= src@.len(),
            out@ == old(out)@ + src@.take(j as int),
        decreases src@.len() - j,
    {
        out.push(src[j]);
        j = j + 1;
        assert(out@ =~= old(out)@ + src@.take(j as int));
    }
    assert(src@.take(j as int) =~= src@);
}

/// The spatial inputs of `items`, one after another.
pub open spec fn flat_bin(items: Seq<FeaturizedItem>) -> Seq<u32> {
    items.map_values(|it: FeaturizedItem| it.bin_input@).flatten()
}

/// The global inputs of `items`, one after another.
pub open spec fn flat_global(items: Seq<FeaturizedItem>) -> Seq<u32> {
    items.map_values(|it: FeaturizedItem| it.global_input@).flatten()
}

/// The one batched request for `items`: their inputs concatenated in item
/// order, with the item count as batch size. An empty list needs no call at
/// all, and gives `None`.
pub fn prepare_batch(items: &Vec<FeaturizedItem>) -> (r: Option<BatchRequest>)
    ensures
        r is None <==> items@.len() == 0,
        r matches Some(req) ==> {
            &&& req.batch_size == items@.len()
            &&& req.bin_input@ == flat_bin(items@)
            &&& req.global_input@ == flat_global(items@)
        },
{
    if items.len() == 0 {
        return None;
    }
    let mut bin_input: Vec<u32> = Vec::new();
    let mut global_input: Vec<u32> = Vec::new();
    let mut i: usize = 0;
    while i < items.len()
        invariant
            i <= items@.len(),
            bin_input@ == flat_bin(items@.take(i as int)),
            global_input@ == flat_global(items@.take(i as int)),
        decreases items@.len() - i,
    {
        let item = &items[i];
        proof {
            let fb = |it: FeaturizedItem| it.bin_input@;
            let fg = |it: FeaturizedItem| it.global_input@;
            assert(items@.take(i + 1).map_values(fb) =~= items@.take(i as int).map_values(fb).push(
                item.bin_input@,
            ));
            assert(items@.take(i + 1).map_values(fg) =~= items@.take(i as int).map_values(fg).push(
                item.global_input@,
            ));
            items@.take(i as int).map_values(fb).lemma_flatten_push(item.bin_input@);
            items@.take(i as int).map_values(fg).lemma_flatten_push(item.global_input@);
        }
        append_all(&mut bin_input, &item.bin_input);
        append_all(&mut global_input, &item.global_input);
        i = i + 1;
    }
    assert(items@.take(i as int) =~= items@);
    Some(BatchRequest { bin_input, global_input, batch_size: items.len() })
}

/// Windows always lie inside their buffer: each window is the part of
/// `[b * size, (b + 1) * size)` that the buffer holds, and a window that starts
/// at or past the end of the buffer is empty.
pub proof fn lemma_window_clamped(buf: Seq<u32>, size: int, b: int)
    requires
        size >= 0,
        b >= 0,
    ensures
        0 <= clamp(b * size, buf.len() as int) <= clamp(b * size + size, buf.len() as int)
            <= buf.len(),
        window(buf, size, b).len() <= size,
        b * size >= buf.len() ==> window(buf, size, b).len() == 0,
{
    assert(b * size >= 0) by (nonlinear_arith)
        requires
            b >= 0,
            size >= 0,
    ;
}

/// A buffer that holds `n` items of `size` elements gives each of them exactly
/// its `size` elements, at `[b * size, (b + 1) * size)`.
pub proof fn lemma_full_window(buf: Seq<u32>, size: int, n: int, b: int)
    requires
        size >= 0,
        0 <= b < n,
        buf.len() >= n * size,
    ensures
        window(buf, size, b) == buf.subrange(b * size, b * size + size),
        window(buf, size, b).len() == size,
{
    assert(b * size + size <= n * size && b * size >= 0) by (nonlinear_arith)
        requires
            size >= 0,
            0 <= b < n,
    ;
}

/// Of each item of a split batch: it has an ownership fragment exactly when
/// the batch had ownership, and that fragment holds `board * board` elements
/// whenever the batched ownership holds that many per item.
pub proof fn lemma_item_ownership(out: ItemOutputs, res: InferenceResult, n: int, board: int, b: int)
    requires
        0 <= b < n,
        board >= 0,
        item_matches(out, res, n, board, b),
    ensures
        out.ownership is Some <==> res.ownership is Some,
        res.ownership matches Some(own) && own@.len() >= n * (board * board) ==> (
        out.ownership matches Some(o) && o@.len() == board * board),
{
    if res.ownership is Some {
        let own = res.ownership->0;
        if own@.len() >= n * (board * board) {
            assert(board * board >= 0) by (nonlinear_arith)
                requires
                    board >= 0,
            ;
            lemma_full_window(own@, board * board, n, b);
        }
    }
}

} // verus!

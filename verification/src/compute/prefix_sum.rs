//! The prefix sum turns the particle counts of the cells into running
//! totals.
//!
//! For example:
//! Input:  `[0, 1, 0, 3, 2]`
//! Output: `[0, 0, 1, 1, 4]`
//!
//! Each item of the result is the index of the first particle of a cell in
//! the packed particle data; the next item, being the index of the first
//! particle of the next cell, gives the number of particles of the cell. The
//! sum is taken in two stages: each workgroup sums a block of its own and
//! notes the block's total, and once the totals are summed themselves, each
//! block has the sum of the blocks before it added.

use crate::compute::buffers::BufferId;
use crate::compute::builder::{
    div_ceil, spec_div_ceil, AppComputeWorkerBuilder, PassView, PhysicsComputeWorker, ShaderId,
};
use crate::shared::PREFIX_SUM_ITEMS_PER_WORKGROUP;
use vstd::prelude::*;

verus! {

/// First stage of the prefix sum: what its two shaders have in common.
pub struct PrefixSumShaderDownSweepCommon;

impl PrefixSumShaderDownSweepCommon {
    /// The workgroups for `total_cells` items: one for each block.
    pub fn workgroups(total_cells: u32) -> (r: [u32; 3])
        ensures
            r@ == spec_prefix_sum_workgroups(total_cells),
    {
        let main_workgroup_size = div_ceil(total_cells, PREFIX_SUM_ITEMS_PER_WORKGROUP);
        let r = [main_workgroup_size, 1, 1];
        assert(r@ =~= spec_prefix_sum_workgroups(total_cells));
        r
    }
}

/// First stage of the prefix sum, over the main grid.
pub struct PrefixSumShaderDownSweepMain;

impl PrefixSumShaderDownSweepMain {
    /// Where the shader is found.
    pub fn shader() -> (r: &'static str)
        ensures
            r@ == "embedded://wrach_bevy/plugin/../../../../assets/shaders/prefix_sum.wgsl"@,
    {
        "embedded://wrach_bevy/plugin/../../../../assets/shaders/prefix_sum.wgsl"
    }

    /// The entry point of the shader.
    pub fn entry_point() -> (r: &'static str)
        ensures
            r@ == "reduce_downsweep_main"@,
    {
        "reduce_downsweep_main"
    }
}

/// First stage of the prefix sum, over the auxiliary grid.
pub struct PrefixSumShaderDownSweepAux;

impl PrefixSumShaderDownSweepAux {
    /// Where the shader is found.
    pub fn shader() -> (r: &'static str)
        ensures
            r@ == "embedded://wrach_bevy/plugin/../../../../assets/shaders/prefix_sum.wgsl"@,
    {
        "embedded://wrach_bevy/plugin/../../../../assets/shaders/prefix_sum.wgsl"
    }

    /// The entry point of the shader.
    pub fn entry_point() -> (r: &'static str)
        ensures
            r@ == "reduce_downsweep_aux"@,
    {
        "reduce_downsweep_aux"
    }
}

/// Second stage of the prefix sum: what its two shaders have in common.
pub struct PrefixSumShaderBoxSumsCommon;

impl PrefixSumShaderBoxSumsCommon {
    /// The workgroups for `total_cells` items: one for each block.
    pub fn workgroups(total_cells: u32) -> (r: [u32; 3])
        ensures
            r@ == spec_prefix_sum_workgroups(total_cells),
    {
        let main_workgroup_size = div_ceil(total_cells, PREFIX_SUM_ITEMS_PER_WORKGROUP);
        let r = [main_workgroup_size, 1, 1];
        assert(r@ =~= spec_prefix_sum_workgroups(total_cells));
        r
    }
}

/// Second stage of the prefix sum, over the main grid.
pub struct PrefixSumShaderBoxSumsMain;

impl PrefixSumShaderBoxSumsMain {
    /// Where the shader is found.
    pub fn shader() -> (r: &'static str)
        ensures
            r@ == "embedded://wrach_bevy/plugin/../../../../assets/shaders/prefix_sum.wgsl"@,
    {
        "embedded://wrach_bevy/plugin/../../../../assets/shaders/prefix_sum.wgsl"
    }

    /// The entry point of the shader.
    pub fn entry_point() -> (r: &'static str)
        ensures
            r@ == "add_block_sums_main"@,
    {
        "add_block_sums_main"
    }
}

/// Second stage of the prefix sum, over the auxiliary grid.
pub struct PrefixSumShaderBoxSumsAux;

impl PrefixSumShaderBoxSumsAux {
    /// Where the shader is found.
    pub fn shader() -> (r: &'static str)
        ensures
            r@ == "embedded://wrach_bevy/plugin/../../../../assets/shaders/prefix_sum.wgsl"@,
    {
        "embedded://wrach_bevy/plugin/../../../../assets/shaders/prefix_sum.wgsl"
    }

    /// The entry point of the shader.
    pub fn entry_point() -> (r: &'static str)
        ensures
            r@ == "add_block_sums_aux"@,
    {
        "add_block_sums_aux"
    }
}

/// The workgroups of a stage of the prefix sum over `total_cells` items.
pub open spec fn spec_prefix_sum_workgroups(total_cells: u32) -> Seq<u32> {
    seq![
        spec_div_ceil(total_cells as int, PREFIX_SUM_ITEMS_PER_WORKGROUP as int) as u32,
        1u32,
        1u32,
    ]
}

/// The first pass of a prefix sum: every block of `indices_buffer` is summed
/// and its total noted among the block sums.
pub open spec fn spec_down_sweep_pass(
    down_sweep: ShaderId,
    indices_buffer: BufferId,
    total_cells: u32,
) -> PassView {
    PassView {
        shader: down_sweep,
        workgroups: spec_prefix_sum_workgroups(total_cells),
        buffers: seq![BufferId::WorldSettings, indices_buffer, BufferId::IndicesBlockSums],
    }
}

/// The passes that a prefix sum over `total_cells` items of `indices_buffer`
/// adds to the passes `before`: the sum of the blocks; and, where there is
/// more than one block, the sum of the block totals and the pass that adds
/// to each block the total of the blocks before it.
pub open spec fn spec_prefix_sum_passes(
    before: Seq<PassView>,
    down_sweep: ShaderId,
    box_sums: ShaderId,
    indices_buffer: BufferId,
    total_cells: u32,
) -> Seq<PassView> {
    let remaining = spec_div_ceil(total_cells as int, PREFIX_SUM_ITEMS_PER_WORKGROUP as int) as u32;
    let first = before.push(spec_down_sweep_pass(down_sweep, indices_buffer, total_cells));
    if remaining > 1 {
        first.push(
            PassView {
                shader: down_sweep,
                workgroups: spec_prefix_sum_workgroups(remaining),
                buffers: seq![
                    BufferId::WorldSettings,
                    BufferId::IndicesBlockSums,
                    BufferId::IndicesBlockSums,
                ],
            },
        ).push(
            PassView {
                shader: box_sums,
                workgroups: spec_prefix_sum_workgroups(total_cells),
                buffers: seq![BufferId::WorldSettings, indices_buffer, BufferId::IndicesBlockSums],
            },
        )
    } else {
        first
    }
}

impl PhysicsComputeWorker {
    /// Adds the passes of a prefix sum over the `total_cells` items of
    /// `indices_buffer`.
    ///
    /// The prefix sum has two stages; more could be added, but two are enough
    /// for over four million cells.
    pub fn prefix_sum(
        builder: AppComputeWorkerBuilder,
        down_sweep: ShaderId,
        box_sums: ShaderId,
        indices_buffer: BufferId,
        total_cells: u32,
    ) -> (r: AppComputeWorkerBuilder)
        ensures
            r.spec_passes() == spec_prefix_sum_passes(
                builder.spec_passes(),
                down_sweep,
                box_sums,
                indices_buffer,
                total_cells,
            ),
            r.settings == builder.settings,
            r.buffers == builder.buffers,
            r.extra_vertex_usage == builder.extra_vertex_usage,
    {
        let mut builder = builder;
        let first = [BufferId::WorldSettings, indices_buffer, BufferId::IndicesBlockSums];
        assert(first@ =~= seq![
            BufferId::WorldSettings,
            indices_buffer,
            BufferId::IndicesBlockSums,
        ]);
        builder.add_pass(
            down_sweep,
            PrefixSumShaderDownSweepCommon::workgroups(total_cells),
            &first,
        );

        let remaining = div_ceil(total_cells, PREFIX_SUM_ITEMS_PER_WORKGROUP);
        if remaining > 1 {
            // Note how, this time, the block sums are in place of the indices.
            let second = [
                BufferId::WorldSettings,
                BufferId::IndicesBlockSums,
                BufferId::IndicesBlockSums,
            ];
            assert(second@ =~= seq![
                BufferId::WorldSettings,
                BufferId::IndicesBlockSums,
                BufferId::IndicesBlockSums,
            ]);
            builder.add_pass(
                down_sweep,
                PrefixSumShaderDownSweepCommon::workgroups(remaining),
                &second,
            );
            builder.add_pass(
                box_sums,
                PrefixSumShaderBoxSumsCommon::workgroups(total_cells),
                &first,
            );
        }

        builder
    }
}

/// The sum of the items `from`, ..., `to - 1`.
pub open spec fn spec_sum(items: Seq<u32>, from: int, to: int) -> int
    decreases to - from,
{
    if to <= from {
        0
    } else {
        spec_sum(items, from, to - 1) + items[to - 1]
    }
}

/// The start of the block of item `index`.
pub open spec fn spec_block_start(index: int) -> int {
    (index / (PREFIX_SUM_ITEMS_PER_WORKGROUP as int)) * PREFIX_SUM_ITEMS_PER_WORKGROUP
}

/// The end of block `block` of `total` items: the start of the next block,
/// or the end of the items.
pub open spec fn spec_block_end(block: int, total: int) -> int {
    if (block + 1) * PREFIX_SUM_ITEMS_PER_WORKGROUP < total {
        (block + 1) * PREFIX_SUM_ITEMS_PER_WORKGROUP
    } else {
        total
    }
}

/// A sum is not negative, and a sum over part of a range is no more than the
/// sum over the range.
pub proof fn lemma_sum_monotone(items: Seq<u32>, from: int, middle: int, to: int)
    requires
        from <= middle <= to,
    ensures
        0 <= spec_sum(items, from, middle) <= spec_sum(items, from, to),
        0 <= spec_sum(items, middle, to) <= spec_sum(items, from, to),
        spec_sum(items, from, to) == spec_sum(items, from, middle) + spec_sum(items, middle, to),
    decreases to - from,
{
    if to > middle {
        lemma_sum_monotone(items, from, middle, to - 1);
    } else if middle > from {
        lemma_sum_monotone(items, from, middle - 1, to - 1);
    }
}

/// Sums over equal items are equal.
pub proof fn lemma_sum_of_equals(first: Seq<u32>, second: Seq<u32>, from: int, to: int)
    requires
        forall|i: int| from <= i < to ==> first[i] == second[i],
    ensures
        spec_sum(first, from, to) == spec_sum(second, from, to),
    decreases to - from,
{
    if to > from {
        lemma_sum_of_equals(first, second, from, to - 1);
    }
}

/// The first stage of the prefix sum: in every block of
/// [`PREFIX_SUM_ITEMS_PER_WORKGROUP`] items, each item becomes the sum of the
/// items of the block before it, and the total of the block is noted in
/// `block_sums`.
pub fn reduce_downsweep(items: &mut [u32], block_sums: &mut [u32], total: u32)
    requires
        total <= old(items)@.len(),
        spec_div_ceil(total as int, PREFIX_SUM_ITEMS_PER_WORKGROUP as int) <=
            old(block_sums)@.len(),
        spec_sum(old(items)@, 0, total as int) <= u32::MAX,
    ensures
        final(items)@.len() == old(items)@.len(),
        final(block_sums)@.len() == old(block_sums)@.len(),
        forall|j: int|
            0 <= j < old(items)@.len() ==> #[trigger] final(items)@[j] == (if j < total {
                spec_sum(old(items)@, spec_block_start(j), j) as u32
            } else {
                old(items)@[j]
            }),
        forall|b: int|
            0 <= b < old(block_sums)@.len() ==> #[trigger] final(block_sums)@[b] == (if b
                < spec_div_ceil(total as int, PREFIX_SUM_ITEMS_PER_WORKGROUP as int) {
                spec_sum(
                    old(items)@,
                    b * PREFIX_SUM_ITEMS_PER_WORKGROUP,
                    spec_block_end(b, total as int),
                ) as u32
            } else {
                old(block_sums)@[b]
            }),
{
    let size = PREFIX_SUM_ITEMS_PER_WORKGROUP as usize;
    let blocks = div_ceil(total, PREFIX_SUM_ITEMS_PER_WORKGROUP) as usize;
    let length = total as usize;
    let sums_length = block_sums.len();
    let items_length = items.len();
    let ghost initial = items@;
    proof {
        vstd::arithmetic::div_mod::lemma_fundamental_div_mod(total + size - 1, size as int);
        vstd::arithmetic::div_mod::lemma_mod_bound(total + size - 1, size as int);
    }
    let mut block: usize = 0;
    while block < blocks
        invariant
            0 <= block <= blocks,
            size == PREFIX_SUM_ITEMS_PER_WORKGROUP,
            blocks == spec_div_ceil(total as int, size as int),
            blocks <= sums_length,
            length == total,
            length <= items_length,
            (blocks - 1) * size < length || blocks == 0,
            length <= blocks * size,
            items@.len() == items_length,
            block_sums@.len() == sums_length,
            initial == old(items)@,
            spec_sum(initial, 0, total as int) <= u32::MAX,
            forall|j: int|
                0 <= j < items_length ==> #[trigger] items@[j] == (if j < block * size && j <
                    length {
                    spec_sum(initial, spec_block_start(j), j) as u32
                } else {
                    initial[j]
                }),
            forall|b: int|
                0 <= b < sums_length ==> #[trigger] block_sums@[b] == (if b < block {
                    spec_sum(initial, b * size, spec_block_end(b, total as int)) as u32
                } else {
                    old(block_sums)@[b]
                }),
        decreases blocks - block,
    {
        assert(block * size < length && (block + 1) * size <= 0x1_0000_0000 * 2048)
            by (nonlinear_arith)
            requires
                block < blocks,
                (blocks - 1) * size < length,
                blocks <= 0x1_0000_0000,
                size == 2048,
        ;
        let start = block * size;
        let next: u64 = (block as u64 + 1) * size as u64;
        let end = if next < length as u64 {
            next as usize
        } else {
            length
        };
        let mut sum: u32 = 0;
        let mut j: usize = start;
        while j < end
            invariant
                start <= j <= end <= length <= items_length,
                start == block * size,
                end == spec_block_end(block as int, total as int),
                end <= start + size,
                size == PREFIX_SUM_ITEMS_PER_WORKGROUP,
                length == total,
                items@.len() == items_length,
                initial == old(items)@,
                spec_sum(initial, 0, total as int) <= u32::MAX,
                sum == spec_sum(initial, start as int, j as int),
                forall|k: int|
                    0 <= k < items_length ==> #[trigger] items@[k] == (if k < j {
                        spec_sum(initial, spec_block_start(k), k) as u32
                    } else {
                        initial[k]
                    }),
            decreases end - j,
        {
            proof {
                lemma_sum_monotone(initial, 0, start as int, j as int + 1);
                lemma_sum_monotone(initial, 0, j as int + 1, total as int);
                lemma_sum_monotone(initial, start as int, j as int, j as int + 1);
                vstd::arithmetic::div_mod::lemma_fundamental_div_mod_converse(
                    j as int,
                    size as int,
                    block as int,
                    j - start,
                );
            }
            let value = items[j];
            items[j] = sum;
            sum = sum + value;
            j += 1;
        }
        block_sums[block] = sum;
        block += 1;
    }
}

/// The stage between the two stages of a prefix sum of more than one block:
/// each of the first `blocks` block totals becomes the sum of the totals
/// before it.
pub fn sweep_block_sums(block_sums: &mut [u32], blocks: u32)
    requires
        blocks <= old(block_sums)@.len(),
        spec_sum(old(block_sums)@, 0, blocks as int) <= u32::MAX,
    ensures
        final(block_sums)@.len() == old(block_sums)@.len(),
        forall|b: int|
            0 <= b < old(block_sums)@.len() ==> #[trigger] final(block_sums)@[b] == (if b < blocks {
                spec_sum(old(block_sums)@, 0, b) as u32
            } else {
                old(block_sums)@[b]
            }),
{
    let length = block_sums.len();
    let ghost initial = block_sums@;
    let mut sum: u32 = 0;
    let mut b: usize = 0;
    while b < blocks as usize
        invariant
            0 <= b <= blocks <= length,
            block_sums@.len() == length,
            initial == old(block_sums)@,
            spec_sum(initial, 0, blocks as int) <= u32::MAX,
            sum == spec_sum(initial, 0, b as int),
            forall|k: int|
                0 <= k < length ==> #[trigger] block_sums@[k] == (if k < b {
                    spec_sum(initial, 0, k) as u32
                } else {
                    initial[k]
                }),
        decreases blocks - b,
    {
        proof {
            lemma_sum_monotone(initial, 0, b as int + 1, blocks as int);
            lemma_sum_monotone(initial, 0, b as int, b as int + 1);
        }
        let value = block_sums[b];
        block_sums[b] = sum;
        sum = sum + value;
        b += 1;
    }
}

/// The second stage of the prefix sum: every item has the entry of its block
/// in `block_sums` added.
pub fn add_block_sums(items: &mut [u32], block_sums: &[u32], total: u32)
    requires
        total <= old(items)@.len(),
        spec_div_ceil(total as int, PREFIX_SUM_ITEMS_PER_WORKGROUP as int) <= block_sums@.len(),
        forall|j: int|
            0 <= j < total ==> (#[trigger] old(items)@[j]) + block_sums@[j / (
            PREFIX_SUM_ITEMS_PER_WORKGROUP as int)] <= u32::MAX,
    ensures
        final(items)@.len() == old(items)@.len(),
        forall|j: int|
            0 <= j < old(items)@.len() ==> #[trigger] final(items)@[j] == (if j < total {
                (old(items)@[j] + block_sums@[j / (PREFIX_SUM_ITEMS_PER_WORKGROUP as int)]) as u32
            } else {
                old(items)@[j]
            }),
{
    let size = PREFIX_SUM_ITEMS_PER_WORKGROUP as usize;
    let length = items.len();
    let sums_length = block_sums.len();
    proof {
        vstd::arithmetic::div_mod::lemma_fundamental_div_mod(total + size - 1, size as int);
        vstd::arithmetic::div_mod::lemma_mod_bound(total + size - 1, size as int);
    }
    let mut j: usize = 0;
    while j < total as usize
        invariant
            0 <= j <= total <= length,
            size == PREFIX_SUM_ITEMS_PER_WORKGROUP,
            items@.len() == length,
            block_sums@.len() == sums_length,
            total <= spec_div_ceil(total as int, size as int) * size,
            spec_div_ceil(total as int, size as int) <= sums_length,
            forall|k: int|
                0 <= k < total ==> (#[trigger] old(items)@[k]) + block_sums@[k / (size as int)]
                    <= u32::MAX,
            forall|k: int|
                0 <= k < length ==> #[trigger] items@[k] == (if k < j {
                    (old(items)@[k] + block_sums@[k / (size as int)]) as u32
                } else {
                    old(items)@[k]
                }),
        decreases total - j,
    {
        proof {
            vstd::arithmetic::div_mod::lemma_fundamental_div_mod(j as int, size as int);
            vstd::arithmetic::div_mod::lemma_mod_bound(j as int, size as int);
            crate::scalar::lemma_floor_div_bounds(j as int, size as int);
            assert(old(items)@[j as int] + block_sums@[j as int / (size as int)] <= u32::MAX);
        }
        let block = j / size;
        items[j] = items[j] + block_sums[block];
        j += 1;
    }
}

/// The sum of the totals of the first `blocks` blocks is the sum of the items
/// of those blocks.
pub proof fn lemma_block_totals(items: Seq<u32>, sums: Seq<u32>, total: int, blocks: int)
    requires
        0 <= blocks,
        blocks * PREFIX_SUM_ITEMS_PER_WORKGROUP <= total || (blocks - 1)
            * PREFIX_SUM_ITEMS_PER_WORKGROUP < total,
        blocks <= sums.len(),
        spec_sum(items, 0, total) <= u32::MAX,
        forall|b: int|
            0 <= b < blocks ==> #[trigger] sums[b] == spec_sum(
                items,
                b * PREFIX_SUM_ITEMS_PER_WORKGROUP,
                spec_block_end(b, total),
            ) as u32,
    ensures
        spec_sum(sums, 0, blocks) == spec_sum(
            items,
            0,
            if blocks * PREFIX_SUM_ITEMS_PER_WORKGROUP < total {
                blocks * PREFIX_SUM_ITEMS_PER_WORKGROUP
            } else {
                total
            },
        ),
    decreases blocks,
{
    if blocks > 0 {
        let size = PREFIX_SUM_ITEMS_PER_WORKGROUP as int;
        lemma_block_totals(items, sums, total, blocks - 1);
        let start = (blocks - 1) * size;
        let end = spec_block_end(blocks - 1, total);
        lemma_sum_monotone(items, 0, start, end);
        lemma_sum_monotone(items, 0, end, total);
        assert(sums[blocks - 1] == spec_sum(items, start, end) as u32);
    }
}

/// The prefix sum of the first `total` items: each becomes the sum of the
/// items before it. It is taken in two stages, with `block_sums` as scratch
/// space: the blocks are summed each on its own, and, if there is more than
/// one block, the sums of the blocks are summed and added back.
pub fn exclusive_scan(items: &mut [u32], block_sums: &mut [u32], total: u32)
    requires
        total <= old(items)@.len(),
        spec_div_ceil(total as int, PREFIX_SUM_ITEMS_PER_WORKGROUP as int) <=
            old(block_sums)@.len(),
        spec_sum(old(items)@, 0, total as int) <= u32::MAX,
    ensures
        final(items)@.len() == old(items)@.len(),
        final(block_sums)@.len() == old(block_sums)@.len(),
        forall|j: int|
            0 <= j < old(items)@.len() ==> #[trigger] final(items)@[j] == (if j < total {
                spec_sum(old(items)@, 0, j) as u32
            } else {
                old(items)@[j]
            }),
{
    let ghost initial = items@;
    let ghost size = PREFIX_SUM_ITEMS_PER_WORKGROUP as int;
    reduce_downsweep(items, block_sums, total);
    let ghost swept = items@;
    let ghost totals = block_sums@;

    let remaining = div_ceil(total, PREFIX_SUM_ITEMS_PER_WORKGROUP);
    proof {
        vstd::arithmetic::div_mod::lemma_fundamental_div_mod(total + size - 1, size);
        vstd::arithmetic::div_mod::lemma_mod_bound(total + size - 1, size);
    }
    if remaining > 1 {
        proof {
            lemma_block_totals(initial, totals, total as int, remaining as int);
        }
        sweep_block_sums(block_sums, remaining);
        let ghost offsets = block_sums@;
        proof {
            assert forall|j: int| 0 <= j < total implies (#[trigger] swept[j]) + offsets[j / size]
                <= u32::MAX && swept[j] + offsets[j / size] == spec_sum(initial, 0, j) by {
                let b = j / size;
                vstd::arithmetic::div_mod::lemma_fundamental_div_mod(j, size);
                vstd::arithmetic::div_mod::lemma_mod_bound(j, size);
                crate::scalar::lemma_floor_div_bounds(j, size);
                assert(b < remaining) by (nonlinear_arith)
                    requires
                        j == size * b + j % size,
                        0 <= j % size,
                        j < total,
                        total <= remaining * size,
                        size > 0,
                ;
                assert(b * size <= j) by (nonlinear_arith)
                    requires
                        j == size * b + j % size,
                        0 <= j % size,
                ;
                lemma_block_totals(initial, totals, total as int, b);
                lemma_sum_monotone(totals, 0, b, remaining as int);
                lemma_sum_monotone(initial, 0, b * size, j);
                lemma_sum_monotone(initial, 0, j, total as int);
                assert(offsets[b] == spec_sum(totals, 0, b) as u32);
                assert(swept[j] == spec_sum(initial, b * size, j) as u32);
            }
        }
        add_block_sums(items, block_sums, total);
    } else {
        proof {
            assert forall|j: int| 0 <= j < total implies spec_block_start(j) == 0 by {
                crate::scalar::lemma_floor_div_bounds(j, size);
                vstd::arithmetic::div_mod::lemma_fundamental_div_mod(j, size);
                vstd::arithmetic::div_mod::lemma_mod_bound(j, size);
                let b = j / size;
                assert(b < 1) by (nonlinear_arith)
                    requires
                        j == size * b + j % size,
                        0 <= j % size,
                        j < total,
                        total <= size,
                        size > 0,
                ;
            }
        }
    }
}

} // verus!

//! The userspace heap allocator.
//!
//! The allocator manages an arena of bytes obtained from the operating
//! system's memory source in page-sized grants.  A registry of block records
//! is threaded over the arena, each block a header region of
//! [`BLOCK_HEADER_SIZE`] bytes followed by a data region of `data_len`
//! bytes; no two blocks overlap.  The registry keeps the blocks in
//! insertion order, which is not address order: fresh grants are prepended,
//! and splitting a block inserts the carved-off remainder right after it.
//!
//! Allocation walks the registry looking for a free block whose data region
//! already satisfies the requested alignment: a block whose length matches
//! the normalized request exactly is taken on the spot, otherwise the
//! smallest strictly larger block found is used (best fit) and split when the
//! leftover is big enough to be useful.  If no block fits, a fresh grant is
//! requested from the memory source.  Deallocation marks the block free and
//! then merges every free block into its free, address-contiguous successor
//! in the registry.

use vstd::prelude::*;

use crate::sync::locks::Mutex;
use crate::PAGE_SIZE;

verus! {

/// Size of one block header, in bytes.  Data regions and header offsets are
/// kept multiples of this, which keeps every data region aligned at least
/// this much.
pub const BLOCK_HEADER_SIZE: usize = 32;

/// Largest size, in bytes, that a single block may span.  The memory
/// source's size parameter is interpreted as a signed quantity in some call
/// conventions, so requests whose header-adjusted size would exceed it are
/// rejected.
pub const MAX_BLOCK_SPAN: usize = usize::MAX / 2;

/// One record of the block registry: a header at offset `hdr` in the arena,
/// followed by `data_len` usable bytes.
#[derive(Clone, Copy, Debug, PartialEq, Eq, Structural)]
pub struct Block {
    /// Whether this block is available for allocation.
    pub free: bool,
    /// Offset of the block header in the arena.
    pub hdr: usize,
    /// Usable bytes following the header; always a multiple of
    /// [`BLOCK_HEADER_SIZE`].
    pub data_len: usize,
}

impl Block {
    /// Offset of the first usable data byte of this block.
    pub open spec fn data_off(self) -> int {
        self.hdr + BLOCK_HEADER_SIZE
    }

    /// Offset one past the last byte this block spans (header included).
    pub open spec fn end(self) -> int {
        self.hdr + BLOCK_HEADER_SIZE + self.data_len
    }

    /// The block's span is inside an arena of `mem_len` bytes and respects
    /// the registry's size and offset granularity.
    pub open spec fn wf(self, mem_len: int) -> bool {
        &&& (self.hdr as int) % (BLOCK_HEADER_SIZE as int) == 0
        &&& (self.data_len as int) % (BLOCK_HEADER_SIZE as int) == 0
        &&& self.end() <= mem_len
    }

    /// Two blocks occupy disjoint byte ranges of the arena.
    pub open spec fn disjoint(self, other: Block) -> bool {
        self.end() <= other.hdr || other.end() <= self.hdr
    }
}

/// Every block fits the arena and no two blocks overlap.
pub open spec fn registry_wf(blocks: Seq<Block>, mem_len: int) -> bool {
    &&& forall|i: int| 0 <= i < blocks.len() ==> #[trigger] blocks[i].wf(mem_len)
    &&& forall|i: int, j: int|
        0 <= i < blocks.len() && 0 <= j < blocks.len() && i != j
            ==> #[trigger] blocks[i].disjoint(#[trigger] blocks[j])
}

/// A data region handed out by the allocator: `len` usable bytes starting at
/// arena offset `ptr`.  The block header sits immediately before `ptr`.
#[derive(Clone, Copy, Debug, PartialEq, Eq, Structural)]
pub struct Allocation {
    /// Arena offset of the first usable byte.
    pub ptr: usize,
    /// Number of usable bytes; at least as large as the request it served.
    pub len: usize,
}

/// `n` rounded up to the next multiple of [`BLOCK_HEADER_SIZE`].
pub open spec fn round_up_spec(n: int, step: int) -> int {
    ((n + step - 1) / step) * step
}

/// Rounds `n` up to the next multiple of `step`, or `None` if that would
/// overflow `usize`.
pub fn round_up(n: usize, step: usize) -> (r: Option<usize>)
    requires
        step > 0,
    ensures
        match r {
            Some(v) => v == round_up_spec(n as int, step as int),
            None => round_up_spec(n as int, step as int) > usize::MAX,
        },
{
    proof {
        lemma_round_up_props(n as int, step as int);
    }
    let rem = n % step;
    if rem == 0 {
        Some(n)
    } else {
        if n > usize::MAX - (step - rem) {
            None
        } else {
            Some(n + (step - rem))
        }
    }
}

/// Basic facts about rounding up: the result is the unique multiple of
/// `step` in `[n, n + step)`.
pub proof fn lemma_round_up_props(n: int, step: int)
    requires
        step > 0,
        n >= 0,
    ensures
        round_up_spec(n, step) % step == 0,
        n <= round_up_spec(n, step) < n + step,
        n % step == 0 ==> round_up_spec(n, step) == n,
        n % step != 0 ==> round_up_spec(n, step) == n + (step - n % step),
{
    vstd::arithmetic::div_mod::lemma_fundamental_div_mod(n, step);
    let a = n / step;
    let b = n % step;
    vstd::arithmetic::div_mod::lemma_mod_bound(n, step);
    assert(n == step * a + b);
    if b == 0 {
        assert(n + step - 1 == a * step + (step - 1)) by (nonlinear_arith)
            requires
                n == step * a + b,
                b == 0,
        ;
        vstd::arithmetic::div_mod::lemma_fundamental_div_mod_converse(
            n + step - 1,
            step,
            a,
            step - 1,
        );
        assert(round_up_spec(n, step) == a * step);
        assert((a * step) % step == 0) by {
            vstd::arithmetic::div_mod::lemma_mod_multiples_basic(a, step);
        }
        assert(a * step == n) by (nonlinear_arith)
            requires
                n == step * a + b,
                b == 0,
        ;
    } else {
        assert(n + step - 1 == (a + 1) * step + (b - 1)) by (nonlinear_arith)
            requires
                n == step * a + b,
        ;
        vstd::arithmetic::div_mod::lemma_fundamental_div_mod_converse(
            n + step - 1,
            step,
            a + 1,
            b - 1,
        );
        assert(round_up_spec(n, step) == (a + 1) * step);
        assert(((a + 1) * step) % step == 0) by {
            vstd::arithmetic::div_mod::lemma_mod_multiples_basic(a + 1, step);
        }
        assert((a + 1) * step == n + (step - b)) by (nonlinear_arith)
            requires
                n == step * a + b,
        ;
    }
}

/// `n` is a power of two.
pub open spec fn is_pow2(n: int) -> bool
    decreases n,
{
    if n <= 0 {
        false
    } else if n == 1 {
        true
    } else {
        n % 2 == 0 && is_pow2(n / 2)
    }
}

/// A smaller power of two divides a larger one.
pub proof fn lemma_pow2_divides(a: int, b: int)
    requires
        is_pow2(a),
        is_pow2(b),
        a <= b,
    ensures
        b % a == 0,
    decreases b,
{
    if a == b {
        vstd::arithmetic::div_mod::lemma_mod_self_0(a);
    } else {
        assert(b != 1);
        lemma_pow2_ge_1(a);
        lemma_pow2_lt_implies_le_half(a, b);
        lemma_pow2_divides(a, b / 2);
        let k = (b / 2) / a;
        vstd::arithmetic::div_mod::lemma_fundamental_div_mod(b / 2, a);
        assert(b / 2 == a * k + 0);
        assert(b == a * (2 * k)) by (nonlinear_arith)
            requires
                b % 2 == 0,
                b / 2 == a * k,
                b > 0,
        ;
        assert(b % a == 0) by {
            vstd::arithmetic::div_mod::lemma_mod_multiples_basic(2 * k, a);
            assert((2 * k) * a == a * (2 * k)) by (nonlinear_arith);
        }
    }
}

/// Every power of two is at least one.
pub proof fn lemma_pow2_ge_1(a: int)
    requires
        is_pow2(a),
    ensures
        a >= 1,
{
}

/// A power of two strictly below another is at most its half.
pub proof fn lemma_pow2_lt_implies_le_half(a: int, b: int)
    requires
        is_pow2(a),
        is_pow2(b),
        a < b,
    ensures
        a <= b / 2,
    decreases a,
{
    lemma_pow2_ge_1(a);
    assert(b != 1);
    vstd::arithmetic::div_mod::lemma_fundamental_div_mod(b, 2);
    if a == 1 {
        lemma_pow2_ge_1(b / 2);
    } else {
        vstd::arithmetic::div_mod::lemma_fundamental_div_mod(a, 2);
        lemma_pow2_lt_implies_le_half(a / 2, b / 2);
        vstd::arithmetic::div_mod::lemma_fundamental_div_mod(b / 2, 2);
    }
}

/// The smallest power of two that is at least `n`, starting no lower than
/// [`BLOCK_HEADER_SIZE`]'s alignment granule of eight bytes.
pub fn pow2_at_least(n: usize) -> (r: usize)
    requires
        n <= PAGE_SIZE,
    ensures
        is_pow2(r as int),
        r >= n,
        8 <= r <= PAGE_SIZE,
        r == 8 || r / 2 < n,
{
    proof {
        reveal_with_fuel(is_pow2, 14);
        assert(is_pow2(8));
        assert(is_pow2(PAGE_SIZE as int));
    }
    let mut p: usize = 8;
    while p < n
        invariant
            is_pow2(p as int),
            8 <= p <= PAGE_SIZE,
            n <= PAGE_SIZE,
            p == 8 || p / 2 < n,
        decreases PAGE_SIZE - p,
    {
        proof {
            reveal_with_fuel(is_pow2, 14);
            assert(is_pow2(PAGE_SIZE as int));
            lemma_pow2_lt_implies_le_half(p as int, PAGE_SIZE as int);
        }
        p = p * 2;
    }
    p
}

/// A free block whose data region is aligned to `align` and holds at least
/// `len` bytes: a block the search may return.
pub open spec fn is_candidate(blocks: Seq<Block>, i: int, len: int, align: int) -> bool {
    &&& 0 <= i < blocks.len()
    &&& blocks[i].free
    &&& blocks[i].data_off() % align == 0
    &&& blocks[i].data_len >= len
}

/// A candidate whose data region has exactly the requested length.
pub open spec fn is_exact(blocks: Seq<Block>, i: int, len: int, align: int) -> bool {
    &&& is_candidate(blocks, i, len, align)
    &&& blocks[i].data_len == len
}

/// Some block in the registry can serve the request as it stands.
pub open spec fn has_candidate(blocks: Seq<Block>, len: int, align: int) -> bool {
    exists|i: int| is_candidate(blocks, i, len, align)
}

/// Some block in the registry matches the request exactly.
pub open spec fn has_exact(blocks: Seq<Block>, len: int, align: int) -> bool {
    exists|i: int| is_exact(blocks, i, len, align)
}

/// The block the search picks for a normalized request: the first
/// exact-length candidate when one exists, otherwise the first of the
/// smallest strictly larger candidates (best fit).
pub open spec fn chosen_block(blocks: Seq<Block>, i: int, len: int, align: int) -> bool {
    if has_exact(blocks, len, align) {
        &&& is_exact(blocks, i, len, align)
        &&& forall|j: int| 0 <= j < i ==> !is_exact(blocks, j, len, align)
    } else {
        &&& is_candidate(blocks, i, len, align)
        &&& forall|j: int|
            is_candidate(blocks, j, len, align) ==> blocks[i].data_len
                <= #[trigger] blocks[j].data_len
        &&& forall|j: int|
            0 <= j < i && is_candidate(blocks, j, len, align) ==> #[trigger] blocks[j].data_len
                > blocks[i].data_len
    }
}

/// The registry after free block `i` serves a request of normalized
/// length `norm`: when the leftover exceeds one header the block is
/// split — shrunk to `norm`, the carved remainder spliced in right after
/// it as a free block — and it is marked allocated either way.  No other
/// entry changes, so the bytes the registry spans are conserved.
pub open spec fn registry_after_serving(blocks: Seq<Block>, i: int, norm: int) -> Seq<Block> {
    let b = blocks[i];
    if b.data_len > norm + BLOCK_HEADER_SIZE {
        blocks.update(i, (Block { free: false, hdr: b.hdr, data_len: norm as usize })).insert(
            i + 1,
            (Block {
                free: true,
                hdr: (b.hdr + BLOCK_HEADER_SIZE + norm) as usize,
                data_len: (b.data_len - norm - BLOCK_HEADER_SIZE) as usize,
            }),
        )
    } else {
        blocks.update(i, (Block { free: false, hdr: b.hdr, data_len: b.data_len }))
    }
}

/// The blocks carved out of one fresh grant, in registry order: the
/// serving block, then the alignment pad (when the effective alignment
/// exceeds one header), then the remainder of the page-rounded grant
/// (when there is any).
pub open spec fn fresh_grant_blocks(heap0: int, data_len: int, eff_align: int) -> Seq<Block> {
    let pad = pad_size(eff_align);
    let used = pad + BLOCK_HEADER_SIZE + data_len;
    let grant = grant_size(data_len, eff_align);
    let main = seq![
        (Block { free: true, hdr: (heap0 + pad) as usize, data_len: data_len as usize }),
    ];
    let padb = if pad > 0 {
        seq![
            (Block {
                free: true,
                hdr: heap0 as usize,
                data_len: (pad - BLOCK_HEADER_SIZE) as usize,
            }),
        ]
    } else {
        Seq::<Block>::empty()
    };
    let extra = if grant > used {
        seq![
            (Block {
                free: true,
                hdr: (heap0 + used) as usize,
                data_len: (grant - used - BLOCK_HEADER_SIZE) as usize,
            }),
        ]
    } else {
        Seq::<Block>::empty()
    };
    main + padb + extra
}

/// Every block that is allocated (not free) in `old_bs` is still present,
/// unchanged, in `new_bs`.
pub open spec fn used_blocks_preserved(old_bs: Seq<Block>, new_bs: Seq<Block>) -> bool {
    forall|b: Block| #[trigger] old_bs.contains(b) && !b.free ==> new_bs.contains(b)
}

/// The data length actually reserved for a request of `size` bytes: `size`
/// rounded up to a whole number of header-sized units.
pub open spec fn size_norm(size: int) -> int {
    round_up_spec(size, BLOCK_HEADER_SIZE as int)
}

/// The alignment actually enforced for a requested alignment `align`: at
/// least the block granule of eight bytes, rounded up to a multiple of it.
pub open spec fn align_norm(align: int) -> int {
    round_up_spec(if align < 1 { 1 } else { align }, 8)
}

/// A request for `size` bytes at alignment `align` that the allocator
/// refuses outright: over-page alignment, or a normalized size so large
/// that its span would overflow the signed size the memory source takes.
pub open spec fn request_rejected(size: int, align: int) -> bool {
    align > PAGE_SIZE || size_norm(size) + BLOCK_HEADER_SIZE > MAX_BLOCK_SPAN
}

/// Divisibility carries across: a multiple of `a` is a multiple of any
/// divisor `b` of `a`.
proof fn lemma_mod_transitive(x: int, a: int, b: int)
    requires
        a > 0,
        b > 0,
        x % a == 0,
        a % b == 0,
    ensures
        x % b == 0,
{
    vstd::arithmetic::div_mod::lemma_fundamental_div_mod(x, a);
    vstd::arithmetic::div_mod::lemma_fundamental_div_mod(a, b);
    let q = x / a;
    let p = a / b;
    assert(x == b * (p * q)) by (nonlinear_arith)
        requires
            x == a * q,
            a == b * p,
    ;
    assert((p * q) * b == b * (p * q)) by (nonlinear_arith);
    vstd::arithmetic::div_mod::lemma_mod_multiples_basic(p * q, b);
}

/// The effective alignment is a multiple of any power-of-two requested
/// alignment that does not exceed a page.
proof fn lemma_align_norm_pow2(align: int)
    requires
        is_pow2(align),
        align <= PAGE_SIZE,
    ensures
        align_norm(align) % align == 0,
        align_norm(align) >= align,
        align_norm(align) > 0,
{
    reveal_with_fuel(is_pow2, 14);
    lemma_pow2_ge_1(align);
    lemma_round_up_props(align, 8);
    if align <= 8 {
        assert(is_pow2(8));
        lemma_pow2_divides(align, 8);
        assert(align == 1 || align == 2 || align == 4 || align == 8);
        assert(align_norm(align) == 8);
    } else {
        assert(is_pow2(8));
        lemma_pow2_divides(8, align);
        assert(align % 8 == 0);
        assert(align_norm(align) == align);
        vstd::arithmetic::div_mod::lemma_mod_self_0(align);
    }
}

/// Blocks `m` and `m + 1` of the registry are both free and
/// address-contiguous, so a coalescing pass would merge them.
pub open spec fn mergeable_at(blocks: Seq<Block>, m: int) -> bool {
    &&& 0 <= m
    &&& m + 1 < blocks.len()
    &&& blocks[m].free
    &&& blocks[m + 1].free
    &&& blocks[m].end() == blocks[m + 1].hdr
}

/// Free block `k` of `blocks` spans at least the bytes block `b` spanned.
pub open spec fn covers(blocks: Seq<Block>, k: int, b: Block) -> bool {
    &&& 0 <= k < blocks.len()
    &&& blocks[k].free
    &&& blocks[k].hdr <= b.hdr
    &&& b.end() <= blocks[k].end()
}

/// Block `k` is a free block covering `x`, and `y` is covered either by the
/// same block or by the free, address-contiguous block right after it in
/// the registry.  This is how a once-mergeable pair looks in the middle of
/// a coalescing pass.
pub open spec fn pair_linked_at(blocks: Seq<Block>, k: int, x: Block, y: Block) -> bool {
    &&& covers(blocks, k, x)
    &&& (y.end() <= blocks[k].end() || {
        &&& k + 1 < blocks.len()
        &&& blocks[k].end() == blocks[k + 1].hdr
        &&& covers(blocks, k + 1, y)
    })
}

/// How one coalescing step rewrites the registry: block `j` absorbs the
/// free, address-contiguous block `j + 1`.
pub open spec fn absorb_shape(cur: Seq<Block>, new: Seq<Block>, j: int) -> bool {
    &&& mergeable_at(cur, j)
    &&& cur[j + 1].end() <= usize::MAX
    &&& new.len() == cur.len() - 1
    &&& forall|p: int| 0 <= p < j ==> #[trigger] new[p] == cur[p]
    &&& new[j] == (Block {
        free: true,
        hdr: cur[j].hdr,
        data_len: (cur[j].data_len + BLOCK_HEADER_SIZE + cur[j + 1].data_len) as usize,
    })
    &&& forall|p: int| j < p < new.len() ==> #[trigger] new[p] == cur[p + 1]
}

/// After one absorb step the merged block spans exactly the two old spans,
/// so anything a free block of `cur` covered is still covered by a free
/// block of `new`.
proof fn lemma_covers_after_absorb(cur: Seq<Block>, new: Seq<Block>, j: int, k: int, b: Block)
    requires
        absorb_shape(cur, new, j),
        covers(cur, k, b),
    ensures
        exists|k2: int| covers(new, k2, b),
{
    assert(new[j].end() == cur[j + 1].end());
    if k < j {
        assert(covers(new, k, b));
    } else if k == j || k == j + 1 {
        assert(covers(new, j, b));
    } else {
        assert(new[k - 1] == cur[k]);
        assert(covers(new, k - 1, b));
    }
}

/// After one absorb step a once-mergeable pair is still covered by one
/// free block or by a linked pair of free blocks.
proof fn lemma_pair_linked_after_absorb(
    cur: Seq<Block>,
    new: Seq<Block>,
    j: int,
    k: int,
    x: Block,
    y: Block,
)
    requires
        absorb_shape(cur, new, j),
        pair_linked_at(cur, k, x, y),
    ensures
        exists|k2: int| #[trigger] pair_linked_at(new, k2, x, y),
{
    assert(new[j].end() == cur[j + 1].end());
    assert(new[j].hdr == cur[j].hdr);
    if y.end() <= cur[k].end() {
        // One block of `cur` already covered both.
        if k < j {
            assert(pair_linked_at(new, k, x, y));
        } else if k == j || k == j + 1 {
            assert(pair_linked_at(new, j, x, y));
        } else {
            assert(new[k - 1] == cur[k]);
            assert(pair_linked_at(new, k - 1, x, y));
        }
    } else {
        // `k` covered `x`, `k + 1` covered `y`.
        if k + 1 < j {
            assert(new[k] == cur[k] && new[k + 1] == cur[k + 1]);
            assert(pair_linked_at(new, k, x, y));
        } else if k + 1 == j {
            // The successor grew; it still starts where it did.
            assert(new[k] == cur[k]);
            assert(pair_linked_at(new, k, x, y));
        } else if k == j {
            // The two covering blocks merged into one.
            assert(pair_linked_at(new, j, x, y));
        } else if k == j + 1 {
            // The cover of `x` was absorbed into block `j`, which now ends
            // where the cover of `x` ended, right at the cover of `y`.
            assert(new[j].end() == cur[j + 1].end());
            assert(j + 1 < new.len() && new[j + 1] == cur[j + 2]);
            assert(pair_linked_at(new, j, x, y));
        } else {
            assert(new[k - 1] == cur[k] && new[k] == cur[k + 1]);
            assert(pair_linked_at(new, k - 1, x, y));
        }
    }
}

/// The free-list allocator: an arena of OS-granted bytes plus the block
/// registry laid over it.
pub struct SystemAllocator {
    mem: Vec<u8>,
    blocks: Vec<Block>,
}

impl SystemAllocator {
    /// The block registry, in list order (which is insertion order, not
    /// address order).
    pub closed spec fn blocks(&self) -> Seq<Block> {
        self.blocks@
    }

    /// The bytes of the arena granted by the memory source so far.
    pub closed spec fn mem(&self) -> Seq<u8> {
        self.mem@
    }

    /// Total bytes granted by the memory source so far.
    pub open spec fn heap_size(&self) -> int {
        self.mem().len() as int
    }

    /// The allocator's invariant: all blocks lie inside the arena, no two
    /// blocks overlap, and the arena is a whole number of pages.
    pub open spec fn wf(&self) -> bool {
        &&& registry_wf(self.blocks(), self.heap_size())
        &&& self.heap_size() % (PAGE_SIZE as int) == 0
    }

    /// Arena offset `off` lies in the data region of the allocated (not
    /// free) block `i`.
    pub open spec fn in_live_data(&self, i: int, off: int) -> bool {
        &&& 0 <= i < self.blocks().len()
        &&& !self.blocks()[i].free
        &&& self.blocks()[i].data_off() <= off < self.blocks()[i].end()
    }

    /// A fresh allocator that has not yet asked the memory source for
    /// anything.
    pub fn new() -> (r: Self)
        ensures
            r.wf(),
            r.blocks() == Seq::<Block>::empty(),
            r.heap_size() == 0,
    {
        let r = SystemAllocator { mem: Vec::new(), blocks: Vec::new() };
        proof {
            assert(r.blocks() =~= Seq::<Block>::empty());
        }
        r
    }

    /// Number of blocks currently in the registry.
    pub fn block_count(&self) -> (r: usize)
        ensures
            r == self.blocks().len(),
    {
        self.blocks.len()
    }

    /// The block record at registry position `i`.
    pub fn block_at(&self, i: usize) -> (r: Block)
        requires
            i < self.blocks().len(),
        ensures
            r == self.blocks()[i as int],
    {
        self.blocks[i]
    }

    /// Total bytes granted by the memory source so far.
    pub fn arena_len(&self) -> (r: usize)
        ensures
            r == self.heap_size(),
    {
        self.mem.len()
    }

    /// Reads one byte out of a live allocation.
    pub fn read_byte(&self, off: usize) -> (r: u8)
        requires
            self.wf(),
            exists|i: int| self.in_live_data(i, off as int),
        ensures
            r == self.mem()[off as int],
    {
        proof {
            let i = choose|i: int| self.in_live_data(i, off as int);
            assert(self.blocks()[i].wf(self.heap_size()));
        }
        self.mem[off]
    }

    /// Writes one byte into a live allocation.  No other byte of the arena
    /// changes, and the registry does not change at all.
    pub fn write_byte(&mut self, off: usize, value: u8)
        requires
            old(self).wf(),
            exists|i: int| old(self).in_live_data(i, off as int),
        ensures
            final(self).wf(),
            final(self).blocks() == old(self).blocks(),
            final(self).mem() == old(self).mem().update(off as int, value),
            final(self).heap_size() == old(self).heap_size(),
    {
        proof {
            let i = choose|i: int| old(self).in_live_data(i, off as int);
            assert(old(self).blocks()[i].wf(old(self).heap_size()));
        }
        self.mem[off] = value;
    }

    /// Walks the registry for a free, aligned block that can hold `data_len`
    /// bytes.  The first exact-length match wins outright; otherwise the
    /// first of the smallest strictly larger candidates is returned.
    fn try_find_block(&self, data_len: usize, alignment: usize) -> (r: Option<usize>)
        requires
            self.wf(),
            alignment > 0,
        ensures
            match r {
                Some(i) => {
                    &&& is_candidate(self.blocks(), i as int, data_len as int, alignment as int)
                    &&& if has_exact(self.blocks(), data_len as int, alignment as int) {
                        &&& is_exact(self.blocks(), i as int, data_len as int, alignment as int)
                        &&& forall|j: int|
                            0 <= j < i ==> !is_exact(
                                self.blocks(),
                                j,
                                data_len as int,
                                alignment as int,
                            )
                    } else {
                        &&& forall|j: int|
                            is_candidate(self.blocks(), j, data_len as int, alignment as int)
                                ==> self.blocks()[i as int].data_len <= #[trigger] self.blocks()[j].data_len
                        &&& forall|j: int|
                            0 <= j < i && is_candidate(
                                self.blocks(),
                                j,
                                data_len as int,
                                alignment as int,
                            ) ==> #[trigger] self.blocks()[j].data_len
                                > self.blocks()[i as int].data_len
                    }
                },
                None => !has_candidate(self.blocks(), data_len as int, alignment as int),
            },
    {
        let n = self.blocks.len();
        let mem_len = self.mem.len();
        let mut idx: usize = 0;
        let mut best: Option<usize> = None;
        while idx < n
            invariant
                self.wf(),
                alignment > 0,
                n == self.blocks().len(),
                mem_len == self.heap_size(),
                idx <= n,
                forall|j: int|
                    0 <= j < idx ==> !is_exact(self.blocks(), j, data_len as int, alignment as int),
                match best {
                    Some(b) => {
                        &&& is_candidate(self.blocks(), b as int, data_len as int, alignment as int)
                        &&& b < idx
                        &&& self.blocks()[b as int].data_len > data_len
                        &&& forall|j: int|
                            0 <= j < idx && is_candidate(
                                self.blocks(),
                                j,
                                data_len as int,
                                alignment as int,
                            ) ==> self.blocks()[b as int].data_len
                                <= #[trigger] self.blocks()[j].data_len
                        &&& forall|j: int|
                            0 <= j < b && is_candidate(
                                self.blocks(),
                                j,
                                data_len as int,
                                alignment as int,
                            ) ==> #[trigger] self.blocks()[j].data_len
                                > self.blocks()[b as int].data_len
                    },
                    None => forall|j: int|
                        0 <= j < idx ==> !is_candidate(
                            self.blocks(),
                            j,
                            data_len as int,
                            alignment as int,
                        ),
                },
            decreases n - idx,
        {
            let blk = self.blocks[idx];
            if blk.free {
                proof {
                    assert(self.blocks()[idx as int].wf(self.heap_size()));
                    assert(blk.hdr + BLOCK_HEADER_SIZE <= mem_len);
                }
                let data_start = blk.hdr + BLOCK_HEADER_SIZE;
                if data_start % alignment == 0 {
                    if blk.data_len == data_len {
                        return Some(idx);
                    }
                    if blk.data_len > data_len {
                        let take = match best {
                            Some(b) => self.blocks[b].data_len > blk.data_len,
                            None => true,
                        };
                        if take {
                            best = Some(idx);
                        }
                    }
                }
            }
            idx = idx + 1;
        }
        best
    }

    /// One full coalescing pass: walks the registry in list order and, at
    /// each free block, absorbs its list successor for as long as that
    /// successor is free and address-contiguous.  Afterwards no two
    /// neighbouring registry entries can be merged; every span that was
    /// free is still inside a free block; and every pair that was
    /// mergeable on entry has been fused into a single free block.
    fn merge_blocks(&mut self)
        requires
            old(self).wf(),
        ensures
            final(self).wf(),
            final(self).mem() == old(self).mem(),
            final(self).heap_size() == old(self).heap_size(),
            used_blocks_preserved(old(self).blocks(), final(self).blocks()),
            used_blocks_preserved(final(self).blocks(), old(self).blocks()),
            forall|m: int| !mergeable_at(final(self).blocks(), m),
            forall|i: int|
                0 <= i < old(self).blocks().len() && old(self).blocks()[i].free
                    ==> exists|k: int| covers(final(self).blocks(), k, #[trigger] old(self).blocks()[i]),
            forall|i: int|
                #[trigger] mergeable_at(old(self).blocks(), i) ==> exists|k: int|
                    covers(final(self).blocks(), k, old(self).blocks()[i])
                        && old(self).blocks()[i + 1].end() <= final(self).blocks()[k].end(),
    {
        let ghost obs = old(self).blocks();
        let ghost heap = old(self).heap_size();
        let mem_len = self.mem.len();
        let mut idx: usize = 0;
        proof {
            assert forall|i: int|
                0 <= i < obs.len() && obs[i].free implies exists|k: int|
                covers(self.blocks@, k, #[trigger] obs[i]) by {
                assert(covers(self.blocks@, i, obs[i]));
            }
            assert forall|i: int| #[trigger] mergeable_at(obs, i) implies exists|k: int|
                #[trigger] pair_linked_at(self.blocks@, k, obs[i], obs[i + 1]) by {
                assert(pair_linked_at(self.blocks@, i, obs[i], obs[i + 1]));
            }
        }
        while idx < self.blocks.len()
            invariant
                self.wf(),
                self.mem@.len() == mem_len,
                mem_len == heap,
                self.mem@ == old(self).mem(),
                idx <= self.blocks@.len(),
                used_blocks_preserved(obs, self.blocks@),
                used_blocks_preserved(self.blocks@, obs),
                forall|m: int| 0 <= m < idx ==> !mergeable_at(self.blocks@, m),
                forall|i: int|
                    0 <= i < obs.len() && obs[i].free ==> exists|k: int|
                        covers(self.blocks@, k, #[trigger] obs[i]),
                forall|i: int|
                    #[trigger] mergeable_at(obs, i) ==> exists|k: int|
                        #[trigger] pair_linked_at(self.blocks@, k, obs[i], obs[i + 1]),
            decreases self.blocks@.len() - idx,
        {
            let ghost cur = self.blocks@;
            let blk = self.blocks[idx];
            let mut merged = false;
            if blk.free && idx + 1 < self.blocks.len() {
                let nxt = self.blocks[idx + 1];
                proof {
                    assert(cur[idx as int].wf(heap));
                    assert(cur[idx as int + 1].wf(heap));
                }
                if nxt.free && blk.hdr + BLOCK_HEADER_SIZE + blk.data_len == nxt.hdr {
                    let grown = Block {
                        free: true,
                        hdr: blk.hdr,
                        data_len: blk.data_len + BLOCK_HEADER_SIZE + nxt.data_len,
                    };
                    self.blocks[idx] = grown;
                    self.blocks.remove(idx + 1);
                    merged = true;
                    proof {
                        let nbs = self.blocks@;
                        let j = idx as int;
                        let mid = cur.update(j, grown);
                        mid.remove_ensures(j + 1);
                        assert(forall|p: int| 0 <= p < j ==> #[trigger] nbs[p] == cur[p]);
                        assert(nbs[j] == grown);
                        assert forall|p: int| j < p < nbs.len() implies #[trigger] nbs[p]
                            == cur[p + 1] by {
                            assert(mid.remove(j + 1)[p] == mid[p + 1]);
                        }
                        assert(absorb_shape(cur, nbs, j));
                        assert(grown.end() == cur[j + 1].end());
                        // The registry stays well formed: the merged block
                        // spans exactly its two halves.
                        assert forall|p: int| 0 <= p < nbs.len() implies #[trigger] nbs[p].wf(
                            heap,
                        ) by {
                            lemma_hdr_multiple_arith(
                                cur[j].data_len + BLOCK_HEADER_SIZE,
                                cur[j + 1].data_len as int,
                            );
                            lemma_hdr_multiple_arith(
                                cur[j].data_len as int,
                                BLOCK_HEADER_SIZE as int,
                            );
                            if p < j {
                                assert(cur[p].wf(heap));
                            } else if p == j {
                                assert(cur[j].wf(heap) && cur[j + 1].wf(heap));
                            } else {
                                assert(cur[p + 1].wf(heap));
                            }
                        }
                        assert forall|p: int, q: int|
                            0 <= p < nbs.len() && 0 <= q < nbs.len() && p != q
                            implies #[trigger] nbs[p].disjoint(#[trigger] nbs[q]) by {
                            let op = if p <= j { p } else { p + 1 };
                            let oq = if q <= j { q } else { q + 1 };
                            assert(op != oq);
                            assert(cur[op].disjoint(cur[oq]));
                            if p == j {
                                assert(cur[j].disjoint(cur[oq]) && cur[j + 1].disjoint(
                                    cur[oq],
                                ));
                            }
                            if q == j {
                                assert(cur[j].disjoint(cur[op]) && cur[j + 1].disjoint(
                                    cur[op],
                                ));
                            }
                        }
                        // Processed prefix stays unmergeable.
                        assert forall|m: int| 0 <= m < idx implies !mergeable_at(nbs, m) by {
                            assert(!mergeable_at(cur, m));
                            assert(nbs[m] == cur[m]);
                            if m + 1 < j {
                                assert(nbs[m + 1] == cur[m + 1]);
                            }
                        }
                        // Used blocks are untouched: both absorbed blocks
                        // were free.
                        assert forall|b: Block|
                            #[trigger] obs.contains(b) && !b.free implies nbs.contains(
                            b,
                        ) by {
                            let w = choose|w: int| 0 <= w < cur.len() && cur[w] == b;
                            assert(cur.contains(b));
                            assert(w != j && w != j + 1);
                            if w < j {
                                assert(nbs[w] == b);
                            } else {
                                assert(nbs[w - 1] == b);
                            }
                        }
                        assert forall|b: Block|
                            #[trigger] nbs.contains(b) && !b.free implies obs.contains(
                            b,
                        ) by {
                            let w = choose|w: int| 0 <= w < nbs.len() && nbs[w] == b;
                            if w < j {
                                assert(cur[w] == b);
                            } else if w == j {
                                assert(nbs[j].free);
                            } else {
                                assert(cur[w + 1] == b);
                            }
                            assert(cur.contains(b));
                        }
                        // Coverage of old free spans survives the absorb.
                        assert forall|i: int|
                            0 <= i < obs.len() && obs[i].free implies exists|k: int|
                            covers(nbs, k, #[trigger] obs[i]) by {
                            let k = choose|k: int| covers(cur, k, obs[i]);
                            lemma_covers_after_absorb(cur, nbs, j, k, obs[i]);
                        }
                        assert forall|i: int| #[trigger] mergeable_at(obs, i) implies exists|k: int|
                            #[trigger] pair_linked_at(nbs, k, obs[i], obs[i + 1]) by {
                            let k = choose|k: int| #[trigger] pair_linked_at(cur, k, obs[i], obs[i + 1]);
                            lemma_pair_linked_after_absorb(cur, nbs, j, k, obs[i], obs[i + 1]);
                        }
                    }
                }
            }
            if !merged {
                idx = idx + 1;
            }
        }
        proof {
            let nbs = self.blocks@;
            assert forall|m: int| !mergeable_at(nbs, m) by {
                if 0 <= m && m + 1 < nbs.len() {
                    assert(!mergeable_at(nbs, m));
                }
            }
            assert forall|i: int| #[trigger] mergeable_at(obs, i) implies exists|k: int|
                covers(nbs, k, obs[i]) && obs[i + 1].end() <= nbs[k].end() by {
                let k = choose|k: int| #[trigger] pair_linked_at(nbs, k, obs[i], obs[i + 1]);
                if !(obs[i + 1].end() <= nbs[k].end()) {
                    assert(mergeable_at(nbs, k));
                }
            }
        }
    }

    /// Arena offset `ptr` is the data offset of allocated (not free) block
    /// `i`: the precondition of [`Self::deallocate`].
    pub open spec fn is_live_ptr(&self, i: int, ptr: int) -> bool {
        &&& 0 <= i < self.blocks().len()
        &&& !self.blocks()[i].free
        &&& self.blocks()[i].data_off() == ptr
    }

    /// Serves a request for `size` bytes at alignment `alignment`.
    ///
    /// The request is rejected, with `None` and the allocator unchanged,
    /// exactly when the alignment exceeds a page or the normalized size
    /// would overflow the memory source's signed size.  An acceptable
    /// request is served whenever a free block already fits it, or the
    /// arena still has room to grow by one grant; in particular, when a
    /// fitting free block exists the arena does not grow at all, and when
    /// an exact-length fit exists, the first such block is handed out with
    /// no other change to the registry.
    pub fn allocate(&mut self, size: usize, alignment: usize) -> (r: Option<Allocation>)
        requires
            old(self).wf(),
        ensures
            final(self).wf(),
            final(self).heap_size() >= old(self).heap_size(),
            forall|k: int|
                0 <= k < old(self).heap_size() ==> #[trigger] final(self).mem()[k]
                    == old(self).mem()[k],
            used_blocks_preserved(old(self).blocks(), final(self).blocks()),
            r is None ==> *final(self) == *old(self),
            request_rejected(size as int, alignment as int) ==> r is None,
            !request_rejected(size as int, alignment as int) && has_candidate(
                old(self).blocks(),
                size_norm(size as int),
                align_norm(alignment as int),
            ) ==> r is Some && final(self).heap_size() == old(self).heap_size(),
            !request_rejected(size as int, alignment as int) && old(self).heap_size()
                + grant_size(size_norm(size as int), PAGE_SIZE as int) <= usize::MAX
                ==> r is Some,
            r is Some && !has_candidate(
                old(self).blocks(),
                size_norm(size as int),
                align_norm(alignment as int),
            ) ==> final(self).heap_size() > old(self).heap_size(),
            match r {
                Some(a) => {
                    let norm = size_norm(size as int);
                    let eff = align_norm(alignment as int);
                    &&& a.len >= size
                    &&& norm <= a.len <= norm + BLOCK_HEADER_SIZE
                    &&& a.ptr >= BLOCK_HEADER_SIZE
                    &&& exists|bi: int| final(self).is_live_ptr(bi, a.ptr as int)
                        && #[trigger] final(self).blocks()[bi].data_len == a.len
                    &&& (is_pow2(alignment as int) ==> (a.ptr as int) % (alignment as int) == 0)
                    &&& (has_candidate(old(self).blocks(), norm, eff) ==> exists|bi: int|
                        {
                            &&& #[trigger] chosen_block(old(self).blocks(), bi, norm, eff)
                            &&& a.ptr == old(self).blocks()[bi].data_off()
                            &&& final(self).blocks() == registry_after_serving(
                                old(self).blocks(),
                                bi,
                                norm,
                            )
                        })
                    &&& (!has_candidate(old(self).blocks(), norm, eff) ==> exists|a2: int|
                        {
                            &&& #[trigger] is_pow2(a2)
                            &&& eff <= a2 <= PAGE_SIZE
                            &&& (a2 == 8 || a2 / 2 < eff)
                            &&& a.ptr == old(self).heap_size() + pad_size(a2) + BLOCK_HEADER_SIZE
                            &&& a.len == norm
                            &&& final(self).blocks() == fresh_grant_blocks(
                                old(self).heap_size(),
                                norm,
                                a2,
                            ).update(
                                0,
                                (Block {
                                    free: false,
                                    hdr: (old(self).heap_size() + pad_size(a2)) as usize,
                                    data_len: norm as usize,
                                }),
                            ) + old(self).blocks()
                            &&& final(self).heap_size() == old(self).heap_size() + grant_size(
                                norm,
                                a2,
                            )
                        })
                },
                None => true,
            },
            final(self).heap_size() <= old(self).heap_size() + grant_size(
                size_norm(size as int),
                PAGE_SIZE as int,
            ),
    {
        let found = self.find_block(size, alignment);
        match found {
            None => None,
            Some(i) => {
                let ghost mid = *self;
                let mem_len = self.mem.len();
                let blk = self.blocks[i];
                proof {
                    assert(mid.blocks()[i as int].wf(mid.heap_size()));
                }
                let taken = Block { free: false, hdr: blk.hdr, data_len: blk.data_len };
                self.blocks[i] = taken;
                proof {
                    let nbs = self.blocks@;
                    let mbs = mid.blocks();
                    assert forall|p: int| 0 <= p < nbs.len() implies #[trigger] nbs[p].wf(
                        self.heap_size(),
                    ) by {
                        assert(mbs[p].wf(mid.heap_size()));
                    }
                    assert forall|p: int, q: int|
                        0 <= p < nbs.len() && 0 <= q < nbs.len() && p != q
                        implies #[trigger] nbs[p].disjoint(#[trigger] nbs[q]) by {
                        assert(mbs[p].disjoint(mbs[q]));
                    }
                    assert forall|b: Block|
                        #[trigger] old(self).blocks().contains(b) && !b.free
                        implies nbs.contains(b) by {
                        assert(mbs.contains(b));
                        let w = choose|w: int| 0 <= w < mbs.len() && mbs[w] == b;
                        assert(w != i ==> nbs[w] == b);
                        assert(w == i ==> !mbs[i as int].free);
                    }
                    assert(self.is_live_ptr(i as int, blk.data_off()));
                    assert(self.blocks@[i as int].data_len == blk.data_len);
                    lemma_round_up_props(size as int, BLOCK_HEADER_SIZE as int);
                    let norm = size_norm(size as int);
                    let eff = align_norm(alignment as int);
                    if has_candidate(old(self).blocks(), norm, eff) {
                        let found0 = old(self).blocks()[i as int];
                        assert(chosen_block(old(self).blocks(), i as int, norm, eff));
                        assert(blk.hdr == found0.hdr);
                        if found0.data_len > norm + BLOCK_HEADER_SIZE {
                            // The split already happened; taking the shrunk
                            // block gives the served registry exactly.
                            let shrunk = Block {
                                free: true,
                                hdr: found0.hdr,
                                data_len: norm as usize,
                            };
                            let carved = Block {
                                free: true,
                                hdr: (found0.hdr + BLOCK_HEADER_SIZE + norm) as usize,
                                data_len: (found0.data_len - norm - BLOCK_HEADER_SIZE) as usize,
                            };
                            let pre = old(self).blocks().update(i as int, shrunk).insert(
                                i as int + 1,
                                carved,
                            );
                            let post = old(self).blocks().update(i as int, taken).insert(
                                i as int + 1,
                                carved,
                            );
                            old(self).blocks().update(i as int, shrunk).insert_ensures(
                                i as int + 1,
                                carved,
                            );
                            old(self).blocks().update(i as int, taken).insert_ensures(
                                i as int + 1,
                                carved,
                            );
                            assert(self.blocks@ =~= pre.update(i as int, taken));
                            assert(pre.update(i as int, taken) =~= post);
                            assert(self.blocks@ == registry_after_serving(
                                old(self).blocks(),
                                i as int,
                                norm,
                            ));
                        } else {
                            assert(self.blocks@ =~= old(self).blocks().update(
                                i as int,
                                taken,
                            ));
                            assert(self.blocks@ == registry_after_serving(
                                old(self).blocks(),
                                i as int,
                                norm,
                            ));
                        }
                    } else {
                        let a2 = choose|a2: int|
                            {
                                &&& #[trigger] is_pow2(a2)
                                &&& eff <= a2 <= PAGE_SIZE
                                &&& (a2 == 8 || a2 / 2 < eff)
                                &&& mid.blocks() == fresh_grant_blocks(
                                    old(self).heap_size(),
                                    norm,
                                    a2,
                                ) + old(self).blocks()
                                &&& mid.heap_size() == old(self).heap_size() + grant_size(
                                    norm,
                                    a2,
                                )
                            };
                        let fresh = fresh_grant_blocks(old(self).heap_size(), norm, a2);
                        assert(mbs[0] == fresh[0]);
                        assert(self.blocks@ =~= fresh.update(0, taken) + old(self).blocks());
                        lemma_grant_size_le(norm, a2);
                    }
                }
                Some(Allocation { ptr: blk.hdr + BLOCK_HEADER_SIZE, len: blk.data_len })
            },
        }
    }

    /// Whether `ptr` is the data offset of a live allocation.  The
    /// runtime can check [`Self::deallocate`]'s precondition with this
    /// before trusting a caller-supplied pointer.
    pub fn is_live(&self, ptr: usize) -> (r: bool)
        requires
            self.wf(),
        ensures
            r == exists|i: int| self.is_live_ptr(i, ptr as int),
    {
        let n = self.blocks.len();
        let mem_len = self.mem.len();
        let mut j: usize = 0;
        while j < n
            invariant
                self.wf(),
                mem_len == self.heap_size(),
                n == self.blocks@.len(),
                0 <= j <= n,
                forall|m: int| 0 <= m < j ==> !self.is_live_ptr(m, ptr as int),
            decreases n - j,
        {
            let blk = self.blocks[j];
            proof {
                assert(self.blocks()[j as int].wf(self.heap_size()));
            }
            if !blk.free && blk.hdr + BLOCK_HEADER_SIZE == ptr {
                proof {
                    assert(self.is_live_ptr(j as int, ptr as int));
                }
                return true;
            }
            proof {
                assert(!self.is_live_ptr(j as int, ptr as int));
            }
            j = j + 1;
        }
        false
    }

    /// Returns the allocation whose data region starts at `ptr` to the free
    /// list and coalesces.  `ptr` must be a pointer previously returned by
    /// [`Self::allocate`] and not yet deallocated; the header sits
    /// immediately before it.
    ///
    /// Afterwards the freed bytes lie in a free block again, every other
    /// live allocation is untouched (registry record and data bytes both),
    /// and no two neighbouring registry entries are left unmerged; in
    /// particular a free, address-contiguous registry neighbour of the
    /// freed block ends up fused with it into one free block spanning
    /// both.
    pub fn deallocate(&mut self, ptr: usize)
        requires
            old(self).wf(),
            exists|i: int| old(self).is_live_ptr(i, ptr as int),
        ensures
            final(self).wf(),
            final(self).mem() == old(self).mem(),
            final(self).heap_size() == old(self).heap_size(),
            used_blocks_preserved(final(self).blocks(), old(self).blocks()),
            forall|b: Block|
                #[trigger] old(self).blocks().contains(b) && !b.free && b.data_off() != ptr
                    ==> final(self).blocks().contains(b),
            forall|m: int| !mergeable_at(final(self).blocks(), m),
            forall|i: int|
                #[trigger] old(self).is_live_ptr(i, ptr as int) ==> exists|k: int|
                    covers(final(self).blocks(), k, old(self).blocks()[i]),
            forall|i: int|
                #[trigger] old(self).is_live_ptr(i, ptr as int) && i + 1
                    < old(self).blocks().len() && old(self).blocks()[i + 1].free
                    && old(self).blocks()[i].end() == old(self).blocks()[i + 1].hdr
                    ==> exists|k: int| covers(final(self).blocks(), k, old(self).blocks()[i])
                        && old(self).blocks()[i + 1].end() <= final(self).blocks()[k].end(),
            forall|i: int|
                #[trigger] old(self).is_live_ptr(i, ptr as int) && 0 <= i - 1
                    && old(self).blocks()[i - 1].free
                    && old(self).blocks()[i - 1].end() == old(self).blocks()[i].hdr
                    ==> exists|k: int| covers(final(self).blocks(), k, old(self).blocks()[i - 1])
                        && old(self).blocks()[i].end() <= final(self).blocks()[k].end(),
    {
        let ghost obs = old(self).blocks();
        let n = self.blocks.len();
        let mem_len = self.mem.len();
        let mut j: usize = 0;
        while j < n
            invariant_except_break
                *self == *old(self),
                old(self).wf(),
                mem_len == old(self).heap_size(),
                n == self.blocks@.len(),
                0 <= j <= n,
                forall|m: int| 0 <= m < j ==> !old(self).is_live_ptr(m, ptr as int),
            ensures
                *self == *old(self),
                n == self.blocks@.len(),
                0 <= j <= n,
                j < n ==> old(self).is_live_ptr(j as int, ptr as int),
                j == n ==> forall|m: int| 0 <= m < n ==> !old(self).is_live_ptr(m, ptr as int),
            decreases n - j,
        {
            let blk = self.blocks[j];
            proof {
                assert(old(self).blocks()[j as int].wf(old(self).heap_size()));
            }
            if !blk.free && blk.hdr + BLOCK_HEADER_SIZE == ptr {
                break;
            }
            proof {
                assert(!old(self).is_live_ptr(j as int, ptr as int));
            }
            j = j + 1;
        }
        proof {
            if j == n {
                let w = choose|i: int| old(self).is_live_ptr(i, ptr as int);
                assert(!old(self).is_live_ptr(w, ptr as int));
            }
            assert(old(self).is_live_ptr(j as int, ptr as int));
        }
        let blk = self.blocks[j];
        let freed = Block { free: true, hdr: blk.hdr, data_len: blk.data_len };
        self.blocks[j] = freed;
        let ghost mid = *self;
        proof {
            assert forall|p: int| 0 <= p < mid.blocks().len() implies #[trigger] mid.blocks()[p]
                .wf(mid.heap_size()) by {
                assert(obs[p].wf(old(self).heap_size()));
            }
            assert forall|p: int, q: int|
                0 <= p < mid.blocks().len() && 0 <= q < mid.blocks().len() && p != q
                implies #[trigger] mid.blocks()[p].disjoint(#[trigger] mid.blocks()[q]) by {
                assert(obs[p].disjoint(obs[q]));
            }
        }
        self.merge_blocks();
        proof {
            let nbs = self.blocks@;
            let mbs = mid.blocks();
            // Any block allocated in the old registry, other than the one
            // freed here, survives the marking and the coalescing pass.
            assert forall|b: Block|
                #[trigger] obs.contains(b) && !b.free && b.data_off() != ptr
                implies nbs.contains(b) by {
                let w = choose|w: int| 0 <= w < obs.len() && obs[w] == b;
                assert(w != j);
                assert(mbs[w] == b);
                assert(mbs.contains(b));
            }
            // The reverse direction composes the two steps likewise.
            assert forall|b: Block| #[trigger] nbs.contains(b) && !b.free
                implies obs.contains(b) by {
                assert(mbs.contains(b));
                let w = choose|w: int| 0 <= w < mbs.len() && mbs[w] == b;
                assert(w != j);
                assert(obs[w] == b);
            }
            // Coverage of the freed block, alone and fused with a
            // mergeable registry neighbour.
            assert forall|i: int| #[trigger] old(self).is_live_ptr(i, ptr as int)
                implies exists|k: int| covers(nbs, k, obs[i]) by {
                lemma_data_off_unique(obs, old(self).heap_size(), i, j as int);
                assert(mbs[i].free);
                assert(mbs[i].hdr == obs[i].hdr && mbs[i].end() == obs[i].end());
                let k = choose|k: int| covers(nbs, k, mbs[i]);
                assert(covers(nbs, k, obs[i]));
            }
            assert forall|i: int|
                #[trigger] old(self).is_live_ptr(i, ptr as int) && i + 1 < obs.len()
                    && obs[i + 1].free && obs[i].end() == obs[i + 1].hdr
                implies exists|k: int| covers(nbs, k, obs[i]) && obs[i + 1].end()
                <= nbs[k].end() by {
                lemma_data_off_unique(obs, old(self).heap_size(), i, j as int);
                assert(mergeable_at(mbs, i));
                let k = choose|k: int|
                    covers(nbs, k, mbs[i]) && mbs[i + 1].end() <= nbs[k].end();
                assert(covers(nbs, k, obs[i]) && obs[i + 1].end() <= nbs[k].end());
            }
            assert forall|i: int|
                #[trigger] old(self).is_live_ptr(i, ptr as int) && 0 <= i - 1
                    && obs[i - 1].free && obs[i - 1].end() == obs[i].hdr
                implies exists|k: int| covers(nbs, k, obs[i - 1]) && obs[i].end()
                <= nbs[k].end() by {
                lemma_data_off_unique(obs, old(self).heap_size(), i, j as int);
                assert(mergeable_at(mbs, i - 1));
                let k = choose|k: int|
                    covers(nbs, k, mbs[i - 1]) && mbs[i].end() <= nbs[k].end();
                assert(covers(nbs, k, obs[i - 1]) && obs[i].end() <= nbs[k].end());
            }
        }
    }

    /// Models the memory source's grant: extends the arena by `count`
    /// bytes.  Existing arena bytes and the registry are untouched.
    fn grow_arena(&mut self, count: usize)
        requires
            old(self).heap_size() + count <= usize::MAX,
        ensures
            final(self).blocks() == old(self).blocks(),
            final(self).heap_size() == old(self).heap_size() + count,
            forall|k: int|
                0 <= k < old(self).heap_size() ==> #[trigger] final(self).mem()[k]
                    == old(self).mem()[k],
    {
        let start = self.mem.len();
        let target = start + count;
        while self.mem.len() < target
            invariant
                self.blocks@ == old(self).blocks(),
                start == old(self).heap_size(),
                start <= self.mem@.len() <= target,
                target == old(self).heap_size() + count,
                forall|k: int|
                    0 <= k < start ==> #[trigger] self.mem@[k] == old(self).mem()[k],
            decreases target - self.mem@.len(),
        {
            self.mem.push(0);
        }
    }

    /// Asks the memory source for a fresh page-multiple region large enough
    /// for `data_len` bytes at alignment `eff_align`, and carves it into
    /// blocks prepended to the registry: the block that will serve the
    /// request first, then the alignment padding (if any), then the
    /// remainder of the grant (if any).  Fails only when the address space
    /// cannot grow by a further grant.
    fn create_region(&mut self, data_len: usize, eff_align: usize) -> (r: bool)
        requires
            old(self).wf(),
            (data_len as int) % (BLOCK_HEADER_SIZE as int) == 0,
            data_len + BLOCK_HEADER_SIZE <= MAX_BLOCK_SPAN,
            is_pow2(eff_align as int),
            8 <= eff_align <= PAGE_SIZE,
        ensures
            final(self).wf(),
            r == (old(self).heap_size() + grant_size(data_len as int, eff_align as int)
                <= usize::MAX),
            !r ==> *final(self) == *old(self),
            r ==> {
                &&& final(self).heap_size() == old(self).heap_size() + grant_size(
                    data_len as int,
                    eff_align as int,
                )
                &&& forall|k: int|
                    0 <= k < old(self).heap_size() ==> #[trigger] final(self).mem()[k]
                        == old(self).mem()[k]
                &&& final(self).blocks().len() > old(self).blocks().len()
                &&& {
                    let fl = final(self).blocks().len() - old(self).blocks().len();
                    &&& fl <= 3
                    &&& forall|k: int|
                        fl <= k < final(self).blocks().len()
                            ==> #[trigger] final(self).blocks()[k] == old(self).blocks()[k - fl]
                }
                &&& final(self).blocks()[0] == (Block {
                    free: true,
                    hdr: (old(self).heap_size() + pad_size(eff_align as int)) as usize,
                    data_len,
                })
                &&& final(self).blocks()[0].data_off() % (eff_align as int) == 0
                &&& final(self).blocks() == fresh_grant_blocks(
                    old(self).heap_size(),
                    data_len as int,
                    eff_align as int,
                ) + old(self).blocks()
            },
    {
        let ghost heap0 = old(self).heap_size();
        let pad_total: usize = if eff_align <= BLOCK_HEADER_SIZE {
            0
        } else {
            eff_align - BLOCK_HEADER_SIZE
        };
        let used = pad_total + BLOCK_HEADER_SIZE + data_len;
        let grant = match round_up(used, PAGE_SIZE) {
            Some(g) => g,
            None => {
                proof {
                    lemma_round_up_props(used as int, PAGE_SIZE as int);
                }
                return false;
            },
        };
        proof {
            lemma_round_up_props(used as int, PAGE_SIZE as int);
        }
        let start = self.mem.len();
        if start > usize::MAX - grant {
            return false;
        }
        self.grow_arena(grant);
        let main = Block {
            free: true,
            hdr: start + pad_total,
            data_len,
        };
        let mut fresh: Vec<Block> = Vec::new();
        fresh.push(main);
        if pad_total > 0 {
            proof {
                reveal_with_fuel(is_pow2, 14);
                assert(is_pow2(32));
                lemma_pow2_divides(32, eff_align as int);
                lemma_hdr_multiple_arith(eff_align as int, BLOCK_HEADER_SIZE as int);
                lemma_pos_multiple_ge(eff_align - BLOCK_HEADER_SIZE, BLOCK_HEADER_SIZE as int);
            }
            fresh.push(
                Block {
                    free: true,
                    hdr: start,
                    data_len: pad_total - BLOCK_HEADER_SIZE,
                },
            );
        }
        if grant > used {
            proof {
                reveal_with_fuel(is_pow2, 14);
                assert(is_pow2(32));
                lemma_round_up_props(used as int, PAGE_SIZE as int);
                lemma_page_multiple_pow2_aligned(grant as int, BLOCK_HEADER_SIZE as int);
                if pad_total > 0 {
                    lemma_pow2_divides(32, eff_align as int);
                    lemma_hdr_multiple_arith(eff_align as int, BLOCK_HEADER_SIZE as int);
                }
                lemma_hdr_multiple_arith(pad_total as int, BLOCK_HEADER_SIZE + data_len as int);
                lemma_hdr_multiple_arith(BLOCK_HEADER_SIZE as int, data_len as int);
                lemma_hdr_multiple_arith(grant as int, used as int);
                lemma_pos_multiple_ge(grant - used, BLOCK_HEADER_SIZE as int);
            }
            fresh.push(
                Block {
                    free: true,
                    hdr: start + used,
                    data_len: grant - used - BLOCK_HEADER_SIZE,
                },
            );
        }
        proof {
            lemma_fresh_region_blocks(
                fresh@,
                heap0 as int,
                pad_total as int,
                data_len as int,
                used as int,
                grant as int,
                eff_align as int,
            );
            assert(fresh@ =~= fresh_grant_blocks(
                heap0 as int,
                data_len as int,
                eff_align as int,
            ));
        }
        fresh.append(&mut self.blocks);
        self.blocks = fresh;
        proof {
            let obs = old(self).blocks();
            let nbs = self.blocks@;
            let fl = nbs.len() - obs.len();
            assert(forall|k: int|
                fl <= k < nbs.len() ==> #[trigger] nbs[k] == obs[k - fl]);
            assert forall|p: int, q: int|
                0 <= p < nbs.len() && 0 <= q < nbs.len() && p != q implies #[trigger] nbs[p]
                .disjoint(#[trigger] nbs[q]) by {
                if p >= fl {
                    assert(nbs[p] == obs[p - fl]);
                    assert(obs[p - fl].wf(heap0));
                }
                if q >= fl {
                    assert(nbs[q] == obs[q - fl]);
                    assert(obs[q - fl].wf(heap0));
                }
                if p >= fl && q >= fl {
                    assert(obs[p - fl].disjoint(obs[q - fl]));
                }
            }
            assert forall|p: int| 0 <= p < nbs.len() implies #[trigger] nbs[p].wf(
                self.heap_size(),
            ) by {
                if p >= fl {
                    assert(nbs[p] == obs[p - fl]);
                    assert(obs[p - fl].wf(heap0));
                }
            }
            assert((self.heap_size()) % (PAGE_SIZE as int) == 0) by {
                vstd::arithmetic::div_mod::lemma_add_mod_noop(
                    heap0 as int,
                    grant as int,
                    PAGE_SIZE as int,
                );
            }
        }
        true
    }

    /// Finds a free block able to serve a normalized request, splitting an
    /// oversized find or carving a fresh grant when nothing fits.  Returns
    /// the registry index of a free, fitting, aligned block, or `None` when
    /// the request is rejected or the arena cannot grow.
    fn find_block(&mut self, size: usize, alignment: usize) -> (r: Option<usize>)
        requires
            old(self).wf(),
        ensures
            final(self).wf(),
            final(self).heap_size() >= old(self).heap_size(),
            forall|k: int|
                0 <= k < old(self).heap_size() ==> #[trigger] final(self).mem()[k]
                    == old(self).mem()[k],
            used_blocks_preserved(old(self).blocks(), final(self).blocks()),
            r is None ==> *final(self) == *old(self),
            request_rejected(size as int, alignment as int) ==> r is None,
            match r {
                Some(i) => {
                    let norm = size_norm(size as int);
                    let eff = align_norm(alignment as int);
                    &&& !request_rejected(size as int, alignment as int)
                    &&& 0 <= i < final(self).blocks().len()
                    &&& final(self).blocks()[i as int].free
                    &&& norm <= final(self).blocks()[i as int].data_len <= norm
                        + BLOCK_HEADER_SIZE
                    &&& (is_pow2(alignment as int) ==> final(self).blocks()[i as int].data_off()
                        % (alignment as int) == 0)
                    &&& (has_candidate(old(self).blocks(), norm, eff) ==> {
                        let found = old(self).blocks()[i as int];
                        &&& final(self).heap_size() == old(self).heap_size()
                        &&& chosen_block(old(self).blocks(), i as int, norm, eff)
                        &&& final(self).blocks()[i as int].hdr == found.hdr
                        &&& final(self).blocks()[i as int].data_off() % eff == 0
                        &&& (found.data_len > norm + BLOCK_HEADER_SIZE ==> {
                            &&& final(self).blocks() == old(self).blocks().update(
                                i as int,
                                (Block { free: true, hdr: found.hdr, data_len: norm as usize }),
                            ).insert(
                                i as int + 1,
                                (Block {
                                    free: true,
                                    hdr: (found.hdr + BLOCK_HEADER_SIZE + norm) as usize,
                                    data_len: (found.data_len - norm
                                        - BLOCK_HEADER_SIZE) as usize,
                                }),
                            )
                            &&& final(self).blocks()[i as int].data_len == norm
                        })
                        &&& (found.data_len <= norm + BLOCK_HEADER_SIZE ==> *final(self) == *old(
                            self,
                        ))
                    })
                    &&& (!has_candidate(old(self).blocks(), norm, eff) ==> {
                        &&& i == 0
                        &&& exists|a2: int|
                            {
                                &&& #[trigger] is_pow2(a2)
                                &&& eff <= a2 <= PAGE_SIZE
                                &&& (a2 == 8 || a2 / 2 < eff)
                                &&& final(self).blocks() == fresh_grant_blocks(
                                    old(self).heap_size(),
                                    norm,
                                    a2,
                                ) + old(self).blocks()
                                &&& final(self).heap_size() == old(self).heap_size()
                                    + grant_size(norm, a2)
                            }
                    })
                },
                None => request_rejected(size as int, alignment as int) || !has_candidate(
                    old(self).blocks(),
                    size_norm(size as int),
                    align_norm(alignment as int),
                ),
            },
            !request_rejected(size as int, alignment as int) && old(self).heap_size()
                + grant_size(size_norm(size as int), PAGE_SIZE as int) <= usize::MAX ==> r is Some,
    {
        if alignment > PAGE_SIZE {
            return None;
        }
        let align_base = if alignment < 1 {
            1
        } else {
            alignment
        };
        let align_eff = match round_up(align_base, 8) {
            Some(v) => v,
            None => {
                proof {
                    lemma_round_up_props(align_base as int, 8);
                }
                return None;
            },
        };
        let norm = match round_up(size, BLOCK_HEADER_SIZE) {
            Some(v) => v,
            None => {
                proof {
                    lemma_round_up_props(size as int, BLOCK_HEADER_SIZE as int);
                    lemma_grant_size_monotone(size_norm(size as int));
                }
                return None;
            },
        };
        proof {
            lemma_round_up_props(size as int, BLOCK_HEADER_SIZE as int);
            lemma_round_up_props(align_base as int, 8);
        }
        if norm > MAX_BLOCK_SPAN - BLOCK_HEADER_SIZE {
            proof {
                lemma_grant_size_monotone(size_norm(size as int));
            }
            return None;
        }
        let ghost eff = align_norm(alignment as int);
        match self.try_find_block(norm, align_eff) {
            Some(i) => {
                let blk = self.blocks[i];
                proof {
                    if is_pow2(alignment as int) {
                        lemma_align_norm_pow2(alignment as int);
                        lemma_mod_transitive(
                            blk.data_off(),
                            eff,
                            alignment as int,
                        );
                    }
                }
                if blk.data_len > norm && blk.data_len - norm > BLOCK_HEADER_SIZE {
                    self.split_block(i, norm);
                    proof {
                        assert(!has_exact(old(self).blocks(), norm as int, eff)) by {
                            if has_exact(old(self).blocks(), norm as int, eff) {
                                assert(is_exact(
                                    old(self).blocks(),
                                    i as int,
                                    norm as int,
                                    eff,
                                ));
                            }
                        }
                        assert forall|b: Block|
                            #[trigger] old(self).blocks().contains(b) && !b.free
                            implies self.blocks@.contains(b) by {
                            let w = choose|w: int|
                                0 <= w < old(self).blocks().len() && old(self).blocks()[w] == b;
                            if w < i {
                                assert(self.blocks@[w] == b);
                            } else if w == i {
                                assert(!old(self).blocks()[i as int].free);
                            } else {
                                assert(self.blocks@[w + 1] == b);
                            }
                        }
                        let shrunk = Block { free: true, hdr: blk.hdr, data_len: norm };
                        let carved = Block {
                            free: true,
                            hdr: (blk.hdr + BLOCK_HEADER_SIZE + norm) as usize,
                            data_len: (blk.data_len - norm - BLOCK_HEADER_SIZE) as usize,
                        };
                        let target = old(self).blocks().update(i as int, shrunk);
                        target.insert_ensures(i as int + 1, carved);
                        assert forall|k: int|
                            i + 2 <= k < self.blocks@.len()
                            implies #[trigger] target.insert(i as int + 1, carved)[k]
                            == old(self).blocks()[k - 1] by {
                            let j = k - 1;
                            assert(target.insert(i as int + 1, carved)[j + 1] == target[j]);
                        }
                        assert(self.blocks@ =~= target.insert(i as int + 1, carved));
                    }
                }
                Some(i)
            },
            None => {
                let a2 = pow2_at_least(align_eff);
                proof {
                    lemma_grant_size_le(norm as int, a2 as int);
                }
                if self.create_region(norm, a2) {
                    proof {
                        let nbs = self.blocks@;
                        let obs = old(self).blocks();
                        let fl = nbs.len() - obs.len();
                        assert forall|b: Block| #[trigger] obs.contains(b) && !b.free
                            implies nbs.contains(b) by {
                            let w = choose|w: int| 0 <= w < obs.len() && obs[w] == b;
                            assert(nbs[w + fl] == b);
                        }
                        if is_pow2(alignment as int) {
                            lemma_align_norm_pow2(alignment as int);
                            lemma_pow2_divides(alignment as int, a2 as int);
                            lemma_mod_transitive(
                                nbs[0].data_off(),
                                a2 as int,
                                alignment as int,
                            );
                        }
                    }
                    Some(0)
                } else {
                    None
                }
            },
        }
    }

    /// Carves the tail of free block `i` off into a new free block that is
    /// spliced in right after it, shrinking block `i` to `new_len` data
    /// bytes.  Used when a found block is larger than the request by more
    /// than one header's worth of space.
    fn split_block(&mut self, i: usize, new_len: usize)
        requires
            old(self).wf(),
            i < old(self).blocks().len(),
            old(self).blocks()[i as int].free,
            (new_len as int) % (BLOCK_HEADER_SIZE as int) == 0,
            new_len + BLOCK_HEADER_SIZE < old(self).blocks()[i as int].data_len,
        ensures
            final(self).wf(),
            final(self).mem() == old(self).mem(),
            final(self).blocks().len() == old(self).blocks().len() + 1,
            forall|k: int| 0 <= k < i ==> #[trigger] final(self).blocks()[k]
                == old(self).blocks()[k],
            final(self).blocks()[i as int] == (Block {
                free: true,
                hdr: old(self).blocks()[i as int].hdr,
                data_len: new_len,
            }),
            final(self).blocks()[i as int + 1] == (Block {
                free: true,
                hdr: (old(self).blocks()[i as int].hdr + BLOCK_HEADER_SIZE
                    + new_len) as usize,
                data_len: (old(self).blocks()[i as int].data_len - new_len
                    - BLOCK_HEADER_SIZE) as usize,
            }),
            forall|k: int|
                i + 2 <= k < final(self).blocks().len() ==> #[trigger] final(self).blocks()[k]
                    == old(self).blocks()[k - 1],
    {
        let ghost obs = old(self).blocks();
        let ghost heap = old(self).heap_size();
        let mem_len = self.mem.len();
        let n = self.blocks.len();
        let blk = self.blocks[i];
        proof {
            assert(obs[i as int].wf(heap));
        }
        let shrunk = Block { free: true, hdr: blk.hdr, data_len: new_len };
        let carved = Block {
            free: true,
            hdr: blk.hdr + BLOCK_HEADER_SIZE + new_len,
            data_len: blk.data_len - new_len - BLOCK_HEADER_SIZE,
        };
        self.blocks[i] = shrunk;
        self.blocks.insert(i + 1, carved);
        proof {
            let nbs = self.blocks@;
            let mid = obs.update(i as int, shrunk);
            mid.insert_ensures(i as int + 1, carved);
            assert(nbs.len() == obs.len() + 1);
            assert(forall|p: int| 0 <= p <= i ==> nbs[p] == mid[p]);
            assert(nbs[i as int + 1] == carved);
            assert forall|p: int| i + 2 <= p < nbs.len() implies #[trigger] nbs[p]
                == obs[p - 1] by {
                let j = p - 1;
                assert(mid.insert(i as int + 1, carved)[j + 1] == mid[j]);
            }
            assert forall|p: int| 0 <= p < nbs.len() implies #[trigger] nbs[p].wf(heap) by {
                if p <= i {
                    assert(obs[p].wf(heap));
                    if p == i {
                        vstd::arithmetic::div_mod::lemma_mod_adds(
                            blk.hdr + BLOCK_HEADER_SIZE as int,
                            new_len as int,
                            BLOCK_HEADER_SIZE as int,
                        );
                    }
                } else if p == i + 1 {
                    assert(obs[i as int].wf(heap));
                    lemma_hdr_multiple_arith(BLOCK_HEADER_SIZE as int, new_len as int);
                    lemma_hdr_multiple_arith(
                        blk.hdr as int,
                        BLOCK_HEADER_SIZE as int + new_len,
                    );
                    lemma_hdr_multiple_arith(
                        blk.data_len as int,
                        BLOCK_HEADER_SIZE as int + new_len,
                    );
                    assert(carved.data_len as int == obs[i as int].data_len
                        - (BLOCK_HEADER_SIZE + new_len));
                } else {
                    assert(obs[p - 1].wf(heap));
                }
            }
            assert forall|p: int, q: int|
                0 <= p < nbs.len() && 0 <= q < nbs.len() && p != q implies #[trigger] nbs[p]
                .disjoint(#[trigger] nbs[q]) by {
                lemma_split_case_disjoint(obs, nbs, i as int, shrunk, carved, heap, p, q);
            }
            assert(self.wf());
        }
    }
}

/// Bytes of padding laid down in front of a fresh region's main block so
/// that the main block's data region starts `eff_align`-aligned.  The
/// padding, when present, is itself a free block.
pub open spec fn pad_size(eff_align: int) -> int {
    if eff_align <= BLOCK_HEADER_SIZE {
        0
    } else {
        eff_align - BLOCK_HEADER_SIZE
    }
}

/// Bytes a fresh grant occupies for a normalized request of `data_len`
/// bytes with effective alignment `eff_align`: padding, one header, the data
/// region, all rounded up to whole pages.
pub open spec fn grant_size(data_len: int, eff_align: int) -> int {
    round_up_spec(pad_size(eff_align) + BLOCK_HEADER_SIZE + data_len, PAGE_SIZE as int)
}

/// A grant for an effective alignment of at most a page is no larger than
/// a grant computed for full page alignment.
proof fn lemma_grant_size_le(data_len: int, eff_align: int)
    requires
        data_len >= 0,
        eff_align <= PAGE_SIZE,
    ensures
        grant_size(data_len, eff_align) <= grant_size(data_len, PAGE_SIZE as int),
{
    let a = pad_size(eff_align) + BLOCK_HEADER_SIZE + data_len;
    let b = pad_size(PAGE_SIZE as int) + BLOCK_HEADER_SIZE + data_len;
    assert(a <= b);
    lemma_round_up_monotone(a, b, PAGE_SIZE as int);
}

/// The page-aligned grant for a request grows with the request.
proof fn lemma_grant_size_monotone(data_len: int)
    requires
        data_len >= 0,
    ensures
        grant_size(data_len, PAGE_SIZE as int) >= data_len,
{
    lemma_round_up_props(
        pad_size(PAGE_SIZE as int) + BLOCK_HEADER_SIZE + data_len,
        PAGE_SIZE as int,
    );
}

/// Rounding up preserves order.
proof fn lemma_round_up_monotone(a: int, b: int, step: int)
    requires
        0 <= a <= b,
        step > 0,
    ensures
        round_up_spec(a, step) <= round_up_spec(b, step),
{
    lemma_round_up_props(a, step);
    lemma_round_up_props(b, step);
    let ra = round_up_spec(a, step);
    let rb = round_up_spec(b, step);
    if ra > rb {
        // Two multiples of `step` with `b <= rb < ra < a + step` cannot
        // both exist when `a <= b`.
        vstd::arithmetic::div_mod::lemma_sub_mod_noop(ra, rb, step);
        vstd::arithmetic::div_mod::lemma_small_mod(0nat, step as nat);
        lemma_pos_multiple_ge(ra - rb, step);
    }
}

/// Sums and differences of multiples of the header size are themselves
/// multiples of the header size.
proof fn lemma_hdr_multiple_arith(a: int, b: int)
    requires
        a % (BLOCK_HEADER_SIZE as int) == 0,
        b % (BLOCK_HEADER_SIZE as int) == 0,
    ensures
        (a + b) % (BLOCK_HEADER_SIZE as int) == 0,
        (a - b) % (BLOCK_HEADER_SIZE as int) == 0,
{
    vstd::arithmetic::div_mod::lemma_add_mod_noop(a, b, BLOCK_HEADER_SIZE as int);
    vstd::arithmetic::div_mod::lemma_sub_mod_noop(a, b, BLOCK_HEADER_SIZE as int);
}

/// Two registry blocks with the same data offset are the same block: their
/// spans would otherwise overlap.
proof fn lemma_data_off_unique(blocks: Seq<Block>, mem_len: int, i: int, j: int)
    requires
        registry_wf(blocks, mem_len),
        0 <= i < blocks.len(),
        0 <= j < blocks.len(),
        blocks[i].data_off() == blocks[j].data_off(),
    ensures
        i == j,
{
    if i != j {
        assert(blocks[i].disjoint(blocks[j]));
    }
}

/// A positive multiple of `m` is at least `m`.
proof fn lemma_pos_multiple_ge(x: int, m: int)
    requires
        m > 0,
        x > 0,
        x % m == 0,
    ensures
        x >= m,
{
    vstd::arithmetic::div_mod::lemma_fundamental_div_mod(x, m);
    let q = x / m;
    assert(x == m * q);
    if q <= 0 {
        assert(m * q <= 0) by (nonlinear_arith)
            requires
                m > 0,
                q <= 0,
        ;
    }
    assert(m * q >= m) by (nonlinear_arith)
        requires
            m > 0,
            q >= 1,
    ;
}

/// `d` divides `x` whenever `x` is a multiple of a page and `d` is a power
/// of two no larger than a page.
proof fn lemma_page_multiple_pow2_aligned(x: int, d: int)
    requires
        x >= 0,
        x % (PAGE_SIZE as int) == 0,
        is_pow2(d),
        d <= PAGE_SIZE,
    ensures
        x % d == 0,
{
    reveal_with_fuel(is_pow2, 14);
    assert(is_pow2(PAGE_SIZE as int));
    lemma_pow2_divides(d, PAGE_SIZE as int);
    vstd::arithmetic::div_mod::lemma_fundamental_div_mod(PAGE_SIZE as int, d);
    let a = (PAGE_SIZE as int) / d;
    assert(PAGE_SIZE as int == d * a);
    lemma_pow2_ge_1(d);
    assert(a > 0) by (nonlinear_arith)
        requires
            PAGE_SIZE as int == d * a,
            d >= 1,
            PAGE_SIZE as int > 0,
    ;
    vstd::arithmetic::div_mod::lemma_mod_mod(x, d, a);
    assert((x % (d * a)) % d == x % d);
    vstd::arithmetic::div_mod::lemma_small_mod(0nat, d as nat);
}

/// Shape of the blocks carved out of one fresh grant: the serving block, an
/// optional alignment pad before it, an optional remainder after it.  They
/// tile a span of the new pages, so they are well formed and mutually
/// disjoint, and the serving block's data region is aligned.
proof fn lemma_fresh_region_blocks(
    fresh: Seq<Block>,
    heap0: int,
    pad_total: int,
    data_len: int,
    used: int,
    grant: int,
    eff_align: int,
)
    requires
        heap0 >= 0,
        data_len >= 0,
        heap0 % (PAGE_SIZE as int) == 0,
        data_len % (BLOCK_HEADER_SIZE as int) == 0,
        is_pow2(eff_align),
        8 <= eff_align <= PAGE_SIZE,
        pad_total == pad_size(eff_align),
        used == pad_total + BLOCK_HEADER_SIZE + data_len,
        grant == round_up_spec(used, PAGE_SIZE as int),
        heap0 + grant <= usize::MAX,
        fresh.len() == 1 + (if pad_total > 0 { 1int } else { 0 }) + (if grant > used { 1int } else { 0 }),
        fresh[0] == (Block { free: true, hdr: (heap0 + pad_total) as usize, data_len: data_len as usize }),
        pad_total > 0 ==> fresh[1] == (Block {
            free: true,
            hdr: heap0 as usize,
            data_len: (pad_total - BLOCK_HEADER_SIZE) as usize,
        }),
        grant > used ==> fresh[fresh.len() - 1] == (Block {
            free: true,
            hdr: (heap0 + used) as usize,
            data_len: (grant - used - BLOCK_HEADER_SIZE) as usize,
        }),
    ensures
        forall|k: int|
            0 <= k < fresh.len() ==> #[trigger] fresh[k].wf(heap0 + grant)
                && fresh[k].hdr >= heap0 && fresh[k].free,
        forall|p: int, q: int|
            0 <= p < fresh.len() && 0 <= q < fresh.len() && p != q
                ==> #[trigger] fresh[p].disjoint(#[trigger] fresh[q]),
        fresh[0].data_off() % eff_align == 0,
{
    let hs = BLOCK_HEADER_SIZE as int;
    reveal_with_fuel(is_pow2, 14);
    assert(is_pow2(32));
    lemma_round_up_props(used, PAGE_SIZE as int);
    lemma_page_multiple_pow2_aligned(heap0, hs);
    lemma_page_multiple_pow2_aligned(grant, hs);
    lemma_pow2_ge_1(eff_align);
    // Padding is a multiple of the header size.
    if pad_total > 0 {
        assert(eff_align > 32);
        lemma_pow2_divides(32, eff_align);
        lemma_hdr_multiple_arith(eff_align, hs);
        assert(pad_total % hs == 0);
        lemma_hdr_multiple_arith(pad_total, hs);
    } else {
        assert(pad_total % hs == 0);
    }
    lemma_hdr_multiple_arith(hs, data_len);
    lemma_hdr_multiple_arith(pad_total, hs + data_len);
    assert(used % hs == 0);
    lemma_hdr_multiple_arith(heap0, pad_total);
    lemma_hdr_multiple_arith(heap0 + pad_total, hs + data_len);
    lemma_hdr_multiple_arith(heap0, used);
    if grant > used {
        lemma_hdr_multiple_arith(grant, used);
        lemma_pos_multiple_ge(grant - used, hs);
        lemma_hdr_multiple_arith(grant - used, hs);
        lemma_hdr_multiple_arith(heap0 + used, grant - used);
    }
    let main = Block { free: true, hdr: (heap0 + pad_total) as usize, data_len: data_len as usize };
    let padb = Block {
        free: true,
        hdr: heap0 as usize,
        data_len: (pad_total - BLOCK_HEADER_SIZE) as usize,
    };
    let extra = Block {
        free: true,
        hdr: (heap0 + used) as usize,
        data_len: (grant - used - BLOCK_HEADER_SIZE) as usize,
    };
    assert forall|k: int|
        0 <= k < fresh.len() implies #[trigger] fresh[k].wf(heap0 + grant) && fresh[k].hdr
        >= heap0 && fresh[k].free by {
        if k == 0 {
            assert(fresh[k] == main);
            assert(main.end() == heap0 + used);
        } else if pad_total > 0 && k == 1 {
            assert(fresh[k] == padb);
            assert(padb.end() == heap0 + pad_total);
        } else {
            assert(k == fresh.len() - 1 && grant > used);
            assert(fresh[k] == extra);
            assert(extra.end() == heap0 + grant);
        }
    }
    assert forall|p: int, q: int|
        0 <= p < fresh.len() && 0 <= q < fresh.len() && p != q implies #[trigger] fresh[p]
        .disjoint(#[trigger] fresh[q]) by {
        assert(main.end() == heap0 + used);
        assert(pad_total > 0 ==> padb.end() == heap0 + pad_total);
        assert(grant > used ==> extra.end() == heap0 + grant);
        assert(fresh[0] == main);
        if pad_total > 0 {
            assert(fresh[1] == padb);
        }
        if grant > used {
            assert(fresh[fresh.len() - 1] == extra);
        }
    }
    // Alignment of the serving block's data region.
    assert(fresh[0].data_off() == heap0 + pad_total + hs);
    lemma_page_multiple_pow2_aligned(heap0, eff_align);
    vstd::arithmetic::div_mod::lemma_small_mod(0nat, eff_align as nat);
    if pad_total == 0 {
        assert(eff_align <= 32);
        lemma_pow2_divides(eff_align, 32);
        vstd::arithmetic::div_mod::lemma_add_mod_noop(heap0, hs, eff_align);
        assert((heap0 + hs) % eff_align == 0);
    } else {
        vstd::arithmetic::div_mod::lemma_mod_self_0(eff_align);
        vstd::arithmetic::div_mod::lemma_add_mod_noop(heap0, eff_align, eff_align);
        assert((heap0 + eff_align) % eff_align == 0);
        assert(heap0 + pad_total + hs == heap0 + eff_align);
    }
}

/// The two halves of a split block stay inside the original block's span,
/// so they remain disjoint from every other block of the registry.
proof fn lemma_split_case_disjoint(
    obs: Seq<Block>,
    nbs: Seq<Block>,
    i: int,
    shrunk: Block,
    carved: Block,
    heap: int,
    p: int,
    q: int,
)
    requires
        registry_wf(obs, heap),
        0 <= i < obs.len(),
        nbs.len() == obs.len() + 1,
        forall|k: int| 0 <= k < i ==> #[trigger] nbs[k] == obs[k],
        nbs[i] == shrunk,
        nbs[i + 1] == carved,
        forall|k: int| i + 2 <= k < nbs.len() ==> #[trigger] nbs[k] == obs[k - 1],
        shrunk.hdr == obs[i].hdr,
        shrunk.end() <= obs[i].end(),
        carved.hdr as int == shrunk.end(),
        carved.end() == obs[i].end(),
        0 <= p < nbs.len(),
        0 <= q < nbs.len(),
        p != q,
    ensures
        nbs[p].disjoint(nbs[q]),
{
    let op = if p < i { p } else { p - 1 };
    let oq = if q < i { q } else { q - 1 };
    if p < i || p > i + 1 {
        assert(nbs[p] == obs[op]);
    }
    if q < i || q > i + 1 {
        assert(nbs[q] == obs[oq]);
    }
    if (p == i || p == i + 1) && (q == i || q == i + 1) {
        assert(nbs[p].disjoint(nbs[q]));
    } else if p == i || p == i + 1 {
        assert(obs[i].disjoint(obs[oq]));
        assert(nbs[p].disjoint(nbs[q]));
    } else if q == i || q == i + 1 {
        assert(obs[i].disjoint(obs[op]));
        assert(nbs[p].disjoint(nbs[q]));
    } else {
        assert(obs[op].disjoint(obs[oq]));
    }
}

/// No overlap: the data regions of two distinct live allocations are
/// disjoint address ranges, in every well-formed allocator state — and
/// every allocator operation both requires and re-establishes
/// well-formedness, so this holds across all sequences of allocate and
/// deallocate calls.
pub proof fn lemma_no_overlap(a: SystemAllocator, i: int, j: int)
    requires
        a.wf(),
        0 <= i < a.blocks().len(),
        0 <= j < a.blocks().len(),
        i != j,
        !a.blocks()[i].free,
        !a.blocks()[j].free,
    ensures
        a.blocks()[i].data_off() + a.blocks()[i].data_len <= a.blocks()[j].data_off()
            || a.blocks()[j].data_off() + a.blocks()[j].data_len <= a.blocks()[i].data_off(),
{
    assert(a.blocks()[i].disjoint(a.blocks()[j]));
}

/// Round trip across unrelated writes: storing a byte inside one live
/// allocation leaves every byte of any other live allocation exactly as
/// it was.  Together with the clauses of [`SystemAllocator::allocate`] and
/// [`SystemAllocator::deallocate`] that keep existing arena bytes intact,
/// a pattern written into an allocation reads back unchanged after any
/// unrelated allocate, deallocate and write churn.
pub proof fn lemma_write_byte_preserves_other_allocations(
    pre: SystemAllocator,
    post: SystemAllocator,
    off: int,
    v: u8,
    i: int,
    j: int,
    k: int,
)
    requires
        pre.wf(),
        pre.in_live_data(i, off),
        pre.in_live_data(j, k),
        i != j,
        post.blocks() == pre.blocks(),
        post.mem() == pre.mem().update(off, v),
    ensures
        post.mem()[k] == pre.mem()[k],
{
    assert(pre.blocks()[i].disjoint(pre.blocks()[j]));
    assert(pre.blocks()[i].wf(pre.heap_size()));
    assert(pre.blocks()[j].wf(pre.heap_size()));
    assert(k != off);
    assert(0 <= k < pre.mem().len());
    assert(pre.mem().update(off, v)[k] == pre.mem()[k]);
}

/// Coalescing pays off: any free block big enough for a normalized
/// request is a candidate for it at the default alignment, so by
/// [`SystemAllocator::allocate`]'s contract the request is then served
/// without a new grant from the memory source.  In particular the block
/// into which [`SystemAllocator::deallocate`] merged two adjacent freed
/// neighbours serves a request for their combined size.
pub proof fn lemma_free_block_serves_request(s: SystemAllocator, k: int, size: int)
    requires
        s.wf(),
        0 <= k < s.blocks().len(),
        s.blocks()[k].free,
        0 <= size,
        s.blocks()[k].data_len >= size_norm(size),
    ensures
        has_candidate(s.blocks(), size_norm(size), align_norm(1)),
{
    lemma_round_up_props(1, 8);
    assert(align_norm(1) == 8);
    assert(s.blocks()[k].wf(s.heap_size()));
    assert(s.blocks()[k].data_off() % 8 == 0) by {
        lemma_mod_transitive(s.blocks()[k].data_off(), BLOCK_HEADER_SIZE as int, 8);
        lemma_hdr_multiple_arith(s.blocks()[k].hdr as int, BLOCK_HEADER_SIZE as int);
    }
    assert(is_candidate(s.blocks(), k, size_norm(size), 8));
}

/// The process-wide allocator: the free-list allocator behind the futex
/// mutex, so that allocation and deallocation are linearized and no two
/// threads ever touch the block registry at once.
pub struct GlobalSystemAllocator {
    inner: Mutex<SystemAllocator>,
}

impl GlobalSystemAllocator {
    /// The guarded allocator state.
    pub closed spec fn allocator(&self) -> SystemAllocator {
        self.inner.value()
    }

    /// The lock guarding the allocator is free.
    pub closed spec fn lock_free(&self) -> bool {
        self.inner.is_available()
    }

    /// The guarded allocator is well formed and its lock is free.
    pub open spec fn wf(&self) -> bool {
        &&& self.allocator().wf()
        &&& self.lock_free()
    }

    /// A fresh process-wide allocator with an empty registry.
    pub fn new() -> (r: Self)
        ensures
            r.wf(),
            r.allocator().blocks() == Seq::<Block>::empty(),
            r.allocator().heap_size() == 0,
    {
        GlobalSystemAllocator { inner: Mutex::new(SystemAllocator::new()) }
    }

    /// Serves a request for `size` bytes at alignment `alignment` under
    /// the lock.  The contract is that of
    /// [`SystemAllocator::allocate`], lifted to the guarded state.
    pub fn allocate(&mut self, size: usize, alignment: usize) -> (r: Option<Allocation>)
        requires
            old(self).wf(),
        ensures
            final(self).wf(),
            final(self).allocator().heap_size() >= old(self).allocator().heap_size(),
            forall|k: int|
                0 <= k < old(self).allocator().heap_size()
                    ==> #[trigger] final(self).allocator().mem()[k]
                    == old(self).allocator().mem()[k],
            used_blocks_preserved(
                old(self).allocator().blocks(),
                final(self).allocator().blocks(),
            ),
            r is None ==> final(self).allocator() == old(self).allocator(),
            request_rejected(size as int, alignment as int) ==> r is None,
            !request_rejected(size as int, alignment as int) && has_candidate(
                old(self).allocator().blocks(),
                size_norm(size as int),
                align_norm(alignment as int),
            ) ==> r is Some && final(self).allocator().heap_size()
                == old(self).allocator().heap_size(),
            !request_rejected(size as int, alignment as int) && old(self).allocator().heap_size()
                + grant_size(size_norm(size as int), PAGE_SIZE as int) <= usize::MAX
                ==> r is Some,
            r is Some && !has_candidate(
                old(self).allocator().blocks(),
                size_norm(size as int),
                align_norm(alignment as int),
            ) ==> final(self).allocator().heap_size() > old(self).allocator().heap_size(),
            match r {
                Some(a) => {
                    let norm = size_norm(size as int);
                    let eff = align_norm(alignment as int);
                    &&& a.len >= size
                    &&& norm <= a.len <= norm + BLOCK_HEADER_SIZE
                    &&& exists|bi: int| final(self).allocator().is_live_ptr(bi, a.ptr as int)
                        && #[trigger] final(self).allocator().blocks()[bi].data_len == a.len
                    &&& (is_pow2(alignment as int) ==> (a.ptr as int) % (alignment as int)
                        == 0)
                    &&& (has_candidate(old(self).allocator().blocks(), norm, eff)
                        ==> exists|bi: int|
                        {
                            &&& #[trigger] chosen_block(
                                old(self).allocator().blocks(),
                                bi,
                                norm,
                                eff,
                            )
                            &&& a.ptr == old(self).allocator().blocks()[bi].data_off()
                            &&& final(self).allocator().blocks() == registry_after_serving(
                                old(self).allocator().blocks(),
                                bi,
                                norm,
                            )
                        })
                    &&& (!has_candidate(old(self).allocator().blocks(), norm, eff)
                        ==> exists|a2: int|
                        {
                            &&& #[trigger] is_pow2(a2)
                            &&& eff <= a2 <= PAGE_SIZE
                            &&& (a2 == 8 || a2 / 2 < eff)
                            &&& a.ptr == old(self).allocator().heap_size() + pad_size(a2)
                                + BLOCK_HEADER_SIZE
                            &&& a.len == norm
                            &&& final(self).allocator().blocks() == fresh_grant_blocks(
                                old(self).allocator().heap_size(),
                                norm,
                                a2,
                            ).update(
                                0,
                                (Block {
                                    free: false,
                                    hdr: (old(self).allocator().heap_size()
                                        + pad_size(a2)) as usize,
                                    data_len: norm as usize,
                                }),
                            ) + old(self).allocator().blocks()
                            &&& final(self).allocator().heap_size() == old(
                                self,
                            ).allocator().heap_size() + grant_size(norm, a2)
                        })
                },
                None => true,
            },
            final(self).allocator().heap_size() <= old(self).allocator().heap_size()
                + grant_size(size_norm(size as int), PAGE_SIZE as int),
    {
        let g = self.inner.lock();
        let ghost pre = self.inner.value();
        let r = self.inner.get_mut().allocate(size, alignment);
        self.inner.unlock(g);
        proof {
            let norm = size_norm(size as int);
            let eff = align_norm(alignment as int);
            assert(pre == old(self).allocator());
            match r {
                Some(a) => {
                    if has_candidate(pre.blocks(), norm, eff) {
                        let bi = choose|bi: int|
                            {
                                &&& #[trigger] chosen_block(pre.blocks(), bi, norm, eff)
                                &&& a.ptr == pre.blocks()[bi].data_off()
                                &&& self.allocator().blocks() == registry_after_serving(
                                    pre.blocks(),
                                    bi,
                                    norm,
                                )
                            };
                        assert(chosen_block(old(self).allocator().blocks(), bi, norm, eff));
                    } else {
                        let a2 = choose|a2: int|
                            {
                                &&& #[trigger] is_pow2(a2)
                                &&& eff <= a2 <= PAGE_SIZE
                                &&& (a2 == 8 || a2 / 2 < eff)
                                &&& a.ptr == pre.heap_size() + pad_size(a2) + BLOCK_HEADER_SIZE
                                &&& a.len == norm
                                &&& self.allocator().blocks() == fresh_grant_blocks(
                                    pre.heap_size(),
                                    norm,
                                    a2,
                                ).update(
                                    0,
                                    (Block {
                                        free: false,
                                        hdr: (pre.heap_size() + pad_size(a2)) as usize,
                                        data_len: norm as usize,
                                    }),
                                ) + pre.blocks()
                                &&& self.allocator().heap_size() == pre.heap_size()
                                    + grant_size(norm, a2)
                            };
                        assert(is_pow2(a2));
                    }
                },
                None => {},
            }
        }
        r
    }

    /// Whether `ptr` is the data offset of a live allocation, under the
    /// lock: the runtime's check before it frees a caller-supplied
    /// pointer.
    pub fn is_live(&mut self, ptr: usize) -> (r: bool)
        requires
            old(self).wf(),
        ensures
            final(self).wf(),
            final(self).allocator() == old(self).allocator(),
            r == exists|i: int| old(self).allocator().is_live_ptr(i, ptr as int),
    {
        let g = self.inner.lock();
        let r = self.inner.get().is_live(ptr);
        self.inner.unlock(g);
        r
    }

    /// Frees the allocation whose data region starts at `ptr`, under the
    /// lock.  The contract is that of [`SystemAllocator::deallocate`],
    /// lifted to the guarded state.
    pub fn deallocate(&mut self, ptr: usize)
        requires
            old(self).wf(),
            exists|i: int| old(self).allocator().is_live_ptr(i, ptr as int),
        ensures
            final(self).wf(),
            final(self).allocator().mem() == old(self).allocator().mem(),
            final(self).allocator().heap_size() == old(self).allocator().heap_size(),
            forall|b: Block|
                #[trigger] old(self).allocator().blocks().contains(b) && !b.free
                    && b.data_off() != ptr ==> final(self).allocator().blocks().contains(b),
            used_blocks_preserved(
                final(self).allocator().blocks(),
                old(self).allocator().blocks(),
            ),
            forall|m: int| !mergeable_at(final(self).allocator().blocks(), m),
            forall|i: int|
                #[trigger] old(self).allocator().is_live_ptr(i, ptr as int) ==> exists|k: int|
                    covers(final(self).allocator().blocks(), k, old(self).allocator().blocks()[i]),
            forall|i: int|
                #[trigger] old(self).allocator().is_live_ptr(i, ptr as int) && i + 1
                    < old(self).allocator().blocks().len()
                    && old(self).allocator().blocks()[i + 1].free
                    && old(self).allocator().blocks()[i].end()
                    == old(self).allocator().blocks()[i + 1].hdr ==> exists|k: int|
                    covers(final(self).allocator().blocks(), k, old(self).allocator().blocks()[i])
                        && old(self).allocator().blocks()[i + 1].end()
                        <= final(self).allocator().blocks()[k].end(),
            forall|i: int|
                #[trigger] old(self).allocator().is_live_ptr(i, ptr as int) && 0 <= i - 1
                    && old(self).allocator().blocks()[i - 1].free
                    && old(self).allocator().blocks()[i - 1].end()
                    == old(self).allocator().blocks()[i].hdr ==> exists|k: int|
                    covers(
                        final(self).allocator().blocks(),
                        k,
                        old(self).allocator().blocks()[i - 1],
                    ) && old(self).allocator().blocks()[i].end()
                        <= final(self).allocator().blocks()[k].end(),
    {
        let g = self.inner.lock();
        self.inner.get_mut().deallocate(ptr);
        self.inner.unlock(g);
    }

    /// Reads one byte out of a live allocation, under the lock.
    pub fn read_byte(&mut self, off: usize) -> (r: u8)
        requires
            old(self).wf(),
            exists|i: int| old(self).allocator().in_live_data(i, off as int),
        ensures
            final(self).wf(),
            final(self).allocator() == old(self).allocator(),
            r == old(self).allocator().mem()[off as int],
    {
        let g = self.inner.lock();
        let r = self.inner.get_mut().read_byte(off);
        self.inner.unlock(g);
        r
    }

    /// Writes one byte into a live allocation, under the lock.
    pub fn write_byte(&mut self, off: usize, value: u8)
        requires
            old(self).wf(),
            exists|i: int| old(self).allocator().in_live_data(i, off as int),
        ensures
            final(self).wf(),
            final(self).allocator().blocks() == old(self).allocator().blocks(),
            final(self).allocator().mem() == old(self).allocator().mem().update(
                off as int,
                value,
            ),
    {
        let g = self.inner.lock();
        self.inner.get_mut().write_byte(off, value);
        self.inner.unlock(g);
    }

    /// Total bytes the guarded allocator has been granted so far: watching
    /// this not grow shows that a request was served without a new call
    /// to the memory source.
    pub fn arena_len(&mut self) -> (r: usize)
        requires
            old(self).wf(),
        ensures
            final(self).wf(),
            final(self).allocator() == old(self).allocator(),
            r == old(self).allocator().heap_size(),
    {
        let g = self.inner.lock();
        let r = self.inner.get_mut().arena_len();
        self.inner.unlock(g);
        r
    }
}

} // verus!

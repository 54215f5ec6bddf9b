//! How a large file is cut into ranges that are downloaded side by side.

use vstd::prelude::*;

verus! {

/// Size aimed at for one chunk of a large download (64 MiB).
pub const DOWNLOAD_CHUNK_TARGET: u64 = 67108864;
/// Fewest chunks a chunked download uses.
pub const DOWNLOAD_CHUNK_MIN: usize = 4;
/// Most chunks a chunked download uses.
pub const DOWNLOAD_CHUNK_MAX: usize = 8;
/// Files larger than this (4 MiB) are downloaded in chunks.
pub const MIN_CHUNKED_SIZE: u64 = 4194304;

/// The number of chunks for a file of `size` bytes: one per started 64 MiB,
/// but at least 4 and at most 8.
pub open spec fn chunk_count_spec(size: nat) -> nat {
    let n = ((size + DOWNLOAD_CHUNK_TARGET - 1) as nat) / (DOWNLOAD_CHUNK_TARGET as nat);
    if n < DOWNLOAD_CHUNK_MIN {
        DOWNLOAD_CHUNK_MIN as nat
    } else if n > DOWNLOAD_CHUNK_MAX {
        DOWNLOAD_CHUNK_MAX as nat
    } else {
        n
    }
}

/// `x / d` rounded up equals `(x + d - 1) / d`, computed without forming
/// the sum.
proof fn lemma_ceil_div(x: int, d: int)
    requires
        0 <= x,
        0 < d,
    ensures
        (x + d - 1) / d == x / d + (if x % d == 0 { 0int } else { 1int }),
{
    let q = x / d;
    let r = x % d;
    vstd::arithmetic::div_mod::lemma_fundamental_div_mod(x, d);
    vstd::arithmetic::div_mod::lemma_hoist_over_denominator(r + d - 1, q, d as nat);
    assert(r + d - 1 + q * d == x + d - 1) by (nonlinear_arith)
        requires
            x == d * q + r,
    ;
    if r == 0 {
        vstd::arithmetic::div_mod::lemma_basic_div(d - 1, d);
    } else {
        vstd::arithmetic::div_mod::lemma_hoist_over_denominator(r - 1, 1, d as nat);
        vstd::arithmetic::div_mod::lemma_basic_div(r - 1, d);
    }
}

/// `size` divided by `d`, rounded up.
fn div_ceil_u64(size: u64, d: u64) -> (r: u64)
    requires
        d >= 2,
    ensures
        r as int == (size + d - 1) / (d as int),
{
    proof {
        lemma_ceil_div(size as int, d as int);
        assert(2 * (size / d) <= size) by (nonlinear_arith)
            requires
                d >= 2,
                size >= 0,
        ;
    }
    if size % d == 0 {
        size / d
    } else {
        size / d + 1
    }
}

/// The number of chunks for a file of `size` bytes (the target chunk size is
/// fixed, so larger files get more chunks).
pub fn chunk_count_for(size: u64) -> (r: usize)
    ensures
        r as nat == chunk_count_spec(size as nat),
        4 <= r <= 8,
        r < 8 ==> r * 67108864 >= size,
        r > 4 ==> (r - 1) * 67108864 < size,
{
    proof {
        lemma_chunk_count_rule(size as nat);
    }

    let n: u64 = div_ceil_u64(size, DOWNLOAD_CHUNK_TARGET);
    if n < DOWNLOAD_CHUNK_MIN as u64 {
        DOWNLOAD_CHUNK_MIN
    } else if n > DOWNLOAD_CHUNK_MAX as u64 {
        DOWNLOAD_CHUNK_MAX
    } else {
        n as usize
    }
}

/// The chunk count, stated on the size: between 4 and 8; below 8, enough
/// chunks of at most 64 MiB to hold the file; above 4, one chunk fewer would
/// not hold it.
pub proof fn lemma_chunk_count_rule(size: nat)
    ensures
        4 <= chunk_count_spec(size) <= 8,
        chunk_count_spec(size) < 8 ==> chunk_count_spec(size) * 67108864 >= size,
        chunk_count_spec(size) > 4 ==> (chunk_count_spec(size) - 1) * 67108864 < size,
{
    let n = ((size + DOWNLOAD_CHUNK_TARGET - 1) as nat) / (DOWNLOAD_CHUNK_TARGET as nat);
    assert(n * 67108864 >= size && (n - 1) * 67108864 < size || size == 0) by {
        lemma_ceil_div(size as int, 67108864);
        vstd::arithmetic::div_mod::lemma_fundamental_div_mod(size as int, 67108864);
    }
}

/// The chunk count lies between 4 and 8, and never decreases as the file grows.
pub proof fn lemma_chunk_count_monotone(a: nat, b: nat)
    requires
        a <= b,
    ensures
        DOWNLOAD_CHUNK_MIN <= chunk_count_spec(a) <= DOWNLOAD_CHUNK_MAX,
        chunk_count_spec(a) <= chunk_count_spec(b),
{
    let t = DOWNLOAD_CHUNK_TARGET as int;
    assert((a + t - 1) / t <= (b + t - 1) / t) by (nonlinear_arith)
        requires
            a <= b,
            t > 0,
    ;
}

/// One byte range of a chunked download; `end` is inclusive.
#[derive(Debug)]
pub struct ChunkRange {
    pub index: u64,
    pub start: u64,
    pub end: u64,
}

/// The length of each chunk but possibly the last: the file size divided by
/// the chunk count, rounded up.
pub open spec fn chunk_size_spec(size: nat) -> nat {
    ((size + chunk_count_spec(size) - 1) as nat) / chunk_count_spec(size)
}

pub open spec fn min_int(a: int, b: int) -> int {
    if a <= b {
        a
    } else {
        b
    }
}

/// `plan` holds the chunks of a file of `size` bytes: chunk `i` starts at
/// `i` times the chunk size and ends a chunk size later or at the last byte;
/// chunks are listed while they start inside the file, up to the chunk count.
pub open spec fn is_chunk_plan(size: nat, plan: Seq<ChunkRange>) -> bool {
    let c = chunk_count_spec(size);
    let cs = chunk_size_spec(size);
    &&& plan.len() <= c
    &&& forall|i: int|
        0 <= i < plan.len() ==> {
            &&& #[trigger] plan[i].index == i
            &&& plan[i].start == i * cs
            &&& plan[i].end == min_int(i * cs + cs - 1, size - 1)
            &&& i * cs < size
        }
    &&& (plan.len() == c || plan.len() * cs >= size)
}

proof fn lemma_chunk_size_facts(size: nat)
    requires
        size > 0,
    ensures
        chunk_size_spec(size) >= 1,
        chunk_size_spec(size) <= size,
        chunk_count_spec(size) * chunk_size_spec(size) >= size,
        chunk_count_spec(size) * chunk_size_spec(size) < size + chunk_count_spec(size),
{
    let c = chunk_count_spec(size) as int;
    let x = size + c - 1;
    let cs = x / c;
    assert(c >= 4);
    assert(cs >= 1) by (nonlinear_arith)
        requires
            x >= c,
            c > 0,
            cs == x / c,
    ;
    assert(cs <= size) by (nonlinear_arith)
        requires
            x == size + c - 1,
            size >= 1,
            c >= 4,
            cs == x / c,
    ;
    assert(c * cs <= x && c * cs > x - c) by (nonlinear_arith)
        requires
            c > 0,
            cs == x / c,
    ;
}

/// The chunks of a download of `size` bytes.
pub fn plan_chunks(size: u64) -> (r: Vec<ChunkRange>)
    requires
        0 < size,
    ensures
        is_chunk_plan(size as nat, r@),
{
    let c: usize = chunk_count_for(size);
    proof {
        lemma_chunk_size_facts(size as nat);
        lemma_chunk_count_monotone(size as nat, size as nat);
    }
    let cs: u64 = div_ceil_u64(size, c as u64);
    let mut plan: Vec<ChunkRange> = Vec::new();
    let mut i: u64 = 0;
    let mut start: u64 = 0;
    let mut inside: bool = true;
    while i < c as u64 && inside
        invariant
            c as nat == chunk_count_spec(size as nat),
            cs as nat == chunk_size_spec(size as nat),
            1 <= cs <= size,
            c * cs < size + c,
            4 <= c <= 8,
            0 < size,
            i <= c,
            inside ==> start == i * cs && start < size,
            !inside ==> i * cs >= size,
            plan@.len() == i,
            forall|j: int|
                0 <= j < i ==> {
                    &&& #[trigger] plan@[j].index == j
                    &&& plan@[j].start == j * cs
                    &&& plan@[j].end == min_int(j * cs + cs - 1, size - 1)
                    &&& j * cs < size
                },
        decreases c - i,
    {
        proof {
            assert((i + 1) * cs == i * cs + cs) by (nonlinear_arith);
        }
        let end: u64 = if cs - 1 <= size - 1 - start { start + (cs - 1) } else { size - 1 };
        plan.push(ChunkRange { index: i, start, end });
        if size - start <= cs {
            inside = false;
        } else {
            start = start + cs;
        }
        i = i + 1;
    }
    proof {
        assert(is_chunk_plan(size as nat, plan@));
    }
    plan
}

/// The chunks of a plan cover the file exactly: the first starts at byte 0,
/// each next one starts right after the previous one ends, no chunk is empty,
/// and the last one ends at the last byte.
pub proof fn lemma_chunks_partition(size: nat, plan: Seq<ChunkRange>)
    requires
        size > 0,
        is_chunk_plan(size, plan),
    ensures
        plan.len() >= 1,
        plan[0].start == 0,
        plan[plan.len() - 1].end == size - 1,
        forall|i: int| 0 <= i < plan.len() ==> #[trigger] plan[i].start <= plan[i].end,
        forall|i: int| 0 <= i < plan.len() - 1 ==> #[trigger] plan[i].end + 1 == plan[i + 1].start,
{
    lemma_chunk_size_facts(size);
    let c = chunk_count_spec(size) as int;
    let cs = chunk_size_spec(size) as int;
    if plan.len() == 0 {
        assert(plan.len() * cs == 0);
        assert(c >= 4);
    }
    assert(plan[0].index == 0);
    assert forall|i: int| 0 <= i < plan.len() - 1 implies #[trigger] plan[i].end + 1 == plan[i + 1].start by {
        assert(plan[i].index == i);
        assert(plan[i + 1].index == i + 1);
        assert((i + 1) * cs == i * cs + cs) by (nonlinear_arith);
    }
    assert forall|i: int| 0 <= i < plan.len() implies #[trigger] plan[i].start <= plan[i].end by {
        assert(plan[i].index == i);
    }
    let n = plan.len() - 1;
    assert(plan[n].index == n);
    assert(plan.len() * cs >= size) by {
        if plan.len() == c {
            assert(c * cs >= size);
        }
    }
    assert((n + 1) * cs == n * cs + cs) by (nonlinear_arith);
}

} // verus!

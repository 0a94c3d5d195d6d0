//! Context compression: the token estimate, and how a history is cut into
//! blocks.
//!
//! How much of each block is kept is a fraction (a floating-point value) and
//! stays with the caller.
use vstd::prelude::*;

verus! {

/// What a block of the history is compressed to, for display.
#[derive(Debug, Clone)]
pub struct BlockConfig {
    pub index: usize,
    pub ratio_label: String,
}

/// The estimated tokens of a text of `chars` characters: two characters
/// per token, rounded up, at most `u32::MAX`.
pub open spec fn token_estimate(chars: nat) -> nat {
    if (chars + 1) / 2 > u32::MAX {
        u32::MAX as nat
    } else {
        (chars + 1) / 2
    }
}

/// A rough token count of `text`: two characters per token (Chinese runs
/// about 1.5 characters per token, English about 3.5), rounded up.
pub fn estimate_tokens(text: &str) -> (r: u32)
    ensures
        r == token_estimate(text@.len()),
{
    let n = text.unicode_len();
    let half = n / 2 + n % 2;
    assert(half == (n + 1) / 2);
    if half as u64 > u32::MAX as u64 {
        u32::MAX
    } else {
        half as u32
    }
}

/// The size of each block when `total` entries are cut into `blocks`
/// blocks: the total divided by the blocks, rounded up.
pub open spec fn block_size(total: nat, blocks: nat) -> nat {
    if blocks == 0 {
        0
    } else {
        ((total + blocks - 1) / blocks as int) as nat
    }
}

/// The entry range `[start, end)` of block `b`, or `None` past the entries.
pub open spec fn block_range(total: nat, blocks: nat, b: nat) -> Option<(nat, nat)> {
    let size = block_size(total, blocks);
    let start = b * size;
    if start >= total {
        None
    } else {
        Some((start, if start + size < total {
            start + size
        } else {
            total
        }))
    }
}

/// The entry ranges of the blocks of a history of `total` entries cut into
/// `blocks` blocks, in order; blocks past the entries are left out.
pub fn block_ranges(total: usize, blocks: usize) -> (r: Vec<(usize, usize)>)
    requires
        blocks > 0,
        total + blocks <= usize::MAX,
    ensures
        r@.len() <= blocks,
        forall|b: int|
            0 <= b < r@.len() ==> block_range(total as nat, blocks as nat, b as nat) == Some(
                (#[trigger] r@[b].0 as nat, r@[b].1 as nat),
            ),
        r@.len() < blocks ==> block_range(total as nat, blocks as nat, r@.len()) is None,
{
    let size = (total + blocks - 1) / blocks;
    assert(size == block_size(total as nat, blocks as nat));
    let mut out: Vec<(usize, usize)> = Vec::new();
    if total == 0 {
        assert(block_range(0, blocks as nat, 0) is None);
        return out;
    }
    assert(size >= 1) by (nonlinear_arith)
        requires
            size == (total + blocks - 1) / blocks as int,
            total >= 1,
            blocks >= 1,
    ;
    assert(size * blocks >= total) by (nonlinear_arith)
        requires
            size == (total + blocks - 1) / blocks as int,
            blocks >= 1,
    ;
    let mut b: usize = 0;
    let mut start: usize = 0;
    let mut done = false;
    while b < blocks && !done
        invariant
            b <= blocks,
            size == block_size(total as nat, blocks as nat),
            size >= 1,
            out@.len() == b,
            !done ==> start == b * size && start < total,
            done ==> b * size >= total,
            forall|k: int|
                0 <= k < b ==> block_range(total as nat, blocks as nat, k as nat) == Some(
                    (#[trigger] out@[k].0 as nat, out@[k].1 as nat),
                ),
        decreases blocks - b,
    {
        let end = if size < total - start {
            start + size
        } else {
            total
        };
        out.push((start, end));
        assert(block_range(total as nat, blocks as nat, b as nat) == Some((start as nat, end as nat)));
        assert((b + 1) * size == start + size) by (nonlinear_arith)
            requires
                start == b * size,
        ;
        b += 1;
        if size < total - start {
            start = start + size;
        } else {
            done = true;
        }
    }
    out
}

/// The compression threshold in use: the one set, when one is; otherwise
/// half the default model's context limit, or 64000 without a model.
pub fn effective_threshold(set: u32, model_max: Option<u32>) -> (r: u32)
    ensures
        r == (if set > 0 {
            set
        } else {
            match model_max {
                Some(m) => m / 2,
                None => 64000,
            }
        }),
{
    if set > 0 {
        set
    } else {
        match model_max {
            Some(m) => m / 2,
            None => 64000,
        }
    }
}

} // verus!

//! The checksum of a volume's whole state: the exclusive or of what each block
//! contributes. Replacing one block takes its old contribution out and puts the
//! new one in, so the order of changes does not matter.

use super::volume::BlockSum;
use std::collections::BTreeMap;
use vstd::prelude::*;

verus! {

broadcast use vstd::std_specs::btree::group_btree_axioms;

/// The contributions of all listed blocks.
pub closed spec fn contributions(blocks: Map<u64, BlockSum>) -> u64
    decreases blocks.dom().len(),
    when blocks.dom().finite()
{
    if blocks.dom().len() == 0 {
        0
    } else {
        let key = blocks.dom().choose();
        blocks[key].contribution ^ contributions(blocks.remove(key))
    }
}

/// Rules of the exclusive or.
pub proof fn lemma_xor(a: u64, b: u64, c: u64)
    ensures
        a ^ b == b ^ a,
        a ^ (b ^ c) == (a ^ b) ^ c,
        a ^ (b ^ c) == b ^ (a ^ c),
        a ^ a == 0,
        a ^ 0 == a,
        (a ^ b) ^ b == a,
{
    assert(a ^ b == b ^ a) by (bit_vector);
    assert(a ^ (b ^ c) == (a ^ b) ^ c) by (bit_vector);
    assert(a ^ (b ^ c) == b ^ (a ^ c)) by (bit_vector);
    assert(a ^ a == 0) by (bit_vector);
    assert(a ^ 0 == a) by (bit_vector);
    assert((a ^ b) ^ b == a) by (bit_vector);
}

/// Any one block's contribution can be split off.
pub proof fn lemma_contributions_split(blocks: Map<u64, BlockSum>, key: u64)
    requires
        blocks.dom().finite(),
        blocks.contains_key(key),
    ensures
        contributions(blocks) == blocks[key].contribution ^ contributions(blocks.remove(key)),
    decreases blocks.dom().len(),
{
    vstd::set_lib::lemma_set_empty_equivalency_len(blocks.dom());
    let pick = blocks.dom().choose();
    if pick != key {
        lemma_contributions_split(blocks.remove(pick), key);
        lemma_contributions_split(blocks.remove(key), pick);
        assert(blocks.remove(pick).remove(key) =~= blocks.remove(key).remove(pick));
        lemma_xor(
            blocks[pick].contribution,
            blocks[key].contribution,
            contributions(blocks.remove(key).remove(pick)),
        );
    }
}

/// What the checksum holds beyond the listed blocks: the contributions of
/// blocks that are not loaded.
pub open spec fn unlisted(checksum: u64, blocks: Map<u64, BlockSum>) -> u64 {
    checksum ^ contributions(blocks)
}

/// `blocks` with the block at `key` replaced, or gone.
pub open spec fn with_block(blocks: Map<u64, BlockSum>, key: u64, new: Option<BlockSum>) -> Map<
    u64,
    BlockSum,
> {
    match new {
        Some(sum) => blocks.insert(key, sum),
        None => blocks.remove(key),
    }
}

/// The checksum once the block at `key` is replaced.
pub open spec fn with_block_checksum(
    checksum: u64,
    blocks: Map<u64, BlockSum>,
    key: u64,
    new: Option<BlockSum>,
) -> u64 {
    let without = if blocks.contains_key(key) {
        checksum ^ blocks[key].contribution
    } else {
        checksum
    };
    match new {
        Some(sum) => without ^ sum.contribution,
        None => without,
    }
}

/// Replaces one block, or removes it. The part of the checksum that stands for
/// other blocks is untouched.
pub fn replace_state_block(
    checksum: &mut u64,
    blocks: &mut BTreeMap<u64, BlockSum>,
    key: u64,
    new: Option<BlockSum>,
)
    ensures
        final(blocks)@ == with_block(old(blocks)@, key, new),
        *final(checksum) == with_block_checksum(*old(checksum), old(blocks)@, key, new),
        unlisted(*final(checksum), final(blocks)@) == unlisted(*old(checksum), old(blocks)@),
{
    let ghost was = blocks@;
    let ghost start = *checksum;
    if let Some(old_sum) = blocks.remove(&key) {
        *checksum = *checksum ^ old_sum.contribution;
        proof {
            lemma_contributions_split(was, key);
            lemma_xor(start, old_sum.contribution, contributions(was.remove(key)));
        }
    } else {
        proof {
            assert(was.remove(key) =~= was);
        }
    }
    if let Some(sum) = new {
        let ghost between = *checksum;
        blocks.insert(key, sum);
        *checksum = *checksum ^ sum.contribution;
        proof {
            let now = was.remove(key).insert(key, sum);
            lemma_contributions_split(now, key);
            assert(now.remove(key) =~= was.remove(key));
            lemma_xor(between, sum.contribution, contributions(was.remove(key)));
            lemma_xor(
                between ^ sum.contribution,
                sum.contribution,
                contributions(was.remove(key)),
            );
        }
    }
}

/// Two replacements of different blocks give the same checksum in either
/// order.
pub proof fn replacements_commute(
    checksum: u64,
    blocks: Map<u64, BlockSum>,
    a: u64,
    new_a: Option<BlockSum>,
    b: u64,
    new_b: Option<BlockSum>,
)
    requires
        a != b,
    ensures
        with_block_checksum(
            with_block_checksum(checksum, blocks, a, new_a),
            with_block(blocks, a, new_a),
            b,
            new_b,
        ) == with_block_checksum(
            with_block_checksum(checksum, blocks, b, new_b),
            with_block(blocks, b, new_b),
            a,
            new_a,
        ),
        with_block(with_block(blocks, a, new_a), b, new_b) == with_block(
            with_block(blocks, b, new_b),
            a,
            new_a,
        ),
{
    let oa = if blocks.contains_key(a) {
        blocks[a].contribution
    } else {
        0
    };
    let ob = if blocks.contains_key(b) {
        blocks[b].contribution
    } else {
        0
    };
    let na = match new_a {
        Some(sum) => sum.contribution,
        None => 0,
    };
    let nb = match new_b {
        Some(sum) => sum.contribution,
        None => 0,
    };
    assert(checksum ^ 0 == checksum) by (bit_vector);
    assert((checksum ^ oa) ^ 0 == checksum ^ oa) by (bit_vector);
    assert((checksum ^ ob) ^ 0 == checksum ^ ob) by (bit_vector);
    let ca = (checksum ^ oa) ^ na;
    let cb = (checksum ^ ob) ^ nb;
    assert(ca ^ 0 == ca) by (bit_vector);
    assert((ca ^ ob) ^ 0 == ca ^ ob) by (bit_vector);
    assert(cb ^ 0 == cb) by (bit_vector);
    assert((cb ^ oa) ^ 0 == cb ^ oa) by (bit_vector);
    assert((((checksum ^ oa) ^ na) ^ ob) ^ nb == (((checksum ^ ob) ^ nb) ^ oa) ^ na)
        by (bit_vector);
}

/// No block contributes nothing.
pub proof fn nothing_contributes_nothing()
    ensures
        contributions(Map::<u64, BlockSum>::empty()) == 0,
{
}

/// The checksum stays what the listed blocks and the unlisted rest contribute,
/// whatever block is put in, replaced or taken out.
pub proof fn the_checksum_follows_the_blocks(
    rest: u64,
    blocks: Map<u64, BlockSum>,
    key: u64,
    new: Option<BlockSum>,
)
    requires
        blocks.dom().finite(),
    ensures
        with_block_checksum(rest ^ contributions(blocks), blocks, key, new) == rest
            ^ contributions(with_block(blocks, key, new)),
        with_block(blocks, key, new).contains_key(key) <==> new is Some,
        new matches Some(sum) ==> with_block(blocks, key, new)[key] == sum,
        forall|other: u64|
            other != key ==> #[trigger] with_block(blocks, key, new).contains_key(other)
                == blocks.contains_key(other) && with_block(blocks, key, new)[other]
                == blocks[other],
{
    let bare = blocks.remove(key);
    let sum = contributions(bare);
    let checksum = rest ^ contributions(blocks);
    if blocks.contains_key(key) {
        let old_one = blocks[key].contribution;
        lemma_contributions_split(blocks, key);
        lemma_xor(rest, old_one, sum);
        lemma_xor(rest ^ old_one, sum, old_one);
        lemma_xor(rest, sum, old_one);
        lemma_xor(old_one, sum, rest);
        assert(checksum == rest ^ (old_one ^ sum));
        assert(old_one ^ sum == sum ^ old_one);
        assert(rest ^ (sum ^ old_one) == (rest ^ sum) ^ old_one);
        lemma_xor(rest ^ sum, old_one, 0);
        assert(checksum ^ old_one == rest ^ sum);
    } else {
        assert(bare =~= blocks);
    }
    if let Some(block) = new {
        let with = blocks.insert(key, block);
        lemma_contributions_split(with, key);
        assert(with.remove(key) =~= bare);
        lemma_xor(rest, sum, block.contribution);
        lemma_xor(block.contribution, sum, rest);
    }
}

/// What is not listed is left when the listed blocks are taken out.
pub proof fn the_unlisted_rest_is_what_is_left(rest: u64, blocks: Map<u64, BlockSum>)
    ensures
        unlisted(rest ^ contributions(blocks), blocks) == rest,
{
    lemma_xor(rest, contributions(blocks), 0);
}

} // verus!

use crate::pubkey::{derived_address, find_address, seed_views, Pubkey};
use vstd::prelude::*;
use vstd::slice::slice_subrange;
use vstd::string::StringSliceAdditionalSpecFns;
use vstd::utf8::encode_utf8;

verus! {

/// The longest seed that an address can be derived from, in bytes.
pub const MAX_SEED_LEN: usize = 32;

/// The tag under which campaigns are stored: the bytes of `campaign`.
pub open spec fn campaign_tag() -> Seq<u8> {
    seq![0x63u8, 0x61u8, 0x6du8, 0x70u8, 0x61u8, 0x69u8, 0x67u8, 0x6eu8]
}

/// The tag under which receipts are stored: the bytes of `receipt`.
pub open spec fn receipt_tag() -> Seq<u8> {
    seq![0x72u8, 0x65u8, 0x63u8, 0x65u8, 0x69u8, 0x70u8, 0x74u8]
}

/// `bytes` cut into pieces of [`MAX_SEED_LEN`] bytes, the last one holding
/// what is left.
pub open spec fn chunks(bytes: Seq<u8>) -> Seq<Seq<u8>>
    decreases bytes.len(),
{
    if bytes.len() == 0 {
        seq![]
    } else if bytes.len() <= MAX_SEED_LEN {
        seq![bytes]
    } else {
        seq![bytes.take(MAX_SEED_LEN as int)] + chunks(bytes.skip(MAX_SEED_LEN as int))
    }
}

/// The seeds of the campaign that `creator` opens under `description`: the
/// tag, the creator's address and the description's bytes. A description of
/// up to [`MAX_SEED_LEN`] bytes is one seed; a longer one is continued in
/// further seeds.
pub open spec fn campaign_seeds(creator: Pubkey, description: Seq<char>) -> Seq<Seq<u8>> {
    seq![campaign_tag(), creator@] + chunks(encode_utf8(description))
}

/// The seeds of the receipt that `voter` gets in `campaign`: the tag and the
/// two addresses.
pub open spec fn receipt_seeds(campaign: Pubkey, voter: Pubkey) -> Seq<Seq<u8>> {
    seq![receipt_tag(), campaign@, voter@]
}

/// The address of the campaign of `creator` and `description`.
pub open spec fn campaign_address(program_id: Pubkey, creator: Pubkey, description: Seq<char>) -> Option<Pubkey> {
    derived_address(campaign_seeds(creator, description), program_id)
}

/// The address of the receipt of `voter` in `campaign`.
pub open spec fn receipt_address(program_id: Pubkey, campaign: Pubkey, voter: Pubkey) -> Option<Pubkey> {
    derived_address(receipt_seeds(campaign, voter), program_id)
}

/// No piece of `bytes` is empty or longer than [`MAX_SEED_LEN`] bytes, there
/// are no more pieces than needed, and the pieces joined give `bytes` back.
pub proof fn chunks_give_bytes_back(bytes: Seq<u8>)
    ensures
        forall|i: int| 0 <= i < chunks(bytes).len() ==> 1 <= (#[trigger] chunks(bytes)[i]).len() <= MAX_SEED_LEN,
        chunks(bytes).len() == (bytes.len() + MAX_SEED_LEN - 1) / (MAX_SEED_LEN as int),
        chunks(bytes).flatten() == bytes,
    decreases bytes.len(),
{
    if bytes.len() == 0 {
        assert(chunks(bytes).flatten() =~= bytes);
    } else if bytes.len() <= MAX_SEED_LEN {
        assert(seq![bytes].drop_first() =~= Seq::<Seq<u8>>::empty());
        assert(seq![bytes].flatten() =~= bytes + Seq::<Seq<u8>>::empty().flatten());
        assert(chunks(bytes).flatten() =~= bytes);
    } else {
        let head = bytes.take(MAX_SEED_LEN as int);
        let tail = bytes.skip(MAX_SEED_LEN as int);
        chunks_give_bytes_back(tail);
        let pieces = chunks(bytes);
        assert(pieces.drop_first() =~= chunks(tail));
        assert(pieces.flatten() =~= head + chunks(tail).flatten());
        assert(head + tail =~= bytes);
        assert forall|i: int| 0 <= i < pieces.len() implies 1 <= (#[trigger] pieces[i]).len() <= MAX_SEED_LEN by {
            if i > 0 {
                assert(pieces[i] == chunks(tail)[i - 1]);
            }
        }
    }
}

/// The piece of `bytes` at `index`, or no bytes where the pieces have ended.
pub open spec fn piece_at(bytes: Seq<u8>, index: int) -> Seq<u8> {
    if 0 <= index < chunks(bytes).len() {
        chunks(bytes)[index]
    } else {
        Seq::empty()
    }
}

/// The piece of `bytes` at `index` is the bytes from `index` times
/// [`MAX_SEED_LEN`] on, up to [`MAX_SEED_LEN`] of them.
pub proof fn lemma_piece_at(bytes: Seq<u8>, index: int)
    requires
        0 <= index,
        index * MAX_SEED_LEN < bytes.len(),
    ensures
        index < chunks(bytes).len(),
        chunks(bytes)[index] == bytes.subrange(
            index * MAX_SEED_LEN,
            if (index + 1) * MAX_SEED_LEN <= bytes.len() {
                (index + 1) * MAX_SEED_LEN
            } else {
                bytes.len() as int
            },
        ),
    decreases index,
{
    if bytes.len() <= MAX_SEED_LEN {
        assert(index == 0);
        assert(bytes.subrange(0, bytes.len() as int) =~= bytes);
    } else if index == 0 {
        assert(bytes.take(MAX_SEED_LEN as int) =~= bytes.subrange(0, MAX_SEED_LEN as int));
    } else {
        let tail = bytes.skip(MAX_SEED_LEN as int);
        lemma_piece_at(tail, index - 1);
        let to = if (index + 1) * MAX_SEED_LEN <= bytes.len() {
            (index + 1) * MAX_SEED_LEN
        } else {
            bytes.len() as int
        };
        assert(chunks(bytes)[index] == chunks(tail)[index - 1]);
        assert(tail.subrange((index - 1) * MAX_SEED_LEN, to - MAX_SEED_LEN) =~= bytes.subrange(
            index * MAX_SEED_LEN,
            to,
        ));
    }
}

/// The piece at `index` of the bytes of `description`: the seed that
/// continues the description there, or no bytes where the description has
/// ended.
pub fn description_piece(description: &str, index: usize) -> (piece: &[u8])
    ensures
        piece@ == piece_at(encode_utf8(description@), index as int),
{
    let bytes = description.as_bytes();
    let len: usize = bytes.len();
    proof {
        chunks_give_bytes_back(bytes@);
    }
    if index > len / MAX_SEED_LEN {
        assert(bytes@.subrange(0, 0) =~= Seq::<u8>::empty());
        return slice_subrange(bytes, 0, 0);
    }
    let from: usize = index * MAX_SEED_LEN;
    if from >= len {
        assert(bytes@.subrange(0, 0) =~= Seq::<u8>::empty());
        return slice_subrange(bytes, 0, 0);
    }
    let to: usize = if len - from <= MAX_SEED_LEN {
        len
    } else {
        from + MAX_SEED_LEN
    };
    proof {
        lemma_piece_at(bytes@, index as int);
    }
    slice_subrange(bytes, from, to)
}

/// Copies `bytes[from..to]`.
fn copy_range(bytes: &[u8], from: usize, to: usize) -> (piece: Vec<u8>)
    requires
        from <= to <= bytes@.len(),
    ensures
        piece@ == bytes@.subrange(from as int, to as int),
{
    let mut piece: Vec<u8> = Vec::new();
    let mut i: usize = from;
    while i < to
        invariant
            from <= i <= to <= bytes@.len(),
            piece@ == bytes@.subrange(from as int, i as int),
        decreases to - i,
    {
        piece.push(bytes[i]);
        i = i + 1;
        assert(piece@ =~= bytes@.subrange(from as int, i as int));
    }
    piece
}

/// Appends the pieces of `bytes` to `seeds`.
fn push_chunks(seeds: &mut Vec<Vec<u8>>, bytes: &[u8])
    ensures
        seed_views(final(seeds)@) == seed_views(old(seeds)@) + chunks(bytes@),
{
    let mut at: usize = 0;
    assert(bytes@.skip(0) =~= bytes@);
    while at < bytes.len()
        invariant
            at <= bytes@.len(),
            seed_views(seeds@) + chunks(bytes@.skip(at as int)) == seed_views(old(seeds)@) + chunks(
                bytes@,
            ),
        decreases bytes@.len() - at,
    {
        let left: usize = bytes.len() - at;
        let to: usize = if left <= MAX_SEED_LEN {
            bytes.len()
        } else {
            at + MAX_SEED_LEN
        };
        let piece = copy_range(bytes, at, to);
        proof {
            let rest = bytes@.skip(at as int);
            let before = seed_views(seeds@);
            if left <= MAX_SEED_LEN {
                assert(piece@ =~= rest);
                assert(bytes@.skip(to as int).len() == 0);
                assert(chunks(bytes@.skip(to as int)) =~= seq![]);
                assert(chunks(rest) =~= seq![piece@] + chunks(bytes@.skip(to as int)));
            } else {
                assert(piece@ =~= rest.take(MAX_SEED_LEN as int));
                assert(bytes@.skip(to as int) =~= rest.skip(MAX_SEED_LEN as int));
            }
            assert(before.push(piece@) + chunks(bytes@.skip(to as int)) =~= before + chunks(rest));
            assert(seed_views(seeds@.push(piece)) =~= before.push(piece@));
        }
        seeds.push(piece);
        at = to;
    }
    assert(chunks(bytes@.skip(at as int)) =~= seq![]);
    assert(seed_views(seeds@) + Seq::<Seq<u8>>::empty() =~= seed_views(seeds@));
}

/// The bytes of `key`.
fn key_bytes(key: &Pubkey) -> (bytes: Vec<u8>)
    ensures
        bytes@ == key@,
{
    let mut bytes: Vec<u8> = Vec::new();
    let mut i: usize = 0;
    while i < 32
        invariant
            i <= 32,
            bytes@ == key@.take(i as int),
        decreases 32 - i,
    {
        bytes.push(key.bytes[i]);
        i = i + 1;
        assert(bytes@ =~= key@.take(i as int));
    }
    assert(key@.take(32) =~= key@);
    bytes
}

/// Builds [`campaign_seeds`].
pub fn make_campaign_seeds(creator: &Pubkey, description: &str) -> (seeds: Vec<Vec<u8>>)
    ensures
        seed_views(seeds@) == campaign_seeds(*creator, description@),
{
    let mut seeds: Vec<Vec<u8>> = Vec::new();
    seeds.push(vec![0x63u8, 0x61u8, 0x6du8, 0x70u8, 0x61u8, 0x69u8, 0x67u8, 0x6eu8]);
    seeds.push(key_bytes(creator));
    assert(seed_views(seeds@) =~= seq![campaign_tag(), creator@]) by {
        assert(seeds@[0]@ =~= campaign_tag());
    }
    push_chunks(&mut seeds, description.as_bytes());
    seeds
}

/// Builds [`receipt_seeds`].
pub fn make_receipt_seeds(campaign: &Pubkey, voter: &Pubkey) -> (seeds: Vec<Vec<u8>>)
    ensures
        seed_views(seeds@) == receipt_seeds(*campaign, *voter),
{
    let mut seeds: Vec<Vec<u8>> = Vec::new();
    seeds.push(vec![0x72u8, 0x65u8, 0x63u8, 0x65u8, 0x69u8, 0x70u8, 0x74u8]);
    seeds.push(key_bytes(campaign));
    seeds.push(key_bytes(voter));
    assert(seed_views(seeds@) =~= receipt_seeds(*campaign, *voter)) by {
        assert(seeds@[0]@ =~= receipt_tag());
    }
    seeds
}

/// Derives [`campaign_address`].
pub fn find_campaign_address(program_id: &Pubkey, creator: &Pubkey, description: &str) -> (address: Option<Pubkey>)
    ensures
        address == campaign_address(*program_id, *creator, description@),
{
    let seeds = make_campaign_seeds(creator, description);
    find_address(&seeds, program_id)
}

/// Derives [`receipt_address`].
pub fn find_receipt_address(program_id: &Pubkey, campaign: &Pubkey, voter: &Pubkey) -> (address: Option<Pubkey>)
    ensures
        address == receipt_address(*program_id, *campaign, *voter),
{
    let seeds = make_receipt_seeds(campaign, voter);
    find_address(&seeds, program_id)
}

} // verus!

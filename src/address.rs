//! Where an escrow record lives. Its address is derived from the program's
//! own identifier and the seeds ["escrow", maker, seed], with a one-byte bump
//! that makes it a valid program address. No private key exists for it: the
//! program proves its authority over the vault by deriving the address again.
use vstd::prelude::*;
use anchor_lang::prelude::Pubkey;
use crate::state::Key;

verus! {

/// The address and bump that a search over the bumps finds for `seeds`
/// under `program`, if any bump gives a valid program address.
pub uninterp spec fn found_address(seeds: Seq<Seq<u8>>, program: Key) -> Option<(Key, u8)>;

/// The program address for `seeds` under `program`, where they give a valid one.
pub uninterp spec fn derived_address(seeds: Seq<Seq<u8>>, program: Key) -> Option<Key>;

/// Relies on anchor_lang's `Pubkey::try_find_program_address`: it returns
/// the first bump, counting down, for which `create_program_address` accepts
/// the seeds with that bump appended, together with that address.
#[verifier::external_body]
fn find_program_address(seeds: &Vec<Vec<u8>>, program: &Key) -> (r: Option<(Key, u8)>)
    ensures
        r == found_address(seeds.deep_view(), *program),
        r matches Some((a, bump)) ==> derived_address(seeds.deep_view().push(seq![bump]), *program)
            == Some(a),
{
    let slices: Vec<&[u8]> = seeds.iter().map(|s| s.as_slice()).collect();
    Pubkey::try_find_program_address(&slices, &Pubkey::new_from_array(program.bytes)).map(
        |(a, bump)| (Key { bytes: a.to_bytes() }, bump),
    )
}

/// Relies on anchor_lang's `Pubkey::create_program_address`: the program
/// address for the seeds, or an error where there is none.
#[verifier::external_body]
fn create_program_address(seeds: &Vec<Vec<u8>>, program: &Key) -> (r: Option<Key>)
    ensures
        r == derived_address(seeds.deep_view(), *program),
{
    let slices: Vec<&[u8]> = seeds.iter().map(|s| s.as_slice()).collect();
    Pubkey::create_program_address(&slices, &Pubkey::new_from_array(program.bytes)).ok().map(
        |a| Key { bytes: a.to_bytes() },
    )
}

/// The little-endian bytes of `x`.
pub open spec fn le_bytes(x: u64) -> Seq<u8> {
    seq![
        x as u8,
        (x >> 8u64) as u8,
        (x >> 16u64) as u8,
        (x >> 24u64) as u8,
        (x >> 32u64) as u8,
        (x >> 40u64) as u8,
        (x >> 48u64) as u8,
        (x >> 56u64) as u8,
    ]
}

/// The domain tag that every record address is derived from.
pub open spec fn escrow_tag() -> Seq<u8> {
    seq![101u8, 115u8, 99u8, 114u8, 111u8, 119u8]
}

/// The seeds of the record of (maker, seed).
pub open spec fn escrow_seeds(maker: Key, seed: u64) -> Seq<Seq<u8>> {
    seq![escrow_tag(), maker.bytes@, le_bytes(seed)]
}

fn seeds_of(maker: &Key, seed: u64) -> (r: Vec<Vec<u8>>)
    ensures
        r.deep_view() =~= escrow_seeds(*maker, seed),
{
    let tag: Vec<u8> = vec![101u8, 115u8, 99u8, 114u8, 111u8, 119u8];
    let mut m: Vec<u8> = Vec::new();
    let mut i: usize = 0;
    while i < 32
        invariant
            i <= 32,
            m@ =~= maker.bytes@.subrange(0, i as int),
        decreases 32 - i,
    {
        m.push(maker.bytes[i]);
        i = i + 1;
    }
    let s: Vec<u8> = vec![
        seed as u8,
        (seed >> 8u64) as u8,
        (seed >> 16u64) as u8,
        (seed >> 24u64) as u8,
        (seed >> 32u64) as u8,
        (seed >> 40u64) as u8,
        (seed >> 48u64) as u8,
        (seed >> 56u64) as u8,
    ];
    let r: Vec<Vec<u8>> = vec![tag, m, s];
    proof {
        assert(r.deep_view()[0] =~= escrow_tag());
        assert(r.deep_view()[1] =~= maker.bytes@);
        assert(r.deep_view()[2] =~= le_bytes(seed));
    }
    r
}

/// Finds the address and bump of the record of (maker, seed) under `program`.
pub fn find_escrow_address(program: &Key, maker: &Key, seed: u64) -> (r: Option<(Key, u8)>)
    ensures
        r == found_address(escrow_seeds(*maker, seed), *program),
        r matches Some((a, bump)) ==> derived_address(
            escrow_seeds(*maker, seed).push(seq![bump]),
            *program,
        ) == Some(a),
{
    let seeds = seeds_of(maker, seed);
    find_program_address(&seeds, program)
}

/// Derives again the address of the record of (maker, seed) with its bump.
pub fn escrow_address(program: &Key, maker: &Key, seed: u64, bump: u8) -> (r: Option<Key>)
    ensures
        r == derived_address(escrow_seeds(*maker, seed).push(seq![bump]), *program),
{
    let mut seeds = seeds_of(maker, seed);
    let ghost before = seeds@;
    let last: Vec<u8> = vec![bump];
    let ghost tail = last;
    proof {
        assert(seeds.deep_view().len() == 3);
        assert(before.len() == 3);
        assert(tail.deep_view() =~= seq![bump]);
    }
    seeds.push(last);
    proof {
        assert(seeds@ == before.push(tail));
        assert(seeds.deep_view()[3] == tail.deep_view());
        assert(seeds.deep_view() =~= escrow_seeds(*maker, seed).push(seq![bump]));
    }
    create_program_address(&seeds, program)
}

} // verus!

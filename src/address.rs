use anchor_lang::prelude::Pubkey;
use vstd::prelude::*;

verus! {

/// The first seed of every record address: the bytes of "tip".
pub open spec fn tip_seed_prefix() -> Seq<u8> {
    seq![116u8, 105u8, 112u8]
}

/// The `width` low bytes of `n`, least significant first.
pub open spec fn le_bytes(n: u64, width: nat) -> Seq<u8> {
    Seq::new(width, |i: int| (n >> (8 * i) as u64) as u8)
}

/// The seeds of the record address of `sender` under `seed`.
pub open spec fn tip_seeds(sender: Seq<u8>, seed: u64) -> Seq<Seq<u8>> {
    seq![tip_seed_prefix(), sender, le_bytes(seed, 8)]
}

/// The program-derived address and bump found for `seeds` under the program
/// `program_id`, if any.
pub uninterp spec fn program_address(seeds: Seq<Seq<u8>>, program_id: Seq<u8>) -> Option<(Seq<u8>, u8)>;

pub open spec fn seeds_view(seeds: Seq<Vec<u8>>) -> Seq<Seq<u8>> {
    seeds.map_values(|s: Vec<u8>| s@)
}

pub open spec fn address_view(r: Option<([u8; 32], u8)>) -> Option<(Seq<u8>, u8)> {
    match r {
        Some((a, b)) => Some((a@, b)),
        None => None,
    }
}

/// Relies on `Pubkey::try_find_program_address`: searches the bumps from 255
/// down for the first one whose hash of seeds, bump and program id is off the
/// curve; the outcome depends on the seeds and the program id alone.
#[verifier::external_body]
fn find_program_address(seeds: &Vec<Vec<u8>>, program_id: &[u8; 32]) -> (r: Option<([u8; 32], u8)>)
    ensures
        address_view(r) == program_address(seeds_view(seeds@), program_id@),
{
    let refs: Vec<&[u8]> = seeds.iter().map(|s| s.as_slice()).collect();
    Pubkey::try_find_program_address(&refs, &Pubkey::new_from_array(*program_id)).map(
        |(a, b)| (a.to_bytes(), b),
    )
}

pub(crate) fn le_bytes_of(n: u64, width: u64) -> (r: Vec<u8>)
    requires
        width <= 8,
    ensures
        r@ == le_bytes(n, width as nat),
{
    let mut r: Vec<u8> = Vec::new();
    for i in 0..width
        invariant
            width <= 8,
            r@ == le_bytes(n, width as nat).take(i as int),
    {
        r.push((n >> (8 * i)) as u8);
        assert(r@ =~= le_bytes(n, width as nat).take(i + 1));
    }
    assert(le_bytes(n, width as nat).take(width as int) =~= le_bytes(n, width as nat));
    r
}

fn bytes_of(a: &[u8; 32]) -> (r: Vec<u8>)
    ensures
        r@ == a@,
{
    let mut r: Vec<u8> = Vec::new();
    for i in 0..32usize
        invariant
            r@ == a@.take(i as int),
    {
        r.push(a[i]);
        assert(r@ =~= a@.take(i + 1));
    }
    assert(a@.take(32) =~= a@);
    r
}

/// The storage address of the record that `sender` creates under `seed`,
/// with the bump found for it: the same pair always yields the same slot.
pub fn derive_tip_address(sender: &[u8; 32], seed: u64, program_id: &[u8; 32]) -> (r: Option<([u8; 32], u8)>)
    ensures
        address_view(r) == program_address(tip_seeds(sender@, seed), program_id@),
{
    let mut seeds: Vec<Vec<u8>> = Vec::new();
    seeds.push(vec![116u8, 105u8, 112u8]);
    seeds.push(bytes_of(sender));
    seeds.push(le_bytes_of(seed, 8));
    assert(seeds_view(seeds@) =~= tip_seeds(sender@, seed));
    find_program_address(&seeds, program_id)
}

} // verus!

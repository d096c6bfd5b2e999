use vstd::prelude::*;
use vstd::std_specs::cmp::PartialEqSpecImpl;

verus! {

/// The address of an account: thirty-two bytes.
#[derive(Clone, Copy, Debug, Default, Eq)]
pub struct Pubkey {
    pub bytes: [u8; 32],
}

impl View for Pubkey {
    type V = Seq<u8>;

    open spec fn view(&self) -> Seq<u8> {
        self.bytes@
    }
}

impl PartialEq for Pubkey {
    fn eq(&self, other: &Pubkey) -> (r: bool) {
        let mut i: usize = 0;
        while i < 32
            invariant
                i <= 32,
                forall|j: int| 0 <= j < i ==> self.bytes[j] == other.bytes[j],
            decreases 32 - i,
        {
            if self.bytes[i] != other.bytes[i] {
                return false;
            }
            i = i + 1;
        }
        assert(self.bytes =~= other.bytes);
        true
    }
}

impl PartialEqSpecImpl for Pubkey {
    open spec fn obeys_eq_spec() -> bool {
        true
    }

    open spec fn eq_spec(&self, other: &Pubkey) -> bool {
        *self == *other
    }
}

impl Pubkey {
    /// The address made of the given bytes.
    pub fn new_from_array(bytes: [u8; 32]) -> (key: Pubkey)
        ensures
            key.bytes == bytes,
    {
        Pubkey { bytes }
    }
}

/// What a list of seeds stands for.
pub open spec fn seed_views(seeds: Seq<Vec<u8>>) -> Seq<Seq<u8>> {
    seeds.map_values(|seed: Vec<u8>| seed@)
}

/// The program address that the runtime finds for `seeds` under the program
/// `program_id`, with the bump seed that leads to it; `None` where it finds
/// none. It is found from the bytes of the seeds and of the program's address
/// and from nothing else.
pub uninterp spec fn program_address(seeds: Seq<Seq<u8>>, program_id: Seq<u8>) -> Option<(Seq<u8>, u8)>;

/// Calls `Pubkey::try_find_program_address` of `anchor_lang` on the seeds and
/// the program's address, byte for byte. The search itself is not proved:
/// the address and bump seed that come back are taken to be those that
/// [`program_address`] names for these seeds and this program, and `None` to
/// come back exactly where it names none.
#[verifier::external_body]
pub(crate) fn try_find_program_address(seeds: &Vec<Vec<u8>>, program_id: &Pubkey) -> (found: Option<(Pubkey, u8)>)
    ensures
        match found {
            Some((key, bump)) => program_address(seed_views(seeds@), program_id@) == Some((key@, bump)),
            None => program_address(seed_views(seeds@), program_id@) is None,
        },
{
    let parts: Vec<&[u8]> = seeds.iter().map(|seed| seed.as_slice()).collect();
    let program = anchor_lang::prelude::Pubkey::new_from_array(program_id.bytes);
    anchor_lang::prelude::Pubkey::try_find_program_address(&parts, &program)
        .map(|(key, bump)| (Pubkey { bytes: key.to_bytes() }, bump))
}

/// The address derived from `seeds` for the program `program_id`.
pub open spec fn derived_address(seeds: Seq<Seq<u8>>, program_id: Pubkey) -> Option<Pubkey> {
    match program_address(seeds, program_id@) {
        Some((bytes, _)) => Some(key_of(bytes)),
        None => None,
    }
}

/// The address whose bytes are `bytes`.
pub open spec fn key_of(bytes: Seq<u8>) -> Pubkey {
    Pubkey { bytes: choose|a: [u8; 32]| a@ == bytes }
}

/// Derives the address that belongs to `seeds` under the program `program_id`.
pub fn find_address(seeds: &Vec<Vec<u8>>, program_id: &Pubkey) -> (address: Option<Pubkey>)
    ensures
        address == derived_address(seed_views(seeds@), *program_id),
{
    match try_find_program_address(seeds, program_id) {
        Some((key, _)) => {
            assert(key.bytes =~= choose|a: [u8; 32]| a@ == key@);
            Some(key)
        },
        None => None,
    }
}

} // verus!

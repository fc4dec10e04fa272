//! Address derivation: from a namespace and an asset code to the address of
//! the asset's authority record, and the proof that stands in for a signature.

use vstd::prelude::*;
use crate::address::Address;
use crate::code::ExternalAssetCode;
use crate::error::BridgeError;

verus! {

/// The longest tag, in bytes, that the ledger accepts as derivation input.
pub const MAX_TAG_BYTES: usize = 32;

/// What the ledger's derivation rule yields for a tag, a twelve-byte code and
/// a program address: the derived address with its bump, or nothing where no
/// bump gives an address outside the signable key space.
pub uninterp spec fn program_address(tag: Seq<u8>, code: Seq<u8>, program: Seq<u8>) -> Option<
    (Seq<u8>, u8),
>;

/// The configuration under which addresses are derived: the namespace tag and
/// the address of the program that owns what is derived.
#[derive(Clone, Debug)]
pub struct Namespace {
    pub tag: Vec<u8>,
    pub program: Address,
}

impl Namespace {
    /// The namespace of the given tag under the given program.
    pub fn new(tag: Vec<u8>, program: Address) -> (ns: Namespace)
        ensures
            ns.tag@ == tag@,
            ns.program == program,
    {
        Namespace { tag, program }
    }

    /// What the namespace derives for a code.
    pub open spec fn derived(&self, code: Seq<u8>) -> Option<(Seq<u8>, u8)> {
        program_address(self.tag@, code, self.program@)
    }
}

/// The derivation result as plain values.
pub open spec fn found_view(found: Option<(Address, u8)>) -> Option<(Seq<u8>, u8)> {
    match found {
        Some((address, bump)) => Some((address@, bump)),
        None => None,
    }
}

/// Calls `Pubkey::try_find_program_address` of the ledger's SDK with the two
/// seeds `tag` and `code`. Trusted: the result is the ledger's derivation for
/// these inputs, and a tag longer than a seed may be derives nothing.
#[verifier::external_body]
fn find_program_address(tag: &[u8], code: &ExternalAssetCode, program: &Address) -> (found: Option<
    (Address, u8),
>)
    ensures
        found_view(found) == program_address(tag@, code@, program@),
        tag@.len() > MAX_TAG_BYTES ==> found is None,
{
    let owner = anchor_lang::prelude::Pubkey::new_from_array(program.bytes);
    let seeds: [&[u8]; 2] = [tag, &code.bytes];
    match anchor_lang::prelude::Pubkey::try_find_program_address(&seeds, &owner) {
        Some((key, bump)) => Some((Address { bytes: key.to_bytes() }, bump)),
        None => None,
    }
}

/// The capability to sign for one authority record: the tag, code and bump
/// that derive the record's address under a program. A proof is made only by
/// [`derive`], so each one holds a derivation that the ledger accepts.
#[derive(Debug)]
pub struct SigningProof {
    tag: Vec<u8>,
    code: ExternalAssetCode,
    program: Address,
    address: Address,
    bump: u8,
}

impl SigningProof {
    #[verifier::type_invariant]
    closed spec fn derived(&self) -> bool {
        program_address(self.tag@, self.code@, self.program@) == Some((self.address@, self.bump))
    }

    /// The tag the proof was derived under.
    pub closed spec fn spec_tag(&self) -> Seq<u8> {
        self.tag@
    }

    /// The code the proof was derived from.
    pub closed spec fn spec_code(&self) -> ExternalAssetCode {
        self.code
    }

    /// The program the proof was derived under.
    pub closed spec fn spec_program(&self) -> Address {
        self.program
    }

    /// The address the proof signs for.
    pub closed spec fn spec_address(&self) -> Address {
        self.address
    }

    /// The bump that completes the derivation.
    pub closed spec fn spec_bump(&self) -> u8 {
        self.bump
    }

    /// The derivation that the proof holds, as plain values.
    pub open spec fn outcome(&self) -> Option<(Seq<u8>, u8)> {
        Some((self.spec_address()@, self.spec_bump()))
    }

    /// The seeds the ledger checks a signature against.
    pub open spec fn spec_signer_seeds(&self) -> Seq<Seq<u8>> {
        seq![self.spec_tag(), self.spec_code()@, seq![self.spec_bump()]]
    }

    /// The address the proof signs for. It is the address that the ledger
    /// derives from the proof's tag, code and program.
    pub fn address(&self) -> (a: Address)
        ensures
            a == self.spec_address(),
            program_address(self.spec_tag(), self.spec_code()@, self.spec_program()@)
                == self.outcome(),
    {
        proof {
            use_type_invariant(self);
        }
        self.address
    }

    /// The bump that completes the derivation.
    pub fn bump(&self) -> (b: u8)
        ensures
            b == self.spec_bump(),
    {
        self.bump
    }

    /// The code the proof was derived from.
    pub fn code(&self) -> (c: ExternalAssetCode)
        ensures
            c == self.spec_code(),
    {
        self.code
    }

    /// The seeds to hand to the ledger in place of a signature: the tag, the
    /// code, and the bump as a single byte.
    pub fn signer_seeds(&self) -> (seeds: Vec<Vec<u8>>)
        ensures
            seeds.deep_view() == self.spec_signer_seeds(),
    {
        let mut code: Vec<u8> = Vec::new();
        let mut i: usize = 0;
        while i < 12
            invariant
                i <= 12,
                code@.len() == i,
                forall|j: int| 0 <= j < i ==> code@[j] == self.code.bytes[j],
            decreases 12 - i,
        {
            code.push(self.code.bytes[i]);
            i += 1;
        }
        let mut bump: Vec<u8> = Vec::new();
        bump.push(self.bump);
        let mut seeds: Vec<Vec<u8>> = Vec::new();
        seeds.push(self.tag.clone());
        seeds.push(code);
        seeds.push(bump);
        proof {
            let deep = seeds.deep_view();
            assert(deep.len() == 3);
            assert(deep[0] =~= self.tag@);
            assert(deep[1] =~= self.code@);
            assert(deep[2] =~= seq![self.bump]);
            assert(deep =~= self.spec_signer_seeds());
        }
        seeds
    }
}

/// What [`derive`] returns for a given derivation result.
pub open spec fn derive_outcome(derived: Option<(Seq<u8>, u8)>, r: Result<SigningProof, BridgeError>)
    -> bool {
    match derived {
        Some(_) => r is Ok && r->Ok_0.outcome() == derived,
        None => r == Err::<SigningProof, BridgeError>(BridgeError::DerivationExhausted),
    }
}

/// Derives the authority address for a code, with the proof that signs for
/// it. The result is a function of the namespace and the code alone. It fails
/// with `DerivationExhausted` exactly when the ledger's rule derives nothing,
/// as it does for every tag longer than [`MAX_TAG_BYTES`].
pub fn derive(ns: &Namespace, code: &ExternalAssetCode) -> (r: Result<SigningProof, BridgeError>)
    ensures
        derive_outcome(ns.derived(code@), r),
        r matches Ok(p) ==> p.spec_tag() == ns.tag@ && p.spec_code() == *code && p.spec_program()
            == ns.program,
        ns.tag@.len() > MAX_TAG_BYTES ==> r is Err,
{
    match find_program_address(ns.tag.as_slice(), code, &ns.program) {
        Some((address, bump)) => Ok(
            SigningProof { tag: ns.tag.clone(), code: *code, program: ns.program, address, bump },
        ),
        None => Err(BridgeError::DerivationExhausted),
    }
}

} // verus!

//! CREATE3 address derivation: the deployer-specific salt and the two-stage
//! CREATE2-proxy / fixed-nonce-CREATE address computation.

use vstd::prelude::*;
use vstd::string::StringSliceAdditionalSpecFns;
use crate::bytes::{append_bytes, sub_bytes};
use crate::hexcode::{hex_chars_of, hex_decodable, hex_decode_bytes, hex_decoded, hex_encode_bytes};
use crate::keccak::{keccak256_bytes, keccak256_of};

verus! {

broadcast use vstd::array::group_array_axioms;

/// A 20-byte account address.
#[derive(Clone, Copy, Debug)]
pub struct Address {
    pub bytes: [u8; 20],
}

impl View for Address {
    type V = Seq<u8>;

    open spec fn view(&self) -> Seq<u8> {
        self.bytes@
    }
}

/// `b` without a leading `0x`, if it has one.
pub open spec fn spec_strip_0x(b: Seq<u8>) -> Seq<u8> {
    if b.len() >= 2 && b[0] == 0x30u8 && b[1] == 0x78u8 {
        b.subrange(2, b.len() as int)
    } else {
        b
    }
}

impl Address {
    /// Parse an address from its hex text form, with an optional `0x`
    /// prefix; exactly 40 hex digits are accepted.
    pub fn from_hex(s: &str) -> (r: Option<Address>)
        ensures
            ({
                let t = spec_strip_0x(s.spec_bytes());
                &&& r is Some <==> (hex_decodable(t) && t.len() == 40)
                &&& (r matches Some(a) ==> a@ == hex_decoded(t))
            }),
    {
        let b = s.as_bytes();
        let stripped: Vec<u8> = if b.len() >= 2 && b[0] == 0x30 && b[1] == 0x78 {
            sub_bytes(b, 2, b.len())
        } else {
            sub_bytes(b, 0, b.len())
        };
        assert(stripped@ == spec_strip_0x(s.spec_bytes())) by {
            assert(b@.subrange(0, b@.len() as int) =~= b@);
        }
        match hex_decode_bytes(stripped.as_slice()) {
            Some(decoded) => {
                if decoded.len() == 20 {
                    let mut out: [u8; 20] = [0u8; 20];
                    let mut i: usize = 0;
                    while i < 20
                        invariant
                            i <= 20,
                            decoded@.len() == 20,
                            out@.len() == 20,
                            forall|k: int| 0 <= k < i ==> out@[k] == decoded@[k],
                        decreases 20 - i,
                    {
                        out[i] = decoded[i];
                        i += 1;
                    }
                    assert(out@ =~= decoded@);
                    Some(Address { bytes: out })
                } else {
                    None
                }
            },
            None => None,
        }
    }

    /// The lowercase 40-digit hex text of the address, without a `0x`
    /// prefix.
    pub fn to_hex(&self) -> (r: String)
        ensures
            r@ == hex_chars_of(self@),
    {
        hex_encode_bytes(self.bytes.as_slice())
    }
}

/// Hash of the fixed proxy contract's creation bytecode. A protocol
/// constant: changing the proxy contract invalidates all derived addresses.
pub open spec fn proxy_initcode_hash() -> Seq<u8> {
    seq![
        0x21u8, 0xc3u8, 0x5du8, 0xbeu8, 0x1bu8, 0x34u8, 0x4au8, 0x24u8,
        0x88u8, 0xcfu8, 0x33u8, 0x21u8, 0xd6u8, 0xceu8, 0x54u8, 0x2fu8,
        0x8eu8, 0x9fu8, 0x30u8, 0x55u8, 0x44u8, 0xffu8, 0x09u8, 0xe4u8,
        0x99u8, 0x3au8, 0x62u8, 0x31u8, 0x9au8, 0x49u8, 0x7cu8, 0x1fu8,
    ]
}

/// Executable copy of [`proxy_initcode_hash`].
pub fn proxy_initcode_hash_bytes() -> (r: [u8; 32])
    ensures
        r@ == proxy_initcode_hash(),
{
    let r: [u8; 32] = [
        0x21u8, 0xc3u8, 0x5du8, 0xbeu8, 0x1bu8, 0x34u8, 0x4au8, 0x24u8,
        0x88u8, 0xcfu8, 0x33u8, 0x21u8, 0xd6u8, 0xceu8, 0x54u8, 0x2fu8,
        0x8eu8, 0x9fu8, 0x30u8, 0x55u8, 0x44u8, 0xffu8, 0x09u8, 0xe4u8,
        0x99u8, 0x3au8, 0x62u8, 0x31u8, 0x9au8, 0x49u8, 0x7cu8, 0x1fu8,
    ];
    assert(r@ =~= proxy_initcode_hash());
    r
}

/// The deployer-specific salt: the digest of the salt followed by the
/// deployer address.
pub open spec fn spec_deployer_specific_salt(salt: Seq<u8>, deployer: Seq<u8>) -> Seq<u8> {
    keccak256_of(salt + deployer)
}

/// The CREATE2 hash preimage for the proxy address: the `0xff` marker, the
/// deployer, the salt, and the proxy init-code hash.
pub open spec fn create2_proxy_preimage(salt: Seq<u8>, deployer: Seq<u8>) -> Seq<u8> {
    seq![0xffu8] + deployer + salt + proxy_initcode_hash()
}

/// The proxy address: the low 20 bytes of the CREATE2 digest.
pub open spec fn spec_proxy_address(salt: Seq<u8>, deployer: Seq<u8>) -> Seq<u8> {
    keccak256_of(create2_proxy_preimage(salt, deployer)).subrange(12, 32)
}

/// The deployed address: the low 20 bytes of the digest of the RLP pair
/// [proxy address, nonce = 1]. `0xd6` is the RLP list prefix for a 22-byte
/// payload and `0x94` the string prefix for a 20-byte address; both are
/// constants of this fixed-shape encoding.
pub open spec fn spec_create3_address(salt: Seq<u8>, deployer: Seq<u8>) -> Seq<u8> {
    keccak256_of(seq![0xd6u8, 0x94u8] + spec_proxy_address(salt, deployer) + seq![0x01u8])
        .subrange(12, 32)
}

/// Combine a salt with a deployer into the deployer-specific salt.
pub fn compute_deployer_specific_salt(salt: &[u8; 32], deployer: &Address) -> (r: [u8; 32])
    ensures
        r@ == spec_deployer_specific_salt(salt@, deployer@),
{
    let mut input: Vec<u8> = Vec::new();
    append_bytes(&mut input, salt.as_slice());
    append_bytes(&mut input, deployer.bytes.as_slice());
    assert(input@ =~= salt@ + deployer@);
    keccak256_bytes(input.as_slice())
}

/// Derive the CREATE3 deployment address for a salt and a deployer.
pub fn calculate_create3_address(salt: &[u8; 32], deployer: &Address) -> (r: Address)
    ensures
        r@ == spec_create3_address(salt@, deployer@),
{
    let mut input: Vec<u8> = Vec::new();
    input.push(0xff);
    append_bytes(&mut input, deployer.bytes.as_slice());
    append_bytes(&mut input, salt.as_slice());
    let initcode_hash = proxy_initcode_hash_bytes();
    append_bytes(&mut input, initcode_hash.as_slice());
    assert(input@ =~= create2_proxy_preimage(salt@, deployer@));
    let proxy_hash = keccak256_bytes(input.as_slice());

    let mut rlp: Vec<u8> = Vec::new();
    rlp.push(0xd6);
    rlp.push(0x94);
    let mut i: usize = 12;
    while i < 32
        invariant
            12 <= i <= 32,
            proxy_hash@.len() == 32,
            rlp@ == seq![0xd6u8, 0x94u8] + proxy_hash@.subrange(12, i as int),
        decreases 32 - i,
    {
        rlp.push(proxy_hash[i]);
        assert(seq![0xd6u8, 0x94u8] + proxy_hash@.subrange(12, (i + 1) as int) =~= (seq![
            0xd6u8,
            0x94u8,
        ] + proxy_hash@.subrange(12, i as int)).push(proxy_hash@[i as int]));
        i += 1;
    }
    rlp.push(0x01);
    assert(rlp@ =~= seq![0xd6u8, 0x94u8] + spec_proxy_address(salt@, deployer@) + seq![0x01u8]);
    let deployed_hash = keccak256_bytes(rlp.as_slice());

    let mut addr_bytes: [u8; 20] = [0u8; 20];
    let mut j: usize = 0;
    while j < 20
        invariant
            j <= 20,
            deployed_hash@.len() == 32,
            addr_bytes@.len() == 20,
            forall|k: int| 0 <= k < j ==> addr_bytes@[k] == deployed_hash@[12 + k],
        decreases 20 - j,
    {
        addr_bytes[j] = deployed_hash[12 + j];
        j += 1;
    }
    let r = Address { bytes: addr_bytes };
    assert(r@ =~= spec_create3_address(salt@, deployer@));
    r
}

/// The derived address is a pure function of the salt and the deployer:
/// equal inputs always give the equal address.
pub proof fn lemma_derive_address_deterministic(
    salt1: Seq<u8>,
    deployer1: Seq<u8>,
    salt2: Seq<u8>,
    deployer2: Seq<u8>,
)
    requires
        salt1 == salt2,
        deployer1 == deployer2,
    ensures
        spec_create3_address(salt1, deployer1) == spec_create3_address(salt2, deployer2),
        spec_deployer_specific_salt(salt1, deployer1) == spec_deployer_specific_salt(
            salt2,
            deployer2,
        ),
{
}

/// Distinct deployers of equal length give distinct preimages for the
/// deployer-specific salt; the salts themselves then differ unless
/// Keccak-256 collides on the two preimages.
pub proof fn lemma_deployer_salt_preimage_injective(salt: Seq<u8>, d1: Seq<u8>, d2: Seq<u8>)
    requires
        d1.len() == d2.len(),
        d1 != d2,
    ensures
        salt + d1 != salt + d2,
{
    if salt + d1 == salt + d2 {
        assert forall|i: int| 0 <= i < d1.len() implies d1[i] == d2[i] by {
            assert((salt + d1)[salt.len() + i] == (salt + d2)[salt.len() + i]);
        }
        assert(d1 =~= d2);
    }
}

} // verus!

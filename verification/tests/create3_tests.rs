use create3miner::create3::{
    calculate_create3_address, compute_deployer_specific_salt, proxy_initcode_hash_bytes, Address,
};
use create3miner::cpu::CpuMiner;
use create3miner::gpu::GpuMiner;
use create3miner::pattern::parse_pattern;

const TEST_DEPLOYER: &str = "0x1234567890abcdef1234567890abcdef12345678";

fn test_deployer() -> Address {
    Address::from_hex(TEST_DEPLOYER).expect("valid test deployer")
}

#[test]
fn address_from_hex_accepts_both_prefixes() {
    let with_prefix = Address::from_hex(TEST_DEPLOYER).unwrap();
    let without_prefix = Address::from_hex("1234567890abcdef1234567890abcdef12345678").unwrap();
    assert_eq!(with_prefix.bytes, without_prefix.bytes);
    assert_eq!(with_prefix.bytes[0], 0x12);
    assert_eq!(with_prefix.bytes[19], 0x78);
}

#[test]
fn address_from_hex_rejects_malformed_text() {
    assert!(Address::from_hex("").is_none());
    assert!(Address::from_hex("0x123").is_none());
    assert!(Address::from_hex("0xzz34567890abcdef1234567890abcdef12345678").is_none());
    // 38 and 42 digits are both wrong lengths.
    assert!(Address::from_hex("0x34567890abcdef1234567890abcdef12345678").is_none());
    assert!(Address::from_hex("0xaa1234567890abcdef1234567890abcdef12345678").is_none());
}

#[test]
fn address_hex_round_trip() {
    let addr = test_deployer();
    let text = addr.to_hex();
    assert_eq!(text, "1234567890abcdef1234567890abcdef12345678");
    let back = Address::from_hex(&text).unwrap();
    assert_eq!(back.bytes, addr.bytes);
}

#[test]
fn derivation_is_deterministic() {
    // Repeated calls with identical inputs yield identical output.
    let deployer = test_deployer();
    let salt = [0x42u8; 32];
    let s1 = compute_deployer_specific_salt(&salt, &deployer);
    let s2 = compute_deployer_specific_salt(&salt, &deployer);
    assert_eq!(s1, s2);
    let a1 = calculate_create3_address(&s1, &deployer);
    let a2 = calculate_create3_address(&s2, &deployer);
    assert_eq!(a1.bytes, a2.bytes);
}

#[test]
fn deployer_specific_salt_separates_deployers() {
    // Distinct deployers give distinct deployer-specific salts.
    let salt = [0u8; 32];
    let d1 = test_deployer();
    let mut d2 = test_deployer();
    d2.bytes[19] = 0x79;
    let s1 = compute_deployer_specific_salt(&salt, &d1);
    let s2 = compute_deployer_specific_salt(&salt, &d2);
    assert_ne!(s1, s2);
    let a1 = calculate_create3_address(&salt, &d1);
    let a2 = calculate_create3_address(&salt, &d2);
    assert_ne!(a1.bytes, a2.bytes);
}

#[test]
fn salt_sensitivity_of_address() {
    let deployer = test_deployer();
    let mut salt2 = [0u8; 32];
    salt2[31] = 1;
    let a1 = calculate_create3_address(&[0u8; 32], &deployer);
    let a2 = calculate_create3_address(&salt2, &deployer);
    assert_ne!(a1.bytes, a2.bytes);
}

#[test]
fn proxy_initcode_hash_is_the_protocol_constant() {
    let h = proxy_initcode_hash_bytes();
    assert_eq!(hex::encode(h), "21c35dbe1b344a2488cf3321d6ce542f8e9f305544ff09e4993a62319a497c1f");
}

#[test]
fn base_salt_is_the_keccak_digest_of_the_salt_text() {
    // keccak256("abc") is a published test vector; the miners must hash
    // the salt text with the real digest, on both backends.
    let deployer = test_deployer();
    let expected = "4e03657aea45a94fc7d47ba826c8d667c0d1e6e33a64a036ec44f58fa12d6c45";
    let cpu = CpuMiner::new("abc".to_string(), deployer, parse_pattern("ab"), 1, 1);
    assert_eq!(hex::encode(cpu.base_salt), expected);
    let gpu = GpuMiner::new("abc".to_string(), deployer, parse_pattern("ab"), 1, 128);
    assert_eq!(hex::encode(gpu.base_salt), expected);
}

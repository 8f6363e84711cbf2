use create3miner::create3::Address;
use create3miner::gpu::{
    gpu_pattern_data, gpu_pattern_info, parse_match_records, scan_match_flags, GpuMiner,
    GpuSearchState,
};
use create3miner::pattern::parse_pattern;

const TEST_DEPLOYER: &str = "0x1234567890abcdef1234567890abcdef12345678";
const TEST_SALT_BASE: &str = "test.salt.v1";

fn get_test_deployer() -> Address {
    Address::from_hex(TEST_DEPLOYER).expect("Invalid test deployer address")
}

#[test]
fn test_gpu_miner_initialization() {
    let deployer = get_test_deployer();
    let pattern = parse_pattern("abcd");

    // Create a GPU miner with minimal settings
    let miner = GpuMiner::new(
        TEST_SALT_BASE.to_string(),
        deployer,
        pattern,
        1, // Find just one result
        128, // Workgroup size
    );

    // Just test that it initializes without panicking
    assert_eq!(miner.limit, 1);
    assert_eq!(miner.workgroup_size, 128);
}

#[test]
fn batch_nonce_patches_are_distinct_and_increasing() {
    // Across consecutively dispatched batches the patch values are the
    // big-endian nonces 0, 1, 2, ...: pairwise distinct, increasing.
    let mut state = GpuSearchState::new(1);
    let mut patches: Vec<[u8; 8]> = Vec::new();
    for k in 0..6u64 {
        assert_eq!(state.next_nonce, k);
        patches.push(state.begin_batch());
    }
    for (k, patch) in patches.iter().enumerate() {
        assert_eq!(patch, &(k as u64).to_be_bytes());
    }
    for i in 0..patches.len() {
        for j in (i + 1)..patches.len() {
            assert_ne!(patches[i], patches[j]);
            assert!(u64::from_be_bytes(patches[i]) < u64::from_be_bytes(patches[j]));
        }
    }
}

#[test]
fn absorb_stops_exactly_at_the_limit() {
    // A completed GPU run returns exactly `limit` matches.
    let mut state = GpuSearchState::new(2);
    let found: Vec<([u8; 32], Address)> = (0..5u8)
        .map(|i| ([i; 32], Address { bytes: [i; 20] }))
        .collect();
    assert!(!state.is_done());
    state.absorb_matches(&found);
    assert_eq!(state.results.len(), 2);
    assert!(state.is_done());
    assert_eq!(state.results[0].0, [0u8; 32]);
    assert_eq!(state.results[1].0, [1u8; 32]);
    // Nothing more is taken once the limit is reached.
    state.absorb_matches(&found);
    assert_eq!(state.results.len(), 2);
}

#[test]
fn absorb_takes_everything_under_the_limit() {
    let mut state = GpuSearchState::new(10);
    let found: Vec<([u8; 32], Address)> = (0..3u8)
        .map(|i| ([i; 32], Address { bytes: [i; 20] }))
        .collect();
    state.absorb_matches(&found);
    assert_eq!(state.results.len(), 3);
    assert!(!state.is_done());
}

#[test]
fn scan_flags_yields_matching_lanes_in_order() {
    let flags = vec![0u32, 1, 0, 1, 1, 0, 2];
    assert_eq!(scan_match_flags(&flags), vec![1, 3, 4]);
    assert_eq!(scan_match_flags(&Vec::new()), Vec::<usize>::new());
    assert_eq!(scan_match_flags(&vec![0, 0]), Vec::<usize>::new());
}

#[test]
fn parse_records_splits_salt_and_address() {
    let mut data = Vec::new();
    data.extend_from_slice(&[0x11u8; 32]);
    data.extend_from_slice(&[0x22u8; 20]);
    data.extend_from_slice(&[0x33u8; 32]);
    data.extend_from_slice(&[0x44u8; 20]);
    let records = parse_match_records(&data);
    assert_eq!(records.len(), 2);
    assert_eq!(records[0].0, [0x11u8; 32]);
    assert_eq!(records[0].1.bytes, [0x22u8; 20]);
    assert_eq!(records[1].0, [0x33u8; 32]);
    assert_eq!(records[1].1.bytes, [0x44u8; 20]);
}

#[test]
fn pattern_descriptor_tags_each_variant() {
    let info = gpu_pattern_info(&parse_pattern("abcd"));
    assert_eq!(
        (info.pattern_kind, info.has_leading, info.has_trailing, info.option_count),
        (0, 0, 0, 0),
    );
    let info = gpu_pattern_info(&parse_pattern("(a|b)"));
    assert_eq!((info.pattern_kind, info.has_leading, info.has_trailing), (1, 0, 0));
    let info = gpu_pattern_info(&parse_pattern("ab...cd"));
    assert_eq!((info.pattern_kind, info.has_leading, info.has_trailing), (2, 1, 1));
    let info = gpu_pattern_info(&parse_pattern("...cd"));
    assert_eq!((info.pattern_kind, info.has_leading, info.has_trailing), (2, 0, 1));
}

#[test]
fn pattern_data_is_the_padded_prefix() {
    let data = gpu_pattern_data(&parse_pattern("abcd"));
    assert_eq!(data.len(), 32);
    assert_eq!(&data[0..2], &[0xab, 0xcd]);
    assert!(data[2..].iter().all(|&b| b == 0));
    // Non-prefix variants degrade to the all-zero, match-everything data.
    let data = gpu_pattern_data(&parse_pattern("ab...cd"));
    assert!(data.iter().all(|&b| b == 0));
}

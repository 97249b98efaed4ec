//! Numbers and texts, held against the standard library's own formatting.

use prover_ffi::felt::{EthAddress, Felt};
use prover_ffi::megabytes::{one_decimal, whole};
use prover_ffi::text::{add_line, append_decimal, joined, one_line};
use prover_ffi::utf8::{decode, find_fault, Utf8Fault};

fn sample_counts() -> Vec<u64> {
    let mut counts = vec![0, 1, 52428, 52429, 104857, 104858, 524288, 1048575, 1048576, 1572864];
    // ties in tenths and in whole megabytes
    for k in 0..40 {
        counts.push(k * 262144);
        counts.push(k * 262144 + 1);
    }
    // around and above the last exact double
    for shift in 50..64 {
        let n = 1_u64 << shift;
        for d in [0, 1, 2, 3, 4, 511, 512, 513, 1024, 1025, 2048, 2049, 3072] {
            counts.push(n + d);
            counts.push(n - d);
        }
    }
    counts.push(u64::MAX);
    counts.push(u64::MAX - 1023);
    counts.push(u64::MAX - 1024);
    let mut x = 0x9e37_79b9_7f4a_7c15_u64;
    for _ in 0..2000 {
        x = x.wrapping_mul(6364136223846793005).wrapping_add(1442695040888963407);
        counts.push(x);
        counts.push(x >> 20);
        counts.push(x >> 34);
    }
    counts
}

#[test]
fn one_decimal_prints_as_a_double_does() {
    for n in sample_counts() {
        assert_eq!(one_decimal(n), format!("{:.1}", n as f64 / (1024.0 * 1024.0)), "{}", n);
    }
}

#[test]
fn whole_prints_as_a_double_does() {
    for n in sample_counts() {
        assert_eq!(whole(n), format!("{:.0}", n as f64 / (1024.0 * 1024.0)), "{}", n);
    }
}

#[test]
fn shown_megabytes() {
    assert_eq!(one_decimal(0), "0.0");
    assert_eq!(one_decimal(1_048_576), "1.0");
    assert_eq!(one_decimal(1_310_720), "1.2");
    assert_eq!(one_decimal(5_872_026), "5.6");
    assert_eq!(whole(524_288), "0");
    assert_eq!(whole(1_572_864), "2");
    assert_eq!(whole(3_221_225_472), "3072");
}

#[test]
fn decimals_and_lines() {
    for n in [0_u128, 7, 10, 99, 100, 12345678901234567890, u128::MAX] {
        let mut text = "n=".to_owned();
        append_decimal(&mut text, n);
        assert_eq!(text, format!("n={}", n));
    }
    assert_eq!(joined("a", "b"), "ab");
    let mut lines = one_line("x".to_owned());
    add_line(&mut lines, "y".to_owned());
    assert_eq!(lines, vec!["x", "y"]);
}

#[test]
fn utf8_faults_read_as_in_the_standard_library() {
    let leads = [0x00, 0x41, 0x7f, 0x80, 0xbf, 0xc0, 0xc1, 0xc2, 0xdf, 0xe0, 0xe1, 0xec, 0xed, 0xee,
        0xef, 0xf0, 0xf1, 0xf3, 0xf4, 0xf5, 0xff];
    let others = [0x00, 0x41, 0x7f, 0x80, 0x8f, 0x90, 0x9f, 0xa0, 0xbf, 0xc0, 0xc2, 0xe2, 0xff];
    let mut inputs: Vec<Vec<u8>> = vec![vec![]];
    for a in leads {
        inputs.push(vec![a]);
        for b in others {
            inputs.push(vec![a, b]);
            for c in others {
                inputs.push(vec![a, b, c]);
                for d in others {
                    inputs.push(vec![a, b, c, d]);
                    inputs.push(vec![0xc3, 0xa9, a, b, c, d, 0x41]);
                }
            }
        }
    }
    for input in inputs {
        match std::str::from_utf8(&input) {
            Ok(text) => {
                assert_eq!(decode(&input), Ok(text));
                assert_eq!(find_fault(&input), None);
            }
            Err(e) => {
                let fault = decode(&input).unwrap_err();
                assert_eq!(fault.valid_up_to, e.valid_up_to());
                assert_eq!(fault.error_len.map(|n| n as usize), e.error_len());
                assert_eq!(fault.describe(), e.to_string());
                assert_eq!(find_fault(&input), Some(fault));
            }
        }
    }
}

#[test]
fn utf8_fault_texts() {
    let fault = Utf8Fault { valid_up_to: 4, error_len: Some(2) };
    assert_eq!(fault.describe(), "invalid utf-8 sequence of 2 bytes from index 4");
    let fault = Utf8Fault { valid_up_to: 12, error_len: None };
    assert_eq!(fault.describe(), "incomplete utf-8 byte sequence from index 12");
}

const PRIME: [u8; 32] = [
    0x08, 0, 0, 0, 0, 0, 0, 0x11, 0, 0, 0, 0, 0, 0, 0, 0, 0, 0, 0, 0, 0, 0, 0, 0, 0, 0, 0, 0, 0, 0,
    0, 0x01,
];

#[test]
fn felts_are_below_the_order_of_the_field() {
    assert!(Felt::from_bytes_be(&PRIME).is_none());
    let mut below = PRIME;
    below[31] = 0;
    assert_eq!(
        Felt::from_bytes_be(&below).unwrap().to_hex_string(),
        "0x800000000000011000000000000000000000000000000000000000000000000"
    );
    let mut above = below;
    above[8] = 1;
    assert!(Felt::from_bytes_be(&above).is_none());
    assert!(Felt::from_bytes_be(&[0xff; 32]).is_none());
}

#[test]
fn felts_are_written_in_hexadecimal() {
    assert_eq!(Felt::from_bytes_be(&[0; 32]).unwrap().to_hex_string(), "0x0");
    let mut bytes = [0_u8; 32];
    bytes[30] = 0x0a;
    bytes[31] = 0xbc;
    let felt = Felt::from_bytes_be(&bytes).unwrap();
    assert_eq!(felt.to_hex_string(), "0xabc");
    assert_eq!(
        felt.to_hex_string(),
        starknet_types_core::felt::Felt::from_bytes_be(&bytes).to_hex_string()
    );
    bytes[0] = 0x07;
    assert_eq!(
        Felt::from_bytes_be(&bytes).unwrap().to_hex_string(),
        "0x700000000000000000000000000000000000000000000000000000000000abc"
    );
}

#[test]
fn addresses_fit_in_twenty_bytes() {
    let mut bytes = [0_u8; 32];
    for b in bytes[12..].iter_mut() {
        *b = 0xff;
    }
    let top = EthAddress::from_felt(Felt::from_bytes_be(&bytes).unwrap()).unwrap();
    assert_eq!(top.to_hex_string(), "0xffffffffffffffffffffffffffffffffffffffff");
    bytes[11] = 1;
    assert!(EthAddress::from_felt(Felt::from_bytes_be(&bytes).unwrap()).is_none());
}

#[test]
fn encodings_tell_values_apart() {
    let mut bytes = [0_u8; 32];
    let mut texts = Vec::new();
    for n in [0_u8, 1, 9, 10, 15, 16, 17, 255] {
        bytes[31] = n;
        texts.push(Felt::from_bytes_be(&bytes).unwrap().to_hex_string());
    }
    assert_eq!(texts, vec!["0x0", "0x1", "0x9", "0xa", "0xf", "0x10", "0x11", "0xff"]);
    let encoded: Vec<String> = vec![vec![], vec![0], vec![0, 0], vec![0, 0, 0], vec![0, 0, 0, 0]]
        .iter()
        .map(prover_ffi::base64::encode)
        .collect();
    assert_eq!(encoded, vec!["", "AA==", "AAA=", "AAAA", "AAAAAA=="]);
}

#[test]
fn status_codes_differ() {
    let codes = [
        prover_ffi::status::STATUS_OK,
        prover_ffi::status::STATUS_RUNTIME_ERROR,
        prover_ffi::status::STATUS_REQUEST_JSON_ERROR,
        prover_ffi::status::STATUS_RPC_RECORDS_JSON_ERROR,
        prover_ffi::status::STATUS_RPC_URL_ERROR,
        prover_ffi::status::STATUS_PROVE_TRANSACTION_ERROR,
        prover_ffi::status::STATUS_PROOF_VERIFICATION_ERROR,
        prover_ffi::status::STATUS_PROOF_VERIFICATION_TASK_ERROR,
        prover_ffi::status::STATUS_NULL_REQUEST_JSON,
        prover_ffi::status::STATUS_NULL_RPC_RECORDS_JSON,
        prover_ffi::status::STATUS_REQUEST_JSON_UTF8_ERROR,
        prover_ffi::status::STATUS_RPC_RECORDS_JSON_UTF8_ERROR,
        prover_ffi::status::STATUS_NULL_RPC_URL,
        prover_ffi::status::STATUS_RPC_URL_UTF8_ERROR,
        prover_ffi::status::STATUS_RESULT_JSON_ERROR,
    ];
    assert_eq!(codes.to_vec(), (0..15).collect::<Vec<i32>>());
}

use evm_sqlite::args::SqlArg;
use evm_sqlite::u256_add::u256_add;
use evm_sqlite::u256_to_dec::u256_to_dec;
use ruint::aliases::U256;

fn be(n: u128) -> Vec<u8> {
    U256::from(n).to_be_bytes::<32>().to_vec()
}

#[test]
fn byte_order_matches_numeric_order() {
    let values = [0u128, 1, 255, 256, 65_535, u64::MAX as u128, u128::MAX];
    for a in values {
        for b in values {
            assert_eq!(be(a) < be(b), a < b, "{a} {b}");
        }
    }
    let max = U256::MAX.to_be_bytes::<32>().to_vec();
    assert!(be(u128::MAX) < max);
}

#[test]
fn returned_blob_decodes_back() {
    let sum = u256_add(&SqlArg::Integer(40), &SqlArg::Integer(2)).unwrap().unwrap();
    assert_eq!(u256_to_dec(&SqlArg::Blob(sum)).unwrap(), Some("42".to_string()));
}

#[test]
fn short_blob_equals_left_padded_blob() {
    let short = vec![1u8, 2, 3];
    let mut padded = vec![0u8; 29];
    padded.extend_from_slice(&short);
    assert_eq!(
        u256_to_dec(&SqlArg::Blob(short)).unwrap(),
        u256_to_dec(&SqlArg::Blob(padded)).unwrap()
    );
}

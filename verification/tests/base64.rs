use ze2::base64::{encode, encode_len};

fn enc(s: &[u8]) -> Vec<u8> {
    let mut dst = Vec::new();
    encode(&mut dst, s);
    dst
}

#[test]
fn test_basic() {
    assert_eq!(enc(b""), b"".to_vec());
    assert_eq!(enc(b"a"), b"YQ==".to_vec());
    assert_eq!(enc(b"ab"), b"YWI=".to_vec());
    assert_eq!(enc(b"abc"), b"YWJj".to_vec());
    assert_eq!(enc(b"abcd"), b"YWJjZA==".to_vec());
    assert_eq!(enc(b"abcde"), b"YWJjZGU=".to_vec());
    assert_eq!(enc(b"abcdef"), b"YWJjZGVm".to_vec());
    assert_eq!(enc(b"abcdefg"), b"YWJjZGVmZw==".to_vec());
    assert_eq!(enc(b"abcdefgh"), b"YWJjZGVmZ2g=".to_vec());
    assert_eq!(enc(b"abcdefghi"), b"YWJjZGVmZ2hp".to_vec());
    assert_eq!(enc(b"abcdefghij"), b"YWJjZGVmZ2hpag==".to_vec());
    assert_eq!(enc(b"abcdefghijk"), b"YWJjZGVmZ2hpams=".to_vec());
    assert_eq!(enc(b"abcdefghijkl"), b"YWJjZGVmZ2hpamts".to_vec());
    assert_eq!(enc(b"abcdefghijklm"), b"YWJjZGVmZ2hpamtsbQ==".to_vec());
    assert_eq!(enc(b"abcdefghijklmN"), b"YWJjZGVmZ2hpamtsbU4=".to_vec());
    assert_eq!(enc(b"abcdefghijklmNO"), b"YWJjZGVmZ2hpamtsbU5P".to_vec());
    assert_eq!(enc(b"abcdefghijklmNOP"), b"YWJjZGVmZ2hpamtsbU5PUA==".to_vec());
    assert_eq!(enc(b"abcdefghijklmNOPQ"), b"YWJjZGVmZ2hpamtsbU5PUFE=".to_vec());
    assert_eq!(enc(b"abcdefghijklmNOPQR"), b"YWJjZGVmZ2hpamtsbU5PUFFS".to_vec());
    assert_eq!(enc(b"abcdefghijklmNOPQRS"), b"YWJjZGVmZ2hpamtsbU5PUFFSUw==".to_vec());
    assert_eq!(enc(b"abcdefghijklmNOPQRST"), b"YWJjZGVmZ2hpamtsbU5PUFFSU1Q=".to_vec());
    assert_eq!(enc(b"abcdefghijklmNOPQRSTU"), b"YWJjZGVmZ2hpamtsbU5PUFFSU1RV".to_vec());
    assert_eq!(enc(b"abcdefghijklmNOPQRSTUV"), b"YWJjZGVmZ2hpamtsbU5PUFFSU1RVVg==".to_vec());
    assert_eq!(enc(b"abcdefghijklmNOPQRSTUVW"), b"YWJjZGVmZ2hpamtsbU5PUFFSU1RVVlc=".to_vec());
    assert_eq!(enc(b"abcdefghijklmNOPQRSTUVWX"), b"YWJjZGVmZ2hpamtsbU5PUFFSU1RVVldY".to_vec());
    assert_eq!(enc(b"abcdefghijklmNOPQRSTUVWXY"), b"YWJjZGVmZ2hpamtsbU5PUFFSU1RVVldYWQ==".to_vec());
    assert_eq!(enc(b"abcdefghijklmNOPQRSTUVWXYZ"), b"YWJjZGVmZ2hpamtsbU5PUFFSU1RVVldYWVo=".to_vec());
}

#[test]
fn encode_appends_and_encode_len_predicts_the_length() {
    let mut dst = b"x:".to_vec();
    encode(&mut dst, &[0xff, 0x00, 0x7f, 0x80]);
    assert_eq!(dst, b"x:/wB/gA==".to_vec());
    for n in 0..20usize {
        let src = vec![0xa5u8; n];
        assert_eq!(enc(&src).len(), encode_len(n));
    }
    assert_eq!(encode_len(0), 0);
    assert_eq!(encode_len(1), 4);
    assert_eq!(encode_len(3), 4);
    assert_eq!(encode_len(4), 8);
}

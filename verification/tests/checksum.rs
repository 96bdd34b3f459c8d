use tusk::{check_bytes, checksum};

#[test]
fn checksum_test() {
    let sum = checksum(&['a' as u8, 'b' as u8, 'c' as u8, 'd' as u8]);
    assert_eq!(sum, 0xd78b);

    let sum = checksum(b"HelloWorld");
    assert_eq!(sum, 0x6100);

    let sum = checksum(b"Test");
    assert_eq!(sum, 0xdca1);
}

#[test]
fn checksum_check_bytes() {
    let sum = checksum(&['a' as u8, 'b' as u8, 'c' as u8, 'd' as u8]);
    let check = check_bytes(sum);
    assert_eq!(sum, 0xd78b);
    assert_eq!(check, (0x9c, 0xd7));

    let sum = checksum(b"HelloWorld");
    let check = check_bytes(sum);
    assert_eq!(sum, 0x6100);
    assert_eq!(check, (0x9e, 0x61));
}

#[test]
fn checksum_of_nothing() {
    assert_eq!(checksum(&[]), 0);
    assert_eq!(check_bytes(0), (0xff, 0xff));
}

#[test]
fn checksum_single_bytes() {
    assert_eq!(checksum(&[1]), 0x0101);
    assert_eq!(checksum(&[254]), 0xfefe);
    // 255 is zero modulo 255
    assert_eq!(checksum(&[255]), 0x0000);
    assert_eq!(checksum(&[1, 2]), 0x0403);
}

#[test]
fn checksum_depends_on_order() {
    assert_ne!(checksum(&[1, 2, 3]), checksum(&[3, 2, 1]));
}

#[test]
fn check_bytes_cancel_checksum() {
    let buffers: [&[u8]; 6] =
        [b"", b"abcd", b"HelloWorld", b"Test", &[0xff; 300], &[0, 1, 2, 3, 254, 255]];
    for buffer in buffers {
        let (first, second) = check_bytes(checksum(buffer));
        let mut whole = buffer.to_vec();
        whole.push(first);
        whole.push(second);
        assert_eq!(checksum(&whole), 0);
    }
}

#[test]
fn checksum_long_buffer() {
    // 1000 bytes of 0xff: every byte is zero modulo 255
    assert_eq!(checksum(&[0xff; 1000]), 0);
    // 510 ones: 510 = 2 * 255, and 1 + 2 + ... + 510 = 255 * 511
    assert_eq!(checksum(&[1; 510]), 0);
    assert_eq!(checksum(&[1; 511]), 0x0101);
}

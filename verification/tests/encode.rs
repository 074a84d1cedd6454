use tkr_lang::encode::{encodeUint16, encodeUint32, encodeUint8};

#[test]
fn encode_uint8_appends_the_byte() {
    let mut bytes = vec![7u8];
    encodeUint8(0xAB, &mut bytes);
    assert_eq!(bytes, vec![7, 0xAB]);
}

#[test]
fn encode_uint16_is_little_endian() {
    let mut bytes = Vec::new();
    encodeUint16(0x0102, &mut bytes);
    assert_eq!(bytes, vec![0x02, 0x01]);
    encodeUint16(0xFFFE, &mut bytes);
    assert_eq!(bytes, vec![0x02, 0x01, 0xFE, 0xFF]);
}

#[test]
fn encode_uint32_is_little_endian() {
    let mut bytes = vec![9u8];
    encodeUint32(0x01020304, &mut bytes);
    assert_eq!(bytes, vec![9, 0x04, 0x03, 0x02, 0x01]);
    let mut bytes = Vec::new();
    encodeUint32(1, &mut bytes);
    assert_eq!(bytes, vec![1, 0, 0, 0]);
}

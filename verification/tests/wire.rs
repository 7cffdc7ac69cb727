use ads_client::wire::{encode_low_first, read_u16, read_u32, read_u64};

#[test]
fn integers_stand_in_the_order_of_the_machine() {
    let s: [u8; 9] = [9, 1, 2, 3, 4, 5, 6, 7, 8];
    assert_eq!(read_u16(&s, 1), u16::from_ne_bytes([1, 2]));
    assert_eq!(read_u32(&s, 1), u32::from_ne_bytes([1, 2, 3, 4]));
    assert_eq!(read_u64(&s, 1), u64::from_ne_bytes([1, 2, 3, 4, 5, 6, 7, 8]));
    let mut t = [0u8; 8];
    t.copy_from_slice(&0x0807_0605_0403_0201u64.to_ne_bytes());
    assert_eq!(read_u64(&t, 0), 0x0807_0605_0403_0201);
}

#[test]
fn ports_stand_low_byte_first() {
    assert_eq!(encode_low_first(0xBF02), [0x02, 0xBF]);
}

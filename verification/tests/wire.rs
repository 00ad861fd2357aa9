use ypbank::wire::{
    push_i64_be, push_u32_be, push_u64_be, read_i64_be, read_u32_be, read_u64_be,
};

#[test]
fn wire_integers_are_big_endian() {
    let mut w = vec![0xaau8];
    push_u32_be(&mut w, 0x0102_0304);
    push_u64_be(&mut w, 0x1122_3344_5566_7788);
    push_i64_be(&mut w, -2);
    assert_eq!(
        w,
        vec![
            0xaa, 1, 2, 3, 4, 0x11, 0x22, 0x33, 0x44, 0x55, 0x66, 0x77, 0x88, 0xff, 0xff, 0xff,
            0xff, 0xff, 0xff, 0xff, 0xfe
        ]
    );
    assert_eq!(read_u32_be(&w, 1), 0x0102_0304);
    assert_eq!(read_u64_be(&w, 5), 0x1122_3344_5566_7788);
    assert_eq!(read_i64_be(&w, 13), -2);
}

#[test]
fn wire_integers_agree_with_the_standard_library() {
    for v in [0u32, 1, 255, 256, 65535, 65536, 0x8000_0000, u32::MAX] {
        let mut w = Vec::new();
        push_u32_be(&mut w, v);
        assert_eq!(w, v.to_be_bytes());
        assert_eq!(read_u32_be(&w, 0), v);
    }
    for v in [0u64, 1, 0xffff_ffff, 0x1_0000_0000, 0x8000_0000_0000_0000, u64::MAX] {
        let mut w = Vec::new();
        push_u64_be(&mut w, v);
        assert_eq!(w, v.to_be_bytes());
        assert_eq!(read_u64_be(&w, 0), v);
    }
    for v in [0i64, 1, -1, i64::MIN, i64::MAX, -1234567890123] {
        let mut w = Vec::new();
        push_i64_be(&mut w, v);
        assert_eq!(w, v.to_be_bytes());
        assert_eq!(read_i64_be(&w, 0), v);
    }
}

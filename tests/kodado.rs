use smaragdina::kodado::{aldoni_bajtaron, aldoni_le, aldoni_varint, legi_le, legi_varint_el, MalkodEraro};

fn agordoj() -> bincode::config::Configuration {
    bincode::config::standard().with_little_endian().with_variable_int_encoding()
}

fn varint(v: u64) -> Vec<u8> {
    let mut b = Vec::new();
    aldoni_varint(&mut b, v);
    b
}

#[test]
fn varint_forms() {
    assert_eq!(varint(0), vec![0]);
    assert_eq!(varint(250), vec![250]);
    assert_eq!(varint(251), vec![251, 251, 0]);
    assert_eq!(varint(0xFFFF), vec![251, 0xFF, 0xFF]);
    assert_eq!(varint(0x1_0000), vec![252, 0, 0, 1, 0]);
    assert_eq!(varint(0x1_0000_0000), vec![253, 0, 0, 0, 0, 1, 0, 0, 0]);
    assert_eq!(varint(u64::MAX), vec![253, 255, 255, 255, 255, 255, 255, 255, 255]);
}

#[test]
fn varint_matches_bincode() {
    for v in [0u64, 1, 250, 251, 300, 0xFFFF, 0x1_0000, 0xFFFF_FFFF, 0x1_0000_0000, u64::MAX] {
        assert_eq!(varint(v), bincode::encode_to_vec(v, agordoj()).unwrap());
    }
}

#[test]
fn varint_round_trip() {
    for v in [0u64, 250, 251, 0xFFFF, 0x1_0000, 0x1_0000_0000, u64::MAX] {
        let b = varint(v);
        assert_eq!(legi_varint_el(&b, 0, true), Ok((v, b.len())));
    }
    assert_eq!(legi_varint_el(&varint(70_000), 0, false), Ok((70_000, 5)));
    assert_eq!(legi_varint_el(&varint(1 << 40), 0, false), Err(MalkodEraro::NevalidaEntjero));
    assert_eq!(legi_varint_el(&[254, 0, 0], 0, true), Err(MalkodEraro::NevalidaEntjero));
    assert_eq!(legi_varint_el(&[252, 0, 0], 0, true), Err(MalkodEraro::Trancxita));
    assert_eq!(legi_varint_el(&[9, 251, 1, 2], 1, true), Ok((0x0201, 4)));
}

#[test]
fn little_endian_bytes() {
    let mut b = vec![9];
    aldoni_le(&mut b, 0x0102_0304, 8);
    assert_eq!(b, vec![9, 4, 3, 2, 1, 0, 0, 0, 0]);
    assert_eq!(legi_le(&b, 1, 8), 0x0102_0304);
    assert_eq!(legi_le(&b, 1, 2), 0x0304);
}

#[test]
fn byte_string_form() {
    let mut b = Vec::new();
    aldoni_bajtaron(&mut b, &[7, 8]);
    assert_eq!(b, vec![2, 7, 8]);
}

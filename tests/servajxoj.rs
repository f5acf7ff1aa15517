use smaragdina::servajxoj::{cxifri_bajton as cxifri, decxifri_bajton as decxifri};

#[test]
fn encode_empty_pixel() {
    assert_eq!(cxifri([0, 0, 0, 0], 0b0000_0000), [0, 0, 0, 0]);
    assert_eq!(cxifri([0, 0, 0, 0], 0b0000_0001), [0, 0, 0, 1]);
    assert_eq!(cxifri([0, 0, 0, 0], 0b0000_0010), [0, 0, 0, 2]);
    assert_eq!(cxifri([0, 0, 0, 0], 0b0000_0100), [0, 0, 1, 0]);
    assert_eq!(cxifri([0, 0, 0, 0], 0b0000_1000), [0, 0, 2, 0]);
    assert_eq!(cxifri([0, 0, 0, 0], 0b0001_0000), [0, 1, 0, 0]);
    assert_eq!(cxifri([0, 0, 0, 0], 0b0010_0000), [0, 2, 0, 0]);
    assert_eq!(cxifri([0, 0, 0, 0], 0b0100_0000), [1, 0, 0, 0]);
    assert_eq!(cxifri([0, 0, 0, 0], 0b1000_0000), [2, 0, 0, 0]);
    assert_eq!(cxifri([0, 0, 0, 0], 0b1111_1111), [3, 3, 3, 3]);
}

#[test]
fn decode() {
    assert_eq!(decxifri([0, 0, 0, 0]), 0);
    assert_eq!(decxifri([0, 0, 0, 1]), 1);
    assert_eq!(decxifri([0, 0, 0, 2]), 2);
    assert_eq!(decxifri([0, 0, 0, 3]), 3);
    assert_eq!(decxifri([0, 0, 0, 4]), 0);
    assert_eq!(decxifri([0, 0, 1, 0]), 4);
    assert_eq!(decxifri([0, 0, 2, 0]), 8);
    assert_eq!(decxifri([0, 0, 3, 0]), 12);
    assert_eq!(decxifri([0, 0, 4, 0]), 0);
    assert_eq!(decxifri([0, 1, 0, 0]), 16);
    assert_eq!(decxifri([0, 2, 0, 0]), 32);
    assert_eq!(decxifri([0, 3, 0, 0]), 48);
    assert_eq!(decxifri([0, 4, 0, 0]), 0);
    assert_eq!(decxifri([1, 0, 0, 0]), 64);
    assert_eq!(decxifri([2, 0, 0, 0]), 128);
    assert_eq!(decxifri([3, 0, 0, 0]), 192);
    assert_eq!(decxifri([4, 0, 0, 0]), 0);
}

#[test]
fn channel_round_trip_keeps_upper_bits() {
    let kovriloj = [[0u8, 0, 0, 0], [255, 255, 255, 255], [0x5A, 0xA5, 0x3C, 0xC3], [1, 2, 3, 4]];
    for q in kovriloj {
        for b in 0..=255u8 {
            let k = cxifri(q, b);
            assert_eq!(decxifri(k), b);
            for i in 0..4 {
                assert_eq!(k[i] & 0xFC, q[i] & 0xFC);
            }
        }
    }
}

#[test]
fn encode_mixed_pixel() {
    assert_eq!(cxifri([0xFF, 0x80, 0x03, 0x7E], 0b1001_1100), [0xFE, 0x81, 0x03, 0x7C]);
}

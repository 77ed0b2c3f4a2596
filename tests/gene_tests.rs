use cellsim::gene::{decode_gene, encode_gene};

#[test]
fn scenario_encode_decode() {
    let g = encode_gene(5, 3, 1000, false, true);
    assert_eq!(decode_gene(g), (5, 3, 1000, false, true));
}

#[test]
fn round_trip_over_field_samples() {
    let ids = [0, 1, 5, 63, 64, 100, 127];
    let weights = [0u16, 1, 1000, 0x7fff, 0x8000, 0xfffe, 0xffff];
    for &i in ids.iter() {
        for &o in ids.iter() {
            for &w in weights.iter() {
                for &fi in [false, true].iter() {
                    for &fo in [false, true].iter() {
                        let g = encode_gene(i, o, w, fi, fo);
                        assert_eq!(decode_gene(g), (i, o, w, fi, fo));
                    }
                }
            }
        }
    }
}

#[test]
fn layout_is_bit_exact() {
    assert_eq!(encode_gene(1, 0, 0, false, false), 1 << 24);
    assert_eq!(encode_gene(0, 1, 0, false, false), 1 << 16);
    assert_eq!(encode_gene(0, 0, 0, true, false), i32::MIN);
    assert_eq!(encode_gene(0, 0, 0, false, true), 1 << 23);
    assert_eq!(encode_gene(0, 0, 0xabcd, false, false), 0xabcd);
}

#[test]
fn ids_past_seven_bits_are_cut() {
    let g = encode_gene(128 + 9, 256 + 4, 7, false, false);
    assert_eq!(decode_gene(g), (9, 4, 7, false, false));
}

#[test]
fn every_word_decodes() {
    assert_eq!(decode_gene(-1), (127, 127, 0xffff, true, true));
    assert_eq!(decode_gene(0), (0, 0, 0, false, false));
    assert_eq!(decode_gene(i32::MIN), (0, 0, 0, true, false));
}

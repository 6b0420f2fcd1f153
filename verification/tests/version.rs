use spv_grammar::version::{encode_version, pack, parse_version, unpack};

#[test]
fn version_one_four_packs_major_and_minor() {
    assert_eq!(encode_version(&Some("1.4".to_string())), (1 << 16) | (4 << 8));
    assert_eq!(parse_version("1.4"), Some((1, 4)));
    assert_eq!(pack(1, 4), 0x0001_0400);
}

#[test]
fn absent_version_encodes_to_zero() {
    assert_eq!(encode_version(&None), 0);
}

#[test]
fn malformed_version_encodes_to_zero() {
    for s in ["", "1", "1.", ".4", "1.4.0", "a.b", "1,4", "1.x", "4294967296.0", " 1.4", "-1.4"] {
        assert_eq!(encode_version(&Some(s.to_string())), 0, "{:?}", s);
    }
}

#[test]
fn version_with_plus_sign_is_read_as_std_reads_it() {
    assert_eq!(parse_version("+1.+4"), Some((1, 4)));
    assert_eq!(parse_version("+.4"), None);
    assert_eq!(parse_version("01.004"), Some((1, 4)));
}

#[test]
fn version_packs_exact_values() {
    assert_eq!(encode_version(&Some("1.0".to_string())), 65536);
    assert_eq!(encode_version(&Some("1.6".to_string())), 67072);
    assert_eq!(encode_version(&Some("0.0".to_string())), 0);
    assert_eq!(encode_version(&Some("2.255".to_string())), (2 << 16) | (255 << 8));
}

#[test]
fn packed_versions_compare_as_integers() {
    let order = ["1.0", "1.1", "1.4", "1.6", "2.0"];
    for i in 0..order.len() {
        for j in 0..order.len() {
            let a = encode_version(&Some(order[i].to_string()));
            let b = encode_version(&Some(order[j].to_string()));
            assert_eq!(a < b, i < j);
        }
        assert!(encode_version(&Some(order[i].to_string())) > encode_version(&None));
    }
}

#[test]
fn pack_discards_bits_that_do_not_fit() {
    assert_eq!(pack(0x1_0000, 0), 0);
    assert_eq!(pack(0, 0x100_0000), 0);
    assert_eq!(pack(0xffff, 0xff), 0xffff_ff00);
}

#[test]
fn packed_version_comes_apart_again() {
    assert_eq!(unpack(encode_version(&Some("1.4".to_string()))), (1, 4));
    assert_eq!(unpack(pack(65535, 255)), (65535, 255));
    assert_eq!(unpack(0), (0, 0));
    assert_eq!(unpack(0x0001_0400), (1, 4));
}

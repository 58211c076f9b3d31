use rusty_trace::scene_file::{pack, unpack, COMPRESSION_LEVEL};

#[test]
fn pack_then_unpack_gives_the_bytes_back() {
    let cases: Vec<Vec<u8>> = vec![
        Vec::new(),
        vec![0],
        b"scene scene scene scene scene".to_vec(),
        (0..=255u8).cycle().take(10_000).collect(),
    ];
    for data in cases {
        assert_eq!(unpack(&pack(&data)), Some(data));
    }
}

#[test]
fn pack_compresses_at_the_highest_level() {
    let data: Vec<u8> = vec![7; 4096];
    let packed = pack(&data);
    assert_eq!(COMPRESSION_LEVEL, 10);
    assert_eq!(packed, miniz_oxide::deflate::compress_to_vec(&data, 10));
    assert!(packed.len() < data.len());
    assert_ne!(packed, data);
}

#[test]
fn unpack_reads_what_the_decoder_reads() {
    let data = b"abcabcabcabc".to_vec();
    let packed = miniz_oxide::deflate::compress_to_vec(&data, 1);
    assert_eq!(unpack(&packed), Some(data));
}

#[test]
fn unpack_rejects_what_is_no_scene_file() {
    assert_eq!(unpack(&[]), None);
    assert_eq!(unpack(&[0xff, 0xff, 0xff, 0xff]), None);
    let mut cut = pack(b"a scene that is cut short, a scene that is cut short");
    cut.truncate(cut.len() / 2);
    assert_eq!(unpack(&cut), None);
}

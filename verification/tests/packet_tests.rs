use rust_sfml::packet::Packet;

#[test]
fn packet_reading_and_writing() {
    let mut pack1 = Packet::create().expect("Failed to create packet");

    pack1
        .write::<u16>(1999)
        .expect("Failed to write u16 to packet");
    pack1
        .write::<bool>(true)
        .expect("Failed to write bool to packet");

    let mut writer = pack1.writer();
    writer
        .write_data::<u32>(12_345_678)
        .expect("Failed to write using writer");
    writer
        .write_data("oh:".to_string())
        .expect("Failed to write 'oh:'");
    let mut pack1 = writer.into_packet();

    let str_data = b"abc";
    pack1
        .append(str_data)
        .expect("Failed to append data to packet");
    assert_eq!(pack1.get_data_size(), 17);

    let pack2 = pack1.copy().expect("Failed to copy packet");
    pack1.clear();
    assert_eq!(pack1.get_data_size(), 0);
    assert!(pack1.is_at_end());

    let mut pack2 = pack2;
    assert_eq!(
        pack2.read::<u16>().expect("Failed to read u16 from packet"),
        1999
    );
    assert!(pack2
        .read::<bool>()
        .expect("Failed to read bool from packet"));

    let mut buf = vec![0; 16];
    let mut reader = pack2.reader();
    assert_eq!(12_345_678, reader.read_data().unwrap());
    let count = reader
        .read(&mut buf)
        .expect("Failed to read data using reader");
    assert_eq!(&buf[4..count], b"oh:abc");
    let pack2 = reader.into_packet();

    let data = pack2.get_data();
    assert_eq!(data.len(), 17);
    assert_eq!(&data[12..15], b"h:a");
    assert!(pack2.is_at_end());
}

#[test]
fn typed_roundtrip_all_types() {
    let mut p = Packet::create().unwrap();
    p.write::<u8>(200).unwrap();
    p.write::<i8>(-100).unwrap();
    p.write::<u16>(65535).unwrap();
    p.write::<i16>(-32768).unwrap();
    p.write::<u32>(4_000_000_000).unwrap();
    p.write::<i32>(-2_000_000_000).unwrap();
    p.write::<bool>(false).unwrap();
    p.write::<String>("grüße".to_string()).unwrap();

    assert_eq!(p.read::<u8>().unwrap(), 200);
    assert_eq!(p.read::<i8>().unwrap(), -100);
    assert_eq!(p.read::<u16>().unwrap(), 65535);
    assert_eq!(p.read::<i16>().unwrap(), -32768);
    assert_eq!(p.read::<u32>().unwrap(), 4_000_000_000);
    assert_eq!(p.read::<i32>().unwrap(), -2_000_000_000);
    assert!(!p.read::<bool>().unwrap());
    assert_eq!(p.read::<String>().unwrap(), "grüße");
    assert!(p.is_at_end());
}

#[test]
fn wire_layout_is_little_endian_with_length_prefixed_strings() {
    let mut p = Packet::create().unwrap();
    p.write::<u16>(0x0102).unwrap();
    p.write::<u32>(0x0A0B0C0D).unwrap();
    p.write::<String>("hi".to_string()).unwrap();
    assert_eq!(
        p.get_data(),
        vec![0x02, 0x01, 0x0D, 0x0C, 0x0B, 0x0A, 2, 0, 0, 0, b'h', b'i']
    );
}

#[test]
fn append_grows_without_moving_the_cursor() {
    let mut p = Packet::create().unwrap();
    p.write::<u16>(7).unwrap();
    let before = p.get_data_size();
    p.append(&[9, 9, 9]).unwrap();
    assert_eq!(p.get_data_size(), before + 3);
    // the cursor still reads the first field, untouched by the append
    assert_eq!(p.read::<u16>().unwrap(), 7);
}

#[test]
fn clear_resets_buffer_and_cursor() {
    let mut p = Packet::create().unwrap();
    p.write::<u32>(123).unwrap();
    assert!(!p.is_at_end());
    p.clear();
    assert_eq!(p.get_data_size(), 0);
    assert!(p.is_at_end());
}

#[test]
fn copy_is_independent_of_the_original() {
    let mut p = Packet::create().unwrap();
    p.write::<u16>(42).unwrap();
    let clone = p.copy().unwrap();
    p.write::<u16>(43).unwrap();
    p.clear();
    assert_eq!(clone.get_data_size(), 2);
    let mut clone = clone;
    assert_eq!(clone.read::<u16>().unwrap(), 42);
}

#[test]
fn reading_past_the_end_fails_and_leaves_the_packet_alone() {
    let mut p = Packet::create().unwrap();
    p.write::<u8>(1).unwrap();
    assert_eq!(p.read::<u8>().unwrap(), 1);
    assert!(p.read::<u8>().is_err());
    assert!(p.read::<u32>().is_err());
    assert!(p.is_at_end());
}

#[test]
fn string_with_bad_length_prefix_is_rejected() {
    let mut p = Packet::create().unwrap();
    // length prefix of 100, but only three payload bytes follow
    p.write::<u32>(100).unwrap();
    p.append(&[1, 2, 3]).unwrap();
    assert!(p.read::<String>().is_err());
}

#[test]
fn string_with_invalid_utf8_is_rejected() {
    let mut p = Packet::create().unwrap();
    p.write::<u32>(2).unwrap();
    p.append(&[0xff, 0xfe]).unwrap();
    assert!(p.read::<String>().is_err());
}

#[test]
fn bool_reads_leniently_from_any_nonzero_byte() {
    let mut p = Packet::create().unwrap();
    p.append(&[5]).unwrap();
    assert!(p.read::<bool>().unwrap());
}

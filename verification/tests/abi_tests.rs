use pybox::bytes_abi::{encode_record, parse_record, HEADER_SIZE};
use pybox::guest_mem::GuestMem;

#[test]
fn record_encodes_length_prefix() {
    let payload = b"hello".to_vec();
    let image = encode_record(&payload);
    assert_eq!(image.len(), HEADER_SIZE + 5);
    assert_eq!(&image[0..4], &[5, 0, 0, 0]);
    assert_eq!(&image[4..], b"hello");
}

#[test]
fn record_round_trip_exact() {
    let payload = vec![0u8, 1, 2, 255, 254, 7];
    let image = encode_record(&payload);
    let back = parse_record(&image, 0).expect("record must parse at its own start");
    assert_eq!(back, payload);
}

#[test]
fn zero_length_record_round_trip() {
    let payload: Vec<u8> = Vec::new();
    let image = encode_record(&payload);
    assert_eq!(image, vec![0u8, 0, 0, 0]);
    let back = parse_record(&image, 0).expect("empty record must parse");
    assert!(back.is_empty());
}

#[test]
fn record_out_of_bounds_is_rejected() {
    // A header that promises more bytes than the image holds must not parse.
    let truncated = vec![10u8, 0, 0, 0, 1, 2];
    assert!(parse_record(&truncated, 0).is_none());
    // A pointer past the image must not parse.
    let image = encode_record(&b"abc".to_vec());
    assert!(parse_record(&image, 100).is_none());
}

#[test]
fn new_bytes_then_read_bytes_yields_payload() {
    let mut mem = GuestMem::new(4096);
    let payload = b"payload across the boundary".to_vec();
    let ptr = mem.new_bytes(&payload);
    assert_ne!(ptr, 0);
    let back = mem.read_bytes(ptr).expect("record must be readable");
    assert_eq!(back, payload);
}

#[test]
fn zero_length_bytes_round_trip_in_memory() {
    let mut mem = GuestMem::new(4096);
    let ptr = mem.new_bytes(&Vec::new());
    assert_ne!(ptr, 0);
    let back = mem.read_bytes(ptr).expect("empty record must be readable");
    assert!(back.is_empty());
}

#[test]
fn read_bytes_indirect_follows_pointer() {
    let mut mem = GuestMem::new(4096);
    let payload = b"indirect".to_vec();
    let ptr = mem.new_bytes(&payload);
    assert_ne!(ptr, 0);
    // Store the buffer pointer somewhere in memory and follow it.
    let cell = mem.alloc_mem(4);
    assert_ne!(cell, 0);
    mem.write_u32_at(cell, ptr);
    let back = mem.read_bytes_indirect(cell).expect("pointer cell is in bounds");
    assert_eq!(back, payload);
}

#[test]
fn read_bytes_indirect_null_is_empty() {
    let mut mem = GuestMem::new(4096);
    let cell = mem.alloc_mem(4);
    assert_ne!(cell, 0);
    mem.write_u32_at(cell, 0);
    let back = mem.read_bytes_indirect(cell).expect("null pointer yields empty payload");
    assert!(back.is_empty());
}

#[test]
fn alloc_fails_when_exhausted() {
    let mut mem = GuestMem::new(64);
    let first = mem.alloc_mem(40);
    assert_ne!(first, 0);
    let second = mem.alloc_mem(40);
    assert_eq!(second, 0);
}

#[test]
fn alloc_batch_packs_records_back_to_back() {
    let mut mem = GuestMem::new(4096);
    let args = vec![b"env".to_vec(), b"name".to_vec(), Vec::new(), b"42".to_vec()];
    let (base, ptrs) = mem.alloc_batch(&args).expect("batch fits");
    assert_ne!(base, 0);
    assert_eq!(ptrs.len(), 4);
    assert_eq!(ptrs[0], base);
    // Records are contiguous: each next pointer is past the previous record.
    assert_eq!(ptrs[1], ptrs[0] + 4 + 3);
    assert_eq!(ptrs[2], ptrs[1] + 4 + 4);
    assert_eq!(ptrs[3], ptrs[2] + 4 + 0);
    for (ptr, arg) in ptrs.iter().zip(args.iter()) {
        let back = mem.read_bytes(*ptr).expect("each record must be readable");
        assert_eq!(&back, arg);
    }
    mem.free_mem(base);
}

#[test]
fn alloc_batch_empty_is_null() {
    let mut mem = GuestMem::new(4096);
    let (base, ptrs) = mem.alloc_batch(&Vec::new()).expect("empty batch always succeeds");
    assert_eq!(base, 0);
    assert!(ptrs.is_empty());
}

#[test]
fn test_pybox_alloc_and_free() {
    let size = 0x1000;
    let mut mem = GuestMem::new(0x2000);
    let ptr = mem.alloc_mem(size);
    assert_ne!(ptr, 0, "pybox_alloc_mem returned a null pointer");

    let mut first = vec![0xAAu8];
    mem.write_bytes(ptr, &first);
    let mut last = vec![0x55u8];
    mem.write_bytes(ptr + (size as u32) - 1, &last);

    first = mem.read_range(ptr, 1).unwrap();
    last = mem.read_range(ptr + (size as u32) - 1, 1).unwrap();
    assert_eq!(first[0], 0xAA);
    assert_eq!(last[0], 0x55);

    mem.free_mem(ptr);
}

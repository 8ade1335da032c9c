use pybox::guest_mem::GuestMem;
use pybox::snapshot::Snapshot;

#[test]
fn restore_undoes_mutations() {
    let mut mem = GuestMem::new(256);
    let ptr = mem.alloc_mem(4);
    assert_ne!(ptr, 0);
    mem.write_bytes(ptr, &vec![1, 2, 3, 4]);

    let snap = Snapshot::capture(&mem);
    assert_eq!(snap.size(), 256);

    mem.write_bytes(ptr, &vec![9, 9, 9, 9]);
    assert_eq!(mem.read_range(ptr, 4).unwrap(), vec![9, 9, 9, 9]);

    snap.restore(&mut mem);
    assert_eq!(mem.read_range(ptr, 4).unwrap(), vec![1, 2, 3, 4]);
}

#[test]
fn restore_after_many_writes_restores_every_byte() {
    let mut mem = GuestMem::new(64);
    let snap = Snapshot::capture(&mem);
    let base = mem.alloc_mem(16);
    mem.write_bytes(base, &vec![0xAB; 16]);
    snap.restore(&mut mem);
    // Back to the all-zero contents the memory was captured with.
    assert_eq!(mem.read_range(0, 64).unwrap(), vec![0u8; 64]);
}

#[test]
fn update_recaptures_current_state() {
    let mut mem = GuestMem::new(128);
    let ptr = mem.alloc_mem(2);
    let mut snap = Snapshot::capture(&mem);
    mem.write_bytes(ptr, &vec![42, 43]);
    snap.update(&mem);
    mem.write_bytes(ptr, &vec![0, 0]);
    snap.restore(&mut mem);
    assert_eq!(mem.read_range(ptr, 2).unwrap(), vec![42, 43]);
}

#[test]
fn snapshot_scenario_value_survives_overwrite() {
    // The snapshot scenario: a value is stored, the state is captured, the
    // value is clobbered, and the restore brings the original back.
    let mut mem = GuestMem::new(512);
    let n = mem.new_bytes(&b"1".to_vec());
    assert_ne!(n, 0);
    let snap = Snapshot::capture(&mem);

    mem.write_bytes(n + 4, &b"9".to_vec());
    assert_eq!(mem.read_bytes(n).unwrap(), b"9".to_vec());

    snap.restore(&mut mem);
    assert_eq!(mem.read_bytes(n).unwrap(), b"1".to_vec());
}

use pointer_path::{Address, DeepPointer, DerefType, ReadError, ResolveError, SnapshotMemory};

#[test]
fn single_offset_is_pure_addition() {
    let mut mem = SnapshotMemory::new();
    let path = DeepPointer::<4>::new(Address::new(0xabc), DerefType::Bit64, &[0x8]);
    let resolved = path.deref_offsets(&mut mem).unwrap();
    assert_eq!(resolved.value(), 0xac4);
    assert_eq!(mem.read_count(), 0);
}

#[test]
fn single_offset_any_width_never_reads() {
    let mut mem = SnapshotMemory::new();
    let narrow = DeepPointer::<4>::new_32bit(Address::new(0x4000), &[0x30]);
    let wide = DeepPointer::<4>::new_64bit(Address::new(0x4000), &[0x30]);
    assert_eq!(narrow.deref_offsets(&mut mem).unwrap().value(), 0x4030);
    assert_eq!(wide.deref_offsets(&mut mem).unwrap().value(), 0x4030);
    assert_eq!(mem.read_count(), 0);
}

#[test]
fn two_offsets_issue_one_read() {
    let mut mem = SnapshotMemory::new();
    mem.set_wide(0x1010, 0x2000);
    let path = DeepPointer::<4>::new(Address::new(0x1000), DerefType::Bit64, &[0x10, 0x20]);
    let resolved = path.deref_offsets(&mut mem).unwrap();
    assert_eq!(resolved.value(), 0x2020);
    assert_eq!(mem.read_count(), 1);
    assert_eq!(mem.read_address(0), 0x1010);
}

#[test]
fn failed_read_propagates_cause_and_stops() {
    let mut mem = SnapshotMemory::new();
    let path = DeepPointer::<4>::new(Address::new(0x1000), DerefType::Bit64, &[0x10, 0x20]);
    let outcome = path.deref_offsets(&mut mem);
    assert_eq!(outcome, Err(ResolveError::ReadFailed(ReadError::UnmappedMemory)));
    assert_eq!(mem.read_count(), 1);
    assert_eq!(mem.read_address(0), 0x1010);
}

#[test]
fn empty_path_fails_without_reading() {
    let mut mem = SnapshotMemory::new();
    let path = DeepPointer::<4>::new(Address::new(0x1000), DerefType::Bit64, &[]);
    assert_eq!(path.deref_offsets(&mut mem), Err(ResolveError::EmptyPath));
    assert_eq!(mem.read_count(), 0);
}

#[test]
fn null_base_fails_before_any_read() {
    let mut mem = SnapshotMemory::new();
    mem.set_wide(0x10, 0x2000);
    let path = DeepPointer::<4>::new(Address::new(0), DerefType::Bit64, &[0x10, 0x20]);
    assert_eq!(path.deref_offsets(&mut mem), Err(ResolveError::NullBase));
    assert_eq!(mem.read_count(), 0);
}

#[test]
fn null_base_wins_over_empty_path() {
    let mut mem = SnapshotMemory::new();
    let path = DeepPointer::<4>::new(Address::new(0), DerefType::Bit64, &[]);
    assert_eq!(path.deref_offsets(&mut mem), Err(ResolveError::NullBase));
}

#[test]
fn construction_at_capacity_succeeds() {
    let mut mem = SnapshotMemory::new();
    mem.set_wide(0x1010, 0x2000);
    let path = DeepPointer::<2>::new(Address::new(0x1000), DerefType::Bit64, &[0x10, 0x20]);
    assert_eq!(path.deref_offsets(&mut mem).unwrap().value(), 0x2020);
}

#[test]
fn rebase_changes_only_the_base() {
    let mut mem = SnapshotMemory::new();
    mem.set_wide(0x1010, 0x2000);
    mem.set_wide(0x3010, 0x4000);
    let path = DeepPointer::<4>::new(Address::new(0x1000), DerefType::Bit64, &[0x10, 0x20]);
    let rebased = path.with_base_address(Address::new(0x3000));
    assert_eq!(rebased.deref_offsets(&mut mem).unwrap().value(), 0x4020);
    // The original is untouched and still resolves from its own base.
    assert_eq!(path.deref_offsets(&mut mem).unwrap().value(), 0x2020);
}

#[test]
fn deref_offsets_from_overrides_the_base() {
    let mut mem = SnapshotMemory::new();
    mem.set_wide(0x1010, 0x2000);
    mem.set_wide(0x3010, 0x4000);
    let path = DeepPointer::<4>::new(Address::new(0x1000), DerefType::Bit64, &[0x10, 0x20]);
    let resolved = path.deref_offsets_from(&mut mem, Address::new(0x3000)).unwrap();
    assert_eq!(resolved.value(), 0x4020);
}

#[test]
fn three_offsets_issue_two_reads_in_chain_order() {
    let mut mem = SnapshotMemory::new();
    mem.set_wide(0x1008, 0x5000);
    mem.set_wide(0x5004, 0x6000);
    let path = DeepPointer::<4>::new(Address::new(0x1000), DerefType::Bit64, &[0x8, 0x4, 0xc]);
    let resolved = path.deref_offsets(&mut mem).unwrap();
    assert_eq!(resolved.value(), 0x600c);
    assert_eq!(mem.read_count(), 2);
    assert_eq!(mem.read_address(0), 0x1008);
    assert_eq!(mem.read_address(1), 0x5004);
}

#[test]
fn failure_midway_stops_after_the_failing_read() {
    let mut mem = SnapshotMemory::new();
    mem.set_wide(0x1008, 0x5000);
    let path = DeepPointer::<4>::new(Address::new(0x1000), DerefType::Bit64, &[0x8, 0x4, 0xc]);
    let outcome = path.deref_offsets(&mut mem);
    assert_eq!(outcome, Err(ResolveError::ReadFailed(ReadError::UnmappedMemory)));
    assert_eq!(mem.read_count(), 2);
    assert_eq!(mem.read_address(1), 0x5004);
}

#[test]
fn narrow_pointers_are_read_as_four_bytes() {
    let mut mem = SnapshotMemory::new();
    mem.set_narrow(0x504, 0xdead);
    let path = DeepPointer::<4>::new_32bit(Address::new(0x500), &[0x4, 0x10]);
    let resolved = path.deref_offsets(&mut mem).unwrap();
    assert_eq!(resolved.value(), 0xdead + 0x10);
    assert_eq!(mem.read_count(), 1);
}

#[test]
fn narrow_read_ignores_bytes_past_the_fourth() {
    let mut mem = SnapshotMemory::new();
    // A wide value whose upper half must not leak into a narrow read.
    mem.set_wide(0x504, 0xffff_ffff_0000_2000);
    let narrow = DeepPointer::<4>::new_32bit(Address::new(0x500), &[0x4, 0x0]);
    assert_eq!(narrow.deref_offsets(&mut mem).unwrap().value(), 0x2000);
    let wide = DeepPointer::<4>::new_64bit(Address::new(0x500), &[0x4, 0x0]);
    assert_eq!(wide.deref_offsets(&mut mem).unwrap().value(), 0xffff_ffff_0000_2000);
}

#[test]
fn addition_wraps_around_the_address_space() {
    let mut mem = SnapshotMemory::new();
    let path = DeepPointer::<4>::new(Address::new(u64::MAX), DerefType::Bit64, &[0x1]);
    assert_eq!(path.deref_offsets(&mut mem).unwrap().value(), 0);
}

#[test]
fn default_path_is_empty_and_null_based() {
    let mut mem = SnapshotMemory::new();
    let path = DeepPointer::<8>::default();
    assert_eq!(path.deref_offsets(&mut mem), Err(ResolveError::NullBase));
    assert_eq!(mem.read_count(), 0);
}

#[test]
fn deref_reads_a_u32_value_at_the_resolved_address() {
    let mut mem = SnapshotMemory::new();
    mem.set_wide(0x1010, 0x2000);
    mem.set_narrow(0x2020, 77);
    let path = DeepPointer::<4>::new(Address::new(0x1000), DerefType::Bit64, &[0x10, 0x20]);
    let value: u32 = path.deref(&mut mem).unwrap();
    assert_eq!(value, 77);
    // One read per intermediate offset, plus the final value read.
    assert_eq!(mem.read_count(), 2);
    assert_eq!(mem.read_address(1), 0x2020);
}

#[test]
fn deref_reads_a_u64_value_at_the_resolved_address() {
    let mut mem = SnapshotMemory::new();
    mem.set_wide(0x1010, 0x2000);
    mem.set_wide(0x2020, 0x1122_3344_5566_7788);
    let path = DeepPointer::<4>::new(Address::new(0x1000), DerefType::Bit64, &[0x10, 0x20]);
    let value: u64 = path.deref(&mut mem).unwrap();
    assert_eq!(value, 0x1122_3344_5566_7788);
}

#[test]
fn deref_reads_a_u8_value_at_the_resolved_address() {
    let mut mem = SnapshotMemory::new();
    mem.set_byte(0x1008, 0xfe);
    let path = DeepPointer::<4>::new(Address::new(0x1000), DerefType::Bit64, &[0x8]);
    let value: u8 = path.deref(&mut mem).unwrap();
    assert_eq!(value, 0xfe);
    assert_eq!(mem.read_count(), 1);
}

#[test]
fn deref_from_reads_the_value_from_an_overridden_base() {
    let mut mem = SnapshotMemory::new();
    mem.set_wide(0x3010, 0x4000);
    mem.set_narrow(0x4020, 9);
    let path = DeepPointer::<4>::new(Address::new(0x1000), DerefType::Bit64, &[0x10, 0x20]);
    let value: u32 = path.deref_from(&mut mem, Address::new(0x3000)).unwrap();
    assert_eq!(value, 9);
}

#[test]
fn deref_accepts_only_legal_bool_encodings() {
    let mut mem = SnapshotMemory::new();
    let path = DeepPointer::<4>::new(Address::new(0x1000), DerefType::Bit64, &[0x8]);
    mem.set_byte(0x1008, 0);
    assert_eq!(path.deref::<bool, _>(&mut mem), Ok(false));
    mem.set_byte(0x1008, 1);
    assert_eq!(path.deref::<bool, _>(&mut mem), Ok(true));
    mem.set_byte(0x1008, 2);
    assert_eq!(path.deref::<bool, _>(&mut mem), Err(ResolveError::InvalidBitPattern));
}

#[test]
fn deref_fails_when_the_value_itself_is_unmapped() {
    let mut mem = SnapshotMemory::new();
    mem.set_wide(0x1010, 0x2000);
    let path = DeepPointer::<4>::new(Address::new(0x1000), DerefType::Bit64, &[0x10, 0x20]);
    let outcome: Result<u32, ResolveError> = path.deref(&mut mem);
    assert_eq!(outcome, Err(ResolveError::ReadFailed(ReadError::UnmappedMemory)));
    assert_eq!(mem.read_count(), 2);
}

#[test]
fn deref_fails_when_the_value_read_is_cut_short() {
    let mut mem = SnapshotMemory::new();
    // Only two of the four bytes of the value are mapped.
    mem.set_byte(0x1008, 0x01);
    mem.set_byte(0x1009, 0x02);
    let path = DeepPointer::<4>::new(Address::new(0x1000), DerefType::Bit64, &[0x8]);
    let outcome: Result<u32, ResolveError> = path.deref(&mut mem);
    assert_eq!(outcome, Err(ResolveError::ReadFailed(ReadError::UnmappedMemory)));
}

#[test]
fn a_failed_resolve_does_not_poison_the_path() {
    let mut mem = SnapshotMemory::new();
    let path = DeepPointer::<4>::new(Address::new(0x1000), DerefType::Bit64, &[0x10, 0x20]);
    assert!(path.deref_offsets(&mut mem).is_err());
    // The target's state moves on; the same path now resolves.
    mem.set_wide(0x1010, 0x2000);
    assert_eq!(path.deref_offsets(&mut mem).unwrap().value(), 0x2020);
}

#[test]
fn address_null_and_arithmetic() {
    assert!(Address::new(0).is_null());
    assert!(!Address::new(1).is_null());
    assert_eq!(Address::default().value(), 0);
    assert_eq!(Address::from_narrow(0xdead_beef).value(), 0xdead_beef);
    assert_eq!(Address::new(0x10).offset_by(0x8).value(), 0x18);
    assert_eq!(Address::new(u64::MAX).offset_by(2).value(), 1);
}

#[test]
fn snapshot_set_byte_replaces_earlier_bytes() {
    let mut mem = SnapshotMemory::new();
    mem.set_byte(0x1008, 5);
    mem.set_byte(0x1008, 6);
    let path = DeepPointer::<4>::new(Address::new(0x1000), DerefType::Bit64, &[0x8]);
    assert_eq!(path.deref::<u8, _>(&mut mem), Ok(6));
}

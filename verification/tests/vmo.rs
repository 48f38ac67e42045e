use zircon_object::error::ZxError;
use zircon_object::vmo::{PageTable, VMObject, PAGE_SIZE};

fn round_trip(vmo: &mut VMObject) {
    vmo.write(0, &vec![0u8, 1, 2, 3]).unwrap();
    let buf = vmo.read(0, 4).unwrap();
    assert_eq!(buf, vec![0u8, 1, 2, 3]);
}

#[test]
fn vmo_round_trip_paged() {
    let mut vmo = VMObject::new_paged(1, 1);
    round_trip(&mut vmo);
}

#[test]
fn vmo_round_trip_physical() {
    let mut vmo = VMObject::new_physical(2, 0x8000, 1);
    round_trip(&mut vmo);
}

#[test]
fn vmo_round_trip_at_offset() {
    let mut vmo = VMObject::new_paged(1, 2);
    vmo.write(4094, &vec![9u8, 8, 7, 6]).unwrap();
    assert_eq!(vmo.read(4094, 4).unwrap(), vec![9u8, 8, 7, 6]);
    // untouched bytes around the write stay zero
    assert_eq!(vmo.read(4093, 1).unwrap(), vec![0u8]);
    assert_eq!(vmo.read(4098, 1).unwrap(), vec![0u8]);
}

#[test]
fn vmo_commit_idempotent() {
    let mut vmo = VMObject::new_paged(1, 4);
    vmo.commit(PAGE_SIZE, 2 * PAGE_SIZE).unwrap();
    let first: Vec<bool> = (0..4).map(|p| vmo.page_committed(p)).collect();
    assert_eq!(first, vec![false, true, true, false]);
    // committing the same range again leaves the backing state identical
    vmo.commit(PAGE_SIZE, 2 * PAGE_SIZE).unwrap();
    let second: Vec<bool> = (0..4).map(|p| vmo.page_committed(p)).collect();
    assert_eq!(second, first);
}

#[test]
fn vmo_write_commits_touched_pages() {
    let mut vmo = VMObject::new_paged(1, 2);
    assert!(!vmo.page_committed(0));
    vmo.write(10, &vec![1u8, 2, 3]).unwrap();
    assert!(vmo.page_committed(0));
    assert!(!vmo.page_committed(1));
}

#[test]
fn vmo_commit_physical_noop() {
    let mut vmo = VMObject::new_physical(3, 0x8000, 2);
    assert!(vmo.page_committed(0) && vmo.page_committed(1));
    vmo.commit(0, PAGE_SIZE).unwrap();
    assert!(vmo.page_committed(0) && vmo.page_committed(1));
}

#[test]
fn vmo_out_of_range() {
    let mut vmo = VMObject::new_paged(1, 1);
    assert_eq!(vmo.read(0, PAGE_SIZE + 1).err(), Some(ZxError::OUT_OF_RANGE));
    assert_eq!(vmo.read(PAGE_SIZE, 1).err(), Some(ZxError::OUT_OF_RANGE));
    assert_eq!(vmo.write(PAGE_SIZE - 2, &vec![1u8, 2, 3]), Err(ZxError::OUT_OF_RANGE));
    assert_eq!(vmo.commit(PAGE_SIZE - 1, 2).err(), Some(ZxError::OUT_OF_RANGE));
    // the failed write changed nothing
    assert_eq!(vmo.read(PAGE_SIZE - 2, 2).unwrap(), vec![0u8, 0]);
}

#[test]
fn vmo_set_len() {
    let mut vmo = VMObject::new_paged(1, 2);
    vmo.write(0, &vec![5u8; 4]).unwrap();
    // shrink: contents past the new length are gone, pages decommitted
    vmo.set_len(PAGE_SIZE).unwrap();
    assert_eq!(vmo.len(), PAGE_SIZE);
    // grow: fresh pages read as zero and are uncommitted
    vmo.set_len(3 * PAGE_SIZE).unwrap();
    assert_eq!(vmo.len(), 3 * PAGE_SIZE);
    assert_eq!(vmo.read(2 * PAGE_SIZE, 4).unwrap(), vec![0u8; 4]);
    assert!(vmo.page_committed(0));
    assert!(!vmo.page_committed(1));
    assert!(!vmo.page_committed(2));
    // unaligned lengths are refused
    assert_eq!(vmo.set_len(100).err(), Some(ZxError::INVALID_ARGS));
    assert_eq!(vmo.len(), 3 * PAGE_SIZE);
}

#[test]
fn vmo_set_len_physical_not_supported() {
    let mut vmo = VMObject::new_physical(4, 0x8000, 1);
    assert_eq!(vmo.set_len(2 * PAGE_SIZE).err(), Some(ZxError::NOT_SUPPORTED));
    assert_eq!(vmo.len(), PAGE_SIZE);
}

#[test]
fn vmo_map_unmap() {
    let vmo = VMObject::new_paged(1, 2);
    let mut pt = PageTable::new();
    vmo.map_to(&mut pt, 0x1000, 0, 2 * PAGE_SIZE, 7).unwrap();
    vmo.unmap_from(&mut pt, 0x1000, 0, 2 * PAGE_SIZE);
    // the range is gone: unmapping it again reports the bookkeeping bug
    assert_eq!(pt.unmap_cont(0x1000, 2), Err(ZxError::INTERNAL));
}

#[test]
fn vmo_map_errors() {
    let vmo = VMObject::new_paged(1, 1);
    let mut pt = PageTable::new();
    assert_eq!(vmo.map_to(&mut pt, 0x1000, 0, 100, 7), Err(ZxError::INVALID_ARGS));
    assert_eq!(
        vmo.map_to(&mut pt, 0x1000, PAGE_SIZE, PAGE_SIZE, 7),
        Err(ZxError::OUT_OF_RANGE)
    );
}

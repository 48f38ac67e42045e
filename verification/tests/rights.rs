use zircon_object::error::ZxError;
use zircon_object::handle::{Handle, ObjKind};
use zircon_object::rights::{rights_contain, DUPLICATE, EXECUTE, READ, WRITE};

#[test]
fn duplicate_narrows() {
    let h = Handle::new(ObjKind::Vmo, 7, READ | WRITE | DUPLICATE);
    let d = h.duplicate(READ).unwrap();
    assert_eq!(d.rights, READ);
    assert_eq!(d.koid, 7);
    assert_eq!(d.kind, ObjKind::Vmo);
}

#[test]
fn duplicate_equal_rights() {
    let h = Handle::new(ObjKind::Vmo, 7, READ | WRITE);
    let d = h.duplicate(READ | WRITE).unwrap();
    assert_eq!(d, h);
}

#[test]
fn duplicate_cannot_widen() {
    let h = Handle::new(ObjKind::Vmo, 7, READ | WRITE);
    assert_eq!(h.duplicate(READ | EXECUTE).err(), Some(ZxError::INVALID_ARGS));
    // the duplicate of a duplicate can never regain a dropped right
    let d = h.duplicate(READ).unwrap();
    assert_eq!(d.duplicate(WRITE).err(), Some(ZxError::INVALID_ARGS));
}

#[test]
fn rights_gate() {
    assert!(rights_contain(READ | WRITE, READ));
    assert!(rights_contain(READ | WRITE, READ | WRITE));
    assert!(!rights_contain(READ, WRITE));
    assert!(!rights_contain(READ, READ | WRITE));
    assert!(rights_contain(READ, 0));
}

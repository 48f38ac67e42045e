use zircon_object::error::ZxError;
use zircon_object::handle::{Handle, ObjKind};
use zircon_object::object::KoidGen;
use zircon_object::rights::{DEFAULT_PROCESS, MANAGE_PROCESS, READ};
use zircon_object::task::{Job, Process, Syscall, Thread};

fn syscall_with_job_handle(job_rights: u32, kind: ObjKind) -> (Syscall, u32) {
    let mut koids = KoidGen::new();
    let job = Job::create(&mut koids);
    let mut root = Process::create(job.base.koid, b"root".to_vec(), 0, &mut koids);
    let job_hv = root.add_handle(Handle::new(kind, job.base.koid, job_rights));
    (Syscall::new(Thread { proc: root }, koids), job_hv)
}

#[test]
fn process_create() {
    let (mut sys, job_hv) = syscall_with_job_handle(MANAGE_PROCESS, ObjKind::Job);
    let (new_proc, proc_hv, vmar_hv) =
        sys.sys_process_create(job_hv, b"child".to_vec(), 0).unwrap();
    assert_eq!(new_proc.name, b"child".to_vec());
    assert_eq!(new_proc.exit_code, None);
    let ph = sys.thread.proc.get_handle(proc_hv).unwrap();
    assert_eq!(ph.kind, ObjKind::Process);
    assert_eq!(ph.koid, new_proc.base.koid);
    assert_eq!(ph.rights, DEFAULT_PROCESS);
    let vh = sys.thread.proc.get_handle(vmar_hv).unwrap();
    assert_eq!(vh.kind, ObjKind::Vmar);
    assert_eq!(vh.koid, new_proc.vmar.base.koid);
    // the process and its address-space root got distinct fresh identities
    assert_ne!(new_proc.base.koid, new_proc.vmar.base.koid);
}

#[test]
fn process_create_bad_handle() {
    let (mut sys, job_hv) = syscall_with_job_handle(MANAGE_PROCESS, ObjKind::Job);
    assert_eq!(
        sys.sys_process_create(job_hv + 100, b"child".to_vec(), 0).err(),
        Some(ZxError::BAD_HANDLE)
    );
}

#[test]
fn process_create_access_denied() {
    let (mut sys, job_hv) = syscall_with_job_handle(READ, ObjKind::Job);
    assert_eq!(
        sys.sys_process_create(job_hv, b"child".to_vec(), 0).err(),
        Some(ZxError::ACCESS_DENIED)
    );
}

#[test]
fn process_create_wrong_kind() {
    let (mut sys, job_hv) = syscall_with_job_handle(MANAGE_PROCESS, ObjKind::Vmo);
    assert_eq!(
        sys.sys_process_create(job_hv, b"child".to_vec(), 0).err(),
        Some(ZxError::INVALID_ARGS)
    );
}

#[test]
fn process_exit() {
    let (mut sys, _job_hv) = syscall_with_job_handle(MANAGE_PROCESS, ObjKind::Job);
    assert!(!sys.exit);
    assert_eq!(sys.sys_process_exit(7).err(), Some(ZxError::INTERNAL));
    assert!(sys.exit);
    assert_eq!(sys.thread.proc.exit_code, Some(7));
}

#[test]
fn handle_table() {
    let mut koids = KoidGen::new();
    let mut proc = Process::create(0, b"p".to_vec(), 0, &mut koids);
    assert_eq!(proc.get_handle(0).err(), Some(ZxError::BAD_HANDLE));
    let h = Handle::new(ObjKind::Vmo, 42, READ);
    let hv = proc.add_handle(h);
    assert_eq!(proc.get_handle(hv).unwrap(), h);
    assert_eq!(proc.remove_handle(hv).unwrap(), h);
    assert_eq!(proc.get_handle(hv).err(), Some(ZxError::BAD_HANDLE));
    assert_eq!(proc.remove_handle(hv).err(), Some(ZxError::BAD_HANDLE));
}

//! Jobs, processes and the syscall-facing layer.
//!
//! A process owns a handle table (per-process integer to handle, never
//! recycled within the table) and an address-space root. The syscall layer
//! drives the object layer: it resolves handle values through the calling
//! process's table, applies the rights gate of the capability model, and
//! only then touches the named object. No layer below bypasses that gate.
//!
//! The syscall handlers here take their inputs as plain values and return
//! their outputs as plain values; reading argument memory and writing
//! result slots in the caller's address space is the marshalling glue
//! above this layer.

use vstd::prelude::*;
use crate::error::{ZxError, ZxResult};
use crate::handle::{Handle, HandleValue, ObjKind};
use crate::object::{KObjectBase, KoidGen};
use crate::rights::{
    Rights, subset_of, rights_contain, MANAGE_PROCESS, DEFAULT_PROCESS, DEFAULT_VMAR, READ, WRITE,
    EXECUTE,
};

verus! {

/// A job: the container processes are created under.
pub struct Job {
    /// Object identity and signal state.
    pub base: KObjectBase,
}

impl Job {
    /// A fresh job with its own identity.
    pub fn create(koids: &mut KoidGen) -> (j: Job)
        requires
            old(koids).next < u64::MAX,
        ensures
            j.base.koid == old(koids).next,
            j.base.signal == 0u32,
            final(koids).next == old(koids).next + 1,
    {
        Job { base: KObjectBase::new(koids.allocate()) }
    }
}

/// An address-space root, created together with its process.
pub struct Vmar {
    /// Object identity and signal state.
    pub base: KObjectBase,
}

/// A process: handle table, address-space root, and a terminal exit state.
pub struct Process {
    /// Object identity and signal state.
    pub base: KObjectBase,
    /// KOID of the job this process was created under.
    pub job_koid: u64,
    /// Name given at creation.
    pub name: Vec<u8>,
    /// The process's address-space root.
    pub vmar: Vmar,
    /// Handle table: the handle value is the index. Slots are never
    /// recycled, which keeps every value unique within the process.
    pub handles: Vec<Option<Handle>>,
    /// `Some(code)` once the process has exited. The transition is
    /// terminal: no operation ever puts it back to `None`.
    pub exit_code: Option<i64>,
}

impl Process {
    /// What handle value `hv` resolves to in this process's table.
    pub open spec fn lookup(self, hv: int) -> Option<Handle> {
        if 0 <= hv < self.handles@.len() {
            self.handles@[hv]
        } else {
            None
        }
    }

    /// A fresh process under the job named by `job_koid`, with its
    /// address-space root, an empty handle table, and not exited. The
    /// `options` word is accepted for interface compatibility and ignored.
    /// Rights to create are the syscall layer's gate, not this
    /// constructor's: creation itself is total.
    pub fn create(job_koid: u64, name: Vec<u8>, _options: u32, koids: &mut KoidGen) -> (p: Process)
        requires
            old(koids).next + 2 <= u64::MAX,
        ensures
            p.base.koid == old(koids).next,
            p.vmar.base.koid == old(koids).next + 1,
            final(koids).next == old(koids).next + 2,
            p.job_koid == job_koid,
            p.name@ == name@,
            p.handles@ == Seq::<Option<Handle>>::empty(),
            p.exit_code is None,
    {
        let proc_koid = koids.allocate();
        let vmar_koid = koids.allocate();
        Process {
            base: KObjectBase::new(proc_koid),
            job_koid,
            name,
            vmar: Vmar { base: KObjectBase::new(vmar_koid) },
            handles: Vec::new(),
            exit_code: None,
        }
    }

    /// Install a handle and return the value that names it. Values are
    /// indices into the table and are not recycled.
    pub fn add_handle(&mut self, handle: Handle) -> (hv: HandleValue)
        requires
            old(self).handles@.len() < u32::MAX,
        ensures
            hv as int == old(self).handles@.len(),
            final(self).handles@ == old(self).handles@.push(Some(handle)),
            final(self).base == old(self).base,
            final(self).job_koid == old(self).job_koid,
            final(self).name@ == old(self).name@,
            final(self).vmar == old(self).vmar,
            final(self).exit_code == old(self).exit_code,
    {
        let hv = self.handles.len() as u32;
        self.handles.push(Some(handle));
        hv
    }

    /// Resolve a handle value. Fails with `BAD_HANDLE` exactly when the
    /// value does not name a live handle in this table.
    pub fn get_handle(&self, hv: HandleValue) -> (r: ZxResult<Handle>)
        ensures
            self.lookup(hv as int) is None ==> r == Err::<Handle, ZxError>(ZxError::BAD_HANDLE),
            self.lookup(hv as int) matches Some(h) ==> r == Ok::<Handle, ZxError>(h),
    {
        if (hv as usize) < self.handles.len() {
            match self.handles[hv as usize] {
                Some(h) => Ok(h),
                None => Err(ZxError::BAD_HANDLE),
            }
        } else {
            Err(ZxError::BAD_HANDLE)
        }
    }

    /// Remove a handle from the table, closing the caller's capability.
    /// Fails with `BAD_HANDLE` exactly when the value does not resolve.
    pub fn remove_handle(&mut self, hv: HandleValue) -> (r: ZxResult<Handle>)
        ensures
            old(self).lookup(hv as int) is None ==> r == Err::<Handle, ZxError>(
                ZxError::BAD_HANDLE,
            ) && *final(self) == *old(self),
            old(self).lookup(hv as int) matches Some(h) ==> r == Ok::<Handle, ZxError>(h) && final(self).handles@ == old(self).handles@.update(hv as int, None) && final(self).base == old(self).base && final(self).job_koid == old(self).job_koid && final(self).name@ == old(self).name@ && final(self).vmar == old(self).vmar && final(self).exit_code == old(self).exit_code,
    {
        if (hv as usize) < self.handles.len() {
            match self.handles[hv as usize] {
                Some(h) => {
                    self.handles.set(hv as usize, None);
                    Ok(h)
                },
                None => Err(ZxError::BAD_HANDLE),
            }
        } else {
            Err(ZxError::BAD_HANDLE)
        }
    }

    /// The single gate in front of every privileged object operation:
    /// resolve the value (`BAD_HANDLE` if absent), check the object kind
    /// (`INVALID_ARGS` if it names the wrong kind), then check rights
    /// (`ACCESS_DENIED` if any required right is missing).
    pub fn get_handle_with_rights(&self, hv: HandleValue, kind: ObjKind, required: Rights) -> (r:
        ZxResult<Handle>)
        ensures
            self.lookup(hv as int) is None ==> r == Err::<Handle, ZxError>(ZxError::BAD_HANDLE),
            self.lookup(hv as int) matches Some(h) ==> (h.kind != kind ==> r == Err::<
                Handle,
                ZxError,
            >(ZxError::INVALID_ARGS)),
            self.lookup(hv as int) matches Some(h) ==> (h.kind == kind && !subset_of(
                required,
                h.rights,
            ) ==> r == Err::<Handle, ZxError>(ZxError::ACCESS_DENIED)),
            self.lookup(hv as int) matches Some(h) ==> (h.kind == kind && subset_of(
                required,
                h.rights,
            ) ==> r == Ok::<Handle, ZxError>(h)),
    {
        let h = self.get_handle(hv)?;
        if h.kind != kind {
            return Err(ZxError::INVALID_ARGS);
        }
        if !rights_contain(h.rights, required) {
            return Err(ZxError::ACCESS_DENIED);
        }
        Ok(h)
    }

    /// Record the exit of this process. The transition is terminal and
    /// irreversible: the exit state is never cleared, and nothing else of
    /// the process changes.
    pub fn exit(&mut self, code: i64)
        ensures
            final(self).exit_code == Some(code),
            final(self).base == old(self).base,
            final(self).job_koid == old(self).job_koid,
            final(self).name@ == old(self).name@,
            final(self).vmar == old(self).vmar,
            final(self).handles@ == old(self).handles@,
    {
        self.exit_code = Some(code);
    }
}

/// The execution context a syscall runs on behalf of.
pub struct Thread {
    /// The process this thread belongs to.
    pub proc: Process,
}

/// The syscall layer: resolves handles, gates rights, drives objects, and
/// hands plain results back to the marshalling glue above it.
pub struct Syscall {
    /// The calling execution context.
    pub thread: Thread,
    /// Kernel-wide identity allocator.
    pub koids: KoidGen,
    /// Set once the calling context has exited; the driver above must not
    /// run further syscalls on this context.
    pub exit: bool,
}

impl Syscall {
    /// A syscall layer for the given context.
    pub fn new(thread: Thread, koids: KoidGen) -> (s: Syscall)
        ensures
            s.thread == thread,
            s.koids == koids,
            !s.exit,
    {
        Syscall { thread, koids, exit: false }
    }

    /// Create a process under a job the caller holds `MANAGE_PROCESS` on.
    ///
    /// Resolves `job` in the calling process's table (`BAD_HANDLE` if
    /// absent, `INVALID_ARGS` if it is not a job, `ACCESS_DENIED` without
    /// the right), creates the process and its address-space root, and
    /// installs two fresh handles for them — default process rights, and
    /// default address-space-root rights widened by read, write and
    /// execute — in the caller's table. Returns the new process together
    /// with the two handle values for the marshalling glue to write to the
    /// caller's output slots.
    pub fn sys_process_create(&mut self, job: HandleValue, name: Vec<u8>, options: u32) -> (r:
        ZxResult<(Process, HandleValue, HandleValue)>)
        requires
            old(self).koids.next + 2 <= u64::MAX,
            old(self).thread.proc.handles@.len() + 2 < u32::MAX,
        ensures
            old(self).thread.proc.lookup(job as int) is None ==> r == Err::<
                (Process, HandleValue, HandleValue),
                ZxError,
            >(ZxError::BAD_HANDLE) && *final(self) == *old(self),
            old(self).thread.proc.lookup(job as int) matches Some(h) ==> (h.kind
                != ObjKind::Job ==> r == Err::<(Process, HandleValue, HandleValue), ZxError>(
                ZxError::INVALID_ARGS,
            ) && *final(self) == *old(self)),
            old(self).thread.proc.lookup(job as int) matches Some(h) ==> (h.kind == ObjKind::Job
                && !subset_of(MANAGE_PROCESS, h.rights) ==> r == Err::<
                (Process, HandleValue, HandleValue),
                ZxError,
            >(ZxError::ACCESS_DENIED) && *final(self) == *old(self)),
            old(self).thread.proc.lookup(job as int) matches Some(h) ==> (h.kind == ObjKind::Job
                && subset_of(MANAGE_PROCESS, h.rights) ==> (r matches Ok(out) && {
                let (new_proc, proc_hv, vmar_hv) = out;
                &&& new_proc.base.koid == old(self).koids.next
                &&& new_proc.vmar.base.koid == old(self).koids.next + 1
                &&& new_proc.job_koid == h.koid
                &&& new_proc.name@ == name@
                &&& new_proc.handles@ == Seq::<Option<Handle>>::empty()
                &&& new_proc.exit_code is None
                &&& proc_hv as int == old(self).thread.proc.handles@.len()
                &&& vmar_hv as int == old(self).thread.proc.handles@.len() + 1
                &&& final(self).thread.proc.handles@ == old(self).thread.proc.handles@.push(
                    Some(
                        Handle {
                            kind: ObjKind::Process,
                            koid: new_proc.base.koid,
                            rights: DEFAULT_PROCESS,
                        },
                    ),
                ).push(
                    Some(
                        Handle {
                            kind: ObjKind::Vmar,
                            koid: new_proc.vmar.base.koid,
                            rights: DEFAULT_VMAR | READ | WRITE | EXECUTE,
                        },
                    ),
                )
                &&& final(self).koids.next == old(self).koids.next + 2
                &&& final(self).thread.proc.exit_code == old(self).thread.proc.exit_code
                &&& final(self).exit == old(self).exit
            })),
    {
        let h = self.thread.proc.get_handle_with_rights(job, ObjKind::Job, MANAGE_PROCESS)?;
        let new_proc = Process::create(h.koid, name, options, &mut self.koids);
        let proc_hv = self.thread.proc.add_handle(
            Handle::new(ObjKind::Process, new_proc.base.koid, DEFAULT_PROCESS),
        );
        let vmar_hv = self.thread.proc.add_handle(
            Handle::new(ObjKind::Vmar, new_proc.vmar.base.koid, DEFAULT_VMAR | READ | WRITE
                | EXECUTE),
        );
        Ok((new_proc, proc_hv, vmar_hv))
    }

    /// Exit the calling process: record the exit code, flag this context
    /// as exiting, and never report success to the caller — the context is
    /// terminated instead of resumed.
    pub fn sys_process_exit(&mut self, code: i64) -> (r: ZxResult<usize>)
        ensures
            r == Err::<usize, ZxError>(ZxError::INTERNAL),
            final(self).thread.proc.exit_code == Some(code),
            final(self).exit,
            final(self).thread.proc.handles@ == old(self).thread.proc.handles@,
            final(self).thread.proc.base == old(self).thread.proc.base,
            final(self).thread.proc.name@ == old(self).thread.proc.name@,
            final(self).koids == old(self).koids,
    {
        self.thread.proc.exit(code);
        self.exit = true;
        Err(ZxError::INTERNAL)
    }
}

} // verus!

//! System-call gate: syscall numbers, errno encoding, user-pointer
//! validation, and the dispatcher.
//!
//! The hardware side (MSR programming and the entry trampoline) runs outside
//! the library; it hands the dispatcher the syscall number and arguments as
//! plain integers, copies user memory when the dispatcher has validated the
//! range, and performs the effect the dispatcher decides on.

use vstd::prelude::*;

use crate::ipc::{IpcSpace, Message, MsgInfo, MAX_MSG_SIZE, PORT_QUEUE_LEN};
use crate::serial::SerialPort;

verus! {

/// Syscall numbers (Linux-compatible).
pub const SYS_WRITE: u64 = 1;

pub const SYS_SEND: u64 = 20;

pub const SYS_RECV: u64 = 21;

pub const SYS_YIELD: u64 = 24;

pub const SYS_EXIT: u64 = 60;

/// Error returns are encoded as `u64::MAX - (errno - 1)` so that a user
/// library reading the value as `isize` sees `-errno`.
pub const ERRNO_EBADF: u64 = u64::MAX - 8;

pub const ERRNO_EFAULT: u64 = u64::MAX - 13;

pub const ERRNO_EINVAL: u64 = u64::MAX - 21;

pub const ERRNO_EAGAIN: u64 = u64::MAX - 10;

pub const ERRNO_ENOENT: u64 = u64::MAX - 1;

/// End of the canonical lower half: user pointers must stay below 2^47.
pub const USER_SPACE_END: u64 = 0x8000_0000_0000;

/// A user-supplied pointer range is acceptable when it is non-null,
/// non-empty, and lies entirely within `[0, 2^47)`.
pub open spec fn user_range_ok(ptr: u64, len: u64) -> bool {
    &&& ptr != 0
    &&& len > 0
    &&& ptr + len <= USER_SPACE_END
}

/// Validate a userspace pointer range before the kernel touches it.
pub fn is_user_accessible(ptr: u64, len: u64) -> (ok: bool)
    ensures
        ok == user_range_ok(ptr, len),
{
    ptr != 0 && len > 0 && ptr <= USER_SPACE_END && len <= USER_SPACE_END - ptr
}

/// Relies on core::str::from_utf8, which returns Ok exactly when the byte
/// sequence is valid UTF-8.
#[verifier::external_body]
pub(crate) fn utf8_check(bytes: &Vec<u8>) -> (ok: bool)
    ensures
        ok == vstd::utf8::valid_utf8(bytes@),
{
    core::str::from_utf8(bytes.as_slice()).is_ok()
}

/// What the dispatcher asks the surrounding kernel to do next.
pub enum SyscallStep {
    /// The call is complete; return this value in RAX.
    Done(u64),
    /// A `write` to stdout: copy this user range in, then finish with
    /// `sys_write_finish`.
    ReadWrite { ptr: u64, len: u64 },
    /// A `send`: copy this user range in, then finish with
    /// `sys_send_deliver`.
    ReadSend { port: u64, msg_type: u64, ptr: u64, len: u64 },
    /// A `recv` that found a message: copy these bytes out to the user
    /// buffer, then return the value.
    CopyOut { value: u64, ptr: u64, bytes: Vec<u8> },
    /// A `yield`: poke the executor, then return 0.
    YieldTask,
    /// An `exit`: halt; does not return to the user.
    Halt { status: u64 },
}

/// Dispatch one system call.
///
/// `write` accepts only stdout and a valid user range, in that order of
/// checks; `send` bounds the length first, then the range; `recv` pops the
/// message before validating the output buffer, so an unwritable buffer
/// loses the message, exactly as the kernel behaves. Unknown numbers are
/// invalid. Only a `recv` that finds a message changes the IPC namespace.
pub fn syscall_dispatcher(
    nr: u64,
    arg1: u64,
    arg2: u64,
    arg3: u64,
    arg4: u64,
    _arg5: u64,
    ipc: &mut IpcSpace,
) -> (r: SyscallStep)
    requires
        old(ipc).wf(),
    ensures
        final(ipc).wf(),
        nr == SYS_WRITE ==> final(ipc).view_map() == old(ipc).view_map() && (if arg1 != 1 {
            r == SyscallStep::Done(ERRNO_EBADF)
        } else if !user_range_ok(arg2, arg3) {
            r == SyscallStep::Done(ERRNO_EFAULT)
        } else {
            r == (SyscallStep::ReadWrite { ptr: arg2, len: arg3 })
        }),
        nr == SYS_SEND ==> final(ipc).view_map() == old(ipc).view_map() && (if arg4
            > MAX_MSG_SIZE as u64 {
            r == SyscallStep::Done(ERRNO_EINVAL)
        } else if !user_range_ok(arg3, arg4) {
            r == SyscallStep::Done(ERRNO_EFAULT)
        } else {
            r == (SyscallStep::ReadSend { port: arg1, msg_type: arg2, ptr: arg3, len: arg4 })
        }),
        nr == SYS_RECV ==> (if !old(ipc).view_map().contains_key(arg1) {
            r == SyscallStep::Done(ERRNO_EINVAL) && final(ipc).view_map() == old(ipc).view_map()
        } else if old(ipc).view_map()[arg1].len() == 0 {
            r == SyscallStep::Done(ERRNO_EAGAIN) && final(ipc).view_map() == old(ipc).view_map()
        } else {
            final(ipc).view_map() == old(ipc).view_map().insert(
                arg1,
                old(ipc).view_map()[arg1].skip(1),
            ) && ({
                let msg = old(ipc).view_map()[arg1][0];
                if !user_range_ok(arg2, msg.len) {
                    r == SyscallStep::Done(ERRNO_EFAULT)
                } else {
                    match r {
                        SyscallStep::CopyOut { value, ptr, bytes } => value == msg.id && ptr
                            == arg2 && bytes@ == msg.data.take(msg.len as int),
                        _ => false,
                    }
                }
            })
        }),
        nr == SYS_YIELD ==> r == SyscallStep::YieldTask && final(ipc).view_map() == old(
            ipc,
        ).view_map(),
        nr == SYS_EXIT ==> r == (SyscallStep::Halt { status: arg1 }) && final(ipc).view_map()
            == old(ipc).view_map(),
        !(nr == SYS_WRITE || nr == SYS_SEND || nr == SYS_RECV || nr == SYS_YIELD || nr
            == SYS_EXIT) ==> r == SyscallStep::Done(ERRNO_EINVAL) && final(ipc).view_map() == old(
            ipc,
        ).view_map(),
{
    if nr == SYS_WRITE {
        if arg1 != 1 {
            return SyscallStep::Done(ERRNO_EBADF);
        }
        if !is_user_accessible(arg2, arg3) {
            return SyscallStep::Done(ERRNO_EFAULT);
        }
        SyscallStep::ReadWrite { ptr: arg2, len: arg3 }
    } else if nr == SYS_SEND {
        if arg4 > MAX_MSG_SIZE as u64 {
            return SyscallStep::Done(ERRNO_EINVAL);
        }
        if !is_user_accessible(arg3, arg4) {
            return SyscallStep::Done(ERRNO_EFAULT);
        }
        SyscallStep::ReadSend { port: arg1, msg_type: arg2, ptr: arg3, len: arg4 }
    } else if nr == SYS_RECV {
        match ipc.take_message(arg1) {
            None => SyscallStep::Done(ERRNO_EINVAL),
            Some(None) => SyscallStep::Done(ERRNO_EAGAIN),
            Some(Some(msg)) => {
                if !is_user_accessible(arg2, msg.len) {
                    return SyscallStep::Done(ERRNO_EFAULT);
                }
                let take = msg.len as usize;
                let mut out: Vec<u8> = Vec::new();
                let mut k: usize = 0;
                while k < take
                    invariant
                        take <= msg.data@.len(),
                        k <= take,
                        out@ == msg.data@.take(k as int),
                    decreases take - k,
                {
                    out.push(msg.data[k]);
                    assert(out@ =~= msg.data@.take(k + 1));
                    k += 1;
                }
                SyscallStep::CopyOut { value: msg.id, ptr: arg2, bytes: out }
            },
        }
    } else if nr == SYS_YIELD {
        SyscallStep::YieldTask
    } else if nr == SYS_EXIT {
        SyscallStep::Halt { status: arg1 }
    } else {
        SyscallStep::Done(ERRNO_EINVAL)
    }
}

/// Finish a validated `write`: valid UTF-8 is transmitted on the serial
/// port and the byte count returned; anything else transmits nothing and
/// returns the invalid-argument errno.
pub fn sys_write_finish(bytes: &Vec<u8>, serial: &mut SerialPort) -> (r: u64)
    ensures
        final(serial).base == old(serial).base,
        vstd::utf8::valid_utf8(bytes@) ==> r == bytes@.len() && final(serial).transmitted()
            == old(serial).transmitted() + bytes@,
        !vstd::utf8::valid_utf8(bytes@) ==> r == ERRNO_EINVAL && final(serial).transmitted()
            == old(serial).transmitted(),
{
    if !utf8_check(bytes) {
        return ERRNO_EINVAL;
    }
    let n = bytes.len();
    let mut i: usize = 0;
    while i < n
        invariant
            n == bytes@.len(),
            i <= n,
            serial.base == old(serial).base,
            serial.transmitted() == old(serial).transmitted() + bytes@.take(i as int),
        decreases n - i,
    {
        serial.write_byte(bytes[i]);
        assert(serial.transmitted() =~= old(serial).transmitted() + bytes@.take(i + 1));
        i += 1;
    }
    proof {
        assert(serial.transmitted() =~= old(serial).transmitted() + bytes@);
    }
    n as u64
}

/// Finish a validated `send`: build the zero-padded message and deliver it.
/// A missing port is no-entry, a full queue is try-again, otherwise the
/// message is queued and 0 returned.
pub fn sys_send_deliver(port: u64, msg_type: u64, bytes: &Vec<u8>, ipc: &mut IpcSpace) -> (r: u64)
    requires
        old(ipc).wf(),
        bytes@.len() <= MAX_MSG_SIZE,
    ensures
        final(ipc).wf(),
        !old(ipc).view_map().contains_key(port) ==> r == ERRNO_ENOENT && final(ipc).view_map()
            == old(ipc).view_map(),
        old(ipc).view_map().contains_key(port) && old(ipc).view_map()[port].len()
            >= PORT_QUEUE_LEN ==> r == ERRNO_EAGAIN && final(ipc).view_map() == old(
            ipc,
        ).view_map(),
        old(ipc).view_map().contains_key(port) && old(ipc).view_map()[port].len()
            < PORT_QUEUE_LEN ==> r == 0 && final(ipc).view_map() == old(ipc).view_map().insert(
            port,
            old(ipc).view_map()[port].push(
                MsgInfo {
                    sender_id: 0,
                    id: msg_type,
                    len: bytes@.len() as u64,
                    data: bytes@ + Seq::new((MAX_MSG_SIZE - bytes@.len()) as nat, |j: int| 0u8),
                },
            ),
        ),
{
    let msg = Message::from_bytes(0, msg_type, bytes);
    match ipc.deliver(port, msg) {
        None => ERRNO_ENOENT,
        Some(false) => ERRNO_EAGAIN,
        Some(true) => 0,
    }
}


/// The MSR programming that enables SYSCALL/SYSRET: set the
/// system-call-extensions bit in EFER, point LSTAR at the entry trampoline,
/// program STAR with the two selector bases, and mask the interrupt and
/// trap flags in SFMASK so the trampoline starts with interrupts disabled.
pub struct SyscallMsrPlan {
    pub efer_sce: bool,
    pub lstar: u64,
    pub star_sysret_base: u16,
    pub star_syscall_base: u16,
    pub sfmask: u64,
}

/// Compute the MSR writes that arm the syscall gate, refusing a selector
/// layout that would break the SYSRET derivation.
pub fn init_syscalls(selectors: &crate::gdt::Selectors, entry: u64) -> (r: Result<
    SyscallMsrPlan,
    (),
>)
    ensures
        r.is_ok() == crate::gdt::star_ok(*selectors),
        r.is_ok() ==> ({
            let p = r.unwrap();
            &&& p.efer_sce
            &&& p.lstar == entry
            &&& p.star_sysret_base == selectors.user_data - 8
            &&& p.star_syscall_base == selectors.kernel_code
            &&& p.sfmask == 0x300
        }),
{
    match crate::gdt::star_config(selectors) {
        Err(()) => Err(()),
        Ok((sysret_base, syscall_base)) => Ok(
            SyscallMsrPlan {
                efer_sce: true,
                lstar: entry,
                star_sysret_base: sysret_base,
                star_syscall_base: syscall_base,
                sfmask: 0x300,
            },
        ),
    }
}

} // verus!

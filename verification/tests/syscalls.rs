use kermit::interrupts::InteruptStack;
use kermit::syscalls::arch_prctl::{arch_prctl, msr_write, MsrWrite, ARCH_SET_FS, MSR_FS_BASE};
use kermit::syscalls::brk::brk;
use kermit::syscalls::close::close;
use kermit::syscalls::getcwd::getcwd;
use kermit::syscalls::ioctl::{ioctl, Winsize, TIOCGWINSZ};
use kermit::syscalls::mincore::mincore;
use kermit::syscalls::mmap::{mmap, MapFlags, MmapPlan, ProtFlags, MAP_ANONYMOUS, MAP_PRIVATE, PROT_READ, PROT_WRITE};
use kermit::syscalls::mprotect::mprotect;
use kermit::syscalls::open::{open, OpenOutcome};
use kermit::syscalls::read::read;
use kermit::syscalls::writev::{writev, Iovec};
use kermit::syscalls::{complete, decode, efer_with_syscalls, fixed_result, init, Syscall};

fn regs(rax: u64) -> InteruptStack {
    InteruptStack {
        r11: 0, r10: 14, r9: 15, r8: 13, rax, rcx: 0, rdx: 12, rsi: 11, rdi: 10,
        number: 0x80, code: 0, rip: 0, cs: 0, flags: 0, rsp: 0, ds: 0,
    }
}

#[test]
fn decode_reads_number_and_arguments() {
    assert_eq!(decode(&regs(0)), Syscall::Read { fd: 10, buf: 11, count: 12 });
    assert_eq!(decode(&regs(1)), Syscall::Write { fd: 10, buf: 11, count: 12 });
    assert_eq!(decode(&regs(9)), Syscall::Mmap { addr: 10, length: 11, prot: 12, flags: 14, fd: 13, offset: 15 });
    assert_eq!(decode(&regs(13)), Syscall::RtSigaction { sig: 10, act: 11, oact: 12, sigsetsize: 14 });
    assert_eq!(decode(&regs(39)), Syscall::Getpid);
    assert_eq!(decode(&regs(79)), Syscall::Getcwd { buf: 10, size: 11 });
    assert_eq!(decode(&regs(158)), Syscall::ArchPrctl { code: 10, addr: 11 });
    assert_eq!(decode(&regs(231)), Syscall::ExitGroup { code: 10 });
    assert_eq!(decode(&regs(4)), Syscall::Unknown { number: 4 });
    assert_eq!(decode(&regs(1337)), Syscall::Unknown { number: 1337 });
}

#[test]
fn fixed_results() {
    assert_eq!(fixed_result(&Syscall::Getpid), Some(1));
    assert_eq!(fixed_result(&Syscall::SetTidAddress { tidptr: 5 }), Some(20));
    assert_eq!(fixed_result(&Syscall::Getuid), Some(0));
    assert_eq!(fixed_result(&Syscall::Futex { addr: 1, op: 1 }), Some(0));
    assert_eq!(fixed_result(&Syscall::Brk { addr: 0 }), None);
    assert_eq!(fixed_result(&Syscall::Unknown { number: 4 }), None);
}

#[test]
fn complete_sets_rax_only() {
    let mut v = regs(12);
    complete(&mut v, 0x1234);
    assert_eq!(v.rax, 0x1234);
    assert_eq!(v.rdi, 10);
}

#[test]
fn brk_answers() {
    assert_eq!(brk(0), 0x1000_0000);
    assert_eq!(brk(0x1000_8000), 0x1000_8000);
}

#[test]
fn constant_answers() {
    assert_eq!(close(3), 0);
    assert_eq!(mincore(0, 4096, 0), 0);
    assert_eq!(kermit::syscalls::write::write(1, 0x1000, 17), 17);
    assert_eq!(mprotect(0, 4096, ProtFlags { bits: PROT_READ }), 0);
}

#[test]
fn read_clamps_to_the_rest_of_the_file() {
    let mut pos = 100;
    assert_eq!(read(&mut pos, 150, 30), 30);
    assert_eq!(pos, 130);
    assert_eq!(read(&mut pos, 150, 30), 20);
    assert_eq!(pos, 150);
    assert_eq!(read(&mut pos, 150, 30), 0);
    assert_eq!(pos, 150);
}

#[test]
fn prot_and_map_flags() {
    assert_eq!(ProtFlags::from_bits(PROT_READ | PROT_WRITE), Some(ProtFlags { bits: 3 }));
    assert_eq!(ProtFlags::from_bits(8), None);
    assert_eq!(MapFlags::from_bits(MAP_PRIVATE | MAP_ANONYMOUS), Some(MapFlags { bits: 0x22 }));
    assert_eq!(MapFlags::from_bits(0x8), None);
    assert_eq!(MapFlags::from_bits(0x414_4033).map(|f| f.bits), Some(0x414_4033));
}

#[test]
fn mmap_plans() {
    let p = ProtFlags { bits: PROT_READ };
    let f = MapFlags { bits: MAP_PRIVATE };
    assert_eq!(
        mmap(0, 0x2000, p, f, 3, 0x100, 0x1000),
        MmapPlan { addr: 0x6000_0000, length: 0x2000, offset: 0x100, offset_ok: true, copy_len: 0xF00 }
    );
    assert_eq!(
        mmap(0x7000_0000, 0x10, p, f, 3, 0x100, 0x1000),
        MmapPlan { addr: 0x7000_0000, length: 0x10, offset: 0x100, offset_ok: true, copy_len: 0x10 }
    );
    assert_eq!(mmap(0, 0x10, p, f, 3, 0x1000, 0x1000).copy_len, 0);
    assert_eq!(
        mmap(0, 0x10, p, f, 3, 0x1001, 0x1000),
        MmapPlan { addr: 0x6000_0000, length: 0x10, offset: 0x1001, offset_ok: false, copy_len: 0 }
    );
}

#[test]
fn open_refuses_the_terminal() {
    assert_eq!(open("/dev/tty", 0, 0), OpenOutcome { result: 0xFFFF_FFFF_FFFF_FFFF, rewind: false });
    assert_eq!(open("/bin/busybox", 0, 0), OpenOutcome { result: 3, rewind: true });
    assert_eq!(open("/dev/tt", 0, 0), OpenOutcome { result: 3, rewind: true });
}

#[test]
fn writev_sums_lengths() {
    let v = [Iovec { iov_base: 0x1000, iov_len: 5 }, Iovec { iov_base: 0x2000, iov_len: 7 }];
    assert_eq!(writev(1, &v), 12);
    assert_eq!(writev(1, &[]), 0);
}

#[test]
fn ioctl_reports_the_window() {
    let mut w = Winsize { ws_row: 0, ws_col: 0, ws_xpixel: 9, ws_ypixel: 8 };
    assert_eq!(ioctl(1, TIOCGWINSZ, &mut w), 0);
    assert_eq!(w, Winsize { ws_row: 25, ws_col: 80, ws_xpixel: 9, ws_ypixel: 8 });
}

#[test]
fn getcwd_writes_root() {
    let mut buf = [0xffu8; 8];
    assert_eq!(getcwd(0x5000, &mut buf), 0x5000);
    assert_eq!(buf, [b'/', 0, 0xff, 0xff, 0xff, 0xff, 0xff, 0xff]);
}

#[test]
fn arch_prctl_sets_fs_base() {
    assert_eq!(
        arch_prctl(ARCH_SET_FS, 0x0000_7fff_1234_5678),
        (MsrWrite { msr: MSR_FS_BASE, edx: 0x7fff, eax: 0x1234_5678 }, 0)
    );
    let w = msr_write(0x10, 0xFFFF_FFFF_0000_0001);
    assert_eq!((w.edx, w.eax), (0xFFFF_FFFF, 1));
}

#[test]
fn syscall_init_writes() {
    let w = init(0xFFFF_FFFF_8010_2030);
    assert_eq!(w[0], MsrWrite { msr: 0xC000_0082, edx: 0xFFFF_FFFF, eax: 0x8010_2030 });
    assert_eq!(w[1], MsrWrite { msr: 0xC000_0081, edx: 8 | (27 << 16), eax: 0 });
    assert_eq!(w[2], MsrWrite { msr: 0xC000_0084, edx: 0, eax: 0 });
    assert_eq!(efer_with_syscalls(0x500), 0x501);
    assert_eq!(efer_with_syscalls(0x501), 0x501);
}

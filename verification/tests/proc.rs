use kermit::proc::{canonical_addr, proc_yield, Proc, ProcessManager};

#[test]
fn new_proc_takes_two_blocks_from_the_heap() {
    let mut heap: usize = 0x1000;
    let p = Proc::new(&mut heap);
    assert_eq!(p, Proc { stack: 0x2000, kstack: 0x3000, rsp: 0 });
    assert_eq!(heap, 0x3000);
    let mut heap: usize = 0x1001;
    let p = Proc::new(&mut heap);
    assert_eq!(p, Proc { stack: 0x2001, kstack: 0x3002, rsp: 0 });
    assert_eq!(heap, 0x3004);
}

#[test]
fn empty_proc() {
    assert_eq!(Proc::empty(), Proc { stack: 0, kstack: 0, rsp: 0 });
    Proc::empty().schedule();
    proc_yield();
}

#[test]
fn duplicate_moves_the_saved_stack_pointer() {
    let mut heap: usize = 0x1000;
    let p = Proc::new(&mut heap);
    let mut p = p;
    p.rsp = 0x2ff0;
    let q = p.duplicate(&mut heap);
    assert_eq!(q.stack, 0x4000);
    assert_eq!(q.kstack, 0x5000);
    assert_eq!(q.rsp, 0x4ff0);
    assert_eq!(heap, 0x5000);
}

#[test]
fn thread_frame() {
    let mut p = Proc { stack: 0x2000, kstack: 0x3000, rsp: 0 };
    let w = p.push_thread_frame(0xdead);
    assert_eq!(p.rsp, 0x3000 - 24);
    assert_eq!(w, [(0x2ff8, 0xdead), (0x2ff0, 0), (0x2fe8, 0x3000)]);
}

fn proc_at(k: usize) -> Proc {
    Proc { stack: k - 0x1000, kstack: k, rsp: 0 }
}

#[test]
fn manager_starts_empty() {
    let mut m = ProcessManager::new();
    assert_eq!(m.count, 0);
    assert_eq!(m.current, 0);
    assert_eq!(*m.current_proc(), Proc::empty());
}

#[test]
fn add_and_current() {
    let mut m = ProcessManager::new();
    m.add_proc(proc_at(0x10000));
    m.add_proc(proc_at(0x20000));
    assert_eq!(m.count, 2);
    assert_eq!(*m.current_proc(), proc_at(0x10000));
    m.current_proc().rsp = 0x1234;
    assert_eq!(m.processes[0].rsp, 0x1234);
}

#[test]
fn single_process_never_switches() {
    let mut m = ProcessManager::new();
    m.add_proc(proc_at(0x10000));
    assert!(m.tick().is_none());
    assert_eq!(m.current, 0);
}

#[test]
fn tick_goes_round_robin() {
    let mut m = ProcessManager::new();
    m.add_proc(proc_at(0x10000));
    m.add_proc(proc_at(0x20000));
    m.add_proc(proc_at(0x30000));
    let s = m.tick().unwrap();
    assert_eq!((s.to, s.from), (1, 0));
    assert_eq!(s.kernel_stack.as_u64(), 0x20000);
    let s = m.tick().unwrap();
    assert_eq!((s.to, s.from), (2, 1));
    assert_eq!(s.kernel_stack.as_u64(), 0x30000);
    let s = m.tick().unwrap();
    assert_eq!((s.to, s.from), (0, 2));
    assert_eq!(m.current, 0);
    assert_eq!(*m.current_proc(), proc_at(0x10000));
}

#[test]
fn canonical_addresses() {
    assert!(canonical_addr(0));
    assert!(canonical_addr(0x0000_7FFF_FFFF_FFFF));
    assert!(!canonical_addr(0x0000_8000_0000_0000));
    assert!(!canonical_addr(0xFFFF_7FFF_FFFF_FFFF));
    assert!(canonical_addr(0xFFFF_8000_0000_0000));
    assert!(canonical_addr(0xFFFF_FFFF_8000_0000));
}

#[test]
fn kernel_stack_in_the_upper_half() {
    let mut m = ProcessManager::new();
    m.add_proc(proc_at(0x10000));
    m.add_proc(Proc { stack: 0x5000, kstack: 0xFFFF_FFFF_8020_0000, rsp: 0 });
    let s = m.tick().unwrap();
    assert_eq!(s.kernel_stack.as_u64(), 0xFFFF_FFFF_8020_0000);
}

#[test]
fn kstack_for_matches_new() {
    assert_eq!(Proc::kstack_for(0x1001), Some(0x3002));
    let mut heap: usize = 0x1001;
    assert_eq!(Proc::new(&mut heap).kstack, 0x3002);
    assert_eq!(Proc::kstack_for(usize::MAX - 100), None);
    assert_eq!(Proc::kstack_for(usize::MAX - 8200), None);
}

#[test]
fn user_mode_frame_layout() {
    assert_eq!(
        Proc::user_mode_frame(0x40_0000, 0x7000, 27, 35),
        [35, 0x7000, 0x202, 27, 0x40_0000]
    );
}

//! Processes and the round-robin process manager.
use vstd::prelude::*;
use x86_64::addr::{VirtAddr, VirtAddrNotValid};
use crate::mem::malloc;

verus! {

/// `x86_64::addr::VirtAddr`, a canonical virtual address; opaque here.
#[verifier::external_type_specification]
#[verifier::external_body]
pub struct ExVirtAddr(x86_64::addr::VirtAddr);

/// `x86_64::addr::VirtAddrNotValid`, the error of `VirtAddr::try_new`; opaque here.
#[verifier::external_type_specification]
#[verifier::external_body]
pub struct ExVirtAddrNotValid(x86_64::addr::VirtAddrNotValid);

/// The address is canonical: bits 48..64 repeat bit 47.
pub open spec fn canonical(addr: u64) -> bool {
    addr < 0x0000_8000_0000_0000 || addr >= 0xFFFF_8000_0000_0000
}

/// Whether `addr` is canonical.
pub fn canonical_addr(addr: u64) -> (r: bool)
    ensures
        r == canonical(addr),
{
    addr < 0x0000_8000_0000_0000 || addr >= 0xFFFF_8000_0000_0000
}

/// The virtual address that `VirtAddr::try_new` makes of `addr`.
pub uninterp spec fn virt_addr_of(addr: u64) -> VirtAddr;

/// Calls `x86_64::VirtAddr::try_new`. Claimed of it: it returns `Ok` exactly
/// when `addr` is canonical (its source compares `addr` with the sign
/// extension of bit 47), and the address it returns depends on `addr` alone.
#[verifier::external_body]
fn virt_addr_try_new(addr: u64) -> (r: Result<VirtAddr, VirtAddrNotValid>)
    ensures
        r is Ok <==> canonical(addr),
        r is Ok ==> r->Ok_0 == virt_addr_of(addr),
{
    VirtAddr::try_new(addr)
}

/// The caller-saved registers, in the order an interrupt entry pushes them
/// (last pushed first).
#[derive(Clone, Copy, Debug)]
pub struct ScratchRegisters {
    pub r11: usize,
    pub r10: usize,
    pub r9: usize,
    pub r8: usize,
    pub rsi: usize,
    pub rdi: usize,
    pub rdx: usize,
    pub rcx: usize,
    pub rax: usize,
}

/// Size of a process's user stack and of its kernel stack.
pub const STACK_SIZE: usize = 4096;
/// Number of process slots.
pub const MAX_PROCS: usize = 16;
/// The flags a process starts with in user mode: the reserved bit 1 and
/// interrupts enabled.
pub const USER_FLAGS: u64 = 0x202;

/// A process: the tops of its user and kernel stacks and its saved kernel
/// stack pointer.
#[derive(Clone, Copy, Debug, PartialEq, Eq, Structural)]
pub struct Proc {
    pub stack: usize,
    pub kstack: usize,
    pub rsp: usize,
}

/// The heap pointer after one `malloc(size)` from `h`.
pub open spec fn after_malloc(h: int, size: int) -> int {
    (h + size) + (h + size) % 16
}

/// The process that `Proc::new` makes from heap pointer `h`.
pub open spec fn new_proc(h: int) -> Proc {
    let h1 = after_malloc(h, STACK_SIZE as int);
    Proc { stack: (h + STACK_SIZE) as usize, kstack: (h1 + STACK_SIZE) as usize, rsp: 0 }
}

/// Two stacks fit on the heap from `h` on.
pub open spec fn room_for_proc(h: int) -> bool {
    after_malloc(after_malloc(h, STACK_SIZE as int), STACK_SIZE as int) <= usize::MAX
}

impl Proc {
    /// A process with fresh user and kernel stacks from the heap; each stack
    /// pointer starts at the top of its block.
    pub fn new(heap: &mut usize) -> (p: Proc)
        requires
            room_for_proc(*old(heap) as int),
        ensures
            p == new_proc(*old(heap) as int),
            *final(heap) == after_malloc(
                after_malloc(*old(heap) as int, STACK_SIZE as int),
                STACK_SIZE as int,
            ),
    {
        let s = malloc(heap, 4096);
        let k = malloc(heap, 4096);
        Proc { stack: s + 4096, kstack: k + 4096, rsp: 0 }
    }

    /// The kernel stack top that `new` would give from heap pointer `heap`,
    /// or `None` when the two stacks do not fit below the end of the
    /// address space.
    pub fn kstack_for(heap: usize) -> (r: Option<usize>)
        ensures
            r is Some <==> room_for_proc(heap as int),
            r is Some ==> r->Some_0 == new_proc(heap as int).kstack,
    {
        if heap > usize::MAX - 4096 {
            return None;
        }
        let a = heap + 4096;
        if a > usize::MAX - a % 16 {
            return None;
        }
        let a2 = a + a % 16;
        if a2 > usize::MAX - 4096 {
            return None;
        }
        let b = a2 + 4096;
        if b > usize::MAX - b % 16 {
            return None;
        }
        Some(b)
    }

    /// The interrupt return frame that enters ring 3 at `entry` on stack
    /// `stack` with the user code and data selectors, in push order: data
    /// selector, stack, flags (interrupts on), code selector, entry.
    pub fn user_mode_frame(entry: u64, stack: u64, user_code: u16, user_data: u16) -> (f: [u64; 5])
        ensures
            f@ == seq![user_data as u64, stack, USER_FLAGS, user_code as u64, entry],
    {
        let f = [user_data as u64, stack, USER_FLAGS, user_code as u64, entry];
        assert(f@ =~= seq![user_data as u64, stack, USER_FLAGS, user_code as u64, entry]);
        f
    }

    /// The empty slot.
    pub fn empty() -> (p: Proc)
        ensures
            p == (Proc { stack: 0, kstack: 0, rsp: 0 }),
    {
        Proc { stack: 0, kstack: 0, rsp: 0 }
    }

    /// Scheduling hint; does nothing.
    pub fn schedule(&self) {
    }

    /// A copy of this process with stacks of its own: fresh stacks from the
    /// heap and the saved stack pointer moved by as much as the kernel stack
    /// moved. The caller copies the contents of both stacks.
    pub fn duplicate(&self, heap: &mut usize) -> (p: Proc)
        requires
            room_for_proc(*old(heap) as int),
            new_proc(*old(heap) as int).kstack >= self.kstack,
            self.rsp + (new_proc(*old(heap) as int).kstack - self.kstack) <= usize::MAX,
        ensures
            p.stack == new_proc(*old(heap) as int).stack,
            p.kstack == new_proc(*old(heap) as int).kstack,
            p.rsp == self.rsp + (p.kstack - self.kstack),
            *final(heap) == after_malloc(
                after_malloc(*old(heap) as int, STACK_SIZE as int),
                STACK_SIZE as int,
            ),
    {
        let mut made = Proc::new(heap);
        made.rsp = self.rsp;
        made.rsp = made.rsp + (made.kstack - self.kstack);
        made
    }

    /// Prepares the kernel stack of a new thread: three words are pushed
    /// below the top, the entry point, a zero and the top itself, and the
    /// saved stack pointer points at the last. Returns the (address, value)
    /// stores to perform, in order.
    pub fn push_thread_frame(&mut self, entry: u64) -> (w: [(usize, u64); 3])
        requires
            old(self).kstack >= 24,
        ensures
            final(self).rsp == old(self).kstack - 24,
            final(self).stack == old(self).stack,
            final(self).kstack == old(self).kstack,
            w@ == seq![
                ((old(self).kstack - 8) as usize, entry),
                ((old(self).kstack - 16) as usize, 0u64),
                ((old(self).kstack - 24) as usize, old(self).kstack as u64),
            ],
    {
        self.rsp = self.kstack;
        self.rsp = self.rsp - 8;
        let a = self.rsp;
        self.rsp = self.rsp - 8;
        let b = self.rsp;
        self.rsp = self.rsp - 8;
        let c = self.rsp;
        let w = [(a, entry), (b, 0), (c, self.kstack as u64)];
        assert(w@ =~= seq![(a, entry), (b, 0u64), (c, self.kstack as u64)]);
        w
    }
}

/// Yields the processor; does nothing.
pub fn proc_yield() {
}

/// The process table: up to 16 processes, run in turn.
#[derive(Debug)]
pub struct ProcessManager {
    pub processes: [Proc; 16],
    pub count: usize,
    pub current: usize,
}

/// A switch from one process slot to another, and the kernel stack that the
/// task state segment must name while `to` runs.
#[derive(Debug)]
pub struct ContextSwitch {
    pub to: usize,
    pub from: usize,
    pub kernel_stack: VirtAddr,
}

/// The slot that runs after `current` among `count`.
pub open spec fn next_slot(current: int, count: int) -> int {
    (current + 1) % count
}

impl ProcessManager {
    /// The table holds `count` processes and `current` is one of them (or 0
    /// while the table is empty).
    pub open spec fn wf(&self) -> bool {
        &&& self.count <= MAX_PROCS
        &&& self.count == 0 ==> self.current == 0
        &&& self.count > 0 ==> self.current < self.count
    }

    /// An empty table.
    pub fn new() -> (m: ProcessManager)
        ensures
            m.wf(),
            m.count == 0,
            m.current == 0,
            forall|i: int| 0 <= i < 16 ==> #[trigger] m.processes[i] == Proc::empty_spec(),
    {
        ProcessManager { processes: [Proc::empty(); 16], count: 0, current: 0 }
    }

    /// The running process, to read or change in place.
    pub fn current_proc(&mut self) -> (p: &mut Proc)
        requires
            old(self).wf(),
        ensures
            *p == old(self).processes[old(self).current as int],
            final(self).processes@ == old(self).processes@.update(
                old(self).current as int,
                *final(p),
            ),
            final(self).count == old(self).count,
            final(self).current == old(self).current,
    {
        &mut self.processes[self.current]
    }

    /// Stores `p` in the next free slot.
    pub fn add_proc(&mut self, p: Proc)
        requires
            old(self).wf(),
            old(self).count < MAX_PROCS,
        ensures
            final(self).wf(),
            final(self).count == old(self).count + 1,
            final(self).current == old(self).current,
            final(self).processes@ == old(self).processes@.update(old(self).count as int, p),
    {
        self.processes[self.count] = p;
        self.count = self.count + 1;
    }

    /// Moves to the next process in turn. Returns the switch to perform, or
    /// `None` when the next process is the current one.
    pub fn tick(&mut self) -> (r: Option<ContextSwitch>)
        requires
            old(self).wf(),
            old(self).count > 0,
            next_slot(old(self).current as int, old(self).count as int) != old(self).current
                ==> canonical(
                old(self).processes[next_slot(
                    old(self).current as int,
                    old(self).count as int,
                )].kstack as u64,
            ),
        ensures
            final(self).wf(),
            final(self).count == old(self).count,
            final(self).processes@ == old(self).processes@,
            final(self).current == next_slot(old(self).current as int, old(self).count as int),
            match r {
                None => final(self).current == old(self).current,
                Some(s) => {
                    &&& s.to == final(self).current
                    &&& s.from == old(self).current
                    &&& s.to != s.from
                    &&& s.kernel_stack == virt_addr_of(final(self).processes[s.to as int].kstack as u64)
                },
            },
    {
        let from_proc = self.current;
        let to_proc = (self.current + 1) % self.count;
        if from_proc == to_proc {
            return None;
        }
        match virt_addr_try_new(self.processes[to_proc].kstack as u64) {
            Ok(kernel_stack) => {
                self.current = to_proc;
                Some(ContextSwitch { to: to_proc, from: from_proc, kernel_stack })
            },
            Err(_) => {
                // not reached: the kernel stack of the next process is canonical
                None
            },
        }
    }
}

impl Proc {
    pub open spec fn empty_spec() -> Proc {
        Proc { stack: 0, kstack: 0, rsp: 0 }
    }
}

/// The slot that runs after `k` ticks from slot `c`.
pub open spec fn after_ticks(c: int, count: int, k: nat) -> int
    decreases k,
{
    if k == 0 {
        c
    } else {
        next_slot(after_ticks(c, count, (k - 1) as nat), count)
    }
}

/// Round robin: after `k` ticks from slot `c` the running slot is
/// `(c + k) mod count`.
pub proof fn lemma_round_robin(c: int, count: int, k: nat)
    requires
        0 <= c < count,
    ensures
        after_ticks(c, count, k) == (c + k) % count,
    decreases k,
{
    if k == 0 {
        assert(c % count == c) by (nonlinear_arith)
            requires
                0 <= c < count,
        ;
    } else {
        lemma_round_robin(c, count, (k - 1) as nat);
        let p = (c + k - 1) % count;
        assert((p + 1) % count == (c + k) % count) by (nonlinear_arith)
            requires
                p == (c + k - 1) % count,
                count > 0,
        ;
    }
}

/// After `count` ticks every process has had its turn and slot `c` runs again.
pub proof fn lemma_round_robin_cycle(c: int, count: int)
    requires
        0 <= c < count,
    ensures
        after_ticks(c, count, count as nat) == c,
{
    lemma_round_robin(c, count, count as nat);
    assert((c + count) % count == c) by (nonlinear_arith)
        requires
            0 <= c < count,
    ;
}

} // verus!

//! ELF images and the initial user stack that the loader builds for them.
use vstd::prelude::*;
use vstd::string::StringSliceAdditionalSpecFns;

pub mod auxdata;
pub mod header;

use auxdata::AUX_PAIRS;

verus! {

/// Little-endian bytes of a 64-bit word.
pub open spec fn le_bytes(v: u64) -> Seq<u8> {
    Seq::new(8, |j: int| ((v >> ((8 * j) as u64)) & 0xff) as u8)
}

/// Rounds down to a multiple of 16.
pub open spec fn align_down_16(x: int) -> int {
    x - x % 16
}

/// The ELF file header, field by field as it lies in the file.
#[derive(Clone, Copy, Debug)]
pub struct ElfHeader {
    pub ident_magic: [u8; 4],
    /// 1: 32-bit, 2: 64-bit.
    pub ident_class: u8,
    /// 1: little endian, 2: big endian.
    pub ident_data: u8,
    pub ident_version: u8,
    pub ident_osabi: u8,
    pub ident_abiversion: u8,
    pub ident_padding: [u8; 7],
    /// 2: executable.
    pub elf_type: u16,
    /// 0x3e: x86-64.
    pub machine: u16,
    pub version: u32,
    pub entry: u64,
    pub program_header_offset: u64,
    pub section_header_offset: u64,
    pub flags: u32,
    pub header_size: u16,
    pub program_header_size: u16,
    pub program_header_number_of_entries: u16,
    pub section_header_size: u16,
    pub section_header_number_of_entries: u16,
    pub section_header_names_index: u16,
}

/// The initial stack of a new process, built downwards from `top` and never
/// below `bottom`. `memory` holds the bytes of `[bottom, bottom + memory.len())`,
/// the area that the stack may fill.
#[derive(Clone, Debug)]
pub struct ElfStack {
    pub top: usize,
    bottom: usize,
    env_count: usize,
    envs: [usize; 32],
    arg_count: usize,
    args: [usize; 32],
    aux_platform_ptr: usize,
    aux_execfn_ptr: usize,
    aux_random: usize,
    memory: Vec<u8>,
}

/// The environment strings, in the order they are written.
pub open spec fn env_text(i: int) -> Seq<u8> {
    if i == 0 {
        "CHARSET=UTF-8".spec_bytes()
    } else if i == 1 {
        "HOME=/root".spec_bytes()
    } else if i == 2 {
        "LOGNAME=root".spec_bytes()
    } else if i == 3 {
        "PAGER=less".spec_bytes()
    } else if i == 4 {
        "PATH=/bin".spec_bytes()
    } else if i == 5 {
        "PS1=\\h:\\w\\$".spec_bytes()
    } else if i == 6 {
        "PWD=/".spec_bytes()
    } else if i == 7 {
        "SHELL=/bin/ash".spec_bytes()
    } else if i == 8 {
        "TERM=linux".spec_bytes()
    } else {
        "USER=root".spec_bytes()
    }
}

/// The argument strings, in the order they are written.
pub open spec fn arg_text(i: int) -> Seq<u8> {
    if i == 0 {
        "/ld/ld.so.1".spec_bytes()
    } else if i == 1 {
        "/bin/echo".spec_bytes()
    } else {
        "Hello World".spec_bytes()
    }
}

pub const ENV_STRINGS: usize = 10;
pub const ARG_STRINGS: usize = 3;

fn env_str(i: usize) -> (r: &'static str)
    requires
        i < ENV_STRINGS,
    ensures
        r.spec_bytes() == env_text(i as int),
{
    if i == 0 {
        "CHARSET=UTF-8"
    } else if i == 1 {
        "HOME=/root"
    } else if i == 2 {
        "LOGNAME=root"
    } else if i == 3 {
        "PAGER=less"
    } else if i == 4 {
        "PATH=/bin"
    } else if i == 5 {
        "PS1=\\h:\\w\\$"
    } else if i == 6 {
        "PWD=/"
    } else if i == 7 {
        "SHELL=/bin/ash"
    } else if i == 8 {
        "TERM=linux"
    } else {
        "USER=root"
    }
}

fn arg_str(i: usize) -> (r: &'static str)
    requires
        i < ARG_STRINGS,
    ensures
        r.spec_bytes() == arg_text(i as int),
{
    if i == 0 {
        "/ld/ld.so.1"
    } else if i == 1 {
        "/bin/echo"
    } else {
        "Hello World"
    }
}

impl ElfStack {
    /// Current top of the stack.
    pub closed spec fn stack_top(self) -> int {
        self.top as int
    }

    pub closed spec fn low(self) -> int {
        self.bottom as int
    }

    /// The bytes of the stack area, lowest address first.
    pub closed spec fn image(self) -> Seq<u8> {
        self.memory@
    }

    pub closed spec fn env_count_spec(self) -> int {
        self.env_count as int
    }

    pub closed spec fn env_ptr(self, i: int) -> usize {
        self.envs@[i]
    }

    pub closed spec fn arg_count_spec(self) -> int {
        self.arg_count as int
    }

    /// Argument pointer slot `i`: entry `i` of `arg_ptrs`.
    pub open spec fn arg_ptr(self, i: int) -> usize {
        self.arg_ptrs()[i]
    }

    /// All argument pointer slots.
    pub closed spec fn arg_ptrs(self) -> Seq<usize> {
        self.args@
    }

    pub closed spec fn platform_ptr(self) -> usize {
        self.aux_platform_ptr
    }

    pub closed spec fn execfn_ptr(self) -> usize {
        self.aux_execfn_ptr
    }

    pub closed spec fn random_ptr(self) -> usize {
        self.aux_random
    }

    pub closed spec fn wf(self) -> bool {
        &&& self.top <= self.low() + self.image().len() <= usize::MAX
        &&& 0 <= self.env_count_spec() <= 32
        &&& 0 <= self.arg_count_spec() <= 32
    }

    /// The `n` bytes at address `a`.
    pub open spec fn bytes_at(self, a: int, n: int) -> Seq<u8> {
        self.image().subrange(a - self.low(), a - self.low() + n)
    }

    /// The `i`-th word above address `a`.
    pub open spec fn slot(self, a: int, i: int) -> Seq<u8> {
        self.bytes_at(a + 8 * i, 8)
    }

    /// The words `ws` lie at `a`, `a + 8`, ... in little-endian order.
    pub open spec fn holds_words(self, a: int, ws: Seq<u64>) -> bool {
        &&& self.low() <= a
        &&& a + 8 * ws.len() <= self.low() + self.image().len()
        &&& forall|i: int| 0 <= i < ws.len() ==> #[trigger] self.slot(a, i) == le_bytes(ws[i])
    }

    /// The bytes `bs` lie at address `a`.
    pub open spec fn holds_bytes(self, a: int, bs: Seq<u8>) -> bool {
        &&& self.low() <= a
        &&& a + bs.len() <= self.low() + self.image().len()
        &&& self.bytes_at(a, bs.len() as int) == bs
    }

    /// `self` is `old` with bytes changed only in `[lo, hi)` and the same
    /// bottom, area and size.
    pub open spec fn changed_only(self, old: ElfStack, lo: int, hi: int) -> bool {
        &&& self.low() == old.low()
        &&& self.image().len() == old.image().len()
        &&& forall|j: int|
            0 <= j < self.image().len() && !(lo <= j + self.low() < hi) ==> #[trigger] self.image()[j]
                == old.image()[j]
    }

    /// The tables (counts, pointers) are those of `old`.
    pub closed spec fn same_tables(self, old: ElfStack) -> bool {
        &&& self.env_count == old.env_count
        &&& self.arg_count == old.arg_count
        &&& self.envs@ == old.envs@
        &&& self.args@ == old.args@
        &&& self.aux_platform_ptr == old.aux_platform_ptr
        &&& self.aux_execfn_ptr == old.aux_execfn_ptr
        &&& self.aux_random == old.aux_random
    }

    /// A stack whose top is `top` and whose area is the `size` bytes below it,
    /// all zero.
    pub fn new(top: usize, size: usize) -> (s: ElfStack)
        requires
            size <= top,
        ensures
            s.wf(),
            s.stack_top() == top,
            s.low() == top - size,
            s.image() == Seq::new(size as nat, |i: int| 0u8),
            s.env_count_spec() == 0,
            s.arg_count_spec() == 0,
            forall|i: int| 0 <= i < 32 ==> #[trigger] s.env_ptr(i) == 0 && s.arg_ptr(i) == 0,
            s.platform_ptr() == 0,
            s.execfn_ptr() == 0,
            s.random_ptr() == 0,
    {
        let memory: Vec<u8> = vec![0u8; size];
        let s = ElfStack {
            top,
            bottom: top - size,
            env_count: 0,
            envs: [0; 32],
            arg_count: 0,
            args: [0; 32],
            aux_platform_ptr: 0,
            aux_execfn_ptr: 0,
            aux_random: 0,
            memory,
        };
        assert(s.image() =~= Seq::new(size as nat, |i: int| 0u8));
        s
    }

    /// The current top of the stack: where the next push goes below, and
    /// after `write` the initial stack pointer.
    pub fn stack_pointer(&self) -> (r: usize)
        ensures
            r == self.stack_top(),
    {
        self.top
    }

    /// There are 32 argument pointer slots.
    pub proof fn lemma_arg_slots(&self)
        ensures
            self.arg_ptrs().len() == 32,
    {
    }

    /// Lowest address of the stack area.
    pub fn bottom(&self) -> (r: usize)
        ensures
            r == self.low(),
    {
        self.bottom
    }

    /// The bytes of the stack area, lowest address first.
    pub fn memory(&self) -> (r: &[u8])
        ensures
            r@ == self.image(),
    {
        self.memory.as_slice()
    }

    /// Moves the top down by `size` bytes.
    fn shift_top(&mut self, size: usize)
        requires
            old(self).wf(),
            size <= old(self).top - old(self).low(),
        ensures
            final(self).wf(),
            final(self).top == old(self).top - size,
            final(self).image() == old(self).image(),
            final(self).low() == old(self).low(),
            final(self).same_tables(*old(self)),
    {
        self.top = self.top - size;
    }

    /// Pushes one word, little-endian.
    fn write_usize(&mut self, val: usize)
        requires
            old(self).wf(),
            8 <= old(self).top - old(self).low(),
        ensures
            final(self).wf(),
            final(self).top == old(self).top - 8,
            final(self).holds_words(final(self).top as int, seq![val as u64]),
            final(self).changed_only(*old(self), final(self).top as int, old(self).top as int),
            final(self).same_tables(*old(self)),
    {
        self.shift_top(8);
        let off = self.top - self.bottom;
        let v = val as u64;
        let ghost before = self.image();
        let mut i: usize = 0;
        while i < 8
            invariant
                self.wf(),
                off + 8 <= self.image().len(),
                off == self.top - self.low(),
                i <= 8,
                self.image().len() == before.len(),
                forall|j: int| 0 <= j < i ==> #[trigger] self.image()[off + j] == le_bytes(v)[j],
                forall|j: int|
                    0 <= j < self.image().len() && !(off <= j < off + i) ==> #[trigger] self.image()[j]
                        == before[j],
                self.same_tables(*old(self)),
                self.top == old(self).top - 8,
                self.low() == old(self).low(),
            decreases 8 - i,
        {
            let b = ((v >> (8 * (i as u64))) & 0xff) as u8;
            self.memory.set(off + i, b);
            i = i + 1;
        }
        assert(seq![v][0] == v);
        assert forall|j: int| 0 <= j < 8 implies #[trigger] self.slot(self.top as int, 0)[j]
            == le_bytes(v)[j] by {
            assert(self.slot(self.top as int, 0)[j] == self.image()[off + j]);
        }
        assert(self.slot(self.top as int, 0) =~= le_bytes(v));
    }

    /// Pushes the bytes of `s` followed by a NUL and returns the new top,
    /// where the string starts.
    fn write_str(&mut self, s: &str) -> (r: usize)
        requires
            old(self).wf(),
            s.spec_bytes().len() + 1 <= old(self).top - old(self).low(),
        ensures
            final(self).wf(),
            r == final(self).top,
            final(self).top == old(self).top - s.spec_bytes().len() - 1,
            final(self).holds_bytes(r as int, s.spec_bytes().push(0u8)),
            final(self).changed_only(*old(self), final(self).top as int, old(self).top as int),
            final(self).same_tables(*old(self)),
    {
        let bytes = s.as_bytes();
        let len = bytes.len();
        self.shift_top(len + 1);
        let off = self.top - self.bottom;
        let ghost before = self.image();
        let mut i: usize = 0;
        while i < len
            invariant
                self.wf(),
                off + len + 1 <= self.image().len(),
                off == self.top - self.low(),
                i <= len,
                len == bytes@.len(),
                bytes@ == s.spec_bytes(),
                self.image().len() == before.len(),
                forall|j: int| 0 <= j < i ==> #[trigger] self.image()[off + j] == bytes@[j],
                forall|j: int|
                    0 <= j < self.image().len() && !(off <= j < off + i) ==> #[trigger] self.image()[j]
                        == before[j],
                self.same_tables(*old(self)),
                self.top == old(self).top - len - 1,
                self.low() == old(self).low(),
            decreases len - i,
        {
            self.memory.set(off + i, bytes[i]);
            i = i + 1;
        }
        let ghost mid = self.image();
        self.memory.set(off + len, 0);
        assert forall|j: int| 0 <= j < len implies #[trigger] self.image()[off + j] == bytes@[j] by {
            assert(self.image()[off + j] == mid[off + j]);
        }
        assert forall|j: int| 0 <= j < len + 1 implies #[trigger] self.bytes_at(
            self.top as int,
            len + 1,
        )[j] == s.spec_bytes().push(0u8)[j] by {
            assert(self.bytes_at(self.top as int, len + 1)[j] == self.image()[off + j]);
        }
        assert(self.bytes_at(self.top as int, len + 1) =~= s.spec_bytes().push(0u8));
        self.top
    }

    /// Rounds the top down to a multiple of 16. The result may lie below
    /// the bottom; the next push then finds no room.
    fn write_padding(&mut self)
        requires
            old(self).wf(),
        ensures
            final(self).wf(),
            final(self).top == align_down_16(old(self).top as int),
            final(self).image() == old(self).image(),
            final(self).low() == old(self).low(),
            final(self).same_tables(*old(self)),
    {
        let t = self.top;
        assert(t & !0xfusize == t - t % 16) by (bit_vector);
        self.top = self.top & !0xf;
    }
}


/// `x` and then `ws` lie at `a`: the words compose.
pub proof fn lemma_words_concat(s: ElfStack, a: int, xs: Seq<u64>, ws: Seq<u64>)
    requires
        s.holds_words(a, xs),
        s.holds_words(a + 8 * xs.len(), ws),
    ensures
        s.holds_words(a, xs + ws),
{
    assert forall|i: int| 0 <= i < (xs + ws).len() implies #[trigger] s.slot(a, i) == le_bytes(
        (xs + ws)[i],
    ) by {
        if i >= xs.len() {
            let k = i - xs.len();
            assert(s.slot(a + 8 * xs.len(), k) == le_bytes(ws[k]));
            assert(a + 8 * xs.len() + 8 * k == a + 8 * i);
        }
    }
}

/// Words above the changed range stay where they are.
pub proof fn lemma_words_kept(new: ElfStack, old: ElfStack, lo: int, hi: int, a: int, ws: Seq<u64>)
    requires
        old.holds_words(a, ws),
        new.changed_only(old, lo, hi),
        hi <= a,
    ensures
        new.holds_words(a, ws),
{
    assert forall|i: int| 0 <= i < ws.len() implies #[trigger] new.slot(a, i) == le_bytes(ws[i]) by {
        assert(old.slot(a, i) == le_bytes(ws[i]));
        assert(new.slot(a, i) =~= old.slot(a, i)) by {
            assert forall|j: int| 0 <= j < 8 implies new.slot(a, i)[j] == old.slot(a, i)[j] by {
                assert(new.image()[a + 8 * i + j - new.low()] == old.image()[a + 8 * i + j
                    - old.low()]);
            }
        }
    }
}

/// Bytes outside the changed range stay where they are.
pub proof fn lemma_bytes_kept(new: ElfStack, old: ElfStack, lo: int, hi: int, a: int, bs: Seq<u8>)
    requires
        old.holds_bytes(a, bs),
        new.changed_only(old, lo, hi),
        hi <= a || a + bs.len() <= lo,
    ensures
        new.holds_bytes(a, bs),
{
    assert(new.bytes_at(a, bs.len() as int) =~= old.bytes_at(a, bs.len() as int)) by {
        assert forall|j: int| 0 <= j < bs.len() implies new.bytes_at(a, bs.len() as int)[j]
            == old.bytes_at(a, bs.len() as int)[j] by {
            assert(new.image()[a + j - new.low()] == old.image()[a + j - old.low()]);
        }
    }
}

/// Changes confined to `[lo, mid)` and then to `[mid, hi)` are confined to `[lo, hi)`.
pub proof fn lemma_changed_trans(s0: ElfStack, s1: ElfStack, s2: ElfStack, lo: int, mid: int, hi: int)
    requires
        s1.changed_only(s0, mid, hi),
        s2.changed_only(s1, lo, mid),
        lo <= mid <= hi,
    ensures
        s2.changed_only(s0, lo, hi),
{
    assert forall|j: int|
        0 <= j < s2.image().len() && !(lo <= j + s2.low() < hi) implies #[trigger] s2.image()[j]
        == s0.image()[j] by {
        assert(s2.image()[j] == s1.image()[j]);
    }
}


/// Bytes that the first `n` environment strings take, each with its NUL.
pub open spec fn env_space(n: int) -> int
    decreases n,
{
    if n <= 0 {
        0
    } else {
        env_space(n - 1) + env_text(n - 1).len() + 1
    }
}

/// Bytes that the first `n` argument strings take, each with its NUL.
pub open spec fn arg_space(n: int) -> int
    decreases n,
{
    if n <= 0 {
        0
    } else {
        arg_space(n - 1) + arg_text(n - 1).len() + 1
    }
}

proof fn lemma_env_space_mono(i: int, j: int)
    requires
        0 <= i <= j,
    ensures
        env_space(i) + (j - i) <= env_space(j),
    decreases j - i,
{
    if i < j {
        lemma_env_space_mono(i, j - 1);
    }
}

proof fn lemma_arg_space_mono(i: int, j: int)
    requires
        0 <= i <= j,
    ensures
        arg_space(i) + (j - i) <= arg_space(j),
    decreases j - i,
{
    if i < j {
        lemma_arg_space_mono(i, j - 1);
    }
}

/// Words of the environment table: the terminating zero, then `n` copies of
/// the first environment pointer.
pub open spec fn env_layout(first: usize, n: int) -> Seq<u64> {
    seq![0u64] + Seq::new(n as nat, |k: int| first as u64)
}

/// Words of the argument table: the count, the `n` argument pointers, then a
/// terminating zero.
pub open spec fn arg_layout(args: Seq<usize>, n: int) -> Seq<u64> {
    seq![n as u64] + Seq::new(n as nat, |k: int| args[k] as u64) + seq![0u64]
}

impl ElfStack {
    /// Pushes the environment strings and records where each starts.
    fn write_env_strings(&mut self)
        requires
            old(self).wf(),
            old(self).env_count_spec() + 10 <= 32,
            env_space(10) <= old(self).stack_top() - old(self).low(),
        ensures
            final(self).wf(),
            final(self).stack_top() == old(self).stack_top() - env_space(10),
            final(self).env_count_spec() == old(self).env_count_spec() + 10,
            forall|i: int|
                0 <= i < 10 ==> #[trigger] final(self).env_ptr(old(self).env_count_spec() + i)
                    == old(self).stack_top() - env_space(i + 1),
            forall|i: int|
                0 <= i < 10 ==> final(self).holds_bytes(
                    #[trigger] final(self).env_ptr(old(self).env_count_spec() + i) as int,
                    env_text(i).push(0u8),
                ),
            forall|i: int|
                0 <= i < 32 && !(old(self).env_count_spec() <= i < old(self).env_count_spec() + 10)
                    ==> #[trigger] final(self).env_ptr(i) == old(self).env_ptr(i),
            final(self).arg_count_spec() == old(self).arg_count_spec(),
            final(self).args@ == old(self).args@,
            final(self).platform_ptr() == old(self).platform_ptr(),
            final(self).execfn_ptr() == old(self).execfn_ptr(),
            final(self).random_ptr() == old(self).random_ptr(),
            final(self).changed_only(*old(self), final(self).stack_top(), old(self).stack_top()),
    {
        let ghost s0 = *self;
        let c = self.env_count;
        proof {
            lemma_env_space_mono(0, 10);
        }
        let mut i: usize = 0;
        while i < ENV_STRINGS
            invariant
                self.wf(),
                s0.wf(),
                i <= 10,
                c == s0.env_count,
                c + 10 <= 32,
                env_space(10) <= s0.top - s0.low(),
                self.top == s0.top - env_space(i as int),
                self.env_count == c + i,
                forall|j: int| 0 <= j < i ==> #[trigger] self.envs@[c + j] == s0.top - env_space(j + 1),
                forall|j: int|
                    0 <= j < i ==> self.holds_bytes(
                        #[trigger] self.envs@[c + j] as int,
                        env_text(j).push(0u8),
                    ),
                forall|j: int|
                    0 <= j < 32 && !(c <= j < c + i) ==> #[trigger] self.envs@[j] == s0.envs@[j],
                self.arg_count == s0.arg_count,
                self.args@ == s0.args@,
                self.aux_platform_ptr == s0.aux_platform_ptr,
                self.aux_execfn_ptr == s0.aux_execfn_ptr,
                self.aux_random == s0.aux_random,
                self.changed_only(s0, self.top as int, s0.top as int),
            decreases 10 - i,
        {
            let ghost before = *self;
            let text = env_str(i);
            proof {
                lemma_env_space_mono(i as int + 1, 10);
                lemma_env_space_mono(0, i as int);
            }
            let p = self.write_str(text);
            let ghost mid = *self;
            self.envs[self.env_count] = p;
            self.env_count = self.env_count + 1;
            proof {
                assert forall|j: int| 0 <= j < i implies self.holds_bytes(
                    #[trigger] self.envs@[c + j] as int,
                    env_text(j).push(0u8),
                ) by {
                    lemma_env_space_mono(j + 1, i as int);
                    assert(before.holds_bytes(before.envs@[c + j] as int, env_text(j).push(0u8)));
                    lemma_bytes_kept(mid, before, mid.top as int, before.top as int, before.envs@[c + j] as int, env_text(j).push(0u8));
                }
                lemma_changed_trans(s0, before, *self, self.top as int, before.top as int, s0.top as int);
            }
            i = i + 1;
        }
    }

    /// Pushes the argument strings and records where each starts.
    fn write_arg_strings(&mut self)
        requires
            old(self).wf(),
            old(self).arg_count_spec() + 3 <= 32,
            arg_space(3) <= old(self).stack_top() - old(self).low(),
        ensures
            final(self).wf(),
            final(self).stack_top() == old(self).stack_top() - arg_space(3),
            final(self).arg_count_spec() == old(self).arg_count_spec() + 3,
            forall|i: int|
                0 <= i < 3 ==> #[trigger] final(self).arg_ptr(old(self).arg_count_spec() + i)
                    == old(self).stack_top() - arg_space(i + 1),
            forall|i: int|
                0 <= i < 3 ==> final(self).holds_bytes(
                    #[trigger] final(self).arg_ptr(old(self).arg_count_spec() + i) as int,
                    arg_text(i).push(0u8),
                ),
            forall|i: int|
                0 <= i < 32 && !(old(self).arg_count_spec() <= i < old(self).arg_count_spec() + 3)
                    ==> #[trigger] final(self).arg_ptr(i) == old(self).arg_ptr(i),
            final(self).env_count_spec() == old(self).env_count_spec(),
            final(self).envs@ == old(self).envs@,
            final(self).platform_ptr() == old(self).platform_ptr(),
            final(self).execfn_ptr() == old(self).execfn_ptr(),
            final(self).random_ptr() == old(self).random_ptr(),
            final(self).changed_only(*old(self), final(self).stack_top(), old(self).stack_top()),
    {
        let ghost s0 = *self;
        let c = self.arg_count;
        proof {
            lemma_arg_space_mono(0, 3);
        }
        let mut i: usize = 0;
        while i < ARG_STRINGS
            invariant
                self.wf(),
                s0.wf(),
                i <= 3,
                c == s0.arg_count,
                c + 3 <= 32,
                arg_space(3) <= s0.top - s0.low(),
                self.top == s0.top - arg_space(i as int),
                self.arg_count == c + i,
                forall|j: int| 0 <= j < i ==> #[trigger] self.args@[c + j] == s0.top - arg_space(j + 1),
                forall|j: int|
                    0 <= j < i ==> self.holds_bytes(
                        #[trigger] self.args@[c + j] as int,
                        arg_text(j).push(0u8),
                    ),
                forall|j: int|
                    0 <= j < 32 && !(c <= j < c + i) ==> #[trigger] self.args@[j] == s0.args@[j],
                self.env_count == s0.env_count,
                self.envs@ == s0.envs@,
                self.aux_platform_ptr == s0.aux_platform_ptr,
                self.aux_execfn_ptr == s0.aux_execfn_ptr,
                self.aux_random == s0.aux_random,
                self.changed_only(s0, self.top as int, s0.top as int),
            decreases 3 - i,
        {
            let ghost before = *self;
            let text = arg_str(i);
            proof {
                lemma_arg_space_mono(i as int + 1, 3);
                lemma_arg_space_mono(0, i as int);
            }
            let p = self.write_str(text);
            let ghost mid = *self;
            self.args[self.arg_count] = p;
            self.arg_count = self.arg_count + 1;
            proof {
                assert forall|j: int| 0 <= j < i implies self.holds_bytes(
                    #[trigger] self.args@[c + j] as int,
                    arg_text(j).push(0u8),
                ) by {
                    lemma_arg_space_mono(j + 1, i as int);
                    assert(before.holds_bytes(before.args@[c + j] as int, arg_text(j).push(0u8)));
                    lemma_bytes_kept(mid, before, mid.top as int, before.top as int, before.args@[c + j] as int, arg_text(j).push(0u8));
                }
                lemma_changed_trans(s0, before, *self, self.top as int, before.top as int, s0.top as int);
            }
            i = i + 1;
        }
    }
}


impl ElfStack {
    /// Pushes the environment table. Every slot holds the first environment
    /// pointer, and the terminating zero ends up lowest.
    fn write_env_table(&mut self)
        requires
            old(self).wf(),
            8 * (old(self).env_count_spec() + 1) <= old(self).stack_top() - old(self).low(),
        ensures
            final(self).wf(),
            final(self).stack_top() == old(self).stack_top() - 8 * (old(self).env_count_spec() + 1),
            final(self).holds_words(
                final(self).stack_top(),
                env_layout(old(self).env_ptr(0), old(self).env_count_spec()),
            ),
            final(self).changed_only(*old(self), final(self).stack_top(), old(self).stack_top()),
            final(self).same_tables(*old(self)),
    {
        let ghost s0 = *self;
        let n = self.env_count;
        let mut i: usize = 0;
        while i < n
            invariant
                self.wf(),
                s0.wf(),
                n == s0.env_count,
                i <= n,
                8 * (n + 1) <= s0.top - s0.low(),
                self.top == s0.top - 8 * i,
                self.holds_words(self.top as int, Seq::new(i as nat, |k: int| s0.envs@[0] as u64)),
                self.changed_only(s0, self.top as int, s0.top as int),
                self.same_tables(s0),
            decreases n - i,
        {
            let ghost before = *self;
            let tmp = self.envs[0];
            self.write_usize(tmp);
            proof {
                let prev = Seq::new(i as nat, |k: int| s0.envs@[0] as u64);
                lemma_words_kept(*self, before, self.top as int, before.top as int, before.top as int, prev);
                lemma_words_concat(*self, self.top as int, seq![tmp as u64], prev);
                assert(seq![tmp as u64] + prev =~= Seq::new((i + 1) as nat, |k: int| s0.envs@[0] as u64));
                lemma_changed_trans(s0, before, *self, self.top as int, before.top as int, s0.top as int);
            }
            i = i + 1;
        }
        let ghost before = *self;
        self.write_usize(0);
        proof {
            let prev = Seq::new(n as nat, |k: int| s0.envs@[0] as u64);
            lemma_words_kept(*self, before, self.top as int, before.top as int, before.top as int, prev);
            lemma_words_concat(*self, self.top as int, seq![0u64], prev);
            lemma_changed_trans(s0, before, *self, self.top as int, before.top as int, s0.top as int);
        }
    }

    /// Pushes the argument table: a zero, the argument pointers from last to
    /// first, then the count, which ends up lowest.
    fn write_arg_table(&mut self)
        requires
            old(self).wf(),
            8 * (old(self).arg_count_spec() + 2) <= old(self).stack_top() - old(self).low(),
        ensures
            final(self).wf(),
            final(self).stack_top() == old(self).stack_top() - 8 * (old(self).arg_count_spec() + 2),
            final(self).holds_words(
                final(self).stack_top(),
                arg_layout(old(self).args@, old(self).arg_count_spec()),
            ),
            final(self).changed_only(*old(self), final(self).stack_top(), old(self).stack_top()),
            final(self).same_tables(*old(self)),
    {
        let ghost s0 = *self;
        let n = self.arg_count;
        self.write_usize(0);
        let mut i: usize = n;
        while i > 0
            invariant
                self.wf(),
                s0.wf(),
                n == s0.arg_count,
                n <= 32,
                i <= n,
                8 * (n + 2) <= s0.top - s0.low(),
                self.top == s0.top - 8 * (n - i + 1),
                self.holds_words(
                    self.top as int,
                    Seq::new((n - i) as nat, |k: int| s0.args@[i + k] as u64) + seq![0u64],
                ),
                self.changed_only(s0, self.top as int, s0.top as int),
                self.same_tables(s0),
            decreases i,
        {
            let ghost before = *self;
            let ghost prev = Seq::new((n - i) as nat, |k: int| s0.args@[i + k] as u64) + seq![0u64];
            i = i - 1;
            let tmp = self.args[i];
            self.write_usize(tmp);
            proof {
                lemma_words_kept(*self, before, self.top as int, before.top as int, before.top as int, prev);
                lemma_words_concat(*self, self.top as int, seq![tmp as u64], prev);
                assert(seq![tmp as u64] + prev =~= Seq::new((n - i) as nat, |k: int| s0.args@[i + k] as u64) + seq![0u64]);
                lemma_changed_trans(s0, before, *self, self.top as int, before.top as int, s0.top as int);
            }
        }
        let ghost before = *self;
        let ghost prev = Seq::new(n as nat, |k: int| s0.args@[k] as u64) + seq![0u64];
        assert(Seq::new((n - 0) as nat, |k: int| s0.args@[0 + k] as u64) =~= Seq::new(n as nat, |k: int| s0.args@[k] as u64));
        self.write_usize(n);
        proof {
            lemma_words_kept(*self, before, self.top as int, before.top as int, before.top as int, prev);
            lemma_words_concat(*self, self.top as int, seq![n as u64], prev);
            assert(seq![n as u64] + prev =~= arg_layout(s0.args@, n as int));
            lemma_changed_trans(s0, before, *self, self.top as int, before.top as int, s0.top as int);
        }
    }
}


/// Bytes that all strings of the initial stack take, the random block included.
pub open spec fn strings_space() -> int {
    auxdata::aux_strings_space() + env_space(10) + arg_space(3)
}

/// Words of the three tables, for the given numbers of environment and
/// argument pointers.
pub open spec fn table_words(env_count: int, arg_count: int) -> int {
    2 * AUX_PAIRS + (env_count + 1) + (arg_count + 2)
}

/// Where the tables start: below the strings, rounded down to 16.
pub open spec fn tables_base(top: int) -> int {
    align_down_16(top - strings_space())
}

/// The initial stack, strings and tables, fits between `top` and `low`.
pub open spec fn initial_stack_fits(top: int, low: int, env_count: int, arg_count: int) -> bool {
    &&& env_count + 10 <= 32
    &&& arg_count + 3 <= 32
    &&& low + 8 * table_words(env_count + 10, arg_count + 3) <= tables_base(top)
}

fn str_cost(s: &str) -> (r: u128)
    ensures
        r == s.spec_bytes().len(),
        r <= usize::MAX,
{
    s.as_bytes().len() as u128
}

impl ElfStack {
    /// The full initial stack fits in the area left below the top.
    pub fn fits_initial_stack(&self) -> (r: bool)
        requires
            self.wf(),
        ensures
            r == initial_stack_fits(
                self.stack_top(),
                self.low(),
                self.env_count_spec(),
                self.arg_count_spec(),
            ),
    {
        if self.env_count > 22 || self.arg_count > 29 {
            return false;
        }
        let big: u128 = 0x2_0000_0000_0000_0000;
        let mut s: u128 = str_cost("x86_64") + 1 + str_cost("/bin/ld") + 1 + 16;
        let mut i: usize = 0;
        while i < ENV_STRINGS
            invariant
                i <= 10,
                big == 0x2_0000_0000_0000_0000u128,
                s == auxdata::aux_strings_space() + env_space(i as int),
                s <= big * (3 + i),
            decreases 10 - i,
        {
            s = s + str_cost(env_str(i)) + 1;
            i = i + 1;
        }
        let mut j: usize = 0;
        while j < ARG_STRINGS
            invariant
                j <= 3,
                big == 0x2_0000_0000_0000_0000u128,
                s == auxdata::aux_strings_space() + env_space(10) + arg_space(j as int),
                s <= big * (13 + j),
            decreases 3 - j,
        {
            s = s + str_cost(arg_str(j)) + 1;
            j = j + 1;
        }
        let top = self.top as u128;
        if top < s {
            return false;
        }
        let x = top - s;
        let p = x - x % 16;
        let need = self.bottom as u128 + 8 * (2 * (AUX_PAIRS as u128) + (self.env_count as u128
            + 10 + 1) + (self.arg_count as u128 + 3 + 2));
        need <= p
    }
}


impl ElfStack {
    /// Builds the initial stack for the program `elf_header` describes: the
    /// auxiliary, environment and argument strings, padding to 16 bytes, then
    /// the auxiliary vector, the environment table and the argument table.
    pub fn write(&mut self, elf_header: &ElfHeader)
        requires
            old(self).wf(),
            initial_stack_fits(
                old(self).stack_top(),
                old(self).low(),
                old(self).env_count_spec(),
                old(self).arg_count_spec(),
            ),
        ensures
            final(self).wf(),
            final(self).stack_top() == tables_base(old(self).stack_top()) - 8 * table_words(
                old(self).env_count_spec() + 10,
                old(self).arg_count_spec() + 3,
            ),
            final(self).env_count_spec() == old(self).env_count_spec() + 10,
            final(self).arg_count_spec() == old(self).arg_count_spec() + 3,
            // where the strings are
            final(self).platform_ptr() == old(self).stack_top() - "x86_64".spec_bytes().len() - 1,
            final(self).execfn_ptr() == final(self).platform_ptr() - "/bin/ld".spec_bytes().len()
                - 1,
            final(self).random_ptr() == final(self).execfn_ptr() - 16,
            forall|j: int|
                old(self).env_count_spec() <= j < old(self).env_count_spec() + 10
                    ==> #[trigger] final(self).env_ptr(j) == final(self).random_ptr() - env_space(
                    j - old(self).env_count_spec() + 1,
                ),
            forall|j: int|
                old(self).arg_count_spec() <= j < old(self).arg_count_spec() + 3
                    ==> #[trigger] final(self).arg_ptr(j) == final(self).random_ptr() - env_space(10)
                    - arg_space(j - old(self).arg_count_spec() + 1),
            forall|i: int|
                0 <= i < 32 && !(old(self).env_count_spec() <= i < old(self).env_count_spec() + 10)
                    ==> #[trigger] final(self).env_ptr(i) == old(self).env_ptr(i),
            forall|i: int|
                0 <= i < 32 && !(old(self).arg_count_spec() <= i < old(self).arg_count_spec() + 3)
                    ==> #[trigger] final(self).arg_ptr(i) == old(self).arg_ptr(i),
            // what the strings hold
            final(self).holds_bytes(
                final(self).platform_ptr() as int,
                "x86_64".spec_bytes().push(0u8),
            ),
            final(self).holds_bytes(
                final(self).execfn_ptr() as int,
                "/bin/ld".spec_bytes().push(0u8),
            ),
            forall|j: int|
                old(self).env_count_spec() <= j < old(self).env_count_spec() + 10
                    ==> final(self).holds_bytes(
                    #[trigger] final(self).env_ptr(j) as int,
                    env_text(j - old(self).env_count_spec()).push(0u8),
                ),
            forall|j: int|
                old(self).arg_count_spec() <= j < old(self).arg_count_spec() + 3
                    ==> final(self).holds_bytes(
                    #[trigger] final(self).arg_ptr(j) as int,
                    arg_text(j - old(self).arg_count_spec()).push(0u8),
                ),
            // the tables, from the final top upwards
            final(self).holds_words(
                final(self).stack_top(),
                arg_layout(final(self).arg_ptrs(), final(self).arg_count_spec()) + env_layout(
                    final(self).env_ptr(0),
                    final(self).env_count_spec(),
                ) + auxdata::pairs_layout(
                    auxdata::aux_pairs(
                        final(self).platform_ptr(),
                        final(self).execfn_ptr(),
                        final(self).random_ptr(),
                        *elf_header,
                    ),
                ),
            ),
            final(self).changed_only(*old(self), final(self).stack_top(), old(self).stack_top()),
    {
        let ghost s0 = *self;
        proof {
            lemma_env_space_mono(0, 10);
            lemma_arg_space_mono(0, 3);
        }
        self.write_aux_strings();
        let ghost s1 = *self;
        self.write_env_strings();
        let ghost s2 = *self;
        self.write_arg_strings();
        let ghost s3 = *self;
        proof {
            lemma_changed_trans(s0, s1, s2, s2.top as int, s1.top as int, s0.top as int);
            lemma_changed_trans(s0, s2, s3, s3.top as int, s2.top as int, s0.top as int);
        }
        self.write_padding();
        let ghost s4 = *self;
        self.write_aux_table(elf_header);
        let ghost s5 = *self;
        self.write_env_table();
        let ghost s6 = *self;
        self.write_arg_table();
        let ghost s7 = *self;
        proof {
            let top7 = s7.top as int;
            // the tables
            let aux = auxdata::pairs_layout(
                auxdata::aux_pairs(s4.aux_platform_ptr, s4.aux_execfn_ptr, s4.aux_random, *elf_header),
            );
            let env = env_layout(s5.envs@[0], s5.env_count as int);
            let arg = arg_layout(s6.args@, s6.arg_count as int);
            lemma_words_kept(s6, s5, s6.top as int, s5.top as int, s5.top as int, aux);
            lemma_words_concat(s6, s6.top as int, env, aux);
            lemma_words_kept(s7, s6, s7.top as int, s6.top as int, s6.top as int, env + aux);
            lemma_words_concat(s7, top7, arg, env + aux);
            assert(arg + (env + aux) =~= arg + env + aux);
            lemma_changed_trans(s3, s4, s5, s5.top as int, s4.top as int, s3.top as int);
            lemma_changed_trans(s3, s5, s6, s6.top as int, s5.top as int, s3.top as int);
            lemma_changed_trans(s3, s6, s7, s7.top as int, s6.top as int, s3.top as int);
            lemma_changed_trans(s0, s3, s7, s7.top as int, s3.top as int, s0.top as int);
            // the strings
            lemma_bytes_kept(s2, s1, s2.top as int, s1.top as int, s1.aux_platform_ptr as int, "x86_64".spec_bytes().push(0u8));
            lemma_bytes_kept(s2, s1, s2.top as int, s1.top as int, s1.aux_execfn_ptr as int, "/bin/ld".spec_bytes().push(0u8));
            lemma_bytes_kept(s7, s2, s7.top as int, s2.top as int, s1.aux_platform_ptr as int, "x86_64".spec_bytes().push(0u8));
            lemma_bytes_kept(s7, s2, s7.top as int, s2.top as int, s1.aux_execfn_ptr as int, "/bin/ld".spec_bytes().push(0u8));
            let ec = s0.env_count as int;
            let ac = s0.arg_count as int;
            assert(s7.envs@ == s2.envs@);
            assert(s7.args@ == s3.args@);
            assert(s3.envs@ == s2.envs@);
            assert(s2.args@ == s1.args@);
            assert forall|i: int| 0 <= i < 10 implies #[trigger] s7.env_ptr(ec + i)
                == s7.random_ptr() - env_space(i + 1) by {
                assert(s2.env_ptr(ec + i) == s1.top - env_space(i + 1));
            }
            assert forall|i: int| 0 <= i < 3 implies #[trigger] s7.arg_ptr(ac + i)
                == s7.random_ptr() - env_space(10) - arg_space(i + 1) by {
                assert(s3.arg_ptr(ac + i) == s2.top - arg_space(i + 1));
            }
            assert forall|i: int| 0 <= i < 32 && !(ec <= i < ec + 10) implies #[trigger] s7.env_ptr(i)
                == s0.env_ptr(i) by {
                assert(s2.env_ptr(i) == s1.env_ptr(i));
                assert(s1.env_ptr(i) == s0.env_ptr(i));
            }
            assert forall|i: int| 0 <= i < 32 && !(ac <= i < ac + 3) implies #[trigger] s7.arg_ptr(i)
                == s0.arg_ptr(i) by {
                assert(s3.arg_ptr(i) == s2.arg_ptr(i));
                assert(s1.arg_ptr(i) == s0.arg_ptr(i));
            }
            assert forall|i: int| 0 <= i < 10 implies s7.holds_bytes(
                #[trigger] s7.envs@[ec + i] as int,
                env_text(i).push(0u8),
            ) by {
                lemma_env_space_mono(i + 1, 10);
                assert(s2.env_ptr(ec + i) == s2.envs@[ec + i]);
                assert(s2.holds_bytes(s2.env_ptr(ec + i) as int, env_text(i).push(0u8)));
                lemma_bytes_kept(s7, s2, s7.top as int, s2.top as int, s2.envs@[ec + i] as int, env_text(i).push(0u8));
            }
            assert forall|i: int| 0 <= i < 3 implies s7.holds_bytes(
                #[trigger] s7.args@[ac + i] as int,
                arg_text(i).push(0u8),
            ) by {
                assert(s3.arg_ptr(ac + i) == s3.args@[ac + i]);
                assert(s3.holds_bytes(s3.arg_ptr(ac + i) as int, arg_text(i).push(0u8)));
                lemma_arg_space_mono(i + 1, 3);
                lemma_bytes_kept(s7, s3, s7.top as int, s3.top as int, s3.args@[ac + i] as int, arg_text(i).push(0u8));
            }
            assert forall|j: int| ec <= j < ec + 10 implies #[trigger] s7.env_ptr(j)
                == s7.random_ptr() - env_space(j - ec + 1) && s7.holds_bytes(
                s7.env_ptr(j) as int,
                env_text(j - ec).push(0u8),
            ) by {
                let i = j - ec;
                assert(s7.env_ptr(ec + i) == s7.random_ptr() - env_space(i + 1));
                assert(s7.holds_bytes(s7.envs@[ec + i] as int, env_text(i).push(0u8)));
            }
            assert forall|j: int| ac <= j < ac + 3 implies #[trigger] s7.arg_ptr(j)
                == s7.random_ptr() - env_space(10) - arg_space(j - ac + 1) && s7.holds_bytes(
                s7.arg_ptr(j) as int,
                arg_text(j - ac).push(0u8),
            ) by {
                let i = j - ac;
                assert(s7.arg_ptr(ac + i) == s7.random_ptr() - env_space(10) - arg_space(i + 1));
                assert(s7.holds_bytes(s7.args@[ac + i] as int, arg_text(i).push(0u8)));
            }
        }
    }
}


/// On a fresh stack (no environment or argument pointers yet) the top that
/// `write` leaves is a multiple of 16, as the x86-64 ABI asks of the initial
/// stack pointer.
pub proof fn lemma_initial_stack_aligned(top: int)
    ensures
        (tables_base(top) - 8 * table_words(10int, 3int)) % 16 == 0,
{
    let x = top - strings_space();
    assert((x - x % 16) % 16 == 0) by (nonlinear_arith);
    assert(8 * table_words(10int, 3int) == 416);
}

} // verus!

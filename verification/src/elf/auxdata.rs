//! The auxiliary vector of the initial stack and the strings it points at.
use vstd::prelude::*;
use vstd::string::StringSliceAdditionalSpecFns;
use super::{ElfStack, ElfHeader, le_bytes, lemma_words_concat, lemma_words_kept, lemma_bytes_kept, lemma_changed_trans};

verus! {

/// End of vector.
pub const AT_NULL: usize = 0;
/// Entry should be ignored.
pub const AT_IGNORE: usize = 1;
/// File descriptor of program.
pub const AT_EXECFD: usize = 2;
/// Program headers for program.
pub const AT_PHDR: usize = 3;
/// Size of program header entry.
pub const AT_PHENT: usize = 4;
/// Number of program headers.
pub const AT_PHNUM: usize = 5;
/// System page size.
pub const AT_PAGESZ: usize = 6;
/// Base address of interpreter.
pub const AT_BASE: usize = 7;
pub const AT_FLAGS: usize = 8;
/// Entry point of program.
pub const AT_ENTRY: usize = 9;
/// Program is not ELF.
pub const AT_NOTELF: usize = 10;
pub const AT_UID: usize = 11;
pub const AT_EUID: usize = 12;
pub const AT_GID: usize = 13;
pub const AT_EGID: usize = 14;
/// String identifying the CPU for optimizations.
pub const AT_PLATFORM: usize = 15;
/// Hints at CPU capabilities.
pub const AT_HWCAP: usize = 16;
/// Frequency at which times() increments.
pub const AT_CLKTCK: usize = 17;
/// Secure mode boolean.
pub const AT_SECURE: usize = 23;
/// String identifying the real platform.
pub const AT_BASE_PLATFORM: usize = 24;
/// Address of 16 random bytes.
pub const AT_RANDOM: usize = 25;
pub const AT_HWCAP2: usize = 26;
/// File name of the program.
pub const AT_EXECFN: usize = 31;

/// Number of (key, value) pairs in the auxiliary vector.
pub const AUX_PAIRS: usize = 18;

/// Words (lowest address first) of the pairs `ps` pushed in order, each
/// value before its key.
pub open spec fn pairs_layout(ps: Seq<(usize, usize)>) -> Seq<u64>
    decreases ps.len(),
{
    if ps.len() == 0 {
        seq![]
    } else {
        seq![ps.last().0 as u64, ps.last().1 as u64] + pairs_layout(ps.drop_last())
    }
}

/// The (key, value) pairs of the auxiliary vector, in the order they are pushed.
pub open spec fn aux_pairs(
    platform: usize,
    execfn: usize,
    random: usize,
    header: ElfHeader,
) -> Seq<(usize, usize)> {
    seq![
        (AT_NULL, 0usize),
        (AT_BASE, 0usize),
        (AT_FLAGS, 0usize),
        (AT_HWCAP, 0usize),
        (AT_PHDR, header.program_header_offset as usize),
        (AT_PHENT, header.program_header_size as usize),
        (AT_PHNUM, header.program_header_number_of_entries as usize),
        (AT_ENTRY, header.entry as usize),
        (AT_EXECFN, execfn),
        (AT_PLATFORM, platform),
        (AT_PAGESZ, 4096usize),
        (AT_CLKTCK, 100usize),
        (AT_UID, 0usize),
        (AT_EUID, 0usize),
        (AT_GID, 0usize),
        (AT_EGID, 0usize),
        (AT_SECURE, 0usize),
        (AT_RANDOM, random),
    ]
}

/// Bytes that the auxiliary strings and the random block take.
pub open spec fn aux_strings_space() -> int {
    ("x86_64".spec_bytes().len() + 1 + "/bin/ld".spec_bytes().len() + 1 + 16) as int
}

impl ElfStack {
    /// Pushes the platform string, the program file name and room for 16
    /// random bytes, and records where each lies.
    pub fn write_aux_strings(&mut self)
        requires
            old(self).wf(),
            aux_strings_space() <= old(self).stack_top() - old(self).low(),
        ensures
            final(self).wf(),
            final(self).stack_top() == old(self).stack_top() - aux_strings_space(),
            final(self).platform_ptr() == old(self).stack_top() - "x86_64".spec_bytes().len() - 1,
            final(self).execfn_ptr() == final(self).platform_ptr() - "/bin/ld".spec_bytes().len()
                - 1,
            final(self).random_ptr() == final(self).stack_top(),
            final(self).random_ptr() == final(self).execfn_ptr() - 16,
            final(self).holds_bytes(
                final(self).platform_ptr() as int,
                "x86_64".spec_bytes().push(0u8),
            ),
            final(self).holds_bytes(
                final(self).execfn_ptr() as int,
                "/bin/ld".spec_bytes().push(0u8),
            ),
            final(self).changed_only(
                *old(self),
                final(self).stack_top(),
                old(self).stack_top(),
            ),
            final(self).env_count_spec() == old(self).env_count_spec(),
            final(self).arg_count_spec() == old(self).arg_count_spec(),
            forall|i: int| 0 <= i < 32 ==> #[trigger] final(self).env_ptr(i) == old(self).env_ptr(i),
            forall|i: int| 0 <= i < 32 ==> #[trigger] final(self).arg_ptr(i) == old(self).arg_ptr(i),
    {
        let ghost s0 = *self;
        let p = self.write_str("x86_64");
        self.aux_platform_ptr = p;
        let ghost s1 = *self;
        let e = self.write_str("/bin/ld");
        self.aux_execfn_ptr = e;
        let ghost s2 = *self;
        proof {
            lemma_bytes_kept(s2, s1, s2.top as int, s1.top as int, p as int, "x86_64".spec_bytes().push(0u8));
        }
        self.shift_top(16);
        self.aux_random = self.top;
        proof {
            lemma_changed_trans(s0, s1, s2, s2.top as int, s1.top as int, s0.top as int);
        }
    }

    /// Pushes one auxiliary pair: the value, then the key below it.
    fn write_aux_value(&mut self, key: usize, value: usize)
        requires
            old(self).wf(),
            16 <= old(self).stack_top() - old(self).low(),
        ensures
            final(self).wf(),
            final(self).stack_top() == old(self).stack_top() - 16,
            final(self).holds_words(final(self).stack_top(), seq![key as u64, value as u64]),
            final(self).changed_only(*old(self), final(self).stack_top(), old(self).stack_top()),
            final(self).same_tables(*old(self)),
    {
        let ghost s0 = *self;
        self.write_usize(value);
        let ghost s1 = *self;
        self.write_usize(key);
        proof {
            lemma_words_kept(*self, s1, self.top as int, s1.top as int, s1.top as int, seq![value as u64]);
            lemma_words_concat(*self, self.top as int, seq![key as u64], seq![value as u64]);
            assert(seq![key as u64] + seq![value as u64] =~= seq![key as u64, value as u64]);
            lemma_changed_trans(s0, s1, *self, self.top as int, s1.top as int, s0.top as int);
        }
    }

    /// Pushes the auxiliary vector for the program `elf_header` describes.
    pub fn write_aux_table(&mut self, elf_header: &ElfHeader)
        requires
            old(self).wf(),
            8 * 2 * AUX_PAIRS <= old(self).stack_top() - old(self).low(),
        ensures
            final(self).wf(),
            final(self).stack_top() == old(self).stack_top() - 8 * 2 * AUX_PAIRS,
            final(self).holds_words(
                final(self).stack_top(),
                pairs_layout(
                    aux_pairs(
                        old(self).platform_ptr(),
                        old(self).execfn_ptr(),
                        old(self).random_ptr(),
                        *elf_header,
                    ),
                ),
            ),
            final(self).changed_only(*old(self), final(self).stack_top(), old(self).stack_top()),
            final(self).same_tables(*old(self)),
    {
        let pairs: [(usize, usize); 18] = [
            (AT_NULL, 0),
            (AT_BASE, 0),
            (AT_FLAGS, 0),
            (AT_HWCAP, 0),
            (AT_PHDR, elf_header.program_header_offset as usize),
            (AT_PHENT, elf_header.program_header_size as usize),
            (AT_PHNUM, elf_header.program_header_number_of_entries as usize),
            (AT_ENTRY, elf_header.entry as usize),
            (AT_EXECFN, self.aux_execfn_ptr),
            (AT_PLATFORM, self.aux_platform_ptr),
            (AT_PAGESZ, 4096),
            (AT_CLKTCK, 100),
            (AT_UID, 0),
            (AT_EUID, 0),
            (AT_GID, 0),
            (AT_EGID, 0),
            (AT_SECURE, 0),
            (AT_RANDOM, self.aux_random),
        ];
        let ghost want = aux_pairs(
            self.aux_platform_ptr,
            self.aux_execfn_ptr,
            self.aux_random,
            *elf_header,
        );
        assert(pairs@ =~= want);
        let ghost s0 = *self;
        let mut i: usize = 0;
        while i < AUX_PAIRS
            invariant
                self.wf(),
                i <= AUX_PAIRS,
                pairs@ == want,
                s0.wf(),
                self.top == s0.top - 16 * i,
                s0.top - s0.low() >= 16 * AUX_PAIRS,
                self.holds_words(self.top as int, pairs_layout(want.take(i as int))),
                self.changed_only(s0, self.top as int, s0.top as int),
                self.same_tables(s0),
            decreases AUX_PAIRS - i,
        {
            let ghost before = *self;
            let (key, value) = pairs[i];
            self.write_aux_value(key, value);
            proof {
                let prev = pairs_layout(want.take(i as int));
                assert(want.take(i as int + 1).drop_last() =~= want.take(i as int));
                assert(want.take(i as int + 1).last() == want[i as int]);
                lemma_words_kept(*self, before, self.top as int, before.top as int, before.top as int, prev);
                lemma_words_concat(*self, self.top as int, seq![key as u64, value as u64], prev);
                lemma_changed_trans(s0, before, *self, self.top as int, before.top as int, s0.top as int);
            }
            i = i + 1;
        }
        assert(want.take(18) =~= want);
    }
}

} // verus!

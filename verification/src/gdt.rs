//! The global descriptor table: the kernel and user segments and the task
//! state segment, and the selectors that name them.
use vstd::prelude::*;
use x86_64::structures::gdt::{Descriptor, GlobalDescriptorTable};
use x86_64::structures::tss::TaskStateSegment;

verus! {

/// `x86_64::structures::gdt::GlobalDescriptorTable`, a table of at most
/// `MAX` descriptor entries; opaque here.
#[verifier::external_type_specification]
#[verifier::external_body]
pub struct ExGlobalDescriptorTable<const MAX: usize>(GlobalDescriptorTable<MAX>);

/// `x86_64::structures::tss::TaskStateSegment`; opaque here.
#[verifier::external_type_specification]
#[verifier::external_body]
pub struct ExTaskStateSegment(TaskStateSegment);

/// The raw entries a descriptor table holds, the null entry first.
pub uninterp spec fn gdt_entries(g: GlobalDescriptorTable) -> Seq<u64>;

/// Calls `GlobalDescriptorTable::new`. Claimed of it: the new table holds
/// exactly the null entry (its source starts with length 1 and entry 0).
#[verifier::external_body]
fn gdt_new() -> (g: GlobalDescriptorTable)
    ensures
        gdt_entries(g) == seq![0u64],
{
    GlobalDescriptorTable::new()
}

/// Calls `GlobalDescriptorTable::append` with a code or data segment
/// descriptor `value`. Claimed of it: with fewer than 8 entries it adds
/// `value` as the next entry and returns the selector of that entry, its
/// index times 8 plus the descriptor's privilege level (bits 45 and 46 of
/// `value`); the selector is returned as its raw value.
#[verifier::external_body]
fn gdt_append_user(g: &mut GlobalDescriptorTable, value: u64) -> (sel: u16)
    requires
        gdt_entries(*old(g)).len() < 8,
    ensures
        gdt_entries(*final(g)) == gdt_entries(*old(g)).push(value),
        sel == gdt_entries(*old(g)).len() * 8 + ((value >> 45u64) & 3),
{
    g.append(Descriptor::UserSegment(value)).0
}

/// Calls `GlobalDescriptorTable::append` with the descriptor that
/// `Descriptor::tss_segment` makes for `tss`. Claimed of them: with at most
/// 6 entries the table grows by the two entries of the descriptor, which
/// depend on the address of `tss` and are not stated, and the selector is
/// the index of the first of them times 8 (the descriptor has privilege
/// level 0); the selector is returned as its raw value.
#[verifier::external_body]
fn gdt_append_tss(g: &mut GlobalDescriptorTable, tss: &'static TaskStateSegment) -> (sel: u16)
    requires
        gdt_entries(*old(g)).len() <= 6,
    ensures
        gdt_entries(*final(g)).len() == gdt_entries(*old(g)).len() + 2,
        gdt_entries(*final(g)).subrange(0, gdt_entries(*old(g)).len() as int) == gdt_entries(
            *old(g),
        ),
        sel == gdt_entries(*old(g)).len() * 8,
{
    g.append(Descriptor::tss_segment(tss)).0
}

pub const GDT_DPL0: u64 = 0 << 45;
pub const GDT_DPL3: u64 = 3 << 45;
pub const GDT_PRESENT: u64 = 1 << 47;
pub const GDT_LONG_MODE: u64 = 1 << 53;
pub const GDT_CODE_READABLE: u64 = 1 << 41;
pub const GDT_DATA_WRITABLE: u64 = 1 << 41;
pub const GDT_TYPE_SYSTEM: u64 = 0 << 44;
pub const GDT_TYPE_USER: u64 = 1 << 44;
pub const GDT_EXECUTABLE: u64 = 1 << 43;

/// Descriptor of the kernel code segment.
pub open spec fn kernel_code_descriptor() -> u64 {
    GDT_PRESENT | GDT_TYPE_USER | GDT_DPL0 | GDT_CODE_READABLE | GDT_LONG_MODE | GDT_EXECUTABLE
}

/// Descriptor of the kernel data segment.
pub open spec fn kernel_data_descriptor() -> u64 {
    GDT_PRESENT | GDT_TYPE_USER | GDT_DPL0 | GDT_DATA_WRITABLE | GDT_LONG_MODE
}

/// Descriptor of the user code segment.
pub open spec fn user_code_descriptor() -> u64 {
    GDT_PRESENT | GDT_TYPE_USER | GDT_DPL3 | GDT_CODE_READABLE | GDT_LONG_MODE | GDT_EXECUTABLE
}

/// Descriptor of the user data segment.
pub open spec fn user_data_descriptor() -> u64 {
    GDT_PRESENT | GDT_TYPE_USER | GDT_DPL3 | GDT_DATA_WRITABLE | GDT_LONG_MODE
}

/// The selectors of the segments in the table, as raw values.
#[derive(Clone, Copy, Debug, PartialEq, Eq, Structural)]
pub struct Selectors {
    pub kernel_code: u16,
    pub kernel_data: u16,
    pub user_code: u16,
    pub user_data: u16,
    pub tss_selector: u16,
}

/// Builds the table: the null entry, kernel code and data, user code and
/// data (their selectors with requested privilege level 3), then the task
/// state segment `tss`.
pub fn build(tss: &'static TaskStateSegment) -> (r: (GlobalDescriptorTable, Selectors))
    ensures
        gdt_entries(r.0).len() == 7,
        gdt_entries(r.0).subrange(0, 5) == seq![
            0u64,
            kernel_code_descriptor(),
            kernel_data_descriptor(),
            user_code_descriptor(),
            user_data_descriptor(),
        ],
        r.1 == (Selectors {
            kernel_code: 8,
            kernel_data: 16,
            user_code: 27,
            user_data: 35,
            tss_selector: 40,
        }),
{
    let mut gdt = gdt_new();
    let kernel_code = gdt_append_user(
        &mut gdt,
        GDT_PRESENT | GDT_TYPE_USER | GDT_DPL0 | GDT_CODE_READABLE | GDT_LONG_MODE | GDT_EXECUTABLE,
    );
    let kernel_data = gdt_append_user(
        &mut gdt,
        GDT_PRESENT | GDT_TYPE_USER | GDT_DPL0 | GDT_DATA_WRITABLE | GDT_LONG_MODE,
    );
    let mut user_code = gdt_append_user(
        &mut gdt,
        GDT_PRESENT | GDT_TYPE_USER | GDT_DPL3 | GDT_CODE_READABLE | GDT_LONG_MODE | GDT_EXECUTABLE,
    );
    let mut user_data = gdt_append_user(
        &mut gdt,
        GDT_PRESENT | GDT_TYPE_USER | GDT_DPL3 | GDT_DATA_WRITABLE | GDT_LONG_MODE,
    );
    let ghost before_tss = gdt_entries(gdt);
    proof {
        assert((((1u64 << 47) | (1u64 << 44) | (0u64 << 45) | (1u64 << 41) | (1u64 << 53) | (1u64
            << 43)) >> 45u64) & 3 == 0) by (bit_vector);
        assert((((1u64 << 47) | (1u64 << 44) | (0u64 << 45) | (1u64 << 41) | (1u64 << 53)) >> 45u64)
            & 3 == 0) by (bit_vector);
        assert((((1u64 << 47) | (1u64 << 44) | (3u64 << 45) | (1u64 << 41) | (1u64 << 53) | (1u64
            << 43)) >> 45u64) & 3 == 3) by (bit_vector);
        assert((((1u64 << 47) | (1u64 << 44) | (3u64 << 45) | (1u64 << 41) | (1u64 << 53)) >> 45u64)
            & 3 == 3) by (bit_vector);
        assert(27u16 | 3 == 27 && 35u16 | 3 == 35) by (bit_vector);
    }
    user_code = user_code | 3;
    user_data = user_data | 3;
    let tss_selector = gdt_append_tss(&mut gdt, tss);
    proof {
        assert(gdt_entries(gdt).subrange(0, 5) =~= before_tss.subrange(0, 5));
    }
    (gdt, Selectors { kernel_code, kernel_data, user_code, user_data, tss_selector })
}

} // verus!

//! The device's own scatter kernel: guest pages written by one dispatch rather
//! than by one transfer region for every run.
//!
//! One workgroup takes one run, and each invocation strides its run in words of
//! four bytes. So the group count is the run count, and nothing outside the
//! shader has to know the size of a workgroup.

use vstd::prelude::*;

verus! {

/// The word that a SPIR-V module begins with.
pub const SPIRV_MAGIC: u32 = 0x0723_0203;

/// The compiled kernel.
pub const GUEST_SCATTER_SPIRV: [u32; 411] = [
    0x07230203, 0x00010000, 0x000d000b, 0x0000005a, 0x00000000, 0x00020011, 0x00000001, 0x0006000b,
    0x00000001, 0x4c534c47, 0x6474732e, 0x3035342e, 0x00000000, 0x0003000e, 0x00000000, 0x00000001,
    0x0007000f, 0x00000005, 0x00000004, 0x6e69616d, 0x00000000, 0x0000000b, 0x0000002a, 0x00060010,
    0x00000004, 0x00000011, 0x00000100, 0x00000001, 0x00000001, 0x00040047, 0x0000000b, 0x0000000b,
    0x0000001a, 0x00030047, 0x00000011, 0x00000002, 0x00050048, 0x00000011, 0x00000000, 0x00000023,
    0x00000000, 0x00040047, 0x00000021, 0x00000006, 0x00000010, 0x00030047, 0x00000022, 0x00000003,
    0x00040048, 0x00000022, 0x00000000, 0x00000018, 0x00050048, 0x00000022, 0x00000000, 0x00000023,
    0x00000000, 0x00030047, 0x00000024, 0x00000018, 0x00040047, 0x00000024, 0x00000021, 0x00000002,
    0x00040047, 0x00000024, 0x00000022, 0x00000000, 0x00040047, 0x0000002a, 0x0000000b, 0x0000001b,
    0x00040047, 0x00000037, 0x00000006, 0x00000004, 0x00030047, 0x00000038, 0x00000003, 0x00040048,
    0x00000038, 0x00000000, 0x00000019, 0x00050048, 0x00000038, 0x00000000, 0x00000023, 0x00000000,
    0x00030047, 0x0000003a, 0x00000019, 0x00040047, 0x0000003a, 0x00000021, 0x00000001, 0x00040047,
    0x0000003a, 0x00000022, 0x00000000, 0x00040047, 0x00000040, 0x00000006, 0x00000004, 0x00030047,
    0x00000041, 0x00000003, 0x00040048, 0x00000041, 0x00000000, 0x00000018, 0x00050048, 0x00000041,
    0x00000000, 0x00000023, 0x00000000, 0x00030047, 0x00000043, 0x00000018, 0x00040047, 0x00000043,
    0x00000021, 0x00000000, 0x00040047, 0x00000043, 0x00000022, 0x00000000, 0x00040047, 0x0000004f,
    0x0000000b, 0x00000019, 0x00020013, 0x00000002, 0x00030021, 0x00000003, 0x00000002, 0x00040015,
    0x00000006, 0x00000020, 0x00000000, 0x00040017, 0x00000009, 0x00000006, 0x00000003, 0x00040020,
    0x0000000a, 0x00000001, 0x00000009, 0x0004003b, 0x0000000a, 0x0000000b, 0x00000001, 0x0004002b,
    0x00000006, 0x0000000c, 0x00000000, 0x00040020, 0x0000000d, 0x00000001, 0x00000006, 0x0003001e,
    0x00000011, 0x00000006, 0x00040020, 0x00000012, 0x00000009, 0x00000011, 0x0004003b, 0x00000012,
    0x00000013, 0x00000009, 0x00040015, 0x00000014, 0x00000020, 0x00000001, 0x0004002b, 0x00000014,
    0x00000015, 0x00000000, 0x00040020, 0x00000016, 0x00000009, 0x00000006, 0x00020014, 0x00000019,
    0x00040017, 0x0000001e, 0x00000006, 0x00000004, 0x0003001d, 0x00000021, 0x0000001e, 0x0003001e,
    0x00000022, 0x00000021, 0x00040020, 0x00000023, 0x00000002, 0x00000022, 0x0004003b, 0x00000023,
    0x00000024, 0x00000002, 0x00040020, 0x00000026, 0x00000002, 0x0000001e, 0x0004003b, 0x0000000a,
    0x0000002a, 0x00000001, 0x0003001d, 0x00000037, 0x00000006, 0x0003001e, 0x00000038, 0x00000037,
    0x00040020, 0x00000039, 0x00000002, 0x00000038, 0x0004003b, 0x00000039, 0x0000003a, 0x00000002,
    0x0004002b, 0x00000006, 0x0000003b, 0x00000001, 0x0003001d, 0x00000040, 0x00000006, 0x0003001e,
    0x00000041, 0x00000040, 0x00040020, 0x00000042, 0x00000002, 0x00000041, 0x0004003b, 0x00000042,
    0x00000043, 0x00000002, 0x00040020, 0x00000048, 0x00000002, 0x00000006, 0x0004002b, 0x00000006,
    0x0000004c, 0x00000100, 0x0006002c, 0x00000009, 0x0000004f, 0x0000004c, 0x0000003b, 0x0000003b,
    0x00050036, 0x00000002, 0x00000004, 0x00000000, 0x00000003, 0x000200f8, 0x00000005, 0x000300f7,
    0x00000050, 0x00000000, 0x000300fb, 0x0000000c, 0x00000051, 0x000200f8, 0x00000051, 0x00050041,
    0x0000000d, 0x0000000e, 0x0000000b, 0x0000000c, 0x0004003d, 0x00000006, 0x0000000f, 0x0000000e,
    0x00050041, 0x00000016, 0x00000017, 0x00000013, 0x00000015, 0x0004003d, 0x00000006, 0x00000018,
    0x00000017, 0x000500ae, 0x00000019, 0x0000001a, 0x0000000f, 0x00000018, 0x000300f7, 0x0000001c,
    0x00000000, 0x000400fa, 0x0000001a, 0x0000001b, 0x0000001c, 0x000200f8, 0x0000001b, 0x000200f9,
    0x00000050, 0x000200f8, 0x0000001c, 0x00060041, 0x00000026, 0x00000027, 0x00000024, 0x00000015,
    0x0000000f, 0x0004003d, 0x0000001e, 0x00000028, 0x00000027, 0x00050041, 0x0000000d, 0x0000002b,
    0x0000002a, 0x0000000c, 0x0004003d, 0x00000006, 0x0000002c, 0x0000002b, 0x000200f9, 0x0000002d,
    0x000200f8, 0x0000002d, 0x000700f5, 0x00000006, 0x00000059, 0x0000002c, 0x0000001c, 0x0000004e,
    0x0000002e, 0x00050051, 0x00000006, 0x00000035, 0x00000028, 0x00000002, 0x000500b0, 0x00000019,
    0x00000036, 0x00000059, 0x00000035, 0x000400f6, 0x0000002f, 0x0000002e, 0x00000000, 0x000400fa,
    0x00000036, 0x0000002e, 0x0000002f, 0x000200f8, 0x0000002e, 0x00050051, 0x00000006, 0x0000003d,
    0x00000028, 0x00000001, 0x00050080, 0x00000006, 0x0000003f, 0x0000003d, 0x00000059, 0x00050051,
    0x00000006, 0x00000045, 0x00000028, 0x00000000, 0x00050080, 0x00000006, 0x00000047, 0x00000045,
    0x00000059, 0x00060041, 0x00000048, 0x00000049, 0x00000043, 0x00000015, 0x00000047, 0x0004003d,
    0x00000006, 0x0000004a, 0x00000049, 0x00060041, 0x00000048, 0x0000004b, 0x0000003a, 0x00000015,
    0x0000003f, 0x0003003e, 0x0000004b, 0x0000004a, 0x00050080, 0x00000006, 0x0000004e, 0x00000059,
    0x0000004c, 0x000200f9, 0x0000002d, 0x000200f8, 0x0000002f, 0x000200f9, 0x00000050, 0x000200f8,
    0x00000050, 0x000100fd, 0x00010038,
];

/// The kernel is a SPIR-V module.
pub proof fn law_kernel_is_a_spirv_module()
    ensures
        GUEST_SCATTER_SPIRV@[0] == SPIRV_MAGIC,
{
}

} // verus!

//! One bit per configurable sub-role, in wire-list order.

use vstd::prelude::*;

verus! {

pub const EG_REGULAR: u32 = 1;
pub const EG_FOCUSED: u32 = 2;
pub const EG_SKIPPED: u32 = 4;
pub const EX_REGULAR: u32 = 8;
pub const EX_FOCUSED: u32 = 16;
pub const EX_SKIPPED: u32 = 32;
pub const EX_PENDING: u32 = 64;
pub const EXPECTATIONS: u32 = 128;
pub const HELPERS: u32 = 256;
pub const HOOKS: u32 = 512;
pub const ERROR_MATCHERS: u32 = 1024;
pub const INC_EXAMPLES: u32 = 2048;
pub const INC_CONTEXT: u32 = 4096;
pub const SG_EXAMPLES: u32 = 8192;
pub const SG_CONTEXT: u32 = 16384;
pub const SUBJECTS: u32 = 32768;

/// `ExampleGroups.all`.
pub const EG_ALL: u32 = 7;
/// `Examples.all`.
pub const EX_ALL: u32 = 120;
/// `Includes.all`.
pub const INC_ALL: u32 = 6144;
/// `SharedGroups.all`.
pub const SG_ALL: u32 = 24576;

} // verus!

//! Inline code hooking: a proximity allocator for executable memory, a
//! trampoline builder that relocates the instructions displaced by a hook,
//! and guarded patchers that write bytes and put the original bytes back.
pub mod patcher;
pub mod allocator;
pub mod code;
pub mod hook;
pub mod wrapper;

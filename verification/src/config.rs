//! Memory sizing of one guest.

use vstd::prelude::*;
use crate::size::parse_memory;
use crate::size::parse_spec;
use crate::size::ParseError;

verus! {

/// Heap given to a guest when the caller names none: 512 MiB.
pub const DEFAULT_HEAP_SIZE: u64 = 536_870_912;

/// Stack given to a guest when the caller names none: 8 MiB.
pub const DEFAULT_STACK_SIZE: u64 = 8_388_608;

/// Configuration for running one guest.
pub struct VmConfig {
    /// Heap size in bytes.
    pub heap_size: u64,
    /// Stack size in bytes.
    pub stack_size: u64,
}

impl VmConfig {
    /// A configuration is well formed when both sizes are strictly positive.
    pub open spec fn wf(&self) -> bool {
        self.heap_size > 0 && self.stack_size > 0
    }

    /// The configuration that two size texts stand for, such as `512Mi` for
    /// the heap and `8Mi` for the stack.
    ///
    /// Fails when either text is no size; the heap is looked at first.
    pub fn from_sizes(heap: &str, stack: &str) -> (r: Result<Self, ParseError>)
        ensures
            match (parse_spec(heap@), parse_spec(stack@)) {
                (Some(h), Some(s)) => r matches Ok(config) && config.heap_size == h
                    && config.stack_size == s,
                _ => r matches Err(ParseError::InvalidFormat),
            },
    {
        let heap_size = match parse_memory(heap) {
            Ok(size) => size,
            Err(e) => {
                return Err(e);
            },
        };
        let stack_size = match parse_memory(stack) {
            Ok(size) => size,
            Err(e) => {
                return Err(e);
            },
        };
        Ok(VmConfig { heap_size, stack_size })
    }

    /// Replaces the heap size and keeps the stack size.
    pub fn with_heap_size(self, size: u64) -> (r: Self)
        ensures
            r.heap_size == size,
            r.stack_size == self.stack_size,
            (self.wf() && size > 0) ==> r.wf(),
    {
        VmConfig { heap_size: size, stack_size: self.stack_size }
    }

    /// Replaces the stack size and keeps the heap size.
    pub fn with_stack_size(self, size: u64) -> (r: Self)
        ensures
            r.heap_size == self.heap_size,
            r.stack_size == size,
            (self.wf() && size > 0) ==> r.wf(),
    {
        VmConfig { heap_size: self.heap_size, stack_size: size }
    }
}

impl Default for VmConfig {
    /// 512 MiB of heap and 8 MiB of stack.
    fn default() -> (r: Self)
        ensures
            r.heap_size == 512 * 1024 * 1024,
            r.stack_size == 8 * 1024 * 1024,
            r.wf(),
    {
        VmConfig { heap_size: DEFAULT_HEAP_SIZE, stack_size: DEFAULT_STACK_SIZE }
    }
}

} // verus!

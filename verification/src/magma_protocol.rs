//! A sample of the protocol types the emitters render from a finished
//! registry: the buffer-management command set of a display device,
//! written out by hand as a fixed reference for the wire layout.
//!
//! Every command struct follows the composed shape the engine computes:
//! the 8-byte command header first, the declared members next, and a
//! trailing padding field where the total is not a multiple of 8.

use vstd::prelude::*;

verus! {

pub const MAGMA_MAX_MEMORY_HEAPS: usize = 32;

pub const MAGMA_MAX_MEMORY_TYPES: usize = 16;

#[derive(Debug, Default, Clone, Copy)]
pub struct MagmaCreateBufferInfo {
    pub memory_type_idx: u32,
    pub alignment: u32,
    pub common_flags: u32,
    pub vendor_flags: u32,
    pub size: u64,
}

#[derive(Debug, Default, Clone, Copy)]
pub struct MagmaMemoryType {
    pub property_flags: u32,
    pub heap_idx: u32,
}

#[derive(Debug, Default, Clone, Copy)]
pub struct MagmaHeap {
    pub heap_flags: u64,
    pub heap_idx: u64,
}

#[derive(Debug, Default, Clone, Copy)]
pub struct MagmaHeapBudget {
    pub budget: u64,
    pub usage: u64,
}

#[derive(Debug, Default, Clone, Copy)]
pub struct MagmaMemoryProperties {
    pub memory_type_count: u32,
    pub memory_heap_count: u32,
    pub memory_types: [u32; MAGMA_MAX_MEMORY_TYPES],
    pub memory_heaps: [u32; MAGMA_MAX_MEMORY_HEAPS],
}

/// The command selectors, in wire order.
#[derive(Debug, Clone, Copy, PartialEq, Eq, Structural)]
pub enum MagmaOpcode {
    MagmaCreateDevice,
    MagmaDestroyDevice,
    MagmaCreateBuffer,
    MagmaDestroyBuffer,
    MagmaCreateContext,
    MagmaDestroyContext,
}

#[derive(Debug, Default, Clone, Copy)]
pub struct MagmaCreateDeviceRequest {
    pub device_id: u32,
    pub create_buffer_info: MagmaCreateBufferInfo,
}

#[derive(Debug, Default, Clone, Copy)]
pub struct MagmaCreateBufferRequest {
    pub device_id: u32,
    pub create_buffer_info: MagmaCreateBufferInfo,
}

/// The 8-byte command header every request and response opens with.
#[allow(non_camel_case_types)]
#[derive(Debug, Clone, Copy)]
pub struct magma_command_hdr {
    pub proto: u32,
    pub size: u32,
}

#[derive(Debug, Clone, Copy)]
pub struct MagmaCreateDeviceCmd {
    pub hdr: magma_command_hdr,
    pub device_id: u32,
    pub create_buffer_info: MagmaCreateBufferInfo,
    pub padding: [u8; 4],
}

#[derive(Debug, Clone, Copy)]
pub struct MagmaCreateBufferCmd {
    pub hdr: magma_command_hdr,
    pub device_id: u32,
    pub create_buffer_info: MagmaCreateBufferInfo,
    pub padding: [u8; 4],
}

} // verus!

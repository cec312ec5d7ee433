//! The API's numeric constants: error codes, flag bits and enumerants.
use vstd::prelude::*;

verus! {

pub const CL_SUCCESS: i32 = 0;
pub const CL_MEM_COPY_OVERLAP: i32 = -8;
pub const CL_OUT_OF_HOST_MEMORY: i32 = -6;
pub const CL_IMAGE_FORMAT_NOT_SUPPORTED: i32 = -10;
pub const CL_MAP_FAILURE: i32 = -12;
pub const CL_EXEC_STATUS_ERROR_FOR_EVENTS_IN_WAIT_LIST: i32 = -14;
pub const CL_INVALID_VALUE: i32 = -30;
pub const CL_INVALID_DEVICE_TYPE: i32 = -31;
pub const CL_INVALID_DEVICE: i32 = -33;
pub const CL_INVALID_CONTEXT: i32 = -34;
pub const CL_INVALID_QUEUE_PROPERTIES: i32 = -35;
pub const CL_INVALID_COMMAND_QUEUE: i32 = -36;
pub const CL_INVALID_HOST_PTR: i32 = -37;
pub const CL_INVALID_MEM_OBJECT: i32 = -38;
pub const CL_INVALID_IMAGE_FORMAT_DESCRIPTOR: i32 = -39;
pub const CL_INVALID_IMAGE_SIZE: i32 = -40;
pub const CL_INVALID_BINARY: i32 = -42;
pub const CL_INVALID_PROGRAM_EXECUTABLE: i32 = -45;
pub const CL_INVALID_KERNEL_NAME: i32 = -46;
pub const CL_INVALID_KERNEL_DEFINITION: i32 = -47;
pub const CL_INVALID_ARG_INDEX: i32 = -49;
pub const CL_INVALID_ARG_VALUE: i32 = -50;
pub const CL_INVALID_ARG_SIZE: i32 = -51;
pub const CL_INVALID_KERNEL_ARGS: i32 = -52;
pub const CL_INVALID_WORK_DIMENSION: i32 = -53;
pub const CL_INVALID_WORK_ITEM_SIZE: i32 = -55;
pub const CL_INVALID_GLOBAL_OFFSET: i32 = -56;
pub const CL_INVALID_EVENT_WAIT_LIST: i32 = -57;
pub const CL_INVALID_EVENT: i32 = -58;
pub const CL_INVALID_OPERATION: i32 = -59;
pub const CL_INVALID_BUFFER_SIZE: i32 = -61;
pub const CL_INVALID_GLOBAL_WORK_SIZE: i32 = -63;
pub const CL_INVALID_IMAGE_DESCRIPTOR: i32 = -65;

pub const CL_FALSE: u32 = 0;
pub const CL_TRUE: u32 = 1;

pub const CL_DEVICE_TYPE_DEFAULT: u32 = 1;
pub const CL_DEVICE_TYPE_CPU: u32 = 2;
pub const CL_DEVICE_TYPE_GPU: u32 = 4;
pub const CL_DEVICE_TYPE_ACCELERATOR: u32 = 8;
pub const CL_DEVICE_TYPE_CUSTOM: u32 = 16;
pub const CL_DEVICE_TYPE_ALL: u32 = 0xFFFF_FFFF;

pub const CL_MEM_READ_WRITE: u64 = 1;
pub const CL_MEM_WRITE_ONLY: u64 = 2;
pub const CL_MEM_READ_ONLY: u64 = 4;
pub const CL_MEM_USE_HOST_PTR: u64 = 8;
pub const CL_MEM_ALLOC_HOST_PTR: u64 = 16;
pub const CL_MEM_COPY_HOST_PTR: u64 = 32;
pub const CL_MEM_HOST_WRITE_ONLY: u64 = 128;
pub const CL_MEM_HOST_READ_ONLY: u64 = 256;
pub const CL_MEM_HOST_NO_ACCESS: u64 = 512;
pub const CL_MEM_KERNEL_READ_AND_WRITE: u64 = 4096;

pub const CL_MAP_READ: u64 = 1;
pub const CL_MAP_WRITE: u64 = 2;
pub const CL_MAP_WRITE_INVALIDATE_REGION: u64 = 4;

pub const CL_MEM_OBJECT_BUFFER: u32 = 0x10F0;
pub const CL_MEM_OBJECT_IMAGE2D: u32 = 0x10F1;
pub const CL_MEM_OBJECT_IMAGE3D: u32 = 0x10F2;
pub const CL_MEM_OBJECT_IMAGE2D_ARRAY: u32 = 0x10F3;
pub const CL_MEM_OBJECT_IMAGE1D: u32 = 0x10F4;
pub const CL_MEM_OBJECT_IMAGE1D_ARRAY: u32 = 0x10F5;
pub const CL_MEM_OBJECT_IMAGE1D_BUFFER: u32 = 0x10F6;

pub const CL_R: u32 = 0x10B0;
pub const CL_A: u32 = 0x10B1;
pub const CL_RG: u32 = 0x10B2;
pub const CL_RA: u32 = 0x10B3;
pub const CL_RGB: u32 = 0x10B4;
pub const CL_RGBA: u32 = 0x10B5;
pub const CL_BGRA: u32 = 0x10B6;
pub const CL_ARGB: u32 = 0x10B7;
pub const CL_INTENSITY: u32 = 0x10B8;
pub const CL_LUMINANCE: u32 = 0x10B9;
pub const CL_RX: u32 = 0x10BA;
pub const CL_RGX: u32 = 0x10BB;
pub const CL_RGBX: u32 = 0x10BC;
pub const CL_DEPTH: u32 = 0x10BD;
pub const CL_SRGB: u32 = 0x10BF;
pub const CL_SRGBX: u32 = 0x10C0;
pub const CL_SRGBA: u32 = 0x10C1;
pub const CL_SBGRA: u32 = 0x10C2;
pub const CL_ABGR: u32 = 0x10C3;

pub const CL_SNORM_INT8: u32 = 0x10D0;
pub const CL_SNORM_INT16: u32 = 0x10D1;
pub const CL_UNORM_INT8: u32 = 0x10D2;
pub const CL_UNORM_INT16: u32 = 0x10D3;
pub const CL_UNORM_SHORT_565: u32 = 0x10D4;
pub const CL_UNORM_SHORT_555: u32 = 0x10D5;
pub const CL_UNORM_INT_101010: u32 = 0x10D6;
pub const CL_SIGNED_INT8: u32 = 0x10D7;
pub const CL_SIGNED_INT16: u32 = 0x10D8;
pub const CL_SIGNED_INT32: u32 = 0x10D9;
pub const CL_UNSIGNED_INT8: u32 = 0x10DA;
pub const CL_UNSIGNED_INT16: u32 = 0x10DB;
pub const CL_UNSIGNED_INT32: u32 = 0x10DC;
pub const CL_HALF_FLOAT: u32 = 0x10DD;
pub const CL_FLOAT: u32 = 0x10DE;
pub const CL_UNORM_INT_101010_2: u32 = 0x10E0;

pub const CL_ADDRESS_NONE: u32 = 0x1130;
pub const CL_ADDRESS_CLAMP_TO_EDGE: u32 = 0x1131;
pub const CL_ADDRESS_CLAMP: u32 = 0x1132;
pub const CL_ADDRESS_REPEAT: u32 = 0x1133;
pub const CL_ADDRESS_MIRRORED_REPEAT: u32 = 0x1134;
pub const CL_FILTER_NEAREST: u32 = 0x1140;
pub const CL_FILTER_LINEAR: u32 = 0x1141;

pub const CL_BUILD_SUCCESS: i32 = 0;
pub const CL_BUILD_NONE: i32 = -1;
pub const CL_BUILD_ERROR: i32 = -2;

pub const CL_PROGRAM_BINARY_TYPE_NONE: u32 = 0;
pub const CL_PROGRAM_BINARY_TYPE_COMPILED_OBJECT: u32 = 1;
pub const CL_PROGRAM_BINARY_TYPE_LIBRARY: u32 = 2;
pub const CL_PROGRAM_BINARY_TYPE_EXECUTABLE: u32 = 4;

pub const CL_KERNEL_ARG_ADDRESS_GLOBAL: u32 = 0x119B;
pub const CL_KERNEL_ARG_ADDRESS_LOCAL: u32 = 0x119C;
pub const CL_KERNEL_ARG_ADDRESS_CONSTANT: u32 = 0x119D;
pub const CL_KERNEL_ARG_ADDRESS_PRIVATE: u32 = 0x119E;
pub const CL_KERNEL_ARG_ACCESS_READ_ONLY: u32 = 0x11A0;
pub const CL_KERNEL_ARG_ACCESS_WRITE_ONLY: u32 = 0x11A1;
pub const CL_KERNEL_ARG_ACCESS_READ_WRITE: u32 = 0x11A2;
pub const CL_KERNEL_ARG_ACCESS_NONE: u32 = 0x11A3;
pub const CL_KERNEL_ARG_TYPE_NONE: u64 = 0;
pub const CL_KERNEL_ARG_TYPE_CONST: u64 = 1;
pub const CL_KERNEL_ARG_TYPE_RESTRICT: u64 = 2;
pub const CL_KERNEL_ARG_TYPE_VOLATILE: u64 = 4;

pub const CL_QUEUE_OUT_OF_ORDER_EXEC_MODE_ENABLE: u64 = 1;
pub const CL_QUEUE_PROFILING_ENABLE: u64 = 2;

pub const CL_COMPLETE: i32 = 0;
pub const CL_QUEUED: i32 = 3;

} // verus!

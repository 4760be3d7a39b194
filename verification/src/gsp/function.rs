//! Names of function and event codes, for logs.
use vstd::prelude::*;
use crate::gsp::fw::{
    NV_VGPU_MSG_EVENT_GSP_INIT_DONE,
    NV_VGPU_MSG_EVENT_GSP_LOCKDOWN_NOTICE,
    NV_VGPU_MSG_EVENT_GSP_POST_NOCAT_RECORD,
    NV_VGPU_MSG_EVENT_GSP_RUN_CPU_SEQUENCER,
    NV_VGPU_MSG_EVENT_MMU_FAULT_QUEUED,
    NV_VGPU_MSG_EVENT_OS_ERROR_LOG,
    NV_VGPU_MSG_EVENT_POST_EVENT,
    NV_VGPU_MSG_EVENT_RC_TRIGGERED,
    NV_VGPU_MSG_EVENT_UCODE_LIBOS_PRINT,
    NV_VGPU_MSG_FUNCTION_ALLOC_CHANNEL_DMA,
    NV_VGPU_MSG_FUNCTION_ALLOC_CTX_DMA,
    NV_VGPU_MSG_FUNCTION_ALLOC_DEVICE,
    NV_VGPU_MSG_FUNCTION_ALLOC_MEMORY,
    NV_VGPU_MSG_FUNCTION_ALLOC_OBJECT,
    NV_VGPU_MSG_FUNCTION_ALLOC_ROOT,
    NV_VGPU_MSG_FUNCTION_BIND_CTX_DMA,
    NV_VGPU_MSG_FUNCTION_FREE,
    NV_VGPU_MSG_FUNCTION_GET_GSP_STATIC_INFO,
    NV_VGPU_MSG_FUNCTION_GET_STATIC_INFO,
    NV_VGPU_MSG_FUNCTION_GSP_INIT_POST_OBJGPU,
    NV_VGPU_MSG_FUNCTION_GSP_RM_CONTROL,
    NV_VGPU_MSG_FUNCTION_GSP_SET_SYSTEM_INFO,
    NV_VGPU_MSG_FUNCTION_LOG,
    NV_VGPU_MSG_FUNCTION_MAP_MEMORY,
    NV_VGPU_MSG_FUNCTION_NOP,
    NV_VGPU_MSG_FUNCTION_SET_GUEST_SYSTEM_INFO,
    NV_VGPU_MSG_FUNCTION_SET_REGISTRY,
};

verus! {

/// The name of a function or event code.
pub open spec fn gsp_function_name(function: u32) -> Seq<char> {
    match function {
        NV_VGPU_MSG_FUNCTION_NOP => "NOP"@,
        NV_VGPU_MSG_FUNCTION_SET_GUEST_SYSTEM_INFO => "SET_GUEST_SYSTEM_INFO"@,
        NV_VGPU_MSG_FUNCTION_ALLOC_ROOT => "ALLOC_ROOT"@,
        NV_VGPU_MSG_FUNCTION_ALLOC_DEVICE => "ALLOC_DEVICE"@,
        NV_VGPU_MSG_FUNCTION_ALLOC_MEMORY => "ALLOC_MEMORY"@,
        NV_VGPU_MSG_FUNCTION_ALLOC_CTX_DMA => "ALLOC_CTX_DMA"@,
        NV_VGPU_MSG_FUNCTION_ALLOC_CHANNEL_DMA => "ALLOC_CHANNEL_DMA"@,
        NV_VGPU_MSG_FUNCTION_MAP_MEMORY => "MAP_MEMORY"@,
        NV_VGPU_MSG_FUNCTION_BIND_CTX_DMA => "BIND_CTX_DMA"@,
        NV_VGPU_MSG_FUNCTION_ALLOC_OBJECT => "ALLOC_OBJECT"@,
        NV_VGPU_MSG_FUNCTION_FREE => "FREE"@,
        NV_VGPU_MSG_FUNCTION_LOG => "LOG"@,
        NV_VGPU_MSG_FUNCTION_GET_GSP_STATIC_INFO => "GET_GSP_STATIC_INFO"@,
        NV_VGPU_MSG_FUNCTION_SET_REGISTRY => "SET_REGISTRY"@,
        NV_VGPU_MSG_FUNCTION_GSP_SET_SYSTEM_INFO => "GSP_SET_SYSTEM_INFO"@,
        NV_VGPU_MSG_FUNCTION_GSP_INIT_POST_OBJGPU => "GSP_INIT_POST_OBJGPU"@,
        NV_VGPU_MSG_FUNCTION_GSP_RM_CONTROL => "GSP_RM_CONTROL"@,
        NV_VGPU_MSG_FUNCTION_GET_STATIC_INFO => "GET_STATIC_INFO"@,
        NV_VGPU_MSG_EVENT_GSP_INIT_DONE => "INIT_DONE"@,
        NV_VGPU_MSG_EVENT_GSP_RUN_CPU_SEQUENCER => "RUN_CPU_SEQUENCER"@,
        NV_VGPU_MSG_EVENT_POST_EVENT => "POST_EVENT"@,
        NV_VGPU_MSG_EVENT_RC_TRIGGERED => "RC_TRIGGERED"@,
        NV_VGPU_MSG_EVENT_MMU_FAULT_QUEUED => "MMU_FAULT_QUEUED"@,
        NV_VGPU_MSG_EVENT_OS_ERROR_LOG => "OS_ERROR_LOG"@,
        NV_VGPU_MSG_EVENT_GSP_POST_NOCAT_RECORD => "NOCAT"@,
        NV_VGPU_MSG_EVENT_GSP_LOCKDOWN_NOTICE => "LOCKDOWN_NOTICE"@,
        NV_VGPU_MSG_EVENT_UCODE_LIBOS_PRINT => "LIBOS_PRINT"@,
        _ => "UNKNOWN"@,
    }
}

/// Returns the name of a function or event code, or `UNKNOWN`.
pub fn decode_gsp_function(function: u32) -> (r: &'static str)
    ensures
        r@ == gsp_function_name(function),
{
    match function {
        NV_VGPU_MSG_FUNCTION_NOP => "NOP",
        NV_VGPU_MSG_FUNCTION_SET_GUEST_SYSTEM_INFO => "SET_GUEST_SYSTEM_INFO",
        NV_VGPU_MSG_FUNCTION_ALLOC_ROOT => "ALLOC_ROOT",
        NV_VGPU_MSG_FUNCTION_ALLOC_DEVICE => "ALLOC_DEVICE",
        NV_VGPU_MSG_FUNCTION_ALLOC_MEMORY => "ALLOC_MEMORY",
        NV_VGPU_MSG_FUNCTION_ALLOC_CTX_DMA => "ALLOC_CTX_DMA",
        NV_VGPU_MSG_FUNCTION_ALLOC_CHANNEL_DMA => "ALLOC_CHANNEL_DMA",
        NV_VGPU_MSG_FUNCTION_MAP_MEMORY => "MAP_MEMORY",
        NV_VGPU_MSG_FUNCTION_BIND_CTX_DMA => "BIND_CTX_DMA",
        NV_VGPU_MSG_FUNCTION_ALLOC_OBJECT => "ALLOC_OBJECT",
        NV_VGPU_MSG_FUNCTION_FREE => "FREE",
        NV_VGPU_MSG_FUNCTION_LOG => "LOG",
        NV_VGPU_MSG_FUNCTION_GET_GSP_STATIC_INFO => "GET_GSP_STATIC_INFO",
        NV_VGPU_MSG_FUNCTION_SET_REGISTRY => "SET_REGISTRY",
        NV_VGPU_MSG_FUNCTION_GSP_SET_SYSTEM_INFO => "GSP_SET_SYSTEM_INFO",
        NV_VGPU_MSG_FUNCTION_GSP_INIT_POST_OBJGPU => "GSP_INIT_POST_OBJGPU",
        NV_VGPU_MSG_FUNCTION_GSP_RM_CONTROL => "GSP_RM_CONTROL",
        NV_VGPU_MSG_FUNCTION_GET_STATIC_INFO => "GET_STATIC_INFO",
        NV_VGPU_MSG_EVENT_GSP_INIT_DONE => "INIT_DONE",
        NV_VGPU_MSG_EVENT_GSP_RUN_CPU_SEQUENCER => "RUN_CPU_SEQUENCER",
        NV_VGPU_MSG_EVENT_POST_EVENT => "POST_EVENT",
        NV_VGPU_MSG_EVENT_RC_TRIGGERED => "RC_TRIGGERED",
        NV_VGPU_MSG_EVENT_MMU_FAULT_QUEUED => "MMU_FAULT_QUEUED",
        NV_VGPU_MSG_EVENT_OS_ERROR_LOG => "OS_ERROR_LOG",
        NV_VGPU_MSG_EVENT_GSP_POST_NOCAT_RECORD => "NOCAT",
        NV_VGPU_MSG_EVENT_GSP_LOCKDOWN_NOTICE => "LOCKDOWN_NOTICE",
        NV_VGPU_MSG_EVENT_UCODE_LIBOS_PRINT => "LIBOS_PRINT",
        _ => "UNKNOWN",
    }
}

/// Codes that stand for nothing have no name.
pub proof fn law_other_codes_are_unknown(function: u32)
    requires
        function > 11,
        function != 65,
        function < 72 || function > 74,
        function != 76,
        function != 77,
        function < 0x1001 || function > 0x1006,
        function != 0x100c,
        function != 0x101c,
        function != 0x1020,
    ensures
        gsp_function_name(function) == "UNKNOWN"@,
{
}

} // verus!

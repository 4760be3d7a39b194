//! Structures and codes shared with the GSP firmware, release 570.144.
use vstd::prelude::*;
use crate::bytes::{
    law_le32_round_trip, le32, push_u32, push_zeros, read_u32, u32_at, zeros,
};

verus! {

/// Log of the size of a GSP page.
pub const GSP_PAGE_SHIFT: usize = 12;

/// Size of a GSP page in bytes.
pub const GSP_PAGE_SIZE: usize = 0x1000;

/// Number of GSP pages in each message ring.
pub const MSGQ_NUM_PAGES: u32 = 0x3f;

/// Size of a message ring in bytes.
pub const MSGQ_DATA_SIZE: usize = 0x3f000;

/// Size of a queue: a page of headers, then the ring.
pub const MSGQ_SIZE: u32 = 0x40000;

/// Offset of the read header in a queue.
pub const RX_HDR_OFF: u32 = 0x20;

/// Offset of the ring in a queue.
pub const MSGQ_DATA_OFFSET: usize = 0x1000;

/// Number of page table entries in the page that leads the shared memory.
pub const PTE_ARRAY_LEN: usize = 0x200;

/// Offset of the command queue in the shared memory.
pub const CPUQ_OFFSET: usize = 0x1000;

/// Offset of the status queue in the shared memory.
pub const GSPQ_OFFSET: usize = 0x41000;

/// Size of the shared memory.
pub const GSP_MEM_SIZE: usize = 0x81000;

/// Version of the RPC header.
pub const RPC_HEADER_VERSION: u32 = 0x0300_0000;

/// Marks a valid RPC header.
pub const NV_VGPU_MSG_SIGNATURE_VALID: u32 = 0x4350_5256;

/// Size of an RPC header in bytes.
pub const RPC_HEADER_SIZE: usize = 32;

/// Size of a queue element header, which ends with an RPC header, in bytes.
pub const MSG_ELEMENT_SIZE: usize = 80;

/// Offset of the checksum in a queue element header.
pub const CHECKSUM_OFFSET: usize = 32;

pub const NV_VGPU_MSG_FUNCTION_NOP: u32 = 0;

pub const NV_VGPU_MSG_FUNCTION_SET_GUEST_SYSTEM_INFO: u32 = 1;

pub const NV_VGPU_MSG_FUNCTION_ALLOC_ROOT: u32 = 2;

pub const NV_VGPU_MSG_FUNCTION_ALLOC_DEVICE: u32 = 3;

pub const NV_VGPU_MSG_FUNCTION_ALLOC_MEMORY: u32 = 4;

pub const NV_VGPU_MSG_FUNCTION_ALLOC_CTX_DMA: u32 = 5;

pub const NV_VGPU_MSG_FUNCTION_ALLOC_CHANNEL_DMA: u32 = 6;

pub const NV_VGPU_MSG_FUNCTION_MAP_MEMORY: u32 = 7;

pub const NV_VGPU_MSG_FUNCTION_BIND_CTX_DMA: u32 = 8;

pub const NV_VGPU_MSG_FUNCTION_ALLOC_OBJECT: u32 = 9;

pub const NV_VGPU_MSG_FUNCTION_FREE: u32 = 10;

pub const NV_VGPU_MSG_FUNCTION_LOG: u32 = 11;

pub const NV_VGPU_MSG_FUNCTION_GET_GSP_STATIC_INFO: u32 = 65;

pub const NV_VGPU_MSG_FUNCTION_GSP_SET_SYSTEM_INFO: u32 = 72;

pub const NV_VGPU_MSG_FUNCTION_SET_REGISTRY: u32 = 73;

pub const NV_VGPU_MSG_FUNCTION_GSP_INIT_POST_OBJGPU: u32 = 74;

pub const NV_VGPU_MSG_FUNCTION_GSP_RM_CONTROL: u32 = 76;

pub const NV_VGPU_MSG_FUNCTION_GET_STATIC_INFO: u32 = 77;

pub const NV_VGPU_MSG_FUNCTION_GSP_RM_ALLOC: u32 = 103;

pub const NV_VGPU_MSG_EVENT_GSP_INIT_DONE: u32 = 0x1001;

pub const NV_VGPU_MSG_EVENT_GSP_RUN_CPU_SEQUENCER: u32 = 0x1002;

pub const NV_VGPU_MSG_EVENT_POST_EVENT: u32 = 0x1003;

pub const NV_VGPU_MSG_EVENT_RC_TRIGGERED: u32 = 0x1004;

pub const NV_VGPU_MSG_EVENT_MMU_FAULT_QUEUED: u32 = 0x1005;

pub const NV_VGPU_MSG_EVENT_OS_ERROR_LOG: u32 = 0x1006;

pub const NV_VGPU_MSG_EVENT_UCODE_LIBOS_PRINT: u32 = 0x100c;

pub const NV_VGPU_MSG_EVENT_GSP_LOCKDOWN_NOTICE: u32 = 0x101c;

pub const NV_VGPU_MSG_EVENT_GSP_POST_NOCAT_RECORD: u32 = 0x1020;

/// The least number of GSP pages that hold `n` bytes.
pub open spec fn pages_for(n: int) -> int {
    (n + (GSP_PAGE_SIZE - 1)) / GSP_PAGE_SIZE as int
}

/// Counts the pages that hold `n` bytes.
pub fn page_count(n: usize) -> (r: usize)
    ensures
        r == pages_for(n as int),
        r <= n,
{
    if n % GSP_PAGE_SIZE == 0 {
        n / GSP_PAGE_SIZE
    } else {
        n / GSP_PAGE_SIZE + 1
    }
}

/// Header of a queue's producer side.
#[derive(Clone, Copy, Debug, PartialEq, Eq, Structural)]
pub struct MsgqTxHeader {
    pub version: u32,
    pub size: u32,
    pub msg_size: u32,
    pub msg_count: u32,
    /// Next page that the producer will write.
    pub write_ptr: u32,
    pub flags: u32,
    pub rx_hdr_off: u32,
    pub entry_off: u32,
}

impl MsgqTxHeader {
    /// The header of an empty queue of `msgq_size` bytes whose read header is at
    /// `rx_hdr_off`.
    pub fn new(msgq_size: u32, rx_hdr_off: u32) -> (r: Self)
        ensures
            r == (MsgqTxHeader {
                version: 0,
                size: msgq_size,
                msg_size: 0x1000,
                msg_count: MSGQ_NUM_PAGES,
                write_ptr: 0,
                flags: 1,
                rx_hdr_off: rx_hdr_off,
                entry_off: 0x1000,
            }),
    {
        MsgqTxHeader {
            version: 0,
            size: msgq_size,
            msg_size: 0x1000,
            msg_count: MSGQ_NUM_PAGES,
            write_ptr: 0,
            flags: 1,
            rx_hdr_off,
            entry_off: 0x1000,
        }
    }
}

/// Header of a queue's consumer side.
#[derive(Clone, Copy, Debug, PartialEq, Eq, Structural)]
pub struct MsgqRxHeader {
    /// Next page that the consumer will read.
    pub read_ptr: u32,
}

impl MsgqRxHeader {
    /// The header of a consumer that has read nothing.
    pub fn new() -> (r: Self)
        ensures
            r.read_ptr == 0,
    {
        MsgqRxHeader { read_ptr: 0 }
    }
}

/// Header of a remote procedure call.
#[derive(Clone, Copy, Debug, PartialEq, Eq, Structural)]
pub struct GspRpcHeader {
    pub header_version: u32,
    pub signature: u32,
    /// Bytes in the call, this header included.
    pub length: u32,
    pub function: u32,
    pub rpc_result: u32,
    pub rpc_result_private: u32,
    pub sequence: u32,
    pub cpu_rm_gfid: u32,
}

impl GspRpcHeader {
    /// The header of a call of `function` with `cmd_size` bytes of arguments.
    pub open spec fn spec_new(cmd_size: int, function: u32) -> Self {
        GspRpcHeader {
            header_version: RPC_HEADER_VERSION,
            signature: NV_VGPU_MSG_SIGNATURE_VALID,
            length: (RPC_HEADER_SIZE + cmd_size) as u32,
            function: function,
            rpc_result: 0xffff_ffff,
            rpc_result_private: 0xffff_ffff,
            sequence: 0,
            cpu_rm_gfid: 0,
        }
    }

    /// The header as it lies in memory.
    pub open spec fn spec_bytes(self) -> Seq<u8> {
        le32(self.header_version) + le32(self.signature) + le32(self.length) + le32(self.function)
            + le32(self.rpc_result) + le32(self.rpc_result_private) + le32(self.sequence) + le32(
            self.cpu_rm_gfid,
        )
    }
}

/// Header of an element of a message queue.
///
/// The authentication fields that lead it in memory are unused: they are written
/// as zeros, and not read.
#[derive(Clone, Copy, Debug, PartialEq, Eq, Structural)]
pub struct GspMsgElement {
    pub check_sum: u32,
    pub seq_num: u32,
    /// GSP pages that the element takes in the ring.
    pub elem_count: u32,
    pub rpc: GspRpcHeader,
}

impl GspMsgElement {
    /// The header of message number `sequence`, a call of `function` with
    /// `cmd_size` bytes of arguments. The checksum is left zero.
    pub open spec fn spec_new(sequence: u32, cmd_size: int, function: u32) -> Self {
        GspMsgElement {
            check_sum: 0,
            seq_num: sequence,
            elem_count: pages_for(MSG_ELEMENT_SIZE + cmd_size) as u32,
            rpc: GspRpcHeader::spec_new(cmd_size, function),
        }
    }

    /// The header as it lies in memory.
    #[verifier::opaque]
    pub open spec fn spec_bytes(self) -> Seq<u8> {
        zeros(32) + le32(self.check_sum) + le32(self.seq_num) + le32(self.elem_count) + zeros(4)
            + self.rpc.spec_bytes()
    }

    /// The header that lies at the start of `s`.
    #[verifier::opaque]
    pub open spec fn spec_from_bytes(s: Seq<u8>) -> Self {
        GspMsgElement {
            check_sum: u32_at(s, 32),
            seq_num: u32_at(s, 36),
            elem_count: u32_at(s, 40),
            rpc: GspRpcHeader {
                header_version: u32_at(s, 48),
                signature: u32_at(s, 52),
                length: u32_at(s, 56),
                function: u32_at(s, 60),
                rpc_result: u32_at(s, 64),
                rpc_result_private: u32_at(s, 68),
                sequence: u32_at(s, 72),
                cpu_rm_gfid: u32_at(s, 76),
            },
        }
    }

    /// Creates the header of message number `sequence`, a call of `function` with
    /// `cmd_size` bytes of arguments.
    pub fn new(sequence: u32, cmd_size: usize, function: u32) -> (r: Self)
        requires
            MSG_ELEMENT_SIZE + cmd_size + GSP_PAGE_SIZE <= u32::MAX,
        ensures
            r == Self::spec_new(sequence, cmd_size as int, function),
    {
        GspMsgElement {
            check_sum: 0,
            seq_num: sequence,
            elem_count: page_count(MSG_ELEMENT_SIZE + cmd_size) as u32,
            rpc: GspRpcHeader {
                header_version: RPC_HEADER_VERSION,
                signature: NV_VGPU_MSG_SIGNATURE_VALID,
                length: (RPC_HEADER_SIZE + cmd_size) as u32,
                function,
                rpc_result: 0xffff_ffff,
                rpc_result_private: 0xffff_ffff,
                sequence: 0,
                cpu_rm_gfid: 0,
            },
        }
    }

    /// The bytes of the header.
    pub fn to_bytes(&self) -> (r: Vec<u8>)
        ensures
            r@ == self.spec_bytes(),
    {
        reveal(GspMsgElement::spec_bytes);
        let mut out: Vec<u8> = Vec::new();
        push_zeros(&mut out, 32);
        push_u32(&mut out, self.check_sum);
        push_u32(&mut out, self.seq_num);
        push_u32(&mut out, self.elem_count);
        push_zeros(&mut out, 4);
        push_u32(&mut out, self.rpc.header_version);
        push_u32(&mut out, self.rpc.signature);
        push_u32(&mut out, self.rpc.length);
        push_u32(&mut out, self.rpc.function);
        push_u32(&mut out, self.rpc.rpc_result);
        push_u32(&mut out, self.rpc.rpc_result_private);
        push_u32(&mut out, self.rpc.sequence);
        push_u32(&mut out, self.rpc.cpu_rm_gfid);
        assert(out@ =~= self.spec_bytes());
        out
    }

    /// Reads a header from the start of `data`.
    pub fn from_bytes(data: &[u8]) -> (r: Self)
        requires
            data.len() >= MSG_ELEMENT_SIZE,
        ensures
            r == Self::spec_from_bytes(data@),
    {
        reveal(GspMsgElement::spec_from_bytes);
        GspMsgElement {
            check_sum: read_u32(data, 32),
            seq_num: read_u32(data, 36),
            elem_count: read_u32(data, 40),
            rpc: GspRpcHeader {
                header_version: read_u32(data, 48),
                signature: read_u32(data, 52),
                length: read_u32(data, 56),
                function: read_u32(data, 60),
                rpc_result: read_u32(data, 64),
                rpc_result_private: read_u32(data, 68),
                sequence: read_u32(data, 72),
                cpu_rm_gfid: read_u32(data, 76),
            },
        }
    }
}

/// A header that is written out and read back is the same header, whatever follows
/// it in memory.
#[verifier::rlimit(30)]
pub proof fn law_msg_element_round_trip(h: GspMsgElement, rest: Seq<u8>)
    ensures
        h.spec_bytes().len() == MSG_ELEMENT_SIZE,
        GspMsgElement::spec_from_bytes(h.spec_bytes() + rest) == h,
{
    reveal(GspMsgElement::spec_bytes);
    reveal(GspMsgElement::spec_from_bytes);
    let s = h.spec_bytes() + rest;
    assert(s.subrange(32, 36) =~= le32(h.check_sum));
    assert(s.subrange(36, 40) =~= le32(h.seq_num));
    assert(s.subrange(40, 44) =~= le32(h.elem_count));
    assert(s.subrange(48, 52) =~= le32(h.rpc.header_version));
    assert(s.subrange(52, 56) =~= le32(h.rpc.signature));
    assert(s.subrange(56, 60) =~= le32(h.rpc.length));
    assert(s.subrange(60, 64) =~= le32(h.rpc.function));
    assert(s.subrange(64, 68) =~= le32(h.rpc.rpc_result));
    assert(s.subrange(68, 72) =~= le32(h.rpc.rpc_result_private));
    assert(s.subrange(72, 76) =~= le32(h.rpc.sequence));
    assert(s.subrange(76, 80) =~= le32(h.rpc.cpu_rm_gfid));
    law_le32_round_trip(s, 32, h.check_sum);
    law_le32_round_trip(s, 36, h.seq_num);
    law_le32_round_trip(s, 40, h.elem_count);
    law_le32_round_trip(s, 48, h.rpc.header_version);
    law_le32_round_trip(s, 52, h.rpc.signature);
    law_le32_round_trip(s, 56, h.rpc.length);
    law_le32_round_trip(s, 60, h.rpc.function);
    law_le32_round_trip(s, 64, h.rpc.rpc_result);
    law_le32_round_trip(s, 68, h.rpc.rpc_result_private);
    law_le32_round_trip(s, 72, h.rpc.sequence);
    law_le32_round_trip(s, 76, h.rpc.cpu_rm_gfid);
}

/// Setting the checksum of a header changes the four bytes of its checksum field.
pub proof fn lemma_checksum_field(h: GspMsgElement, check_sum: u32)
    requires
        h.check_sum == 0,
    ensures
        ({
            let a = h.spec_bytes();
            let b = GspMsgElement { check_sum, ..h }.spec_bytes();
            let at = CHECKSUM_OFFSET as int;
            &&& a.len() == MSG_ELEMENT_SIZE
            &&& b.len() == MSG_ELEMENT_SIZE
            &&& a.subrange(at, at + 4) == zeros(4)
            &&& b.subrange(at, at + 4) == le32(check_sum)
            &&& forall|i: int|
                0 <= i < MSG_ELEMENT_SIZE && !(at <= i < at + 4) ==> #[trigger] b[i] == a[i]
        }),
{
    reveal(GspMsgElement::spec_bytes);
    let a = h.spec_bytes();
    let b = GspMsgElement { check_sum, ..h }.spec_bytes();
    assert(a.subrange(32, 36) =~= zeros(4));
    assert(b.subrange(32, 36) =~= le32(check_sum));
}

/// The header is found in the first bytes alone.
pub proof fn lemma_header_of_prefix(s: Seq<u8>, rest: Seq<u8>)
    requires
        s.len() >= MSG_ELEMENT_SIZE,
    ensures
        GspMsgElement::spec_from_bytes(s + rest) == GspMsgElement::spec_from_bytes(s),
{
    reveal(GspMsgElement::spec_from_bytes);
    let t = s + rest;
    assert(forall|i: int| 0 <= i < s.len() ==> #[trigger] t[i] == s[i]);
}

/// The pages for some bytes hold them, and one page less does not.
pub proof fn law_pages_hold_bytes(n: int)
    requires
        0 <= n,
    ensures
        n <= pages_for(n) * 0x1000,
        0 < n ==> (pages_for(n) - 1) * 0x1000 < n,
        n == 0 ==> pages_for(n) == 0,
{
}

/// Where the fields of a header are read from.
pub proof fn law_header_is_read_from_words(s: Seq<u8>)
    ensures
        ({
            let h = GspMsgElement::spec_from_bytes(s);
            &&& h.check_sum == u32_at(s, 32)
            &&& h.seq_num == u32_at(s, 36)
            &&& h.elem_count == u32_at(s, 40)
            &&& h.rpc.header_version == u32_at(s, 48)
            &&& h.rpc.signature == u32_at(s, 52)
            &&& h.rpc.length == u32_at(s, 56)
            &&& h.rpc.function == u32_at(s, 60)
            &&& h.rpc.rpc_result == u32_at(s, 64)
            &&& h.rpc.rpc_result_private == u32_at(s, 68)
            &&& h.rpc.sequence == u32_at(s, 72)
            &&& h.rpc.cpu_rm_gfid == u32_at(s, 76)
        }),
{
    reveal(GspMsgElement::spec_from_bytes);
}

/// Where the fields of a header are written to, and that the bytes around them are zero.
pub proof fn law_header_is_written_to_words(h: GspMsgElement)
    ensures
        ({
            let s = h.spec_bytes();
            &&& s.len() == 80
            &&& s.take(32) == zeros(32)
            &&& u32_at(s, 32) == h.check_sum
            &&& u32_at(s, 36) == h.seq_num
            &&& u32_at(s, 40) == h.elem_count
            &&& s.subrange(44, 48) == zeros(4)
            &&& u32_at(s, 48) == h.rpc.header_version
            &&& u32_at(s, 52) == h.rpc.signature
            &&& u32_at(s, 56) == h.rpc.length
            &&& u32_at(s, 60) == h.rpc.function
            &&& u32_at(s, 64) == h.rpc.rpc_result
            &&& u32_at(s, 68) == h.rpc.rpc_result_private
            &&& u32_at(s, 72) == h.rpc.sequence
            &&& u32_at(s, 76) == h.rpc.cpu_rm_gfid
        }),
{
    let s = h.spec_bytes();
    let none = Seq::<u8>::empty();
    law_msg_element_round_trip(h, none);
    assert(s + none =~= s);
    law_header_is_read_from_words(s);
    lemma_unused_fields(h);
}

/// The fields of a header that have no use are zero.
proof fn lemma_unused_fields(h: GspMsgElement)
    ensures
        h.spec_bytes().take(32) == zeros(32),
        h.spec_bytes().subrange(44, 48) == zeros(4),
{
    reveal(GspMsgElement::spec_bytes);
    let front = zeros(32);
    let words = le32(h.check_sum) + le32(h.seq_num) + le32(h.elem_count);
    let s = h.spec_bytes();
    assert(s =~= front + words + zeros(4) + h.rpc.spec_bytes());
    assert(s.take(32) =~= front);
    assert(s.subrange(44, 48) =~= zeros(4));
}

/// The header of a new message tells its number, its function, its bytes from the RPC
/// header on, and the least pages that hold all of it. It has no checksum and no result.
pub proof fn law_new_header(sequence: u32, cmd_size: int, function: u32)
    requires
        0 <= cmd_size,
        80 + cmd_size <= 0xffff_0000,
    ensures
        ({
            let h = GspMsgElement::spec_new(sequence, cmd_size, function);
            &&& h.check_sum == 0
            &&& h.seq_num == sequence
            &&& (h.elem_count - 1) * 0x1000 < 80 + cmd_size <= h.elem_count * 0x1000
            &&& h.rpc.header_version == 0x0300_0000
            &&& le32(h.rpc.signature) == seq![0x56u8, 0x52u8, 0x50u8, 0x43u8]
            &&& h.rpc.length == 32 + cmd_size
            &&& h.rpc.function == function
            &&& h.rpc.rpc_result == u32::MAX
            &&& h.rpc.rpc_result_private == u32::MAX
            &&& h.rpc.sequence == 0
            &&& h.rpc.cpu_rm_gfid == 0
        }),
{
}

} // verus!

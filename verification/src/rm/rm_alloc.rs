//! Allocation requests.
use vstd::prelude::*;
use crate::bytes::{law_le32_round_trip, le32, push_u32, read_u32, u32_at};
use crate::error::Error;
use crate::gsp::cmdq::{sealed_message, GspCmdq, GspCommand, GspCommandElement, GspMessageElement};
use crate::gsp::fw::{pages_for, MSG_ELEMENT_SIZE, NV_VGPU_MSG_FUNCTION_GSP_RM_ALLOC};
use crate::rm::common::{
    law_parameters_follow_header, law_request_reaches_peer, params_bytes, RmApi, RmHeader,
    RmMessage,
};
use crate::sbuffer::{SBufferReader, SBufferWriter};

verus! {

/// An allocation request as a command.
pub struct RmAllocCmd<'a, H: RmHeader>(pub RmMessage<'a, H>);

impl<'a, H: RmHeader> GspCommandElement for RmAllocCmd<'a, H> {
    open spec fn encoded(&self) -> Result<Seq<u8>, Error> {
        self.0.encoded()
    }

    open spec fn spec_size(&self) -> int {
        self.0.spec_size()
    }

    open spec fn written(&self, room: int) -> Seq<u8> {
        self.0.written(room)
    }

    proof fn lemma_written(&self, room: int) {
        self.0.lemma_written(room);
    }

    fn copy_to_sbuf(&self, sbuf: &mut SBufferWriter) -> (r: Result<(), Error>) {
        self.0.copy_to_sbuf(sbuf)
    }

    fn size(&self) -> (r: usize) {
        self.0.size()
    }
}

impl<'a, H: RmHeader> GspCommand for RmAllocCmd<'a, H> {
    open spec fn spec_function() -> u32 {
        NV_VGPU_MSG_FUNCTION_GSP_RM_ALLOC
    }

    fn function() -> (r: u32) {
        NV_VGPU_MSG_FUNCTION_GSP_RM_ALLOC
    }
}

/// Makes commands of allocation requests.
pub struct AllocCommandWrapper;

impl AllocCommandWrapper {
    /// The command that carries `msg`.
    pub fn from_message<'a, H: RmHeader>(msg: RmMessage<'a, H>) -> (r: RmAllocCmd<'a, H>)
        ensures
            r.0 == msg,
    {
        RmAllocCmd(msg)
    }
}

/// Size of the header of allocation requests.
pub const RM_ALLOC_HEADER_SIZE: usize = 32;

/// Header of an allocation request.
#[derive(Clone, Copy, Debug, Default, PartialEq, Eq, Structural)]
pub struct RmAllocHeader {
    /// Client handle.
    pub h_client: u32,
    /// Handle of the parent object.
    pub h_parent: u32,
    /// Handle of the object to allocate.
    pub h_object: u32,
    /// Class of the object to allocate.
    pub h_class: u32,
    /// Status of the operation.
    pub status: u32,
    /// Size of the parameters.
    pub params_size: u32,
    pub flags: u32,
    /// Fills the header up to 32 bytes.
    pub _padding: u32,
}

impl RmAllocHeader {
    /// The header that `data` starts with.
    pub open spec fn at_start_of(data: Seq<u8>) -> Self {
        RmAllocHeader {
            h_client: u32_at(data, 0),
            h_parent: u32_at(data, 4),
            h_object: u32_at(data, 8),
            h_class: u32_at(data, 12),
            status: u32_at(data, 16),
            params_size: u32_at(data, 20),
            flags: u32_at(data, 24),
            _padding: u32_at(data, 28),
        }
    }

    /// Creates a header. The fields that all requests have are left zero.
    pub fn new(h_parent: u32, h_object: u32, h_class: u32) -> (r: Self)
        ensures
            r == (RmAllocHeader {
                h_client: 0,
                h_parent,
                h_object,
                h_class,
                status: 0,
                params_size: 0,
                flags: 0,
                _padding: 0,
            }),
    {
        RmAllocHeader {
            h_client: 0,
            h_parent,
            h_object,
            h_class,
            status: 0,
            params_size: 0,
            flags: 0,
            _padding: 0,
        }
    }
}

impl GspMessageElement for RmAllocHeader {
    open spec fn spec_fixed_size() -> nat {
        RM_ALLOC_HEADER_SIZE as nat
    }

    open spec fn decodes(data: Seq<u8>, m: Self, rest: Seq<u8>) -> bool {
        &&& m == RmAllocHeader::at_start_of(data)
        &&& rest == data.skip(RM_ALLOC_HEADER_SIZE as int)
    }

    fn fixed_size() -> (r: usize) {
        RM_ALLOC_HEADER_SIZE
    }

    fn new_from_sbuf(sbuf: &mut SBufferReader) -> (r: Result<Self, Error>) {
        let ghost all = sbuf@;
        match sbuf.read_exact(RM_ALLOC_HEADER_SIZE) {
            Ok(bytes) => {
                assert(forall|i: int| 0 <= i < 32 ==> #[trigger] all[i] == bytes@[i]);
                let data = bytes.as_slice();
                Ok(
                    RmAllocHeader {
                        h_client: read_u32(data, 0),
                        h_parent: read_u32(data, 4),
                        h_object: read_u32(data, 8),
                        h_class: read_u32(data, 12),
                        status: read_u32(data, 16),
                        params_size: read_u32(data, 20),
                        flags: read_u32(data, 24),
                        _padding: read_u32(data, 28),
                    },
                )
            },
            Err(e) => Err(e),
        }
    }
}

impl RmHeader for RmAllocHeader {
    open spec fn spec_bytes(&self) -> Seq<u8> {
        le32(self.h_client) + le32(self.h_parent) + le32(self.h_object) + le32(self.h_class) + le32(
            self.status,
        ) + le32(self.params_size) + le32(self.flags) + le32(self._padding)
    }

    open spec fn spec_from_bytes(data: Seq<u8>) -> Self {
        Self::at_start_of(data)
    }

    open spec fn with_client(self, client: u32) -> Self {
        RmAllocHeader { h_client: client, ..self }
    }

    open spec fn with_status(self, status: u32) -> Self {
        RmAllocHeader { status, ..self }
    }

    open spec fn with_params_size(self, size: u32) -> Self {
        RmAllocHeader { params_size: size, ..self }
    }

    open spec fn with_flags(self, flags: u32) -> Self {
        RmAllocHeader { flags, ..self }
    }

    open spec fn spec_status(&self) -> u32 {
        self.status
    }

    #[verifier::rlimit(30)]
    proof fn lemma_header(&self, data: Seq<u8>, rest: Seq<u8>) {
    }

    #[verifier::rlimit(30)]
    proof fn law_header_round_trip(&self, rest: Seq<u8>) {
        let s = self.spec_bytes() + rest;
        assert(s.subrange(0, 4) =~= le32(self.h_client));
        assert(s.subrange(4, 8) =~= le32(self.h_parent));
        assert(s.subrange(8, 12) =~= le32(self.h_object));
        assert(s.subrange(12, 16) =~= le32(self.h_class));
        assert(s.subrange(16, 20) =~= le32(self.status));
        assert(s.subrange(20, 24) =~= le32(self.params_size));
        assert(s.subrange(24, 28) =~= le32(self.flags));
        assert(s.subrange(28, 32) =~= le32(self._padding));
        law_le32_round_trip(s, 0, self.h_client);
        law_le32_round_trip(s, 4, self.h_parent);
        law_le32_round_trip(s, 8, self.h_object);
        law_le32_round_trip(s, 12, self.h_class);
        law_le32_round_trip(s, 16, self.status);
        law_le32_round_trip(s, 20, self.params_size);
        law_le32_round_trip(s, 24, self.flags);
        law_le32_round_trip(s, 28, self._padding);
    }

    fn to_bytes(&self) -> (r: Vec<u8>) {
        let mut out: Vec<u8> = Vec::new();
        push_u32(&mut out, self.h_client);
        push_u32(&mut out, self.h_parent);
        push_u32(&mut out, self.h_object);
        push_u32(&mut out, self.h_class);
        push_u32(&mut out, self.status);
        push_u32(&mut out, self.params_size);
        push_u32(&mut out, self.flags);
        push_u32(&mut out, self._padding);
        assert(out@ =~= self.spec_bytes());
        out
    }

    fn set_client(&mut self, client: u32) {
        self.h_client = client;
    }

    fn set_status(&mut self, status: u32) {
        self.status = status;
    }

    fn set_params_size(&mut self, size: u32) {
        self.params_size = size;
    }

    fn set_flags(&mut self, flags: u32) {
        self.flags = flags;
    }

    fn get_status(&self) -> (r: u32) {
        self.status
    }
}

/// Where the fields of an allocation header are in memory.
pub proof fn law_alloc_header_words(h: RmAllocHeader, data: Seq<u8>)
    ensures
        <RmAllocHeader as GspMessageElement>::spec_fixed_size() == 32,
        h.spec_bytes().len() == 32,
        u32_at(h.spec_bytes(), 0) == h.h_client,
        u32_at(h.spec_bytes(), 4) == h.h_parent,
        u32_at(h.spec_bytes(), 8) == h.h_object,
        u32_at(h.spec_bytes(), 12) == h.h_class,
        u32_at(h.spec_bytes(), 16) == h.status,
        u32_at(h.spec_bytes(), 20) == h.params_size,
        u32_at(h.spec_bytes(), 24) == h.flags,
        u32_at(h.spec_bytes(), 28) == h._padding,
        RmAllocHeader::spec_from_bytes(data) == (RmAllocHeader {
            h_client: u32_at(data, 0),
            h_parent: u32_at(data, 4),
            h_object: u32_at(data, 8),
            h_class: u32_at(data, 12),
            status: u32_at(data, 16),
            params_size: u32_at(data, 20),
            flags: u32_at(data, 24),
            _padding: u32_at(data, 28),
        }),
        RmAllocHeader::spec_from_bytes(data).spec_status() == u32_at(data, 16),
{
    let none = Seq::<u8>::empty();
    h.law_header_round_trip(none);
    h.lemma_header(none, none);
    assert(h.spec_bytes() + none =~= h.spec_bytes());
}

/// Setting a field of an allocation header changes that field alone.
pub proof fn law_alloc_header_fields(h: RmAllocHeader, x: u32)
    ensures
        h.with_client(x) == (RmAllocHeader { h_client: x, ..h }),
        h.with_status(x) == (RmAllocHeader { status: x, ..h }),
        h.with_params_size(x) == (RmAllocHeader { params_size: x, ..h }),
        h.with_flags(x) == (RmAllocHeader { flags: x, ..h }),
{
}

/// The words of an allocation request are the client of the driver, the parent, the object
/// and the class that were given, a zero for the status, the number of bytes of the
/// parameters that follow, and a zero for the flags.
pub proof fn law_alloc_request_words(api: RmApi, header: RmAllocHeader, params: Option<&[u8]>)
    requires
        params matches Some(p) ==> p@.len() <= u32::MAX,
    ensures
        ({
            let given = match params {
                Some(params) => params@,
                None => Seq::empty(),
            };
            let bytes = api.request_bytes(header, params);
            &&& u32_at(bytes, 0) == api.gsp_info.h_internal_client
            &&& u32_at(bytes, 4) == header.h_parent
            &&& u32_at(bytes, 8) == header.h_object
            &&& u32_at(bytes, 12) == header.h_class
            &&& u32_at(bytes, 16) == 0
            &&& u32_at(bytes, 20) == given.len()
            &&& u32_at(bytes, 24) == 0
            &&& u32_at(bytes, 28) == header._padding
            &&& bytes.skip(32) == given
        }),
{
    let full = api.request_header(header, params);
    full.law_header_round_trip(params_bytes(params));
    law_alloc_header_words(full, api.request_bytes(header, params));
    law_parameters_follow_header(api, header, params);
}

/// An allocation request that was sent is found by its peer with the size of its parameters
/// in its header and all of them behind it, unless what was in the last page before spoils
/// the checksum.
pub proof fn law_alloc_request_reaches_peer(
    api: RmApi,
    q: GspCmdq,
    new: GspCmdq,
    peer: GspCmdq,
    header: RmAllocHeader,
    params: Option<&[u8]>,
)
    requires
        q.wf(),
        params matches Some(p) ==> p@.len() <= u32::MAX,
        ({
            let bytes = api.request_bytes(header, params);
            let pages = pages_for(MSG_ELEMENT_SIZE + bytes.len());
            &&& pages <= q.gsp_mem.free_pages()
            &&& q.sent(new, sealed_message(q.seq, api.function, Seq::empty(), bytes), pages)
        }),
        peer.gsp_mem.mem.gspq.data@ == new.gsp_mem.mem.cpuq.data@,
        peer.gsp_mem.spec_gsp_write_ptr() == new.gsp_mem.spec_cpu_write_ptr(),
        peer.gsp_mem.spec_cpu_read_ptr() == q.gsp_mem.spec_cpu_write_ptr(),
        peer.take_outcome(api.function, 32) is Ok,
    ensures
        ({
            let given = match params {
                Some(params) => params@,
                None => Seq::empty(),
            };
            let (head, payload) = peer.take_outcome(api.function, 32)->Ok_0;
            let request = head + payload;
            &&& u32_at(request, 0) == api.gsp_info.h_internal_client
            &&& u32_at(request, 4) == header.h_parent
            &&& u32_at(request, 8) == header.h_object
            &&& u32_at(request, 12) == header.h_class
            &&& u32_at(request, 16) == 0
            &&& u32_at(request, 20) == given.len()
            &&& u32_at(request, 24) == 0
            &&& payload.take(given.len() as int) == given
        }),
{
    let full = api.request_header(header, params);
    let bytes = api.request_bytes(header, params);
    law_request_reaches_peer(api, q, new, peer, header, params);
    let (head, payload) = peer.take_outcome(api.function, 32)->Ok_0;
    law_alloc_header_words(full, head + payload);
    law_alloc_header_words(full, bytes);
    full.law_header_round_trip(params_bytes(params));
    law_alloc_request_words(api, header, params);
    assert(payload.take(params_bytes(params).len() as int) =~= params_bytes(params));
}

/// The command that carries an allocation request is function 103, and is the request.
pub proof fn law_alloc_command<H: RmHeader>(cmd: RmAllocCmd<H>, room: int)
    ensures
        <RmAllocCmd<H> as GspCommand>::spec_function() == 103,
        cmd.encoded() == cmd.0.encoded(),
        cmd.spec_size() == cmd.0.spec_size(),
        cmd.written(room) == cmd.0.written(room),
{
}

} // verus!

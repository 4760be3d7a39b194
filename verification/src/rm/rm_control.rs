//! Control requests, which query and configure resources of the GPU.
use vstd::prelude::*;
use crate::bytes::{law_le32_round_trip, le32, push_u32, read_u32, u32_at};
use crate::error::Error;
use crate::gsp::cmdq::{sealed_message, GspCmdq, GspCommand, GspCommandElement, GspMessageElement};
use crate::gsp::fw::{pages_for, MSG_ELEMENT_SIZE, NV_VGPU_MSG_FUNCTION_GSP_RM_CONTROL};
use crate::rm::common::{
    law_parameters_follow_header, law_request_reaches_peer, params_bytes, RmApi, RmHeader, RmMessage};
use crate::sbuffer::{SBufferReader, SBufferWriter};

verus! {

/// A control request as a command.
pub struct RmControlCmd<'a, H: RmHeader>(pub RmMessage<'a, H>);

impl<'a, H: RmHeader> GspCommandElement for RmControlCmd<'a, H> {
    open spec fn encoded(&self) -> Result<Seq<u8>, Error> {
        self.0.encoded()
    }

    open spec fn spec_size(&self) -> int {
        self.0.spec_size()
    }

    open spec fn written(&self, room: int) -> Seq<u8> {
        self.0.written(room)
    }

    proof fn lemma_written(&self, room: int) {
        self.0.lemma_written(room);
    }

    fn copy_to_sbuf(&self, sbuf: &mut SBufferWriter) -> (r: Result<(), Error>) {
        self.0.copy_to_sbuf(sbuf)
    }

    fn size(&self) -> (r: usize) {
        self.0.size()
    }
}

impl<'a, H: RmHeader> GspCommand for RmControlCmd<'a, H> {
    open spec fn spec_function() -> u32 {
        NV_VGPU_MSG_FUNCTION_GSP_RM_CONTROL
    }

    fn function() -> (r: u32) {
        NV_VGPU_MSG_FUNCTION_GSP_RM_CONTROL
    }
}

impl<'a, H: RmHeader> RmControlCmd<'a, H> {
    /// The command that carries a header and its parameters.
    pub fn new(header: H, params: Option<&'a [u8]>) -> (r: Self)
        ensures
            r.0 == (RmMessage { header, params }),
    {
        RmControlCmd(RmMessage { header, params })
    }
}

/// Size of the header of control requests.
pub const RM_CONTROL_HEADER_SIZE: usize = 24;

/// Header of a control request.
#[derive(Clone, Copy, Debug, Default, PartialEq, Eq, Structural)]
pub struct RmControlHeader {
    /// Client handle.
    pub h_client: u32,
    /// Handle of the object that is controlled.
    pub h_object: u32,
    /// The command.
    pub cmd: u32,
    /// Status of the operation.
    pub status: u32,
    /// Size of the parameters.
    pub params_size: u32,
    pub flags: u32,
}

impl RmControlHeader {
    /// The header that `data` starts with.
    pub open spec fn at_start_of(data: Seq<u8>) -> Self {
        RmControlHeader {
            h_client: u32_at(data, 0),
            h_object: u32_at(data, 4),
            cmd: u32_at(data, 8),
            status: u32_at(data, 12),
            params_size: u32_at(data, 16),
            flags: u32_at(data, 20),
        }
    }

    /// Creates a header. The fields that all requests have are left zero.
    pub fn new(h_object: u32, cmd: u32) -> (r: Self)
        ensures
            r == (RmControlHeader {
                h_client: 0,
                h_object,
                cmd,
                status: 0,
                params_size: 0,
                flags: 0,
            }),
    {
        RmControlHeader { h_client: 0, h_object, cmd, status: 0, params_size: 0, flags: 0 }
    }
}

impl GspMessageElement for RmControlHeader {
    open spec fn spec_fixed_size() -> nat {
        RM_CONTROL_HEADER_SIZE as nat
    }

    open spec fn decodes(data: Seq<u8>, m: Self, rest: Seq<u8>) -> bool {
        &&& m == RmControlHeader::at_start_of(data)
        &&& rest == data.skip(RM_CONTROL_HEADER_SIZE as int)
    }

    fn fixed_size() -> (r: usize) {
        RM_CONTROL_HEADER_SIZE
    }

    fn new_from_sbuf(sbuf: &mut SBufferReader) -> (r: Result<Self, Error>) {
        let ghost all = sbuf@;
        match sbuf.read_exact(RM_CONTROL_HEADER_SIZE) {
            Ok(bytes) => {
                assert(forall|i: int| 0 <= i < 24 ==> #[trigger] all[i] == bytes@[i]);
                let data = bytes.as_slice();
                Ok(
                    RmControlHeader {
                        h_client: read_u32(data, 0),
                        h_object: read_u32(data, 4),
                        cmd: read_u32(data, 8),
                        status: read_u32(data, 12),
                        params_size: read_u32(data, 16),
                        flags: read_u32(data, 20),
                    },
                )
            },
            Err(e) => Err(e),
        }
    }
}

impl RmHeader for RmControlHeader {
    open spec fn spec_bytes(&self) -> Seq<u8> {
        le32(self.h_client) + le32(self.h_object) + le32(self.cmd) + le32(self.status) + le32(
            self.params_size,
        ) + le32(self.flags)
    }

    open spec fn spec_from_bytes(data: Seq<u8>) -> Self {
        Self::at_start_of(data)
    }

    open spec fn with_client(self, client: u32) -> Self {
        RmControlHeader { h_client: client, ..self }
    }

    open spec fn with_status(self, status: u32) -> Self {
        RmControlHeader { status, ..self }
    }

    open spec fn with_params_size(self, size: u32) -> Self {
        RmControlHeader { params_size: size, ..self }
    }

    open spec fn with_flags(self, flags: u32) -> Self {
        RmControlHeader { flags, ..self }
    }

    open spec fn spec_status(&self) -> u32 {
        self.status
    }

    #[verifier::rlimit(30)]
    proof fn lemma_header(&self, data: Seq<u8>, rest: Seq<u8>) {
    }

    #[verifier::rlimit(30)]
    proof fn law_header_round_trip(&self, rest: Seq<u8>) {
        let s = self.spec_bytes() + rest;
        assert(s.subrange(0, 4) =~= le32(self.h_client));
        assert(s.subrange(4, 8) =~= le32(self.h_object));
        assert(s.subrange(8, 12) =~= le32(self.cmd));
        assert(s.subrange(12, 16) =~= le32(self.status));
        assert(s.subrange(16, 20) =~= le32(self.params_size));
        assert(s.subrange(20, 24) =~= le32(self.flags));
        law_le32_round_trip(s, 0, self.h_client);
        law_le32_round_trip(s, 4, self.h_object);
        law_le32_round_trip(s, 8, self.cmd);
        law_le32_round_trip(s, 12, self.status);
        law_le32_round_trip(s, 16, self.params_size);
        law_le32_round_trip(s, 20, self.flags);
    }

    fn to_bytes(&self) -> (r: Vec<u8>) {
        let mut out: Vec<u8> = Vec::new();
        push_u32(&mut out, self.h_client);
        push_u32(&mut out, self.h_object);
        push_u32(&mut out, self.cmd);
        push_u32(&mut out, self.status);
        push_u32(&mut out, self.params_size);
        push_u32(&mut out, self.flags);
        assert(out@ =~= self.spec_bytes());
        out
    }

    fn set_client(&mut self, client: u32) {
        self.h_client = client;
    }

    fn set_status(&mut self, status: u32) {
        self.status = status;
    }

    fn set_params_size(&mut self, size: u32) {
        self.params_size = size;
    }

    fn set_flags(&mut self, flags: u32) {
        self.flags = flags;
    }

    fn get_status(&self) -> (r: u32) {
        self.status
    }
}

impl RmApi {
    /// The header of a control request to the internal subdevice.
    pub open spec fn control_header(self, cmd: u32) -> RmControlHeader {
        RmControlHeader {
            h_client: 0,
            h_object: self.gsp_info.h_internal_subdevice,
            cmd,
            status: 0,
            params_size: 0,
            flags: 0,
        }
    }

    /// The API through which control requests go, whatever the function of this one: the
    /// response to a control request is to be awaited there.
    pub fn control_api(&self) -> (r: RmApi)
        ensures
            r == (RmApi {
                gsp_info: self.gsp_info,
                function: NV_VGPU_MSG_FUNCTION_GSP_RM_CONTROL,
            }),
    {
        RmApi::new(self.gsp_info, NV_VGPU_MSG_FUNCTION_GSP_RM_CONTROL)
    }

    /// Sends a control request to the internal subdevice. Fails with `EAGAIN` if there is
    /// too little space; the queue is then left as it was.
    pub fn send_control(&self, cmdq: &mut GspCmdq, cmd: u32, params: Option<&[u8]>) -> (r: Result<
        (),
        Error,
    >)
        requires
            old(cmdq).wf(),
            MSG_ELEMENT_SIZE + RM_CONTROL_HEADER_SIZE + params_bytes(params).len() <= usize::MAX,
            old(cmdq).has_room(RM_CONTROL_HEADER_SIZE + params_bytes(params).len()) ==> old(
                cmdq,
            ).seq < u32::MAX,
        ensures
            ({
                let bytes = self.request_bytes(self.control_header(cmd), params);
                let pages = pages_for(MSG_ELEMENT_SIZE + bytes.len());
                &&& bytes.len() == RM_CONTROL_HEADER_SIZE + params_bytes(params).len()
                &&& r == (if pages > old(cmdq).gsp_mem.free_pages() {
                    Err(Error::EAGAIN)
                } else {
                    Ok::<(), Error>(())
                })
                &&& r is Err ==> *final(cmdq) == *old(cmdq)
                &&& r is Ok ==> old(cmdq).sent(
                    *final(cmdq),
                    sealed_message(
                        old(cmdq).seq,
                        NV_VGPU_MSG_FUNCTION_GSP_RM_CONTROL,
                        Seq::empty(),
                        bytes,
                    ),
                    pages,
                )
            }),
    {
        let header = RmControlHeader::new(self.subdevice_handle(), cmd);
        self.control_api().send_request(cmdq, header, params)
    }
}

/// Where the fields of a control header are in memory.
pub proof fn law_control_header_words(h: RmControlHeader, data: Seq<u8>)
    ensures
        <RmControlHeader as GspMessageElement>::spec_fixed_size() == 24,
        h.spec_bytes().len() == 24,
        u32_at(h.spec_bytes(), 0) == h.h_client,
        u32_at(h.spec_bytes(), 4) == h.h_object,
        u32_at(h.spec_bytes(), 8) == h.cmd,
        u32_at(h.spec_bytes(), 12) == h.status,
        u32_at(h.spec_bytes(), 16) == h.params_size,
        u32_at(h.spec_bytes(), 20) == h.flags,
        RmControlHeader::spec_from_bytes(data) == (RmControlHeader {
            h_client: u32_at(data, 0),
            h_object: u32_at(data, 4),
            cmd: u32_at(data, 8),
            status: u32_at(data, 12),
            params_size: u32_at(data, 16),
            flags: u32_at(data, 20),
        }),
        RmControlHeader::spec_from_bytes(data).spec_status() == u32_at(data, 12),
{
    let none = Seq::<u8>::empty();
    h.law_header_round_trip(none);
    h.lemma_header(none, none);
    assert(h.spec_bytes() + none =~= h.spec_bytes());
}

/// Setting a field of a control header changes that field alone.
pub proof fn law_control_header_fields(h: RmControlHeader, x: u32)
    ensures
        h.with_client(x) == (RmControlHeader { h_client: x, ..h }),
        h.with_status(x) == (RmControlHeader { status: x, ..h }),
        h.with_params_size(x) == (RmControlHeader { params_size: x, ..h }),
        h.with_flags(x) == (RmControlHeader { flags: x, ..h }),
{
}

/// The words of a control request are the client of the driver, the object and the command
/// that were given, a zero for the status, the number of bytes of the parameters that
/// follow, and a zero for the flags.
pub proof fn law_control_request_words(api: RmApi, header: RmControlHeader, params: Option<&[u8]>)
    requires
        params matches Some(p) ==> p@.len() <= u32::MAX,
    ensures
        ({
            let given = match params {
                Some(params) => params@,
                None => Seq::empty(),
            };
            let bytes = api.request_bytes(header, params);
            &&& u32_at(bytes, 0) == api.gsp_info.h_internal_client
            &&& u32_at(bytes, 4) == header.h_object
            &&& u32_at(bytes, 8) == header.cmd
            &&& u32_at(bytes, 12) == 0
            &&& u32_at(bytes, 16) == given.len()
            &&& u32_at(bytes, 20) == 0
            &&& bytes.skip(24) == given
        }),
{
    let full = api.request_header(header, params);
    full.law_header_round_trip(params_bytes(params));
    law_control_header_words(full, api.request_bytes(header, params));
    law_parameters_follow_header(api, header, params);
}

/// A control request of the driver goes to its own subdevice.
pub proof fn law_control_goes_to_subdevice(api: RmApi, cmd: u32, params: Option<&[u8]>)
    requires
        params matches Some(p) ==> p@.len() <= u32::MAX,
    ensures
        ({
            let bytes = api.request_bytes(api.control_header(cmd), params);
            &&& u32_at(bytes, 0) == api.gsp_info.h_internal_client
            &&& u32_at(bytes, 4) == api.gsp_info.h_internal_subdevice
            &&& u32_at(bytes, 8) == cmd
        }),
{
    law_control_request_words(api, api.control_header(cmd), params);
}

/// A control request that was sent is found by its peer with the size of its parameters in
/// its header and all of them behind it, unless what was in the last page before spoils the
/// checksum.
pub proof fn law_control_request_reaches_peer(
    api: RmApi,
    q: GspCmdq,
    new: GspCmdq,
    peer: GspCmdq,
    header: RmControlHeader,
    params: Option<&[u8]>,
)
    requires
        q.wf(),
        params matches Some(p) ==> p@.len() <= u32::MAX,
        ({
            let bytes = api.request_bytes(header, params);
            let pages = pages_for(MSG_ELEMENT_SIZE + bytes.len());
            &&& pages <= q.gsp_mem.free_pages()
            &&& q.sent(new, sealed_message(q.seq, api.function, Seq::empty(), bytes), pages)
        }),
        peer.gsp_mem.mem.gspq.data@ == new.gsp_mem.mem.cpuq.data@,
        peer.gsp_mem.spec_gsp_write_ptr() == new.gsp_mem.spec_cpu_write_ptr(),
        peer.gsp_mem.spec_cpu_read_ptr() == q.gsp_mem.spec_cpu_write_ptr(),
        peer.take_outcome(api.function, 24) is Ok,
    ensures
        ({
            let given = match params {
                Some(params) => params@,
                None => Seq::empty(),
            };
            let (head, payload) = peer.take_outcome(api.function, 24)->Ok_0;
            let request = head + payload;
            &&& u32_at(request, 0) == api.gsp_info.h_internal_client
            &&& u32_at(request, 4) == header.h_object
            &&& u32_at(request, 8) == header.cmd
            &&& u32_at(request, 12) == 0
            &&& u32_at(request, 16) == given.len()
            &&& u32_at(request, 20) == 0
            &&& payload.take(given.len() as int) == given
        }),
{
    let full = api.request_header(header, params);
    let bytes = api.request_bytes(header, params);
    let none = Seq::<u8>::empty();
    law_request_reaches_peer(api, q, new, peer, header, params);
    let (head, payload) = peer.take_outcome(api.function, 24)->Ok_0;
    law_control_header_words(full, head + payload);
    law_control_header_words(full, bytes);
    full.law_header_round_trip(params_bytes(params));
    law_control_request_words(api, header, params);
    assert(payload.take(params_bytes(params).len() as int) =~= params_bytes(params));
}

/// The command that carries a control request is function 76, and is the request.
pub proof fn law_control_command<H: RmHeader>(cmd: RmControlCmd<H>, room: int)
    ensures
        <RmControlCmd<H> as GspCommand>::spec_function() == 76,
        cmd.encoded() == cmd.0.encoded(),
        cmd.spec_size() == cmd.0.spec_size(),
        cmd.written(room) == cmd.0.written(room),
{
}

} // verus!

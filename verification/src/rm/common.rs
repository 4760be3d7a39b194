//! What control and allocation requests have in common.
use vstd::prelude::*;
use crate::bytes::{u32_at, zeros};
use crate::checksum::checksum;
use crate::error::Error;
use crate::gsp::cmdq::{
    law_readiness_is_length, law_send_then_receive, sealed_message, GspCmdq, GspCommandElement, GspMessageElement,
};
use crate::gsp::fw::{
    pages_for, MSG_ELEMENT_SIZE, NV_VGPU_MSG_FUNCTION_GSP_RM_ALLOC,
    NV_VGPU_MSG_FUNCTION_GSP_RM_CONTROL,
};
use crate::poll::{first_decision, law_wait, wait_gives, PollAction, PollBudget};
use crate::rm::rm_alloc::RmAllocCmd;
use crate::rm::rm_control::RmControlCmd;
use crate::sbuffer::{at_most, SBufferReader, SBufferWriter};

verus! {

/// The fields that the headers of all RM requests have.
pub trait RmHeader: GspMessageElement {
    /// The header as it lies in memory.
    spec fn spec_bytes(&self) -> Seq<u8>;

    /// The header that `data` starts with.
    spec fn spec_from_bytes(data: Seq<u8>) -> Self;

    /// The header with another client handle.
    spec fn with_client(self, client: u32) -> Self;

    /// The header with another status.
    spec fn with_status(self, status: u32) -> Self;

    /// The header with another parameter size.
    spec fn with_params_size(self, size: u32) -> Self;

    /// The header with other flags.
    spec fn with_flags(self, flags: u32) -> Self;

    /// The status.
    spec fn spec_status(&self) -> u32;

    /// A header takes as many bytes as are needed to read one, and reading gives the
    /// header at the front.
    proof fn lemma_header(&self, data: Seq<u8>, rest: Seq<u8>)
        ensures
            self.spec_bytes().len() == Self::spec_fixed_size(),
            Self::decodes(data, *self, rest) <==> {
                &&& *self == Self::spec_from_bytes(data)
                &&& rest == data.skip(Self::spec_fixed_size() as int)
            },
    ;

    /// A header that is written out and read back is the same header.
    proof fn law_header_round_trip(&self, rest: Seq<u8>)
        ensures
            Self::spec_from_bytes(self.spec_bytes() + rest) == *self,
    ;

    /// The bytes of the header.
    fn to_bytes(&self) -> (r: Vec<u8>)
        ensures
            r@ == self.spec_bytes(),
    ;

    /// Sets the client handle of a request.
    fn set_client(&mut self, client: u32)
        ensures
            *final(self) == (*old(self)).with_client(client),
    ;

    /// Sets the status of a request.
    fn set_status(&mut self, status: u32)
        ensures
            *final(self) == (*old(self)).with_status(status),
    ;

    /// Sets the parameter size of a request.
    fn set_params_size(&mut self, size: u32)
        ensures
            *final(self) == (*old(self)).with_params_size(size),
    ;

    /// Sets the flags of a request.
    fn set_flags(&mut self, flags: u32)
        ensures
            *final(self) == (*old(self)).with_flags(flags),
    ;

    /// The status of a response.
    fn get_status(&self) -> (r: u32)
        ensures
            r == self.spec_status(),
    ;
}

/// A response: a header and the data that follows it.
#[derive(Debug)]
pub struct RmGspResponse<H: RmHeader> {
    pub header: H,
    pub data: Vec<u8>,
}

impl<H: RmHeader> GspMessageElement for RmGspResponse<H> {
    open spec fn spec_fixed_size() -> nat {
        H::spec_fixed_size()
    }

    open spec fn decodes(data: Seq<u8>, m: Self, rest: Seq<u8>) -> bool {
        &&& H::decodes(data, m.header, m.data@)
        &&& rest == Seq::<u8>::empty()
    }

    fn fixed_size() -> (r: usize) {
        H::fixed_size()
    }

    fn new_from_sbuf(sbuf: &mut SBufferReader) -> (r: Result<Self, Error>) {
        match H::new_from_sbuf(sbuf) {
            Ok(header) => {
                let data = sbuf.read_into_vec();
                Ok(RmGspResponse { header, data })
            },
            Err(e) => Err(e),
        }
    }
}

/// A request: a header and the parameters, if any.
pub struct RmMessage<'a, H: RmHeader> {
    pub header: H,
    pub params: Option<&'a [u8]>,
}

/// The bytes of optional parameters.
pub open spec fn params_bytes(params: Option<&[u8]>) -> Seq<u8> {
    match params {
        Some(p) => p@,
        None => Seq::empty(),
    }
}

impl<'a, H: RmHeader> GspCommandElement for RmMessage<'a, H> {
    open spec fn encoded(&self) -> Result<Seq<u8>, Error> {
        Ok(self.header.spec_bytes() + params_bytes(self.params))
    }

    open spec fn spec_size(&self) -> int {
        (H::spec_fixed_size() + params_bytes(self.params).len()) as int
    }

    open spec fn written(&self, room: int) -> Seq<u8> {
        at_most(self.header.spec_bytes() + params_bytes(self.params), room)
    }

    proof fn lemma_written(&self, room: int) {
    }

    fn copy_to_sbuf(&self, sbuf: &mut SBufferWriter) -> (r: Result<(), Error>) {
        let header_bytes = self.header.to_bytes();
        let ghost before = sbuf@;
        let ghost room = sbuf.room();
        let ghost head = self.header.spec_bytes();
        let ghost whole = head + params_bytes(self.params);
        match sbuf.write_all(header_bytes.as_slice()) {
            Ok(_) => {},
            Err(e) => {
                assert(head.take(room) =~= whole.take(room));
                return Err(e);
            },
        }
        if let Some(params) = self.params {
            match sbuf.write_all(params) {
                Ok(_) => {},
                Err(e) => {
                    assert(sbuf@ =~= before + whole.take(room));
                    return Err(e);
                },
            }
        }
        assert(sbuf@ =~= before + whole);
        Ok(())
    }

    fn size(&self) -> (r: usize) {
        let params_size = match self.params {
            Some(params) => params.len(),
            None => 0,
        };
        H::fixed_size() + params_size
    }
}

/// What the GSP tells about itself that requests need.
#[derive(Clone, Copy, Debug, PartialEq, Eq, Structural)]
pub struct GspStaticConfigInfo {
    /// Client handle for the driver's own requests.
    pub h_internal_client: u32,
    /// Handle of the subdevice for the driver's own requests.
    pub h_internal_subdevice: u32,
}

/// Time to wait for the response to a request, in microseconds.
pub const RM_RESPONSE_TIMEOUT_US: u64 = 5_000_000;

/// An RM API: requests of one function.
#[derive(Clone, Copy, Debug)]
pub struct RmApi {
    pub gsp_info: GspStaticConfigInfo,
    pub function: u32,
}

/// The function is one of the RM API.
pub open spec fn is_rm_function(function: u32) -> bool {
    ||| function == NV_VGPU_MSG_FUNCTION_GSP_RM_CONTROL
    ||| function == NV_VGPU_MSG_FUNCTION_GSP_RM_ALLOC
}

impl RmApi {
    /// The header with which a request is sent.
    pub open spec fn request_header<H: RmHeader>(self, header: H, params: Option<&[u8]>) -> H {
        header.with_client(self.gsp_info.h_internal_client).with_status(0).with_params_size(
            params_bytes(params).len() as u32,
        ).with_flags(0)
    }

    /// The bytes of a request.
    pub open spec fn request_bytes<H: RmHeader>(self, header: H, params: Option<&[u8]>) -> Seq<u8> {
        self.request_header(header, params).spec_bytes() + params_bytes(params)
    }

    /// Creates an RM API for `function`.
    pub fn new(gsp_info: GspStaticConfigInfo, function: u32) -> (r: Self)
        ensures
            r == (RmApi { gsp_info, function }),
    {
        RmApi { gsp_info, function }
    }

    /// Sends a request. The client, status, size and flags of the header are filled in.
    ///
    /// Fails with `EINVAL` if the function is not one of the RM API, and with `EAGAIN` if
    /// there is too little space. The queue is then left as it was.
    pub fn send_request<H: RmHeader>(
        &self,
        cmdq: &mut GspCmdq,
        header: H,
        params: Option<&[u8]>,
    ) -> (r: Result<(), Error>)
        requires
            old(cmdq).wf(),
            MSG_ELEMENT_SIZE + H::spec_fixed_size() + params_bytes(params).len() <= usize::MAX,
            is_rm_function(self.function) && old(cmdq).has_room(
                (H::spec_fixed_size() + params_bytes(params).len()) as int,
            ) ==> old(cmdq).seq < u32::MAX,
        ensures
            ({
                let bytes = self.request_bytes(header, params);
                let pages = pages_for(MSG_ELEMENT_SIZE + bytes.len());
                &&& bytes.len() == H::spec_fixed_size() + params_bytes(params).len()
                &&& r == (if !is_rm_function(self.function) {
                    Err(Error::EINVAL)
                } else if pages > old(cmdq).gsp_mem.free_pages() {
                    Err(Error::EAGAIN)
                } else {
                    Ok::<(), Error>(())
                })
                &&& r is Err ==> *final(cmdq) == *old(cmdq)
                &&& r is Ok ==> old(cmdq).sent(
                    *final(cmdq),
                    sealed_message(old(cmdq).seq, self.function, Seq::empty(), bytes),
                    pages,
                )
            }),
    {
        let params_size = match params {
            Some(p) => p.len(),
            None => 0,
        };
        let mut header = header;
        header.set_client(self.gsp_info.h_internal_client);
        header.set_status(0);
        header.set_params_size(params_size as u32);
        header.set_flags(0);
        proof {
            header.lemma_header(Seq::empty(), Seq::empty());
        }
        let msg = RmMessage { header, params };
        if self.function == NV_VGPU_MSG_FUNCTION_GSP_RM_CONTROL {
            cmdq.send(&RmControlCmd(msg))
        } else if self.function == NV_VGPU_MSG_FUNCTION_GSP_RM_ALLOC {
            cmdq.send(&RmAllocCmd(msg))
        } else {
            Err(Error::EINVAL)
        }
    }

    /// Looks for the response to a request. `None` means that there is none yet.
    pub fn poll_response<H: RmHeader>(&self, cmdq: &mut GspCmdq) -> (r: Option<
        Result<RmGspResponse<H>, Error>,
    >)
        requires
            old(cmdq).wf(),
            old(cmdq).message_ready(H::spec_fixed_size() as int) ==> old(cmdq).message_in_bounds(
                self.function,
                H::spec_fixed_size() as int,
            ),
        ensures
            ({
                let n = H::spec_fixed_size() as int;
                if !old(cmdq).message_ready(n) {
                    &&& r is None
                    &&& *final(cmdq) == *old(cmdq)
                } else {
                    match old(cmdq).take_outcome(self.function, n) {
                        Ok((head, payload)) => {
                            &&& r matches Some(Ok(m))
                            &&& m.header == H::spec_from_bytes(head + payload)
                            &&& m.data@ == payload
                            &&& old(cmdq).first_dropped(*final(cmdq))
                        },
                        Err(e) => {
                            &&& r == Some(Err::<RmGspResponse<H>, Error>(e))
                            &&& e == Error::ERANGE ==> old(cmdq).first_dropped(*final(cmdq))
                            &&& e == Error::EIO ==> *final(cmdq) == *old(cmdq)
                        },
                    }
                }
            }),
    {
        let received: Result<RmGspResponse<H>, Error> = cmdq.receive(self.function);
        match received {
            Ok(response) => {
                proof {
                    let n = H::spec_fixed_size() as int;
                    let (head, payload) = old(cmdq).take_outcome(self.function, n)->Ok_0;
                    let data = head + payload;
                    response.header.lemma_header(data, response.data@);
                    assert(data.skip(n) =~= payload);
                }
                Some(Ok(response))
            },
            Err(Error::EAGAIN) => None,
            Err(e) => Some(Err(e)),
        }
    }

    /// What a look for a response finds in the queue: the header and the data, or the error
    /// with which the message cannot be taken.
    pub open spec fn response_found<H: RmHeader>(self, cmdq: GspCmdq) -> Option<
        Result<(Seq<u8>, Seq<u8>), Error>,
    > {
        let n = H::spec_fixed_size() as int;
        if cmdq.message_ready(n) {
            Some(cmdq.take_outcome(self.function, n))
        } else {
            None
        }
    }

    /// What comes of a look for a response, `elapsed_us` after the first.
    pub open spec fn spec_response_step<H: RmHeader>(self, cmdq: GspCmdq, elapsed_us: u64) -> Option<
        Result<(Seq<u8>, Seq<u8>), Error>,
    > {
        match self.response_found::<H>(cmdq) {
            Some(found) => Some(found),
            None => if elapsed_us > RM_RESPONSE_TIMEOUT_US {
                Some(Err(Error::ETIMEDOUT))
            } else {
                None
            },
        }
    }

    /// One look for the response to a request, `elapsed_us` after the first. `None` means
    /// to look again.
    ///
    /// Ends with `ETIMEDOUT` if there is no response in time, and with the error with which
    /// the message could not be taken.
    pub fn response_step<H: RmHeader>(&self, cmdq: &mut GspCmdq, elapsed_us: u64) -> (r: Option<
        Result<RmGspResponse<H>, Error>,
    >)
        requires
            old(cmdq).wf(),
            old(cmdq).message_ready(H::spec_fixed_size() as int) ==> old(cmdq).message_in_bounds(
                self.function,
                H::spec_fixed_size() as int,
            ),
        ensures
            match self.spec_response_step::<H>(*old(cmdq), elapsed_us) {
                None => r is None && *final(cmdq) == *old(cmdq),
                Some(Ok((head, payload))) => {
                    &&& r matches Some(Ok(m))
                    &&& m.header == H::spec_from_bytes(head + payload)
                    &&& m.data@ == payload
                    &&& old(cmdq).first_dropped(*final(cmdq))
                },
                Some(Err(e)) => {
                    &&& r == Some(Err::<RmGspResponse<H>, Error>(e))
                    &&& if e == Error::ERANGE {
                        old(cmdq).first_dropped(*final(cmdq))
                    } else {
                        *final(cmdq) == *old(cmdq)
                    }
                },
            },
    {
        let polled: Option<Result<RmGspResponse<H>, Error>> = self.poll_response(cmdq);
        match polled {
            Some(received) => Some(received),
            None => {
                let budget = PollBudget { timeout_us: RM_RESPONSE_TIMEOUT_US };
                match budget.step(false, elapsed_us) {
                    PollAction::TimedOut => Some(Err(Error::ETIMEDOUT)),
                    _ => None,
                }
            },
        }
    }

    /// Reads the data of a response by `parse`, and returns what that returns. Fails with
    /// `EIO` if the response reports a failure, without calling it.
    pub fn parse_response<H: RmHeader, T, F: FnOnce(&[u8]) -> Result<T, Error>>(
        response: RmGspResponse<H>,
        parse: F,
    ) -> (r: Result<T, Error>)
        requires
            response.header.spec_status() == 0 ==> forall|data: &[u8]|
                data@ == response.data@ ==> #[trigger] call_requires(parse, (data,)),
        ensures
            if response.header.spec_status() != 0 {
                r == Err::<T, Error>(Error::EIO)
            } else {
                exists|data: &[u8]|
                    data@ == response.data@ && #[trigger] call_ensures(parse, (data,), r)
            },
    {
        if response.header.get_status() != 0 {
            return Err(Error::EIO);
        }
        parse(response.data.as_slice())
    }

    /// Handle of the subdevice for the driver's own requests.
    pub fn subdevice_handle(&self) -> (r: u32)
        ensures
            r == self.gsp_info.h_internal_subdevice,
    {
        self.gsp_info.h_internal_subdevice
    }
}

/// What a wait for a response gives that finds the queue as `looks[i]` at the time
/// `elapsed_us[i]`.
pub open spec fn response_wait<H: RmHeader>(
    api: RmApi,
    looks: Seq<GspCmdq>,
    elapsed_us: Seq<u64>,
) -> Option<Result<(Seq<u8>, Seq<u8>), Error>> {
    first_decision(
        Seq::new(looks.len(), |i: int| api.spec_response_step::<H>(looks[i], elapsed_us[i])),
    )
}

/// Waiting for a response, look by look, ends with what the first look finds that finds a
/// message, if none before came too late, and with `ETIMEDOUT` only if none does.
pub proof fn law_response_wait<H: RmHeader>(
    api: RmApi,
    looks: Seq<GspCmdq>,
    elapsed_us: Seq<u64>,
)
    requires
        looks.len() == elapsed_us.len(),
    ensures
        wait_gives(
            Seq::new(looks.len(), |i: int| api.response_found::<H>(looks[i])),
            elapsed_us,
            RM_RESPONSE_TIMEOUT_US,
            Err(Error::ETIMEDOUT),
            response_wait::<H>(api, looks, elapsed_us),
        ),
{
    law_wait(
        Seq::new(looks.len(), |i: int| api.spec_response_step::<H>(looks[i], elapsed_us[i])),
        Seq::new(looks.len(), |i: int| api.response_found::<H>(looks[i])),
        elapsed_us,
        RM_RESPONSE_TIMEOUT_US,
        Err(Error::ETIMEDOUT),
    );
}

/// A request that is sent reaches the other side: who takes a message of that function
/// there, with room for a header, finds the header of the request, and as data the
/// parameters, followed by what was in the last page before, unless that spoils the
/// checksum. Zeros never do.
pub proof fn law_request_reaches_peer<H: RmHeader>(
    api: RmApi,
    q: GspCmdq,
    new: GspCmdq,
    peer: GspCmdq,
    header: H,
    params: Option<&[u8]>,
)
    requires
        q.wf(),
        ({
            let bytes = api.request_bytes(header, params);
            let pages = pages_for(MSG_ELEMENT_SIZE + bytes.len());
            &&& pages <= q.gsp_mem.free_pages()
            &&& q.sent(new, sealed_message(q.seq, api.function, Seq::empty(), bytes), pages)
        }),
        peer.gsp_mem.mem.gspq.data@ == new.gsp_mem.mem.cpuq.data@,
        peer.gsp_mem.spec_gsp_write_ptr() == new.gsp_mem.spec_cpu_write_ptr(),
        peer.gsp_mem.spec_cpu_read_ptr() == q.gsp_mem.spec_cpu_write_ptr(),
    ensures
        ({
            let n = H::spec_fixed_size() as int;
            let bytes = api.request_bytes(header, params);
            let tail = q.stale_tail(MSG_ELEMENT_SIZE + bytes.len());
            let message = sealed_message(q.seq, api.function, Seq::empty(), bytes);
            &&& peer.message_ready(n)
            &&& tail == zeros(tail.len()) ==> checksum(message + tail) == 0
            &&& if checksum(message + tail) == 0 {
                &&& peer.take_outcome(api.function, n) matches Ok((head, payload))
                &&& H::spec_from_bytes(head + payload) == api.request_header(header, params)
                &&& payload == params_bytes(params) + tail
            } else {
                peer.take_outcome(api.function, n) == Err::<(Seq<u8>, Seq<u8>), Error>(Error::EIO)
            }
        }),
{
    let full = api.request_header(header, params);
    let bytes = api.request_bytes(header, params);
    let tail = q.stale_tail(MSG_ELEMENT_SIZE + bytes.len());
    let message = sealed_message(q.seq, api.function, Seq::empty(), bytes);
    let none = Seq::<u8>::empty();
    law_send_then_receive(q, new, peer, api.function, none, bytes);
    full.lemma_header(none, none);
    full.law_header_round_trip(params_bytes(params) + tail);
    let area = peer.gsp_mem.pending_bytes();
    if checksum(message + tail) == 0 {
        assert(area.skip(MSG_ELEMENT_SIZE as int) == bytes + tail) by {
            assert(peer.take_outcome(api.function, 0) is Ok);
        }
        lemma_split_request(
            area,
            MSG_ELEMENT_SIZE as int,
            full.spec_bytes(),
            params_bytes(params),
            tail,
        );
    }
}

/// A request in a buffer, split at the end of its header.
proof fn lemma_split_request(
    area: Seq<u8>,
    start: int,
    head: Seq<u8>,
    params: Seq<u8>,
    pad: Seq<u8>,
)
    requires
        0 <= start <= area.len(),
        area.skip(start) == head + params + pad,
    ensures
        area.subrange(start, start + head.len()) + area.skip(start + head.len()) == head + (params
            + pad),
        area.skip(start + head.len()) == params + pad,
{
    let n = head.len() as int;
    let rest = area.skip(start);
    assert(area.skip(start + n) =~= rest.skip(n));
    assert(rest.skip(n) =~= params + pad);
    assert(area.subrange(start, start + n) =~= rest.take(n));
    assert(rest.take(n) =~= head);
}

/// Control is function 76 and allocation function 103, and there are no others.
pub proof fn law_rm_functions(function: u32)
    ensures
        is_rm_function(function) <==> function == 76 || function == 103,
{
}

/// A request is a header and behind it the parameters, all of them, or nothing if there are
/// none. It is as long as both.
pub proof fn law_request_is_header_and_parameters<H: RmHeader>(msg: RmMessage<H>, room: int)
    requires
        0 <= room,
    ensures
        ({
            let params = match msg.params {
                Some(params) => params@,
                None => Seq::empty(),
            };
            &&& msg.encoded() == Ok::<Seq<u8>, Error>(msg.header.spec_bytes() + params)
            &&& msg.spec_size() == msg.header.spec_bytes().len() + params.len()
            &&& msg.written(room) == at_most(msg.header.spec_bytes() + params, room)
        }),
{
    msg.header.lemma_header(Seq::empty(), Seq::empty());
}

/// What is asked for behind the header of a request is what was given as parameters.
pub proof fn law_parameters_follow_header<H: RmHeader>(
    api: RmApi,
    header: H,
    params: Option<&[u8]>,
)
    ensures
        ({
            let given = match params {
                Some(params) => params@,
                None => Seq::empty(),
            };
            let bytes = api.request_bytes(header, params);
            &&& bytes.len() == H::spec_fixed_size() + given.len()
            &&& bytes.skip(H::spec_fixed_size() as int) == given
        }),
{
    let head = api.request_header(header, params);
    head.lemma_header(Seq::empty(), Seq::empty());
    assert(api.request_bytes(header, params).skip(H::spec_fixed_size() as int) =~= params_bytes(
        params,
    ));
}

/// A response is the first message that is long enough to hold its header, whatever else is
/// in the header of the message.
pub proof fn law_response_is_first_message<H: RmHeader>(api: RmApi, q: GspCmdq)
    ensures
        ({
            let n = H::spec_fixed_size() as int;
            let there = q.gsp_mem.pending_pages() > 0 && u32_at(q.gsp_mem.pending_bytes(), 56) >= n;
            &&& there ==> api.response_found::<H>(q) == Some(q.take_outcome(api.function, n))
            &&& !there ==> api.response_found::<H>(q) is None
        }),
{
    law_readiness_is_length(q, H::spec_fixed_size() as int);
}

/// A response counts at any time. Without one, the look is repeated up to the very end of
/// five seconds, and given up after.
pub proof fn law_response_look<H: RmHeader>(api: RmApi, q: GspCmdq, elapsed_us: u64)
    ensures
        ({
            let n = H::spec_fixed_size() as int;
            let there = q.gsp_mem.pending_pages() > 0 && u32_at(q.gsp_mem.pending_bytes(), 56) >= n;
            let r = api.spec_response_step::<H>(q, elapsed_us);
            &&& there ==> r == Some(q.take_outcome(api.function, n))
            &&& !there && elapsed_us <= 5_000_000 ==> r is None
            &&& !there && elapsed_us > 5_000_000 ==> r == Some(
                Err::<(Seq<u8>, Seq<u8>), Error>(Error::ETIMEDOUT),
            )
        }),
{
    law_response_is_first_message::<H>(api, q);
}

/// A response is read as a header and all that is behind it.
pub proof fn law_response_is_header_and_data<H: RmHeader>(
    data: Seq<u8>,
    response: RmGspResponse<H>,
    rest: Seq<u8>,
)
    requires
        RmGspResponse::decodes(data, response, rest),
        H::spec_fixed_size() <= data.len(),
    ensures
        <RmGspResponse<H> as GspMessageElement>::spec_fixed_size() == H::spec_fixed_size(),
        response.header == H::spec_from_bytes(data),
        response.data@ == data.skip(H::spec_fixed_size() as int),
        rest.len() == 0,
{
    response.header.lemma_header(data, response.data@);
}

} // verus!

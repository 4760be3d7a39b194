//! The command queue: framing of messages to and from the GSP.
use vstd::prelude::*;
use crate::bytes::{u32_at, zeros};
use crate::checksum::{
    checksum, law_altered_byte_changes_checksum, law_sealing_zeroes_checksum,
    law_zero_padding_keeps_checksum,
};
use crate::error::Error;
use crate::gsp::fw::{
    law_header_is_read_from_words, law_header_is_written_to_words, law_msg_element_round_trip,
    law_new_header, law_pages_hold_bytes, lemma_checksum_field, lemma_header_of_prefix, page_count, pages_for,
    GspMsgElement, MsgqTxHeader, CHECKSUM_OFFSET, GSP_PAGE_SIZE, MSGQ_DATA_SIZE, MSGQ_NUM_PAGES,
    MSG_ELEMENT_SIZE, PTE_ARRAY_LEN, RPC_HEADER_SIZE,
};
use crate::gsp::mem::{
    law_ring_gives_back_what_was_written, law_unread_pages_lead_to_write_pointer, lemma_free_pages_are_not_queued,
    lemma_ring_approach, lemma_ring_move, lemma_ring_skip, lemma_wrap, ring_bytes, ring_written,
    DmaGspMem,
};
use crate::poll::{first_decision, law_wait, wait_gives, PollAction, PollBudget};
use crate::sbuffer::{at_most, SBufferReader, SBufferWriter};

verus! {

/// Data that can be part of a command.
pub trait GspCommandElement {
    /// The bytes that `copy_to_sbuf` writes, or the error with which it fails.
    spec fn encoded(&self) -> Result<Seq<u8>, Error>;

    /// The size that the element announces.
    spec fn spec_size(&self) -> int;

    /// The bytes that `copy_to_sbuf` leaves in a buffer with `room` bytes of room, whether
    /// it fails or not.
    spec fn written(&self, room: int) -> Seq<u8>;

    /// What is left in a buffer fits in it, and is the whole element if it can be.
    proof fn lemma_written(&self, room: int)
        requires
            0 <= room,
        ensures
            self.written(room).len() <= room,
            self.encoded() matches Ok(data) ==> data.len() <= room ==> self.written(room) == data,
    ;

    /// Writes the element to `sbuf`.
    fn copy_to_sbuf(&self, sbuf: &mut SBufferWriter) -> (r: Result<(), Error>)
        ensures
            final(sbuf).limit() == old(sbuf).limit(),
            final(sbuf)@ == old(sbuf)@ + self.written(old(sbuf).room()),
            r == (match self.encoded() {
                Ok(data) => if data.len() <= old(sbuf).room() {
                    Ok(())
                } else {
                    Err(Error::ETOOSMALL)
                },
                Err(e) => Err::<(), Error>(e),
            }),
    ;

    /// The size of the element in bytes.
    fn size(&self) -> (r: usize)
        requires
            0 <= self.spec_size() <= usize::MAX,
        ensures
            r == self.spec_size(),
    ;
}

/// An element that is a command of its own.
pub trait GspCommand: GspCommandElement {
    spec fn spec_function() -> u32;

    /// The function code of the command.
    fn function() -> (r: u32)
        ensures
            r == Self::spec_function(),
    ;
}

/// Data that can be read from a message.
pub trait GspMessageElement: Sized {
    /// Bytes that the element takes at least.
    spec fn spec_fixed_size() -> nat;

    /// `m` is the element at the start of `data`, and `rest` is what follows it.
    spec fn decodes(data: Seq<u8>, m: Self, rest: Seq<u8>) -> bool;

    /// Bytes that the element takes at least.
    fn fixed_size() -> (r: usize)
        ensures
            r == Self::spec_fixed_size(),
    ;

    /// Reads the element from `sbuf`.
    fn new_from_sbuf(sbuf: &mut SBufferReader) -> (r: Result<Self, Error>)
        ensures
            match r {
                Ok(m) => {
                    &&& old(sbuf)@.len() >= Self::spec_fixed_size()
                    &&& Self::decodes(old(sbuf)@, m, final(sbuf)@)
                },
                Err(e) => {
                    &&& old(sbuf)@.len() < Self::spec_fixed_size()
                    &&& e == Error::EINVAL
                },
            },
    ;
}

/// The payload of commands that have none.
pub struct NoPayload;

impl GspCommandElement for NoPayload {
    open spec fn encoded(&self) -> Result<Seq<u8>, Error> {
        Ok(Seq::empty())
    }

    open spec fn spec_size(&self) -> int {
        0
    }

    open spec fn written(&self, room: int) -> Seq<u8> {
        Seq::empty()
    }

    proof fn lemma_written(&self, room: int) {
    }

    fn copy_to_sbuf(&self, sbuf: &mut SBufferWriter) -> (r: Result<(), Error>) {
        let none: [u8; 0] = [];
        assert(none@ =~= Seq::empty());
        sbuf.write_all(&none)
    }

    fn size(&self) -> (r: usize) {
        0
    }
}

/// Plain bytes, as a command or a payload.
pub struct PlainBytes<'a> {
    pub data: &'a [u8],
}

impl<'a> GspCommandElement for PlainBytes<'a> {
    open spec fn encoded(&self) -> Result<Seq<u8>, Error> {
        Ok(self.data@)
    }

    open spec fn spec_size(&self) -> int {
        self.data@.len() as int
    }

    open spec fn written(&self, room: int) -> Seq<u8> {
        at_most(self.data@, room)
    }

    proof fn lemma_written(&self, room: int) {
    }

    fn copy_to_sbuf(&self, sbuf: &mut SBufferWriter) -> (r: Result<(), Error>) {
        sbuf.write_all(self.data)
    }

    fn size(&self) -> (r: usize) {
        self.data.len()
    }
}

/// Bytes that were written by something else, which announced `size` bytes and ended with
/// `outcome`.
pub struct WrittenBytes<'a> {
    pub data: &'a [u8],
    pub size: usize,
    pub outcome: Result<(), Error>,
}

impl<'a> GspCommandElement for WrittenBytes<'a> {
    open spec fn encoded(&self) -> Result<Seq<u8>, Error> {
        match self.outcome {
            Ok(_) => Ok(self.data@),
            Err(e) => Err(e),
        }
    }

    open spec fn spec_size(&self) -> int {
        self.size as int
    }

    open spec fn written(&self, room: int) -> Seq<u8> {
        at_most(self.data@, room)
    }

    proof fn lemma_written(&self, room: int) {
    }

    fn copy_to_sbuf(&self, sbuf: &mut SBufferWriter) -> (r: Result<(), Error>) {
        let copied = sbuf.write_all(self.data);
        match self.outcome {
            Ok(_) => copied,
            Err(e) => Err(e),
        }
    }

    fn size(&self) -> (r: usize) {
        self.size
    }
}

/// A message before its checksum is filled in.
pub open spec fn unsealed_message(
    seq: u32,
    function: u32,
    cmd: Seq<u8>,
    payload: Seq<u8>,
) -> Seq<u8> {
    GspMsgElement::spec_new(seq, (cmd.len() + payload.len()) as int, function).spec_bytes() + cmd
        + payload
}

/// A message as it is put into the ring.
pub open spec fn sealed_message(
    seq: u32,
    function: u32,
    cmd: Seq<u8>,
    payload: Seq<u8>,
) -> Seq<u8> {
    GspMsgElement {
        check_sum: checksum(unsealed_message(seq, function, cmd, payload)),
        ..GspMsgElement::spec_new(seq, (cmd.len() + payload.len()) as int, function)
    }.spec_bytes() + cmd + payload
}

/// What taking a sealed message gives if `tail` follows it in the unread pages.
pub open spec fn received(
    seq: u32,
    function: u32,
    cmd: Seq<u8>,
    payload: Seq<u8>,
    tail: Seq<u8>,
) -> Result<(Seq<u8>, Seq<u8>), Error> {
    if checksum(sealed_message(seq, function, cmd, payload) + tail) == 0 {
        Ok((cmd, payload + tail))
    } else {
        Err(Error::EIO)
    }
}

/// Whether a payload can be sent in a message with `payload_size` bytes of room for
/// it: it must fill that room exactly.
pub open spec fn payload_outcome(encoded: Result<Seq<u8>, Error>, payload_size: int) -> Result<
    (),
    Error,
> {
    match encoded {
        Ok(data) => if data.len() > payload_size {
            Err(Error::ETOOSMALL)
        } else if data.len() < payload_size {
            Err(Error::EINVAL)
        } else {
            Ok(())
        },
        Err(e) => Err(e),
    }
}

/// Puts a header in front of a command and its payload.
fn frame(header: &GspMsgElement, cmd: &Vec<u8>, data: &Vec<u8>) -> (r: Vec<u8>)
    ensures
        r@ == header.spec_bytes() + cmd@ + data@,
{
    let mut msg = header.to_bytes();
    msg.extend_from_slice(cmd.as_slice());
    assert(msg@ =~= header.spec_bytes() + cmd@);
    msg.extend_from_slice(data.as_slice());
    assert(msg@ =~= header.spec_bytes() + cmd@ + data@);
    msg
}

/// Makes a message of a command and its payload: the header, and all of its bytes.
fn seal(seq: u32, function: u32, cmd: &Vec<u8>, data: &Vec<u8>) -> (r: (GspMsgElement, Vec<u8>))
    requires
        MSG_ELEMENT_SIZE + cmd@.len() + data@.len() <= MSGQ_DATA_SIZE,
    ensures
        r.0.elem_count == pages_for(MSG_ELEMENT_SIZE + cmd@.len() + data@.len()),
        r.1@ == sealed_message(seq, function, cmd@, data@),
        r.1@.len() == MSG_ELEMENT_SIZE + cmd@.len() + data@.len(),
{
    let mut header = GspMsgElement::new(seq, cmd.len() + data.len(), function);
    proof {
        law_msg_element_round_trip(header, Seq::empty());
    }
    let msg = frame(&header, cmd, data);
    let check_sum = {
        let reader = SBufferReader::new_reader(msg.as_slice(), &[]);
        assert(reader@ =~= msg@);
        GspCmdq::calculate_checksum(&reader)
    };
    header.check_sum = check_sum;
    proof {
        law_msg_element_round_trip(header, Seq::empty());
    }
    let sealed = frame(&header, cmd, data);
    (header, sealed)
}

/// What is to be sent: a command and its payload, each with the size that is announced
/// for it, its bytes or the error with which it fails, and what it leaves in the ring
/// either way.
pub struct SendAttempt {
    pub function: u32,
    pub cmd_size: int,
    pub cmd: Result<Seq<u8>, Error>,
    pub cmd_written: Seq<u8>,
    pub payload_size: int,
    pub payload: Result<Seq<u8>, Error>,
    pub payload_written: Seq<u8>,
}

impl SendAttempt {
    /// The attempt to send a command with a payload of `payload_size` bytes.
    pub open spec fn of<C: GspCommandElement, P: GspCommandElement>(
        function: u32,
        cmd: &C,
        payload_size: int,
        payload: &P,
    ) -> Self {
        SendAttempt {
            function,
            cmd_size: cmd.spec_size(),
            cmd: cmd.encoded(),
            cmd_written: cmd.written(cmd.spec_size()),
            payload_size,
            payload: payload.encoded(),
            payload_written: payload.written(payload_size),
        }
    }

    /// The command has the size that is announced, and fits in a page with the header. No
    /// more is written than there is room for.
    pub open spec fn wf(self) -> bool {
        &&& 0 <= self.cmd_size
        &&& 0 <= self.payload_size
        &&& MSG_ELEMENT_SIZE + self.cmd_size <= GSP_PAGE_SIZE
        &&& self.cmd matches Ok(data) ==> data.len() == self.cmd_size
        &&& self.cmd_written.len() <= self.cmd_size
        &&& self.payload_written.len() <= self.payload_size
    }

    /// The bytes that the message takes in the ring, its header included.
    pub open spec fn size(self) -> int {
        MSG_ELEMENT_SIZE + self.cmd_size + self.payload_size
    }

    /// What a failed attempt to send message number `seq` leaves at the write pointer, if
    /// there was space: a header without a checksum, what was written of the command, and,
    /// unless that failed, what was written of the payload.
    pub open spec fn left_behind(self, seq: u32) -> Seq<u8> {
        GspMsgElement::spec_new(seq, self.cmd_size + self.payload_size, self.function).spec_bytes()
            + self.cmd_written + if self.cmd is Ok {
            self.payload_written
        } else {
            Seq::empty()
        }
    }
}

/// The driver's end of the queues.
#[derive(Debug)]
pub struct GspCmdq {
    pub seq: u32,
    pub gsp_mem: DmaGspMem,
}

impl GspCmdq {
    pub open spec fn wf(self) -> bool {
        self.gsp_mem.wf()
    }

    /// `new` is the queue after the message `bytes`, which takes `pages` pages, was put
    /// into `self`.
    pub open spec fn sent(self, new: Self, bytes: Seq<u8>, pages: int) -> bool {
        &&& new.wf()
        &&& new.seq == self.seq + 1
        &&& ring_written(
            self.gsp_mem.mem.cpuq.data@,
            new.gsp_mem.mem.cpuq.data@,
            self.gsp_mem.spec_cpu_write_ptr() * GSP_PAGE_SIZE,
            bytes,
        )
        &&& new.gsp_mem.mem.cpuq.tx == MsgqTxHeader {
            write_ptr: ((self.gsp_mem.spec_cpu_write_ptr() + pages) % MSGQ_NUM_PAGES as int) as u32,
            ..self.gsp_mem.mem.cpuq.tx
        }
        &&& new.gsp_mem.mem.cpuq.rx == self.gsp_mem.mem.cpuq.rx
        &&& new.gsp_mem.mem.gspq == self.gsp_mem.mem.gspq
        &&& new.gsp_mem.mem.ptes == self.gsp_mem.mem.ptes
        &&& new.gsp_mem.handle == self.gsp_mem.handle
    }

    /// The bytes of the command ring that would follow a message of `size` bytes in its
    /// last page.
    pub open spec fn stale_tail(self, size: int) -> Seq<u8> {
        ring_bytes(
            self.gsp_mem.mem.cpuq.data@,
            self.gsp_mem.spec_cpu_write_ptr() * GSP_PAGE_SIZE + size,
            pages_for(size) * GSP_PAGE_SIZE - size,
        )
    }

    /// Writes a message of `elem_count` pages into the ring and hands it to the GSP.
    fn enqueue(&mut self, message: &Vec<u8>, elem_count: u32)
        requires
            old(self).wf(),
            old(self).seq < u32::MAX,
            message@.len() <= MSGQ_DATA_SIZE,
            elem_count <= MSGQ_NUM_PAGES,
        ensures
            old(self).sent(*final(self), message@, elem_count as int),
    {
        self.gsp_mem.write_command(message);
        self.seq = self.seq + 1;
        self.gsp_mem.advance_cpu_write_ptr(elem_count);
    }

    /// Leaves a header, and what was written of a command and its payload, at the write
    /// pointer.
    fn scribble(&mut self, header: &GspMsgElement, cmd: &Vec<u8>, payload: &Vec<u8>)
        requires
            old(self).wf(),
            MSG_ELEMENT_SIZE + cmd@.len() + payload@.len() <= MSGQ_DATA_SIZE,
        ensures
            old(self).scribbled(*final(self), header.spec_bytes() + cmd@ + payload@),
    {
        proof {
            law_msg_element_round_trip(*header, Seq::empty());
        }
        let left = frame(header, cmd, payload);
        self.gsp_mem.write_command(&left);
    }

    /// There is room for a message of `size` bytes behind its header.
    pub open spec fn has_room(self, size: int) -> bool {
        pages_for(MSG_ELEMENT_SIZE + size) <= self.gsp_mem.free_pages()
    }

    /// What sending gives: the first thing that goes wrong, in the order in which the
    /// space is reserved, the command written and the payload written.
    pub open spec fn send_outcome(
        self,
        cmd_size: int,
        cmd: Result<Seq<u8>, Error>,
        payload_size: int,
        payload: Result<Seq<u8>, Error>,
    ) -> Result<(), Error> {
        if !self.has_room(cmd_size + payload_size) {
            Err(Error::EAGAIN)
        } else if cmd is Err {
            Err(cmd->Err_0)
        } else {
            payload_outcome(payload, payload_size)
        }
    }

    /// `new` is the queue after `bytes` were left at the write pointer, and nothing was sent.
    pub open spec fn scribbled(self, new: Self, bytes: Seq<u8>) -> bool {
        &&& new.wf()
        &&& new.seq == self.seq
        &&& ring_written(
            self.gsp_mem.mem.cpuq.data@,
            new.gsp_mem.mem.cpuq.data@,
            self.gsp_mem.spec_cpu_write_ptr() * GSP_PAGE_SIZE,
            bytes,
        )
        &&& new.gsp_mem.mem.cpuq.tx == self.gsp_mem.mem.cpuq.tx
        &&& new.gsp_mem.mem.cpuq.rx == self.gsp_mem.mem.cpuq.rx
        &&& new.gsp_mem.mem.gspq == self.gsp_mem.mem.gspq
        &&& new.gsp_mem.mem.ptes == self.gsp_mem.mem.ptes
        &&& new.gsp_mem.handle == self.gsp_mem.handle
    }

    /// `new` is the queue, and `r` the result, after an attempt to send a command. One that
    /// fails for want of space changes nothing, and any other that fails changes only what
    /// is at the write pointer.
    pub open spec fn send_gives(
        self,
        new: Self,
        attempt: SendAttempt,
        r: Result<(), Error>,
    ) -> bool {
        &&& r == self.send_outcome(
            attempt.cmd_size,
            attempt.cmd,
            attempt.payload_size,
            attempt.payload,
        )
        &&& match r {
            Ok(_) => self.sent(
                new,
                sealed_message(
                    self.seq,
                    attempt.function,
                    attempt.cmd->Ok_0,
                    attempt.payload->Ok_0,
                ),
                pages_for(attempt.size()),
            ),
            Err(_) => if self.has_room(attempt.cmd_size + attempt.payload_size) {
                self.scribbled(new, attempt.left_behind(self.seq))
            } else {
                new == self
            },
        }
    }

    /// The header of the message at page `page` of the command ring.
    pub open spec fn command_header_at(self, page: int) -> GspMsgElement {
        GspMsgElement::spec_from_bytes(
            ring_bytes(
                self.gsp_mem.mem.cpuq.data@,
                page * GSP_PAGE_SIZE,
                MSG_ELEMENT_SIZE as int,
            ),
        )
    }

    /// Puts a command into the command ring: a header, the command itself, and
    /// `payload_size` bytes of payload. The header and the command must fit in a page.
    ///
    /// Fails with `EAGAIN` if there is too little space, with the error of the command
    /// or the payload if they have one, with `EINVAL` if the payload is shorter than
    /// announced and with `ETOOSMALL` if it is longer. Nothing is then sent; but unless
    /// there was too little space, what was written is left in the free pages.
    ///
    /// Once this has succeeded, the GSP is to be notified.
    pub fn send_gsp_command_internal<C: GspCommandElement, P: GspCommandElement>(
        &mut self,
        function: u32,
        cmd: &C,
        payload_size: usize,
        payload: &P,
    ) -> (r: Result<(), Error>)
        requires
            old(self).wf(),
            0 <= cmd.spec_size(),
            cmd.encoded() is Ok ==> cmd.encoded()->Ok_0.len() == cmd.spec_size(),
            MSG_ELEMENT_SIZE + cmd.spec_size() <= GSP_PAGE_SIZE,
            MSG_ELEMENT_SIZE + cmd.spec_size() + payload_size <= usize::MAX,
            old(self).send_outcome(
                cmd.spec_size(),
                cmd.encoded(),
                payload_size as int,
                payload.encoded(),
            ) is Ok ==> old(self).seq < u32::MAX,
        ensures
            old(self).send_gives(
                *final(self),
                SendAttempt::of(function, cmd, payload_size as int, payload),
                r,
            ),
    {
        let cmd_size = cmd.size();
        match self.gsp_mem.allocate_command(MSG_ELEMENT_SIZE + cmd_size + payload_size) {
            Ok(_) => {},
            Err(e) => {
                return Err(e);
            },
        }

        proof {
            cmd.lemma_written(cmd_size as int);
            payload.lemma_written(payload_size as int);
        }
        let header = GspMsgElement::new(self.seq, cmd_size + payload_size, function);
        let mut cmd_buffer = SBufferWriter::new_writer(cmd_size);
        let cmd_result = cmd.copy_to_sbuf(&mut cmd_buffer);
        let cmd_data = cmd_buffer.into_vec();
        assert(cmd_data@ =~= cmd.written(cmd_size as int));
        match cmd_result {
            Ok(_) => {},
            Err(e) => {
                let none: Vec<u8> = Vec::new();
                self.scribble(&header, &cmd_data, &none);
                return Err(e);
            },
        }

        let mut sbuffer = SBufferWriter::new_writer(payload_size);
        let payload_result = payload.copy_to_sbuf(&mut sbuffer);
        let filled = sbuffer.is_empty();
        let payload_data = sbuffer.into_vec();
        assert(payload_data@ =~= payload.written(payload_size as int));
        match payload_result {
            Ok(_) => {},
            Err(e) => {
                self.scribble(&header, &cmd_data, &payload_data);
                return Err(e);
            },
        }
        if !filled {
            self.scribble(&header, &cmd_data, &payload_data);
            return Err(Error::EINVAL);
        }

        let (header, message) = seal(self.seq, function, &cmd_data, &payload_data);
        self.enqueue(&message, header.elem_count);
        Ok(())
    }

    /// Sends a command that has a payload of `payload_size` bytes.
    pub fn send_gsp_command_with_payload<C: GspCommandElement, P: GspCommandElement>(
        &mut self,
        function: u32,
        cmd: &C,
        payload_size: usize,
        payload: &P,
    ) -> (r: Result<(), Error>)
        requires
            old(self).wf(),
            0 <= cmd.spec_size(),
            cmd.encoded() is Ok ==> cmd.encoded()->Ok_0.len() == cmd.spec_size(),
            MSG_ELEMENT_SIZE + cmd.spec_size() <= GSP_PAGE_SIZE,
            MSG_ELEMENT_SIZE + cmd.spec_size() + payload_size <= usize::MAX,
            old(self).send_outcome(
                cmd.spec_size(),
                cmd.encoded(),
                payload_size as int,
                payload.encoded(),
            ) is Ok ==> old(self).seq < u32::MAX,
        ensures
            old(self).send_gives(
                *final(self),
                SendAttempt::of(function, cmd, payload_size as int, payload),
                r,
            ),
    {
        self.send_gsp_command_internal(function, cmd, payload_size, payload)
    }

    /// Sends a command that has no payload.
    pub fn send_gsp_command<C: GspCommandElement>(&mut self, function: u32, cmd: &C) -> (r: Result<
        (),
        Error,
    >)
        requires
            old(self).wf(),
            0 <= cmd.spec_size(),
            cmd.encoded() is Ok ==> cmd.encoded()->Ok_0.len() == cmd.spec_size(),
            MSG_ELEMENT_SIZE + cmd.spec_size() <= GSP_PAGE_SIZE,
            old(self).send_outcome(cmd.spec_size(), cmd.encoded(), 0, Ok(Seq::empty())) is Ok
                ==> old(self).seq < u32::MAX,
        ensures
            old(self).send_gives(
                *final(self),
                SendAttempt::of(function, cmd, 0, &NoPayload),
                r,
            ),
    {
        self.send_gsp_command_internal(function, cmd, 0, &NoPayload)
    }

    /// Sends an element that is a command of its own. All of it is payload, so it may
    /// take any number of pages.
    pub fn send<C: GspCommand>(&mut self, cmd: &C) -> (r: Result<(), Error>)
        requires
            old(self).wf(),
            0 <= cmd.spec_size(),
            MSG_ELEMENT_SIZE + cmd.spec_size() <= usize::MAX,
            old(self).send_outcome(0, Ok(Seq::empty()), cmd.spec_size(), cmd.encoded()) is Ok
                ==> old(self).seq < u32::MAX,
        ensures
            old(self).send_gives(
                *final(self),
                SendAttempt::of(C::spec_function(), &NoPayload, cmd.spec_size(), cmd),
                r,
            ),
    {
        let size = cmd.size();
        self.send_gsp_command_internal(C::function(), &NoPayload, size, cmd)
    }

    /// The header at the front of the status ring.
    pub open spec fn first_header(self) -> GspMsgElement {
        GspMsgElement::spec_from_bytes(self.gsp_mem.pending_bytes())
    }

    /// There is a message, and it announces at least `msg_size` bytes.
    pub open spec fn message_ready(self, msg_size: int) -> bool {
        &&& self.gsp_mem.pending_pages() > 0
        &&& self.first_header().rpc.length >= msg_size
    }

    /// The pages of the first message can be counted.
    pub open spec fn message_countable(self) -> bool {
        MSG_ELEMENT_SIZE - RPC_HEADER_SIZE + self.first_header().rpc.length <= u32::MAX
    }

    /// The first `msg_size` bytes of the first message lie in front of the end of the ring.
    pub open spec fn message_whole(self, msg_size: int) -> bool {
        MSG_ELEMENT_SIZE + msg_size <= self.gsp_mem.first_pending_bytes()
    }

    /// The first `msg_size` bytes of the first message, behind its header.
    pub open spec fn message_head(self, msg_size: int) -> Seq<u8> {
        self.gsp_mem.pending_bytes().subrange(
            MSG_ELEMENT_SIZE as int,
            MSG_ELEMENT_SIZE + msg_size,
        )
    }

    /// The first message can be taken as one of the given function: its first `msg_size`
    /// bytes lie in front of the end of the ring, if it is of that function, and its
    /// pages can be counted, if it is to be dropped.
    pub open spec fn message_in_bounds(self, function: u32, msg_size: int) -> bool {
        if self.first_header().rpc.function != function {
            self.message_countable()
        } else {
            &&& self.message_whole(msg_size)
            &&& checksum(self.gsp_mem.pending_bytes()) == 0 ==> self.message_countable()
        }
    }

    /// Pages that the first message takes.
    pub open spec fn message_pages(self) -> int {
        pages_for(MSG_ELEMENT_SIZE - RPC_HEADER_SIZE + self.first_header().rpc.length)
    }

    /// What taking a message of the given function gives: its first `msg_size` bytes,
    /// and what follows up to the end of the unread pages.
    pub open spec fn take_outcome(self, function: u32, msg_size: int) -> Result<
        (Seq<u8>, Seq<u8>),
        Error,
    > {
        let area = self.gsp_mem.pending_bytes();
        if self.first_header().rpc.function != function {
            Err(Error::ERANGE)
        } else if checksum(area) != 0 {
            Err(Error::EIO)
        } else {
            Ok(
                (self.message_head(msg_size), area.skip(MSG_ELEMENT_SIZE + msg_size)),
            )
        }
    }

    /// `new` is the queue after the first message was dropped from the status ring.
    pub open spec fn first_dropped(self, new: Self) -> bool {
        &&& new.wf()
        &&& new.seq == self.seq
        &&& new.gsp_mem.mem.cpuq.rx.read_ptr == (self.gsp_mem.spec_cpu_read_ptr()
            + self.message_pages()) % MSGQ_NUM_PAGES as int
        &&& new.gsp_mem.mem.cpuq.tx == self.gsp_mem.mem.cpuq.tx
        &&& new.gsp_mem.mem.cpuq.data == self.gsp_mem.mem.cpuq.data
        &&& new.gsp_mem.mem.gspq == self.gsp_mem.mem.gspq
        &&& new.gsp_mem.mem.ptes == self.gsp_mem.mem.ptes
        &&& new.gsp_mem.handle == self.gsp_mem.handle
    }

    /// Looks for a message that announces at least `msg_size` bytes, and returns its
    /// header.
    pub fn poll_message(&self, msg_size: usize) -> (r: Option<GspMsgElement>)
        requires
            self.wf(),
        ensures
            r == (if self.message_ready(msg_size as int) {
                Some(self.first_header())
            } else {
                None
            }),
    {
        let (first, second) = self.gsp_mem.pending();
        if first.len() < MSG_ELEMENT_SIZE {
            return None;
        }
        let header = GspMsgElement::from_bytes(first);
        proof {
            lemma_header_of_prefix(first@, second@);
        }
        if (header.rpc.length as usize) < msg_size {
            return None;
        }
        Some(header)
    }

    /// What comes of a look for a message that announces at least `msg_size` bytes,
    /// `elapsed_us` after the first.
    pub open spec fn spec_wait_step(self, msg_size: int, elapsed_us: u64, timeout_us: u64) -> Option<
        Result<GspMsgElement, Error>,
    > {
        if self.message_ready(msg_size) {
            Some(Ok(self.first_header()))
        } else if elapsed_us > timeout_us {
            Some(Err(Error::ETIMEDOUT))
        } else {
            None
        }
    }

    /// One look for a message that announces at least `msg_size` bytes, `elapsed_us`
    /// after the first. `None` means to look again; otherwise, the header of the message,
    /// or `ETIMEDOUT` if none came in time.
    pub fn wait_step(&self, msg_size: usize, elapsed_us: u64, timeout_us: u64) -> (r: Option<
        Result<GspMsgElement, Error>,
    >)
        requires
            self.wf(),
        ensures
            r == self.spec_wait_step(msg_size as int, elapsed_us, timeout_us),
    {
        let budget = PollBudget { timeout_us };
        let message = self.poll_message(msg_size);
        match budget.step(message.is_some(), elapsed_us) {
            PollAction::Done => match message {
                Some(header) => Some(Ok(header)),
                None => None,
            },
            PollAction::TimedOut => Some(Err(Error::ETIMEDOUT)),
            PollAction::Sleep => None,
        }
    }

    /// Returns whether the first message can be taken as one of the given function, with
    /// `msg_size` bytes of its own.
    pub fn message_fits(&self, function: u32, msg_size: usize) -> (r: bool)
        requires
            self.wf(),
            self.gsp_mem.pending_pages() > 0,
        ensures
            r == self.message_in_bounds(function, msg_size as int),
    {
        let (first, second) = self.gsp_mem.pending();
        let header = GspMsgElement::from_bytes(first);
        proof {
            lemma_header_of_prefix(first@, second@);
        }
        let countable = header.rpc.length <= u32::MAX - (MSG_ELEMENT_SIZE
            - RPC_HEADER_SIZE) as u32;
        if header.rpc.function != function {
            countable
        } else if first.len() - MSG_ELEMENT_SIZE < msg_size {
            false
        } else {
            let reader = SBufferReader::new_reader(first, second);
            countable || GspCmdq::calculate_checksum(&reader) != 0
        }
    }

    /// Returns the first `msg_size` bytes of the first message, behind its header, if they
    /// lie in front of the end of the ring.
    pub fn peek_message(&self, msg_size: usize) -> (r: Option<&[u8]>)
        requires
            self.wf(),
            self.gsp_mem.pending_pages() > 0,
        ensures
            match r {
                Some(head) => self.message_whole(msg_size as int) && head@ == self.message_head(
                    msg_size as int,
                ),
                None => !self.message_whole(msg_size as int),
            },
    {
        let (first, second) = self.gsp_mem.pending();
        if first.len() - MSG_ELEMENT_SIZE < msg_size {
            return None;
        }
        let head = vstd::slice::slice_subrange(
            first,
            MSG_ELEMENT_SIZE,
            MSG_ELEMENT_SIZE + msg_size,
        );
        assert(head@ =~= (first@ + second@).subrange(
            MSG_ELEMENT_SIZE as int,
            MSG_ELEMENT_SIZE + msg_size,
        ));
        Some(head)
    }

    /// Gives the pages that hold the first `size` bytes of the status ring back.
    fn release(&mut self, size: usize)
        requires
            old(self).wf(),
            size <= u32::MAX,
        ensures
            final(self).gsp_mem.mem.cpuq.rx.read_ptr == (old(self).gsp_mem.spec_cpu_read_ptr()
                + pages_for(size as int)) % MSGQ_NUM_PAGES as int,
            final(self).gsp_mem.mem.cpuq.tx == old(self).gsp_mem.mem.cpuq.tx,
            final(self).gsp_mem.mem.cpuq.data == old(self).gsp_mem.mem.cpuq.data,
            final(self).gsp_mem.mem.gspq == old(self).gsp_mem.mem.gspq,
            final(self).gsp_mem.mem.ptes == old(self).gsp_mem.mem.ptes,
            final(self).gsp_mem.handle == old(self).gsp_mem.handle,
            final(self).seq == old(self).seq,
    {
        let pages = page_count(size);
        self.gsp_mem.advance_cpu_read_ptr(pages as u32);
    }

    /// Takes the first message from the status ring: its first `msg_size` bytes, and
    /// its payload.
    ///
    /// Fails with `ERANGE` if it is not of the given function; the message is then
    /// dropped. Fails with `EIO` if the checksum is wrong; the message then stays.
    pub fn take_message(&mut self, function: u32, msg_size: usize) -> (r: Result<
        (Vec<u8>, Vec<u8>),
        Error,
    >)
        requires
            old(self).wf(),
            old(self).message_ready(msg_size as int),
            old(self).message_in_bounds(function, msg_size as int),
        ensures
            match old(self).take_outcome(function, msg_size as int) {
                Ok((cmd, payload)) => {
                    &&& r matches Ok(m)
                    &&& m.0@ == cmd
                    &&& m.1@ == payload
                    &&& old(self).first_dropped(*final(self))
                },
                Err(e) => {
                    &&& r == Err::<(Vec<u8>, Vec<u8>), Error>(e)
                    &&& e == Error::ERANGE ==> old(self).first_dropped(*final(self))
                    &&& e == Error::EIO ==> *final(self) == *old(self)
                },
            },
    {
        let header = match self.poll_message(msg_size) {
            Some(header) => header,
            None => {
                return Err(Error::EAGAIN);
            },
        };
        if header.rpc.function != function {
            self.release(MSG_ELEMENT_SIZE - RPC_HEADER_SIZE + header.rpc.length as usize);
            return Err(Error::ERANGE);
        }
        let (first, second) = self.gsp_mem.pending();
        let reader = SBufferReader::new_reader(first, second);
        if GspCmdq::calculate_checksum(&reader) != 0 {
            return Err(Error::EIO);
        }
        let cmd = vstd::slice::slice_to_vec(
            vstd::slice::slice_subrange(first, MSG_ELEMENT_SIZE, MSG_ELEMENT_SIZE + msg_size),
        );
        let mut payload = vstd::slice::slice_to_vec(
            vstd::slice::slice_subrange(first, MSG_ELEMENT_SIZE + msg_size, first.len()),
        );
        payload.extend_from_slice(second);
        proof {
            let area = self.gsp_mem.pending_bytes();
            assert(cmd@ =~= area.subrange(MSG_ELEMENT_SIZE as int, MSG_ELEMENT_SIZE + msg_size));
            assert(payload@ =~= area.skip(MSG_ELEMENT_SIZE + msg_size));
        }
        self.release(MSG_ELEMENT_SIZE - RPC_HEADER_SIZE + header.rpc.length as usize);
        Ok((cmd, payload))
    }

    /// Takes the first message from the status ring, reads its first `msg_size` bytes by
    /// `parse`, and hands what that gives and the payload to `init`. Returns what `init`
    /// returns.
    ///
    /// Fails with `ERANGE` if the message is not of the given function; it is then
    /// dropped. Fails with `EINVAL` if `parse` gives nothing, and with `EIO` if the
    /// checksum is wrong; the message then stays.
    pub fn receive_msg_from_gsp<
        M,
        R,
        P: FnOnce(&[u8]) -> Option<M>,
        F: FnOnce(M, SBufferReader) -> Result<R, Error>,
    >(&mut self, function: u32, msg_size: usize, parse: P, init: F) -> (r: Result<R, Error>)
        requires
            old(self).wf(),
            old(self).message_ready(msg_size as int),
            old(self).first_header().rpc.function != function ==> old(self).message_countable(),
            old(self).first_header().rpc.function == function ==> old(self).message_whole(
                msg_size as int,
            ),
            forall|data: &[u8], m: M|
                old(self).first_header().rpc.function == function && data@ == old(
                    self,
                ).message_head(msg_size as int) && checksum(old(self).gsp_mem.pending_bytes()) == 0
                    && #[trigger] call_ensures(parse, (data,), Some(m)) ==> old(
                    self,
                ).message_countable(),
            forall|data: &[u8]| call_requires(parse, (data,)),
            forall|m: M, payload: SBufferReader| call_requires(init, (m, payload)),
        ensures
            if old(self).first_header().rpc.function != function {
                &&& r == Err::<R, Error>(Error::ERANGE)
                &&& old(self).first_dropped(*final(self))
            } else {
                let area = old(self).gsp_mem.pending_bytes();
                exists|data: &[u8], parsed: Option<M>|
                    data@ == old(self).message_head(msg_size as int) && #[trigger] call_ensures(parse, (data,), parsed) && match parsed {
                        None => {
                            &&& r == Err::<R, Error>(Error::EINVAL)
                            &&& *final(self) == *old(self)
                        },
                        Some(m) => if checksum(area) != 0 {
                            &&& r == Err::<R, Error>(Error::EIO)
                            &&& *final(self) == *old(self)
                        } else {
                            &&& exists|payload: SBufferReader|
                                payload@ == area.skip(MSG_ELEMENT_SIZE + msg_size)
                                    && #[trigger] call_ensures(init, (m, payload), r)
                            &&& old(self).first_dropped(*final(self))
                        },
                    }
            },
    {
        let header = match self.poll_message(msg_size) {
            Some(header) => header,
            None => {
                return Err(Error::EAGAIN);
            },
        };
        if header.rpc.function != function {
            self.release(MSG_ELEMENT_SIZE - RPC_HEADER_SIZE + header.rpc.length as usize);
            return Err(Error::ERANGE);
        }
        let (first, second) = self.gsp_mem.pending();
        let ghost area = self.gsp_mem.pending_bytes();
        let head = vstd::slice::slice_subrange(
            first,
            MSG_ELEMENT_SIZE,
            MSG_ELEMENT_SIZE + msg_size,
        );
        assert(head@ =~= area.subrange(MSG_ELEMENT_SIZE as int, MSG_ELEMENT_SIZE + msg_size));
        let m = match parse(head) {
            Some(m) => m,
            None => {
                return Err(Error::EINVAL);
            },
        };
        let reader = SBufferReader::new_reader(first, second);
        if GspCmdq::calculate_checksum(&reader) != 0 {
            return Err(Error::EIO);
        }
        let rest = vstd::slice::slice_subrange(first, MSG_ELEMENT_SIZE + msg_size, first.len());
        let payload = SBufferReader::new_reader(rest, second);
        assert(payload@ =~= area.skip(MSG_ELEMENT_SIZE + msg_size));
        let result = init(m, payload);
        self.release(MSG_ELEMENT_SIZE - RPC_HEADER_SIZE + header.rpc.length as usize);
        result
    }

    /// Receives a message of the given function if there is one, and fails with `EAGAIN`
    /// if there is none. Fails as `take_message` does otherwise.
    pub fn receive<M: GspMessageElement>(&mut self, function: u32) -> (r: Result<M, Error>)
        requires
            old(self).wf(),
            old(self).message_ready(M::spec_fixed_size() as int) ==> old(self).message_in_bounds(
                function,
                M::spec_fixed_size() as int,
            ),
        ensures
            ({
                let n = M::spec_fixed_size() as int;
                if !old(self).message_ready(n) {
                    &&& r == Err::<M, Error>(Error::EAGAIN)
                    &&& *final(self) == *old(self)
                } else {
                    match old(self).take_outcome(function, n) {
                        Ok((head, payload)) => {
                            &&& r matches Ok(m)
                            &&& exists|rest: Seq<u8>| M::decodes(head + payload, m, rest)
                            &&& old(self).first_dropped(*final(self))
                        },
                        Err(e) => {
                            &&& r == Err::<M, Error>(e)
                            &&& e == Error::ERANGE ==> old(self).first_dropped(*final(self))
                            &&& e == Error::EIO ==> *final(self) == *old(self)
                        },
                    }
                }
            }),
    {
        let size = M::fixed_size();
        match self.poll_message(size) {
            Some(_) => {},
            None => {
                return Err(Error::EAGAIN);
            },
        }
        match self.take_message(function, size) {
            Ok((head, payload)) => {
                let mut sbuf = SBufferReader::new_reader(head.as_slice(), payload.as_slice());
                M::new_from_sbuf(&mut sbuf)
            },
            Err(e) => Err(e),
        }
    }

    /// The address at which the GSP finds the shared memory.
    pub fn dma_handle(&self) -> (r: u64)
        ensures
            r == self.gsp_mem.handle,
    {
        self.gsp_mem.handle
    }

    /// Creates empty queues in zeroed memory that the GSP finds at `handle`.
    pub fn new(handle: u64) -> (r: Result<Self, Error>)
        ensures
            match r {
                Ok(q) => {
                    &&& q.wf()
                    &&& q.seq == 0
                    &&& q.gsp_mem.handle == handle
                    &&& q.gsp_mem.fresh()
                },
                Err(e) => e == Error::EOVERFLOW,
            },
            r is Ok <==> handle + (PTE_ARRAY_LEN - 1) * GSP_PAGE_SIZE <= u64::MAX,
    {
        match DmaGspMem::new(handle) {
            Ok(gsp_mem) => Ok(GspCmdq { seq: 0, gsp_mem }),
            Err(e) => Err(e),
        }
    }

    /// The checksum of everything that is left in `data`.
    pub fn calculate_checksum(data: &SBufferReader) -> (r: u32)
        ensures
            r == checksum(data@),
    {
        crate::checksum::calculate_checksum(data)
    }
}

/// The checksum of a message that was sealed is zero. Its header, command and payload
/// are found again where they were put.
pub proof fn law_sealed_message_is_valid(seq: u32, function: u32, cmd: Seq<u8>, payload: Seq<u8>)
    ensures
        ({
            let s = sealed_message(seq, function, cmd, payload);
            let n = MSG_ELEMENT_SIZE + cmd.len();
            &&& checksum(s) == 0
            &&& s.len() == n + payload.len()
            &&& GspMsgElement::spec_from_bytes(s) == GspMsgElement {
                check_sum: checksum(unsealed_message(seq, function, cmd, payload)),
                ..GspMsgElement::spec_new(seq, (cmd.len() + payload.len()) as int, function)
            }
            &&& s.subrange(MSG_ELEMENT_SIZE as int, n) == cmd
            &&& s.skip(n) == payload
        }),
{
    let plain = GspMsgElement::spec_new(seq, (cmd.len() + payload.len()) as int, function);
    let u = unsealed_message(seq, function, cmd, payload);
    let full = GspMsgElement { check_sum: checksum(u), ..plain };
    let s = sealed_message(seq, function, cmd, payload);
    let at = CHECKSUM_OFFSET as int;
    lemma_checksum_field(plain, checksum(u));
    law_msg_element_round_trip(full, cmd + payload);
    assert(s =~= full.spec_bytes() + (cmd + payload));
    assert(s.subrange(at, at + 4) =~= full.spec_bytes().subrange(at, at + 4));
    assert(u.subrange(at, at + 4) =~= plain.spec_bytes().subrange(at, at + 4));
    assert(u.subrange(at, at + 4)[0] == 0 && u.subrange(at, at + 4)[1] == 0);
    assert(u.subrange(at, at + 4)[2] == 0 && u.subrange(at, at + 4)[3] == 0);
    law_sealing_zeroes_checksum(u, s, at);
    assert(s.subrange(MSG_ELEMENT_SIZE as int, MSG_ELEMENT_SIZE + cmd.len()) =~= cmd);
    assert(s.skip(MSG_ELEMENT_SIZE + cmd.len()) =~= payload);
}

/// What one side sends, the other receives: where the unread pages hold a sealed message
/// and then `tail`, taking the message gives the command, and the payload with the tail,
/// unless the tail spoils the checksum. Zeros never do. Asked for another function, the
/// message is refused.
pub proof fn law_sent_message_is_received(
    q: GspCmdq,
    seq: u32,
    function: u32,
    cmd: Seq<u8>,
    payload: Seq<u8>,
    tail: Seq<u8>,
)
    requires
        q.gsp_mem.pending_bytes() == sealed_message(seq, function, cmd, payload) + tail,
    ensures
        q.message_ready(cmd.len() as int),
        MSG_ELEMENT_SIZE + cmd.len() <= GSP_PAGE_SIZE ==> q.message_in_bounds(
            function,
            cmd.len() as int,
        ),
        q.first_header().seq_num == seq,
        q.first_header().rpc.function == function,
        q.first_header().rpc.length == RPC_HEADER_SIZE + cmd.len() + payload.len(),
        q.message_pages() == pages_for(MSG_ELEMENT_SIZE + cmd.len() + payload.len()),
        q.take_outcome(function, cmd.len() as int) == received(seq, function, cmd, payload, tail),
        tail == zeros(tail.len()) ==> q.take_outcome(function, cmd.len() as int) == Ok::<
            (Seq<u8>, Seq<u8>),
            Error,
        >((cmd, payload + tail)),
        forall|other: u32|
            #![trigger q.take_outcome(other, cmd.len() as int)]
            other != function ==> q.message_in_bounds(other, cmd.len() as int) && q.take_outcome(
                other,
                cmd.len() as int,
            ) == Err::<(Seq<u8>, Seq<u8>), Error>(Error::ERANGE),
{
    let s = sealed_message(seq, function, cmd, payload);
    let area = q.gsp_mem.pending_bytes();
    law_sealed_message_is_valid(seq, function, cmd, payload);
    let full = GspMsgElement {
        check_sum: checksum(unsealed_message(seq, function, cmd, payload)),
        ..GspMsgElement::spec_new(seq, (cmd.len() + payload.len()) as int, function)
    };
    assert(s.len() <= area.len() == q.gsp_mem.pending_pages() * GSP_PAGE_SIZE);
    law_msg_element_round_trip(full, cmd + payload + tail);
    assert(area =~= full.spec_bytes() + (cmd + payload + tail));
    assert(q.first_header() == full);
    law_zero_padding_keeps_checksum(s, tail.len());
    assert(area.subrange(MSG_ELEMENT_SIZE as int, MSG_ELEMENT_SIZE + cmd.len()) =~= cmd);
    assert(area.skip(MSG_ELEMENT_SIZE + cmd.len()) =~= payload + tail);
}

/// What a wait for a message gives that finds the queue as `looks[i]` at the time
/// `elapsed_us[i]`.
pub open spec fn message_wait(
    looks: Seq<GspCmdq>,
    elapsed_us: Seq<u64>,
    msg_size: int,
    timeout_us: u64,
) -> Option<Result<GspMsgElement, Error>> {
    first_decision(
        Seq::new(
            looks.len(),
            |i: int| looks[i].spec_wait_step(msg_size, elapsed_us[i], timeout_us),
        ),
    )
}

/// What looks for a message find: its header, or nothing.
pub open spec fn messages_found(looks: Seq<GspCmdq>, msg_size: int) -> Seq<
    Option<Result<GspMsgElement, Error>>,
> {
    Seq::new(
        looks.len(),
        |i: int|
            if looks[i].message_ready(msg_size) {
                Some(Ok(looks[i].first_header()))
            } else {
                None
            },
    )
}

/// Waiting for a message, look by look, ends with the first that is found, if no look
/// before came too late, and with `ETIMEDOUT` only if none is.
pub proof fn law_message_wait(
    looks: Seq<GspCmdq>,
    elapsed_us: Seq<u64>,
    msg_size: int,
    timeout_us: u64,
)
    requires
        looks.len() == elapsed_us.len(),
    ensures
        wait_gives(
            messages_found(looks, msg_size),
            elapsed_us,
            timeout_us,
            Err(Error::ETIMEDOUT),
            message_wait(looks, elapsed_us, msg_size, timeout_us),
        ),
{
    law_wait(
        Seq::new(
            looks.len(),
            |i: int| looks[i].spec_wait_step(msg_size, elapsed_us[i], timeout_us),
        ),
        messages_found(looks, msg_size),
        elapsed_us,
        timeout_us,
        Err(Error::ETIMEDOUT),
    );
}

/// Dropping a message makes just its pages free: what was behind it is then first.
pub proof fn law_dropping_moves_to_next_message(q: GspCmdq, new: GspCmdq)
    requires
        q.first_dropped(new),
        q.message_pages() <= q.gsp_mem.pending_pages(),
    ensures
        new.gsp_mem.pending_pages() == q.gsp_mem.pending_pages() - q.message_pages(),
        new.gsp_mem.pending_bytes() == q.gsp_mem.pending_bytes().skip(
            q.message_pages() * GSP_PAGE_SIZE,
        ),
{
    let n = q.message_pages();
    let rx = q.gsp_mem.spec_cpu_read_ptr() as int;
    let tx = q.gsp_mem.spec_gsp_write_ptr() as int;
    lemma_ring_approach(rx, tx, n);
    lemma_ring_skip(q.gsp_mem.mem.gspq.data@, rx, n, q.gsp_mem.pending_pages());
}

/// Sending leaves the commands that the GSP has not read as they are and puts the new
/// one behind them; the ring never looks empty afterwards.
#[verifier::rlimit(40)]
pub proof fn law_sending_appends(q: GspCmdq, new: GspCmdq, bytes: Seq<u8>, pages: int)
    requires
        q.wf(),
        q.sent(new, bytes, pages),
        0 < bytes.len() <= pages * GSP_PAGE_SIZE,
        pages <= q.gsp_mem.free_pages(),
    ensures
        new.gsp_mem.queued_pages() == q.gsp_mem.queued_pages() + pages,
        new.gsp_mem.free_pages() == q.gsp_mem.free_pages() - pages,
        new.gsp_mem.spec_cpu_write_ptr() != new.gsp_mem.spec_gsp_read_ptr(),
        new.gsp_mem.queued_bytes().take(q.gsp_mem.queued_pages() * GSP_PAGE_SIZE)
            == q.gsp_mem.queued_bytes(),
        new.gsp_mem.queued_bytes().subrange(
            q.gsp_mem.queued_pages() * GSP_PAGE_SIZE,
            q.gsp_mem.queued_pages() * GSP_PAGE_SIZE + bytes.len(),
        ) == bytes,
{
    let rx = q.gsp_mem.spec_gsp_read_ptr() as int;
    let tx = q.gsp_mem.spec_cpu_write_ptr() as int;
    let queued = q.gsp_mem.queued_pages();
    let new_data = new.gsp_mem.mem.cpuq.data@;
    let before = q.gsp_mem.queued_bytes();
    let after = new.gsp_mem.queued_bytes();
    let n = queued * GSP_PAGE_SIZE;
    lemma_ring_move(rx, tx, pages);
    assert(new.gsp_mem.queued_pages() == queued + pages);
    lemma_free_pages_are_not_queued(q.gsp_mem, new.gsp_mem, bytes, pages);
    assert(after.take(n) =~= before) by {
        assert(after.take(n) =~= ring_bytes(new_data, rx * GSP_PAGE_SIZE, n));
    }
    let written = ring_bytes(new_data, tx * GSP_PAGE_SIZE, bytes.len() as int);
    assert forall|i: int| 0 <= i < bytes.len() implies after[n + i] == bytes[i] by {
        lemma_wrap(rx * GSP_PAGE_SIZE + n + i);
        lemma_wrap(tx * GSP_PAGE_SIZE + i);
        assert(written[i] == bytes[i]);
    }
    assert(after.subrange(n, n + bytes.len()) =~= bytes);
}

/// A send that fails leaves the counter, the pointers and the commands that the GSP has
/// not read as they are, whatever it leaves in the free pages.
pub proof fn law_failed_send_keeps_queue(
    q: GspCmdq,
    new: GspCmdq,
    attempt: SendAttempt,
    error: Error,
)
    requires
        q.wf(),
        attempt.wf(),
        q.send_gives(new, attempt, Err(error)),
    ensures
        new.seq == q.seq,
        new.gsp_mem.spec_cpu_write_ptr() == q.gsp_mem.spec_cpu_write_ptr(),
        new.gsp_mem.free_pages() == q.gsp_mem.free_pages(),
        new.gsp_mem.queued_bytes() == q.gsp_mem.queued_bytes(),
        new.gsp_mem.mem.gspq == q.gsp_mem.mem.gspq,
{
    if q.has_room(attempt.cmd_size + attempt.payload_size) {
        let bytes = attempt.left_behind(q.seq);
        law_msg_element_round_trip(
            GspMsgElement::spec_new(
                q.seq,
                attempt.cmd_size + attempt.payload_size,
                attempt.function,
            ),
            Seq::empty(),
        );
        lemma_free_pages_are_not_queued(
            q.gsp_mem,
            new.gsp_mem,
            bytes,
            pages_for(attempt.size()),
        );
    }
}

/// A command that is sent is received whole: a peer that reads the ring from where the
/// command was put, up to the new write pointer, takes the command and the payload, and
/// with the payload what was in the last page before, unless that spoils the checksum.
pub proof fn law_send_then_receive(
    q: GspCmdq,
    new: GspCmdq,
    peer: GspCmdq,
    function: u32,
    cmd: Seq<u8>,
    payload: Seq<u8>,
)
    requires
        q.wf(),
        pages_for(MSG_ELEMENT_SIZE + cmd.len() + payload.len()) <= q.gsp_mem.free_pages(),
        q.sent(
            new,
            sealed_message(q.seq, function, cmd, payload),
            pages_for(MSG_ELEMENT_SIZE + cmd.len() + payload.len()),
        ),
        peer.gsp_mem.mem.gspq.data@ == new.gsp_mem.mem.cpuq.data@,
        peer.gsp_mem.spec_gsp_write_ptr() == new.gsp_mem.spec_cpu_write_ptr(),
        peer.gsp_mem.spec_cpu_read_ptr() == q.gsp_mem.spec_cpu_write_ptr(),
    ensures
        ({
            let tail = q.stale_tail(MSG_ELEMENT_SIZE + cmd.len() + payload.len());
            &&& peer.message_ready(cmd.len() as int)
            &&& MSG_ELEMENT_SIZE + cmd.len() <= GSP_PAGE_SIZE ==> peer.message_in_bounds(
                function,
                cmd.len() as int,
            )
            &&& peer.first_header().seq_num == q.seq
            &&& peer.first_header().rpc.function == function
            &&& peer.first_header().rpc.length == RPC_HEADER_SIZE + cmd.len() + payload.len()
            &&& peer.take_outcome(function, cmd.len() as int) == received(
                q.seq,
                function,
                cmd,
                payload,
                tail,
            )
            &&& tail == zeros(tail.len()) ==> peer.take_outcome(function, cmd.len() as int) == Ok::<
                (Seq<u8>, Seq<u8>),
                Error,
            >((cmd, payload + tail))
        }),
{
    let s = sealed_message(q.seq, function, cmd, payload);
    let size = MSG_ELEMENT_SIZE + cmd.len() + payload.len();
    let pages = pages_for(size);
    assert(s.len() == size) by {
        law_sealed_message_is_valid(q.seq, function, cmd, payload);
    }
    assert(peer.gsp_mem.pending_pages() == pages) by {
        let start = q.gsp_mem.spec_cpu_write_ptr() as int;
        lemma_ring_move(start, start, pages);
    }
    law_ring_gives_back_what_was_written(
        q.gsp_mem.mem.cpuq.data@,
        new.gsp_mem.mem.cpuq.data@,
        q.gsp_mem.spec_cpu_write_ptr() * GSP_PAGE_SIZE,
        s,
        pages * GSP_PAGE_SIZE,
    );
    law_sent_message_is_received(peer, q.seq, function, cmd, payload, q.stale_tail(size));
}

/// The header of a message that was sent is found in the ring, with the number of the
/// message.
proof fn lemma_sent_header(q: GspCmdq, new: GspCmdq, attempt: SendAttempt)
    requires
        q.wf(),
        attempt.wf(),
        q.send_gives(new, attempt, Ok(())),
    ensures
        new.command_header_at(q.gsp_mem.spec_cpu_write_ptr() as int).seq_num == q.seq,
        new.command_header_at(q.gsp_mem.spec_cpu_write_ptr() as int).rpc.function
            == attempt.function,
        new.seq == q.seq + 1,
{
    let cmd = attempt.cmd->Ok_0;
    let payload = attempt.payload->Ok_0;
    let s = sealed_message(q.seq, attempt.function, cmd, payload);
    let start = q.gsp_mem.spec_cpu_write_ptr() * GSP_PAGE_SIZE;
    let n = MSG_ELEMENT_SIZE as int;
    law_sealed_message_is_valid(q.seq, attempt.function, cmd, payload);
    let front = ring_bytes(new.gsp_mem.mem.cpuq.data@, start, n);
    let whole = ring_bytes(new.gsp_mem.mem.cpuq.data@, start, s.len() as int);
    assert(whole == s);
    assert(front =~= s.take(n));
    assert(s =~= front + s.skip(n));
    lemma_header_of_prefix(front, s.skip(n));
}

/// How many of the results are successes.
pub open spec fn successes(results: Seq<Result<(), Error>>) -> nat
    decreases results.len(),
{
    if results.len() == 0 {
        0
    } else {
        successes(results.drop_last()) + if results.last() is Ok {
            1nat
        } else {
            0
        }
    }
}

/// In a series of attempts to send, on a queue that begins with number zero, attempt `i`
/// takes the queue from `before[i]` to `after[i]` with the result `results[i]`. In between,
/// anything may happen that leaves the counter alone, such as the GSP reading commands.
pub open spec fn send_series(
    before: Seq<GspCmdq>,
    after: Seq<GspCmdq>,
    attempts: Seq<SendAttempt>,
    results: Seq<Result<(), Error>>,
) -> bool {
    &&& before.len() == results.len()
    &&& after.len() == results.len()
    &&& attempts.len() == results.len()
    &&& results.len() > 0 ==> before[0].seq == 0
    &&& forall|i: int|
        #![trigger before[i]]
        #![trigger after[i]]
        0 <= i < results.len() ==> before[i].wf() && attempts[i].wf() && before[i].send_gives(
            after[i],
            attempts[i],
            results[i],
        )
    &&& forall|i: int| 0 < i < results.len() ==> #[trigger] before[i].seq == after[i - 1].seq
}

/// Messages are numbered in the order in which they are sent, from zero: in a series of
/// attempts, one that succeeds carries as its number how many have succeeded before, and
/// one that fails uses no number and leaves the counter and the write pointer as they
/// were. If there is space, the error of the command or of the payload is returned as
/// it is.
pub proof fn law_messages_are_numbered(
    before: Seq<GspCmdq>,
    after: Seq<GspCmdq>,
    attempts: Seq<SendAttempt>,
    results: Seq<Result<(), Error>>,
    i: int,
)
    requires
        send_series(before, after, attempts, results),
        0 <= i < results.len(),
    ensures
        before[i].seq == successes(results.take(i)),
        after[i].seq == successes(results.take(i + 1)),
        results[i] is Ok ==> after[i].command_header_at(
            before[i].gsp_mem.spec_cpu_write_ptr() as int,
        ).seq_num == successes(results.take(i)),
        results[i] is Err ==> {
            &&& after[i].seq == before[i].seq
            &&& after[i].gsp_mem.spec_cpu_write_ptr() == before[i].gsp_mem.spec_cpu_write_ptr()
        },
        results[i] == Err::<(), Error>(Error::EAGAIN) || match (
            attempts[i].cmd,
            attempts[i].payload,
        ) {
            (Err(e), _) => results[i] == Err::<(), Error>(e),
            (Ok(_), Err(e)) => results[i] == Err::<(), Error>(e),
            (Ok(_), Ok(_)) => true,
        },
    decreases i,
{
    let now = results.take(i + 1);
    assert(now.drop_last() =~= results.take(i));
    assert(now.last() == results[i]);
    assert(before[i].send_gives(after[i], attempts[i], results[i]));
    if i == 0 {
        assert(results.take(0).len() == 0);
    } else {
        law_messages_are_numbered(before, after, attempts, results, i - 1);
    }
    if results[i] is Ok {
        lemma_sent_header(before[i], after[i], attempts[i]);
    }
}

/// Altering any one byte of a sealed message makes its checksum other than zero.
pub proof fn law_altered_message_is_invalid(
    seq: u32,
    function: u32,
    cmd: Seq<u8>,
    payload: Seq<u8>,
    i: int,
    b: u8,
)
    requires
        0 <= i < sealed_message(seq, function, cmd, payload).len(),
        b != sealed_message(seq, function, cmd, payload)[i],
    ensures
        checksum(sealed_message(seq, function, cmd, payload).update(i, b)) != 0,
{
    law_sealed_message_is_valid(seq, function, cmd, payload);
    law_altered_byte_changes_checksum(sealed_message(seq, function, cmd, payload), i, b);
}

/// Where one byte of unread pages that were valid was altered, no message is taken from
/// them.
pub proof fn law_altered_message_is_refused(
    q: GspCmdq,
    valid: Seq<u8>,
    i: int,
    b: u8,
    function: u32,
    msg_size: int,
)
    requires
        checksum(valid) == 0,
        0 <= i < valid.len(),
        b != valid[i],
        q.gsp_mem.pending_bytes() == valid.update(i, b),
    ensures
        q.take_outcome(function, msg_size) is Err,
{
    law_altered_byte_changes_checksum(valid, i, b);
}

/// A message is ready just when there are unread pages, and the word at byte 56 of their
/// bytes, the length, is at least what is asked for. Nothing else in the header matters.
pub proof fn law_readiness_is_length(q: GspCmdq, msg_size: int)
    ensures
        q.message_ready(msg_size) <==> q.gsp_mem.pending_pages() > 0 && u32_at(
            q.gsp_mem.pending_bytes(),
            56,
        ) >= msg_size,
{
    law_header_is_read_from_words(q.gsp_mem.pending_bytes());
}

/// Whatever its header says of results, sequence and owner, a message with a valid checksum
/// that announces at least the bytes asked for is found by any look, with its header, and
/// taken whole.
pub proof fn law_any_valid_message_is_received(
    q: GspCmdq,
    header: GspMsgElement,
    cmd: Seq<u8>,
    rest: Seq<u8>,
    elapsed_us: u64,
    timeout_us: u64,
)
    requires
        q.gsp_mem.pending_bytes() == header.spec_bytes() + cmd + rest,
        header.rpc.length >= cmd.len(),
        checksum(q.gsp_mem.pending_bytes()) == 0,
    ensures
        q.message_ready(cmd.len() as int),
        q.first_header() == header,
        q.spec_wait_step(cmd.len() as int, elapsed_us, timeout_us) == Some(
            Ok::<GspMsgElement, Error>(header),
        ),
        q.take_outcome(header.rpc.function, cmd.len() as int) == Ok::<(Seq<u8>, Seq<u8>), Error>(
            (cmd, rest),
        ),
        forall|other: u32|
            other != header.rpc.function ==> #[trigger] q.take_outcome(other, cmd.len() as int)
                == Err::<(Seq<u8>, Seq<u8>), Error>(Error::ERANGE),
{
    let area = q.gsp_mem.pending_bytes();
    law_msg_element_round_trip(header, cmd + rest);
    assert(area =~= header.spec_bytes() + (cmd + rest));
    assert(area.len() == q.gsp_mem.pending_pages() * GSP_PAGE_SIZE);
    let n = cmd.len() as int;
    assert(area.subrange(80, 80 + n) =~= cmd);
    assert(area.skip(80 + n) =~= rest);
}

/// A look finds the header of a message that is ready at any time. If there is none, the
/// look is to be repeated up to the very end of the time, and given up after.
pub proof fn law_look_for_message(q: GspCmdq, msg_size: int, elapsed_us: u64, timeout_us: u64)
    ensures
        ({
            let area = q.gsp_mem.pending_bytes();
            let ready = q.gsp_mem.pending_pages() > 0 && u32_at(area, 56) >= msg_size;
            let r = q.spec_wait_step(msg_size, elapsed_us, timeout_us);
            &&& ready ==> r == Some(
                Ok::<GspMsgElement, Error>(GspMsgElement::spec_from_bytes(area)),
            )
            &&& !ready && elapsed_us <= timeout_us ==> r is None
            &&& !ready && elapsed_us > timeout_us ==> r == Some(
                Err::<GspMsgElement, Error>(Error::ETIMEDOUT),
            )
        }),
{
    law_readiness_is_length(q, msg_size);
}

/// A message is of the function that the word at byte 60 says. One of another function
/// cannot be taken, nor can any if the unread bytes have a checksum other than zero.
/// Otherwise all that is behind the header is handed out, split where it was asked for.
pub proof fn law_taking_a_message(q: GspCmdq, function: u32, msg_size: int)
    requires
        0 <= msg_size,
        80 + msg_size <= q.gsp_mem.pending_bytes().len(),
    ensures
        ({
            let area = q.gsp_mem.pending_bytes();
            match q.take_outcome(function, msg_size) {
                Ok((head, payload)) => {
                    &&& u32_at(area, 60) == function
                    &&& checksum(area) == 0
                    &&& head.len() == msg_size
                    &&& head + payload == area.skip(80)
                },
                Err(e) => if u32_at(area, 60) != function {
                    e == Error::ERANGE
                } else {
                    checksum(area) != 0 && e == Error::EIO
                },
            }
        }),
{
    let area = q.gsp_mem.pending_bytes();
    law_header_is_read_from_words(area);
    assert(area.subrange(80, 80 + msg_size) + area.skip(80 + msg_size) =~= area.skip(80));
}

/// A message can be taken if its pages can be counted in 32 bits and, if it is of the
/// function asked for, the bytes asked for are in one piece. One that is to be kept need
/// not be counted.
pub proof fn law_what_can_be_taken(q: GspCmdq, function: u32, msg_size: int)
    ensures
        ({
            let area = q.gsp_mem.pending_bytes();
            let countable = 48 + u32_at(area, 56) <= u32::MAX;
            let whole = 80 + msg_size <= q.gsp_mem.first_pending_bytes();
            &&& q.message_countable() <==> countable
            &&& q.message_whole(msg_size) <==> whole
            &&& u32_at(area, 60) != function ==> (q.message_in_bounds(function, msg_size)
                <==> countable)
            &&& u32_at(area, 60) == function ==> (q.message_in_bounds(function, msg_size) <==> whole
                && (checksum(area) != 0 || countable))
            &&& q.message_head(msg_size) == area.subrange(80, 80 + msg_size)
        }),
{
    law_header_is_read_from_words(q.gsp_mem.pending_bytes());
}

/// Dropping a message moves the read pointer on by the least pages that hold its header and
/// the bytes that it announces, and changes nothing else.
pub proof fn law_dropping_a_message(q: GspCmdq, new: GspCmdq)
    requires
        q.first_dropped(new),
    ensures
        ({
            let size = 48 + u32_at(q.gsp_mem.pending_bytes(), 56);
            let n = q.message_pages();
            &&& (n - 1) * 0x1000 < size <= n * 0x1000
            &&& new.gsp_mem.mem.cpuq.rx.read_ptr < 63
            &&& (q.gsp_mem.mem.cpuq.rx.read_ptr + n - new.gsp_mem.mem.cpuq.rx.read_ptr) % 63 == 0
            &&& new.seq == q.seq
            &&& new.gsp_mem.mem.cpuq.tx == q.gsp_mem.mem.cpuq.tx
            &&& new.gsp_mem.mem.cpuq.data == q.gsp_mem.mem.cpuq.data
            &&& new.gsp_mem.mem.gspq == q.gsp_mem.mem.gspq
            &&& new.gsp_mem.mem.ptes == q.gsp_mem.mem.ptes
            &&& new.gsp_mem.handle == q.gsp_mem.handle
        }),
{
    law_header_is_read_from_words(q.gsp_mem.pending_bytes());
    law_pages_hold_bytes(48 + u32_at(q.gsp_mem.pending_bytes(), 56));
    lemma_pointer_moved(q.gsp_mem.mem.cpuq.rx.read_ptr as int, q.message_pages());
}

/// A pointer that was reduced to the ring and moved on, and reduced again, has moved on.
proof fn lemma_pointer_moved(ptr: int, n: int)
    ensures
        ({
            let moved = (ptr % MSGQ_NUM_PAGES as int + n) % MSGQ_NUM_PAGES as int;
            &&& 0 <= moved < 63
            &&& (ptr + n - moved) % 63 == 0
        }),
{
    let a = ptr % 63;
    assert((ptr - a) % 63 == 0);
    assert((a + n - (a + n) % 63) % 63 == 0);
}

/// What becomes of an attempt to send: it succeeds if all bytes fit in the free pages, the
/// command and the payload can be had, and the payload has the size announced for it.
/// Otherwise the first of these that is not so tells the error.
pub proof fn law_result_of_sending(
    q: GspCmdq,
    new: GspCmdq,
    attempt: SendAttempt,
    r: Result<(), Error>,
)
    requires
        attempt.wf(),
        q.send_gives(new, attempt, r),
    ensures
        ({
            let size = 80 + attempt.cmd_size + attempt.payload_size;
            if size > q.gsp_mem.free_pages() * 0x1000 {
                r == Err::<(), Error>(Error::EAGAIN) && new == q
            } else {
                match (attempt.cmd, attempt.payload) {
                    (Err(e), _) => r == Err::<(), Error>(e),
                    (Ok(_), Err(e)) => r == Err::<(), Error>(e),
                    (Ok(_), Ok(data)) => {
                        &&& data.len() > attempt.payload_size ==> r == Err::<(), Error>(
                            Error::ETOOSMALL,
                        )
                        &&& data.len() < attempt.payload_size ==> r == Err::<(), Error>(
                            Error::EINVAL,
                        )
                        &&& data.len() == attempt.payload_size ==> r is Ok
                    },
                }
            }
        }),
{
    law_pages_hold_bytes(80 + attempt.cmd_size + attempt.payload_size);
}

/// What is attempted is what was given: the command and the payload, each with its size, and
/// each as it fills its room.
pub proof fn law_attempt_is_what_was_given<C: GspCommandElement, P: GspCommandElement>(
    function: u32,
    cmd: &C,
    payload_size: int,
    payload: &P,
)
    ensures
        ({
            let attempt = SendAttempt::of(function, cmd, payload_size, payload);
            &&& attempt.function == function
            &&& attempt.cmd_size == cmd.spec_size()
            &&& attempt.cmd == cmd.encoded()
            &&& attempt.cmd_written == cmd.written(cmd.spec_size())
            &&& attempt.payload_size == payload_size
            &&& attempt.payload == payload.encoded()
            &&& attempt.payload_written == payload.written(payload_size)
        }),
{
}

/// Bytes are sent as they are, and all of them; of nothing, nothing is sent; and bytes that
/// something else has written are sent unless that has failed.
pub proof fn law_plain_elements(bytes: PlainBytes, other: WrittenBytes, room: int)
    requires
        0 <= room,
    ensures
        bytes.encoded() == Ok::<Seq<u8>, Error>(bytes.data@),
        bytes.spec_size() == bytes.data@.len(),
        bytes.written(room) == at_most(bytes.data@, room),
        NoPayload.encoded() == Ok::<Seq<u8>, Error>(Seq::empty()),
        NoPayload.spec_size() == 0,
        NoPayload.written(room).len() == 0,
        other.outcome is Ok ==> other.encoded() == Ok::<Seq<u8>, Error>(other.data@),
        other.outcome is Err ==> other.encoded() == Err::<Seq<u8>, Error>(other.outcome->Err_0),
        other.spec_size() == other.size,
        other.written(room) == at_most(other.data@, room),
{
}

/// What is at the write pointer after `bytes` were written there, and what is elsewhere.
proof fn lemma_written_ring(q: GspCmdq, new: GspCmdq, bytes: Seq<u8>)
    requires
        q.wf(),
        bytes.len() <= MSGQ_DATA_SIZE,
        ring_written(
            q.gsp_mem.mem.cpuq.data@,
            new.gsp_mem.mem.cpuq.data@,
            q.gsp_mem.spec_cpu_write_ptr() * GSP_PAGE_SIZE,
            bytes,
        ),
    ensures
        ({
            let start = q.gsp_mem.spec_cpu_write_ptr() * 0x1000;
            let n = bytes.len() as int;
            &&& ring_bytes(new.gsp_mem.mem.cpuq.data@, start, n) == bytes
            &&& ring_bytes(new.gsp_mem.mem.cpuq.data@, start + n, 0x3f000 - n) == ring_bytes(
                q.gsp_mem.mem.cpuq.data@,
                start + n,
                0x3f000 - n,
            )
        }),
{
    let start = q.gsp_mem.spec_cpu_write_ptr() * 0x1000;
    let n = bytes.len() as int;
    let old_data = q.gsp_mem.mem.cpuq.data@;
    let new_data = new.gsp_mem.mem.cpuq.data@;
    law_ring_gives_back_what_was_written(old_data, new_data, start, bytes, 0x3f000);
    let whole = ring_bytes(new_data, start, 0x3f000);
    let kept = ring_bytes(new_data, start + n, 0x3f000 - n);
    assert forall|i: int| 0 <= i < 0x3f000 - n implies kept[i] == whole[n + i] by {
        assert(start + n + i == start + (n + i));
    }
    assert(kept =~= ring_bytes(old_data, start + n, 0x3f000 - n));
}

/// A message that was sent lies in the ring where the write pointer was, and nothing else in
/// the ring has changed. Its words tell its number, the pages by which the write pointer was
/// moved on, which are the least that hold it, its bytes from the RPC header on, and its
/// function. The command and the payload follow, and the checksum over all of it is zero.
pub proof fn law_words_of_sent_message(q: GspCmdq, new: GspCmdq, attempt: SendAttempt)
    requires
        q.wf(),
        attempt.wf(),
        q.send_gives(new, attempt, Ok(())),
    ensures
        ({
            let size = 80 + attempt.cmd_size + attempt.payload_size;
            let start = q.gsp_mem.spec_cpu_write_ptr() * 0x1000;
            let s = ring_bytes(new.gsp_mem.mem.cpuq.data@, start, size);
            let pages = u32_at(s, 40);
            &&& ring_bytes(new.gsp_mem.mem.cpuq.data@, start + size, 0x3f000 - size) == ring_bytes(
                q.gsp_mem.mem.cpuq.data@,
                start + size,
                0x3f000 - size,
            )
            &&& checksum(s) == 0
            &&& s.take(32) == zeros(32)
            &&& u32_at(s, 36) == q.seq
            &&& (pages - 1) * 0x1000 < size <= pages * 0x1000
            &&& s.subrange(44, 48) == zeros(4)
            &&& u32_at(s, 48) == 0x0300_0000
            &&& u32_at(s, 52) == 0x4350_5256
            &&& u32_at(s, 56) == size - 48
            &&& u32_at(s, 60) == attempt.function
            &&& u32_at(s, 64) == u32::MAX
            &&& u32_at(s, 68) == u32::MAX
            &&& u32_at(s, 72) == 0
            &&& u32_at(s, 76) == 0
            &&& Ok::<Seq<u8>, Error>(s.subrange(80, 80 + attempt.cmd_size)) == attempt.cmd
            &&& Ok::<Seq<u8>, Error>(s.skip(80 + attempt.cmd_size)) == attempt.payload
            &&& new.gsp_mem.mem.cpuq.tx.write_ptr < 63
            &&& (q.gsp_mem.mem.cpuq.tx.write_ptr + pages - new.gsp_mem.mem.cpuq.tx.write_ptr) % 63
                == 0
            &&& new.seq == q.seq + 1
            &&& new.gsp_mem.mem.cpuq.tx == (MsgqTxHeader {
                write_ptr: new.gsp_mem.mem.cpuq.tx.write_ptr,
                ..q.gsp_mem.mem.cpuq.tx
            })
            &&& new.gsp_mem.mem.cpuq.rx == q.gsp_mem.mem.cpuq.rx
            &&& new.gsp_mem.mem.gspq == q.gsp_mem.mem.gspq
            &&& new.gsp_mem.mem.ptes == q.gsp_mem.mem.ptes
            &&& new.gsp_mem.handle == q.gsp_mem.handle
        }),
{
    let cmd = attempt.cmd->Ok_0;
    let payload = attempt.payload->Ok_0;
    let size = 80 + attempt.cmd_size + attempt.payload_size;
    let s = sealed_message(q.seq, attempt.function, cmd, payload);
    law_unread_pages_lead_to_write_pointer(q.gsp_mem);
    law_pages_hold_bytes(size);
    law_sealed_message_is_valid(q.seq, attempt.function, cmd, payload);
    lemma_written_ring(q, new, s);
    lemma_words_of_sealed_message(q.seq, attempt.function, cmd, payload);
    lemma_pointer_moved(q.gsp_mem.mem.cpuq.tx.write_ptr as int, pages_for(size));
}

/// The words of a sealed message.
proof fn lemma_words_of_sealed_message(seq: u32, function: u32, cmd: Seq<u8>, payload: Seq<u8>)
    requires
        80 + cmd.len() + payload.len() <= 0x3f000,
    ensures
        ({
            let s = sealed_message(seq, function, cmd, payload);
            &&& s.take(32) == zeros(32)
            &&& u32_at(s, 36) == seq
            &&& u32_at(s, 40) == pages_for((80 + cmd.len() + payload.len()) as int)
            &&& s.subrange(44, 48) == zeros(4)
            &&& u32_at(s, 48) == 0x0300_0000
            &&& u32_at(s, 52) == 0x4350_5256
            &&& u32_at(s, 56) == 32 + cmd.len() + payload.len()
            &&& u32_at(s, 60) == function
            &&& u32_at(s, 64) == u32::MAX
            &&& u32_at(s, 68) == u32::MAX
            &&& u32_at(s, 72) == 0
            &&& u32_at(s, 76) == 0
        }),
{
    let s = sealed_message(seq, function, cmd, payload);
    let h = GspMsgElement {
        check_sum: checksum(unsealed_message(seq, function, cmd, payload)),
        ..GspMsgElement::spec_new(seq, (cmd.len() + payload.len()) as int, function)
    };
    law_sealed_message_is_valid(seq, function, cmd, payload);
    law_header_is_read_from_words(s);
    law_header_is_written_to_words(h);
    assert(s.take(32) =~= h.spec_bytes().take(32));
    assert(s.subrange(44, 48) =~= h.spec_bytes().subrange(44, 48));
}

/// A failed attempt for which there was space leaves a header without a checksum where the
/// write pointer is, and behind it what was written of the command and, unless that failed,
/// of the payload. Nothing else has changed.
pub proof fn law_words_of_failed_send(
    q: GspCmdq,
    new: GspCmdq,
    attempt: SendAttempt,
    error: Error,
)
    requires
        q.wf(),
        attempt.wf(),
        q.send_gives(new, attempt, Err(error)),
        80 + attempt.cmd_size + attempt.payload_size <= q.gsp_mem.free_pages() * 0x1000,
    ensures
        ({
            let size = 80 + attempt.cmd_size + attempt.payload_size;
            let start = q.gsp_mem.spec_cpu_write_ptr() * 0x1000;
            let left = attempt.cmd_written + if attempt.cmd is Ok {
                attempt.payload_written
            } else {
                Seq::empty()
            };
            let n: int = 80 + left.len() as int;
            let s = ring_bytes(new.gsp_mem.mem.cpuq.data@, start, n);
            &&& ring_bytes(new.gsp_mem.mem.cpuq.data@, start + n, 0x3f000 - n) == ring_bytes(
                q.gsp_mem.mem.cpuq.data@,
                start + n,
                0x3f000 - n,
            )
            &&& s.take(32) == zeros(32)
            &&& u32_at(s, 32) == 0
            &&& u32_at(s, 36) == q.seq
            &&& (u32_at(s, 40) - 1) * 0x1000 < size <= u32_at(s, 40) * 0x1000
            &&& s.subrange(44, 48) == zeros(4)
            &&& u32_at(s, 48) == 0x0300_0000
            &&& u32_at(s, 52) == 0x4350_5256
            &&& u32_at(s, 56) == size - 48
            &&& u32_at(s, 60) == attempt.function
            &&& u32_at(s, 64) == u32::MAX
            &&& u32_at(s, 68) == u32::MAX
            &&& u32_at(s, 72) == 0
            &&& u32_at(s, 76) == 0
            &&& s.skip(80) == left
            &&& new.seq == q.seq
            &&& new.gsp_mem.mem.cpuq.tx == q.gsp_mem.mem.cpuq.tx
            &&& new.gsp_mem.mem.cpuq.rx == q.gsp_mem.mem.cpuq.rx
            &&& new.gsp_mem.mem.gspq == q.gsp_mem.mem.gspq
            &&& new.gsp_mem.mem.ptes == q.gsp_mem.mem.ptes
            &&& new.gsp_mem.handle == q.gsp_mem.handle
        }),
{
    let cmd_size = attempt.cmd_size + attempt.payload_size;
    let h = GspMsgElement::spec_new(q.seq, cmd_size, attempt.function);
    let left = attempt.cmd_written + if attempt.cmd is Ok {
        attempt.payload_written
    } else {
        Seq::empty()
    };
    let s = attempt.left_behind(q.seq);
    law_unread_pages_lead_to_write_pointer(q.gsp_mem);
    law_pages_hold_bytes(80 + cmd_size);
    law_new_header(q.seq, cmd_size, attempt.function);
    law_header_is_written_to_words(h);
    law_msg_element_round_trip(h, left);
    assert(s =~= h.spec_bytes() + left);
    law_header_is_read_from_words(s);
    assert(s.skip(80) =~= left);
    assert(s.take(32) =~= h.spec_bytes().take(32));
    assert(s.subrange(44, 48) =~= h.spec_bytes().subrange(44, 48));
    lemma_written_ring(q, new, s);
}

/// What follows a message in its last page fills that page, and is what was in the ring
/// there.
pub proof fn law_tail_fills_last_page(q: GspCmdq, size: int, i: int)
    requires
        0 < size,
        0 <= i < q.stale_tail(size).len(),
    ensures
        q.stale_tail(size).len() < 0x1000,
        (size + q.stale_tail(size).len()) % 0x1000 == 0,
        q.stale_tail(size)[i] == q.gsp_mem.mem.cpuq.data@[(q.gsp_mem.spec_cpu_write_ptr() * 0x1000
            + size + i) % 0x3f000],
{
    law_pages_hold_bytes(size);
}

/// A queue is any number and any shared memory.
pub proof fn law_queues_are_memory(q: GspCmdq)
    ensures
        q.wf() <==> q.gsp_mem.wf(),
{
}

} // verus!

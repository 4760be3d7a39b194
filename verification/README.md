# nova_core

The message, boot and mapping logic of a driver for NVIDIA GPUs that run the GSP
firmware, written in Verus and proved against its contracts.

- `src/gsp` holds the two rings shared with the GSP, the framing and checksums of
  messages, the names of function codes, and the boot of the GSP on Hopper and
  Blackwell.
- `src/rm` holds control and allocation requests to the resource manager.
- `src/fsp.rs`, `src/mctp.rs` and `src/firmware` hold the exchange of messages with the
  FSP, the checks on its replies, and the parts of its firmware file.
- `src/mm` holds page directory entries, BAR1 mappings and the self-test of both.
- `src/bytes.rs`, `src/sbuffer.rs`, `src/checksum.rs`, `src/poll.rs` and `src/error.rs`
  are what the others build on.

The proof functions named `law_*` state what holds across functions: that a message
which is sent is received, that one altered byte is always noticed, that messages are
numbered in the order in which they are sent, that sending never touches what is still
queued, that every page of the command ring has one owner, that a self-test which passes
has found all that it looked for.

The shared memory is an ordinary value here. `app/` keeps it in step with the memory that
the GPU sees, and does everything else that needs registers, DMA memory or a clock.

Three properties of the rings are worth knowing. The producer always leaves one page free,
since equal pointers mean an empty ring. And the checksum of a message from the GSP is
taken over all unread pages, so whatever follows the message in its last page must not
spoil it; zeros never do. A send that fails after space was found leaves what it had
written in the free pages: nothing is sent, but the bytes there are not what they were.

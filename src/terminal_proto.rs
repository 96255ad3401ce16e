//! Incremental decoder for VIMG packets arriving in arbitrary fragments.
//!
//! The header may be split over any number of `feed` calls; the payload must
//! arrive whole in the call that completes the header.

use vstd::prelude::*;
use vstd::slice::slice_subrange;
use crate::proto::{
    VimgHeader, HEADER_SIZE, announced_len, header_bytes_valid,
};

verus! {

/// The decoder's state between and within calls.
pub enum ParseState {
    /// Gathering header bytes: the first `filled` bytes of `buf` are valid.
    WantHeader { buf: [u8; 36], filled: usize },
    /// A validated header whose `data_left` payload bytes are expected next.
    WantData { header: VimgHeader, data_left: usize },
}

/// Decoder of a stream of VIMG packets.
pub struct VimgParser {
    state: ParseState,
}

/// The stream `s` (pending header bytes followed by new input) holds a whole
/// header.
pub open spec fn header_complete(s: Seq<u8>) -> bool {
    s.len() >= HEADER_SIZE
}

/// The header bytes of the stream `s`.
pub open spec fn header_part(s: Seq<u8>) -> Seq<u8> {
    s.subrange(0, HEADER_SIZE as int)
}

/// The stream `s` holds a valid header and the whole payload it announces.
pub open spec fn packet_accepted(s: Seq<u8>) -> bool {
    &&& header_complete(s)
    &&& header_bytes_valid(header_part(s))
    &&& s.len() - HEADER_SIZE >= announced_len(header_part(s))
}

/// A whole header is present but the packet is refused: bad magic, version or
/// command, or a payload shorter than announced.
pub open spec fn packet_rejected(s: Seq<u8>) -> bool {
    header_complete(s) && !packet_accepted(s)
}

/// The payload handed to the callback for the accepted stream `s`.
pub open spec fn payload_part(s: Seq<u8>) -> Seq<u8> {
    s.subrange(HEADER_SIZE as int, HEADER_SIZE + announced_len(header_part(s)))
}

/// The header bytes kept after a call that saw the stream `s`: all of them
/// while the header is incomplete, none once it is complete.
pub open spec fn pending_after(s: Seq<u8>) -> Seq<u8> {
    if header_complete(s) {
        Seq::empty()
    } else {
        s
    }
}

impl VimgParser {
    /// The decoder rests between calls in `WantHeader` with an incomplete
    /// header.
    pub closed spec fn wf(&self) -> bool {
        match self.state {
            ParseState::WantHeader { buf, filled } => filled < HEADER_SIZE,
            ParseState::WantData { .. } => false,
        }
    }

    /// The header bytes received so far.
    pub closed spec fn pending(&self) -> Seq<u8> {
        match self.state {
            ParseState::WantHeader { buf, filled } => buf@.subrange(0, filled as int),
            ParseState::WantData { .. } => Seq::empty(),
        }
    }

    /// A decoder waiting for the first byte of a header.
    pub fn new() -> (r: Self)
        ensures
            r.wf(),
            r.pending() == Seq::<u8>::empty(),
    {
        let r = VimgParser { state: ParseState::WantHeader { buf: [0u8; 36], filled: 0 } };
        assert(r.pending() =~= Seq::<u8>::empty());
        r
    }

    /// Drops any partial header and waits for a new one.
    pub fn reset(&mut self)
        ensures
            final(self).wf(),
            final(self).pending() == Seq::<u8>::empty(),
    {
        self.state = ParseState::WantHeader { buf: [0u8; 36], filled: 0 };
        assert(self.pending() =~= Seq::<u8>::empty());
    }

    /// Feeds a fragment of the stream.
    ///
    /// While the header is incomplete the bytes are kept and `Ok(())` is
    /// returned. Once it is complete, a header with a bad magic, version or
    /// command, or a payload shorter than announced, gives `Err(())`;
    /// otherwise `draw_cb` is called once with the header and the payload and
    /// its result is returned. Either way the decoder is reset.
    pub fn feed<F: FnOnce(&VimgHeader, &[u8]) -> Result<(), ()>>(
        &mut self,
        input: &[u8],
        draw_cb: F,
    ) -> (r: Result<(), ()>)
        requires
            old(self).wf(),
            forall|h: &VimgHeader, d: &[u8]| call_requires(draw_cb, (h, d)),
        ensures
            final(self).wf(),
            final(self).pending() == pending_after(old(self).pending() + input@),
            !header_complete(old(self).pending() + input@) ==> r is Ok,
            packet_rejected(old(self).pending() + input@) ==> r is Err,
            r is Err ==> final(self).pending() == Seq::<u8>::empty(),
            packet_accepted(old(self).pending() + input@) ==> exists|h: VimgHeader, d: &[u8]|
                {
                    &&& h.has_layout(header_part(old(self).pending() + input@))
                    &&& d@ == payload_part(old(self).pending() + input@)
                    &&& call_ensures(draw_cb, (&h, d), r)
                },
    {
        let ghost s = self.pending() + input@;
        let (mut buf, filled) = match self.state {
            ParseState::WantHeader { buf, filled } => (buf, filled),
            ParseState::WantData { .. } => {
                proof {
                    assert(false);
                }
                ([0u8; 36], 0)
            },
        };
        let ghost p = buf@.subrange(0, filled as int);
        let need = HEADER_SIZE - filled;
        let take = if need < input.len() {
            need
        } else {
            input.len()
        };
        let mut i: usize = 0;
        while i < take
            invariant
                i <= take,
                take <= input.len(),
                filled + take <= HEADER_SIZE,
                buf@.len() == HEADER_SIZE,
                buf@.subrange(0, filled as int) == p,
                forall|k: int| 0 <= k < i ==> buf@[filled + k] == input@[k],
            decreases take - i,
        {
            buf[filled + i] = input[i];
            i = i + 1;
        }
        let filled = filled + take;
        assert(buf@.subrange(0, filled as int) =~= s.subrange(0, filled as int));
        if filled < HEADER_SIZE {
            self.state = ParseState::WantHeader { buf, filled };
            assert(s.len() == filled);
            assert(s =~= buf@.subrange(0, filled as int));
            return Ok(());
        }
        assert(header_part(s) =~= buf@);
        let header = VimgHeader::decode(&buf);
        if !header.is_valid() {
            assert(header.magic@ == header_part(s).subrange(0, 4));
            self.reset();
            return Err(());
        }
        assert(header.magic@ == header_part(s).subrange(0, 4));
        self.state = ParseState::WantData { header, data_left: header.data_len as usize };
        let data_left = header.data_len as usize;
        let rest = input.len() - take;
        if rest < data_left {
            self.reset();
            return Err(());
        }
        let data = slice_subrange(input, take, take + data_left);
        assert(data@ =~= payload_part(s));
        let res = draw_cb(&header, data);
        self.reset();
        res
    }
}

/// The bytes of `chunks`, one after another.
pub open spec fn concat(chunks: Seq<Seq<u8>>) -> Seq<u8>
    decreases chunks.len(),
{
    if chunks.len() == 0 {
        Seq::empty()
    } else {
        concat(chunks.drop_last()) + chunks.last()
    }
}

/// The header bytes a fresh decoder holds after being fed `chunks` in turn.
pub open spec fn pending_after_chunks(chunks: Seq<Seq<u8>>) -> Seq<u8>
    decreases chunks.len(),
{
    if chunks.len() == 0 {
        Seq::empty()
    } else {
        pending_after(pending_after_chunks(chunks.drop_last()) + chunks.last())
    }
}

proof fn lemma_pending_is_prefix(chunks: Seq<Seq<u8>>, k: int)
    requires
        0 <= k < chunks.len(),
        forall|j: int| 1 <= j < chunks.len() ==> !header_complete(#[trigger] concat(chunks.take(j))),
    ensures
        pending_after_chunks(chunks.take(k)) == concat(chunks.take(k)),
    decreases k,
{
    if k > 0 {
        lemma_pending_is_prefix(chunks, k - 1);
        let t = chunks.take(k);
        assert(t.drop_last() =~= chunks.take(k - 1));
        assert(t.last() == chunks[k - 1]);
        assert(!header_complete(concat(chunks.take(k))));
    } else {
        assert(chunks.take(0) =~= Seq::<Seq<u8>>::empty());
    }
}

/// Chunking invariance: feed a fresh decoder the stream `concat(chunks)` one
/// chunk per call, where no call before the last completes the header. Every
/// earlier call only gathers header bytes, and the last call sees exactly the
/// stream that a single call would see: the same header, the same verdict and
/// the same payload.
pub proof fn lemma_chunking_invariance(chunks: Seq<Seq<u8>>)
    requires
        chunks.len() >= 1,
        forall|j: int| 1 <= j < chunks.len() ==> !header_complete(#[trigger] concat(chunks.take(j))),
    ensures
        forall|k: int|
            0 <= k < chunks.len() - 1 ==> !header_complete(
                #[trigger] pending_after_chunks(chunks.take(k)) + chunks[k],
            ),
        pending_after_chunks(chunks.drop_last()) + chunks.last() == Seq::<u8>::empty() + concat(
            chunks,
        ),
        header_part(pending_after_chunks(chunks.drop_last()) + chunks.last()) == header_part(
            concat(chunks),
        ),
        packet_accepted(pending_after_chunks(chunks.drop_last()) + chunks.last())
            == packet_accepted(concat(chunks)),
        payload_part(pending_after_chunks(chunks.drop_last()) + chunks.last()) == payload_part(
            concat(chunks),
        ),
{
    assert forall|k: int| 0 <= k < chunks.len() - 1 implies !header_complete(
        #[trigger] pending_after_chunks(chunks.take(k)) + chunks[k],
    ) by {
        lemma_pending_is_prefix(chunks, k);
        let t = chunks.take(k + 1);
        assert(t.drop_last() =~= chunks.take(k));
        assert(t.last() == chunks[k]);
        assert(!header_complete(concat(chunks.take(k + 1))));
    }
    let n = chunks.len() - 1;
    lemma_pending_is_prefix(chunks, n);
    assert(chunks.take(n) =~= chunks.drop_last());
    assert(Seq::<u8>::empty() + concat(chunks) =~= concat(chunks));
}

/// Error isolation: a call that saw a whole header, as every call that fails
/// does, leaves nothing behind, so the next input is decoded exactly as by a
/// freshly reset decoder.
pub proof fn lemma_error_isolation(pending: Seq<u8>, input: Seq<u8>, next: Seq<u8>)
    requires
        header_complete(pending + input),
    ensures
        pending_after(pending + input) == Seq::<u8>::empty(),
        pending_after(pending + input) + next == Seq::<u8>::empty() + next,
{
}

/// A valid header that announces no payload is accepted as soon as it is
/// complete, with an empty payload.
pub proof fn lemma_zero_length_payload(header: Seq<u8>)
    requires
        header.len() == HEADER_SIZE,
        header_bytes_valid(header),
        announced_len(header) == 0,
    ensures
        packet_accepted(header),
        payload_part(header) == Seq::<u8>::empty(),
{
    assert(header_part(header) =~= header);
    assert(payload_part(header) =~= Seq::<u8>::empty());
}

} // verus!

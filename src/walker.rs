use vstd::prelude::*;
use vstd::slice::slice_subrange;
use crate::header::{
    DecodeError,
    decode,
    decode_header_bytes,
    decode_prefix,
    field,
    lemma_frame_length_positive,
};

verus! {

/// A walk that stopped: the offset of the header that failed, and why.
#[derive(Clone, Copy, Debug, PartialEq, Eq, Structural)]
pub struct WalkError {
    pub offset: u64,
    pub error: DecodeError,
}

/// A successful decode gives a frame of at least one byte.
pub proof fn lemma_decoded_length_positive(b: Seq<u8>)
    ensures
        decode_prefix(b) is Ok ==> decode_prefix(b)->Ok_0.frame_length >= 1,
{
    if b.len() >= 4 {
        let h = crate::header::be_u32(b.take(4)) as u32;
        if decode(h) is Ok {
            let i = field(h, 12, 0xf);
            assert(i <= 15) by (bit_vector)
                requires
                    i == (h >> 12u32) & 0xfu32,
            ;
            lemma_frame_length_positive(h);
        }
    }
}

/// The result of walking `data` from offset `pos` with `count` frames
/// already counted: each step decodes the header at the cursor and moves the
/// cursor by its frame length, until the cursor reaches or passes the end.
pub open spec fn walk(data: Seq<u8>, pos: nat, count: nat) -> Result<nat, WalkError>
    decreases data.len() - pos,
    via walk_decreases
{
    if pos >= data.len() {
        Ok(count)
    } else {
        match decode_prefix(data.skip(pos as int)) {
            Err(e) => Err(WalkError { offset: pos as u64, error: e }),
            Ok(h) => if pos + h.frame_length >= data.len() {
                Ok(count + 1)
            } else {
                walk(data, pos + h.frame_length as nat, count + 1)
            },
        }
    }
}

#[via_fn]
proof fn walk_decreases(data: Seq<u8>, pos: nat, count: nat) {
    lemma_decoded_length_positive(data.skip(pos as int));
}

/// The frame count of a whole file, or where and why its walk stopped.
pub open spec fn frame_count(data: Seq<u8>) -> Result<nat, WalkError> {
    walk(data, 0, 0)
}

/// The abstract state of a walk: file size, cursor and frames counted.
pub struct WalkState {
    pub file_size: nat,
    pub cursor: nat,
    pub frames: nat,
}

/// A forward walk over a file of known size, one frame header at a time.
/// The cursor never passes the end of the file: a frame that runs over the
/// end leaves it at the end.
pub struct FrameWalker {
    file_size: u64,
    cursor: u64,
    frames: u64,
}

impl View for FrameWalker {
    type V = WalkState;

    closed spec fn view(&self) -> WalkState {
        WalkState {
            file_size: self.file_size as nat,
            cursor: self.cursor as nat,
            frames: self.frames as nat,
        }
    }
}

impl FrameWalker {
    /// Every frame counted took at least one byte, and the cursor stays
    /// within the file.
    pub closed spec fn wf(&self) -> bool {
        self.frames <= self.cursor <= self.file_size
    }

    /// Starts a walk at offset 0 with no frame counted.
    pub fn new(file_size: u64) -> (r: Self)
        ensures
            r.wf(),
            r@ == (WalkState { file_size: file_size as nat, cursor: 0, frames: 0 }),
    {
        FrameWalker { file_size, cursor: 0, frames: 0 }
    }

    pub fn file_size(&self) -> (r: u64)
        ensures
            r == self@.file_size,
    {
        self.file_size
    }

    /// The offset of the next header to read.
    pub fn cursor(&self) -> (r: u64)
        ensures
            r == self@.cursor,
    {
        self.cursor
    }

    /// The frames counted so far.
    pub fn frames(&self) -> (r: u64)
        ensures
            r == self@.frames,
    {
        self.frames
    }

    /// Whether the cursor has reached the end of the file.
    pub fn is_done(&self) -> (r: bool)
        ensures
            r == (self@.cursor >= self@.file_size),
    {
        self.cursor >= self.file_size
    }

    /// Takes one step. `head` holds the bytes of the file from the cursor on
    /// (only the first four are read; fewer where the file ends sooner). On a
    /// decode error the walk is left as it was and the error carries the
    /// cursor; otherwise the frame is counted and the cursor moves by its
    /// length, or to the end of the file where the frame runs past it.
    pub fn advance(&mut self, head: &[u8]) -> (r: Result<(), WalkError>)
        requires
            old(self).wf(),
            old(self)@.cursor < old(self)@.file_size,
        ensures
            final(self).wf(),
            final(self)@.file_size == old(self)@.file_size,
            match decode_prefix(head@) {
                Err(e) => {
                    &&& r == Err::<(), WalkError>(
                        WalkError { offset: old(self)@.cursor as u64, error: e },
                    )
                    &&& final(self)@ == old(self)@
                },
                Ok(h) => {
                    &&& r is Ok
                    &&& final(self)@.frames == old(self)@.frames + 1
                    &&& final(self)@.cursor == if old(self)@.cursor + h.frame_length
                        < old(self)@.file_size {
                        old(self)@.cursor + h.frame_length
                    } else {
                        old(self)@.file_size as int
                    }
                },
            },
    {
        match decode_header_bytes(head) {
            Err(e) => Err(WalkError { offset: self.cursor, error: e }),
            Ok(h) => {
                proof {
                    lemma_decoded_length_positive(head@);
                }
                if h.frame_length < self.file_size - self.cursor {
                    self.cursor = self.cursor + h.frame_length;
                } else {
                    self.cursor = self.file_size;
                }
                self.frames = self.frames + 1;
                Ok(())
            },
        }
    }
}

/// The bytes of `data` that the header at `pos` is read from: four, or as
/// many as remain.
fn header_window(data: &[u8], pos: usize) -> (r: &[u8])
    requires
        pos < data@.len(),
    ensures
        decode_prefix(r@) == decode_prefix(data@.skip(pos as int)),
{
    let end: usize = if data.len() - pos < 4 {
        data.len()
    } else {
        pos + 4
    };
    let r = slice_subrange(data, pos, end);
    proof {
        let rest = data@.skip(pos as int);
        if end == data.len() {
            assert(r@ =~= rest);
        } else {
            assert(r@.take(4) =~= rest.take(4));
        }
    }
    r
}

/// Counts the frames of a whole file held in memory, walking from offset 0.
/// An empty file has no frame; a header that is cut short by the end of the
/// file, or does not decode, stops the walk with its offset and the reason.
pub fn count_frames(data: &[u8]) -> (r: Result<u64, WalkError>)
    ensures
        r is Ok <==> frame_count(data@) is Ok,
        r is Ok ==> r->Ok_0 == frame_count(data@)->Ok_0,
        r is Err ==> r->Err_0 == frame_count(data@)->Err_0,
{
    let n: usize = data.len();
    let mut w = FrameWalker::new(n as u64);
    while !w.is_done()
        invariant
            w.wf(),
            n == data@.len(),
            w@.file_size == n,
            walk(data@, w@.cursor, w@.frames) == frame_count(data@),
        decreases data@.len() - w@.cursor,
    {
        let pos = w.cursor() as usize;
        let head = header_window(data, pos);
        let ghost before = w@;
        match w.advance(head) {
            Err(e) => {
                return Err(e);
            },
            Ok(()) => {
                proof {
                    lemma_decoded_length_positive(head@);
                    let h = decode_prefix(head@)->Ok_0;
                    if before.cursor + h.frame_length >= data@.len() {
                        assert(walk(data@, w@.cursor, w@.frames) == Ok::<nat, WalkError>(
                            before.frames + 1,
                        ));
                    }
                }
            },
        }
    }
    Ok(w.frames())
}

} // verus!

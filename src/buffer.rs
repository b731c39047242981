//! A file object held as discontiguous chunks, read one chunk at a time.
use vstd::prelude::*;

verus! {

/// Chunks of bytes and the position of the next one to hand out.
pub struct MultiBuf {
    chunks: Vec<Vec<u8>>,
    pos: usize,
}

impl MultiBuf {
    pub closed spec fn chunks_view(&self) -> Seq<Seq<u8>> {
        self.chunks@.map_values(|c: Vec<u8>| c@)
    }

    pub closed spec fn pos_view(&self) -> nat {
        self.pos as nat
    }

    /// A buffer over `chunks`, positioned at the first.
    pub fn new(chunks: Vec<Vec<u8>>) -> (r: MultiBuf)
        ensures
            r.chunks_view() == chunks@.map_values(|c: Vec<u8>| c@),
            r.pos_view() == 0,
    {
        MultiBuf { chunks, pos: 0 }
    }

    /// The position of the next chunk.
    pub fn pos(&self) -> (r: usize)
        ensures
            r == self.pos_view(),
    {
        self.pos
    }
}

/// The chunk at the buffer's position, or no bytes past the last chunk; the
/// position moves on by one either way.
pub fn next_chunk(buf: &mut MultiBuf) -> (r: &[u8])
    requires
        old(buf).pos_view() < usize::MAX,
    ensures
        final(buf).chunks_view() == old(buf).chunks_view(),
        final(buf).pos_view() == old(buf).pos_view() + 1,
        old(buf).pos_view() < old(buf).chunks_view().len() ==> r@ == old(buf).chunks_view()[old(
            buf,
        ).pos_view() as int],
        old(buf).pos_view() >= old(buf).chunks_view().len() ==> r@ == Seq::<u8>::empty(),
{
    let p = buf.pos;
    buf.pos = p + 1;
    if p < buf.chunks.len() {
        buf.chunks[p].as_slice()
    } else {
        let empty: &[u8] = &[];
        assert(empty@ =~= Seq::<u8>::empty());
        empty
    }
}

} // verus!

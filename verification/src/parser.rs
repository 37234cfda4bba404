//! Iteration over the metadata block chain.
//!
//! A [`Parser`] is a cursor over an in-memory byte buffer that must open
//! with the 4-byte FLAC magic marker. Each step decodes one block: a 4-byte
//! header, then either a fully decoded STREAMINFO payload or an opaque span
//! of the declared length that is skipped. The chain ends at the first block
//! whose header sets the last-block flag; the parser never reads past it.

use vstd::prelude::*;
use vstd::slice::{slice_subrange, slice_to_vec};
use crate::block::{
    header_of, stream_info_of, Block, BlockHeader, BlockType, FlacError, StreamInfoBlock,
    StreamInfoView,
};

verus! {

/// The 4-byte magic marker that opens a FLAC container: the ASCII bytes of
/// `fLaC`.
pub open spec fn magic_marker() -> Seq<u8> {
    seq![102u8, 76u8, 97u8, 67u8]
}

/// One decoded metadata block: a fully decoded STREAMINFO block, or the
/// header of a block whose payload was skipped unread.
pub enum BlockItem {
    StreamInfo(StreamInfoBlock),
    Opaque(BlockHeader),
}

/// The mathematical content of a [`BlockItem`].
pub enum ItemView {
    StreamInfo(StreamInfoView),
    Opaque(BlockHeader),
}

impl View for BlockItem {
    type V = ItemView;

    open spec fn view(&self) -> ItemView {
        match self {
            BlockItem::StreamInfo(b) => ItemView::StreamInfo(b@),
            BlockItem::Opaque(h) => ItemView::Opaque(*h),
        }
    }
}

/// The header of the block an item came from.
pub open spec fn item_header(v: ItemView) -> BlockHeader {
    match v {
        ItemView::StreamInfo(b) => b.header,
        ItemView::Opaque(h) => h,
    }
}

impl BlockItem {
    /// The header of the block this item came from.
    pub fn header(&self) -> (h: BlockHeader)
        ensures
            h == item_header(self@),
    {
        match self {
            BlockItem::StreamInfo(b) => b.header,
            BlockItem::Opaque(h) => *h,
        }
    }
}

/// The views of a sequence of decoded items.
pub open spec fn views_of(items: Seq<BlockItem>) -> Seq<ItemView> {
    items.map_values(|b: BlockItem| b@)
}

/// What decoding one block at `pos` yields: the item and the position just
/// past its payload, or the failure.
///
/// A header needs 4 bytes; a STREAMINFO header must declare a 34-byte
/// payload; the declared payload must lie within the buffer.
pub open spec fn step_result(data: Seq<u8>, pos: int) -> Result<(ItemView, int), FlacError>
    recommends
        0 <= pos <= data.len(),
{
    if pos + 4 > data.len() {
        Err(FlacError::TruncatedRead)
    } else {
        let h = header_of(data.subrange(pos, pos + 4));
        if h.block_type == BlockType::StreamInfo && h.block_length != 34 {
            Err(FlacError::PayloadLengthMismatch)
        } else if pos + 4 + h.block_length > data.len() {
            Err(FlacError::TruncatedRead)
        } else {
            let payload = data.subrange(pos + 4, pos + 4 + h.block_length);
            let item = if h.block_type == BlockType::StreamInfo {
                ItemView::StreamInfo(stream_info_of(payload, h))
            } else {
                ItemView::Opaque(h)
            };
            Ok((item, pos + 4 + h.block_length))
        }
    }
}

/// Every item of the chain that starts at `pos`, ending with the first item
/// whose header sets the last-block flag; or the failure that cuts the
/// chain short.
pub open spec fn chain_of(data: Seq<u8>, pos: int) -> Result<Seq<ItemView>, FlacError>
    recommends
        0 <= pos <= data.len(),
    decreases data.len() - pos,
{
    match step_result(data, pos) {
        Err(e) => Err(e),
        Ok((item, next)) => if item_header(item).is_last_block {
            Ok(seq![item])
        } else {
            match chain_of(data, next) {
                Ok(rest) => Ok(seq![item] + rest),
                Err(e) => Err(e),
            }
        },
    }
}

/// A cursor over the metadata chain of an in-memory FLAC byte buffer.
///
/// `pos` is the offset of the next unread byte and only ever moves forward;
/// `done` is set once a block header carried the last-block flag.
pub struct Parser {
    pub data: Vec<u8>,
    pub pos: usize,
    pub done: bool,
}

impl Parser {
    /// The cursor lies within the buffer.
    pub open spec fn wf(self) -> bool {
        self.pos <= self.data@.len()
    }

    /// Begin iterating the chain of `data`, which must open with the FLAC
    /// magic marker; the cursor starts at the first block header behind it.
    pub fn new(data: Vec<u8>) -> (r: Result<Parser, FlacError>)
        ensures
            data@.len() < 4 ==> r == Err::<Parser, FlacError>(FlacError::TruncatedRead),
            data@.len() >= 4 && data@.subrange(0, 4) != magic_marker() ==> r == Err::<
                Parser,
                FlacError,
            >(FlacError::NotAContainer),
            data@.len() >= 4 && data@.subrange(0, 4) == magic_marker() ==> (r matches Ok(p)
                && p.data@ == data@ && p.pos == 4 && !p.done),
    {
        if data.len() < 4 {
            return Err(FlacError::TruncatedRead);
        }
        let m0 = data[0];
        let m1 = data[1];
        let m2 = data[2];
        let m3 = data[3];
        if m0 == 102 && m1 == 76 && m2 == 97 && m3 == 67 {
            proof {
                assert(data@.subrange(0, 4) =~= magic_marker());
            }
            Ok(Parser { data, pos: 4, done: false })
        } else {
            proof {
                assert(data@.subrange(0, 4)[0] == data@[0]);
                assert(data@.subrange(0, 4)[1] == data@[1]);
                assert(data@.subrange(0, 4)[2] == data@[2]);
                assert(data@.subrange(0, 4)[3] == data@[3]);
            }
            Err(FlacError::NotAContainer)
        }
    }

    /// Decode the next 4-byte block header and advance just past it. The
    /// parser's `done` flag records the header's last-block flag; on
    /// failure the parser is unchanged.
    pub fn next_block_header(&mut self) -> (r: Result<BlockHeader, FlacError>)
        requires
            old(self).wf(),
        ensures
            final(self).wf(),
            final(self).data@ == old(self).data@,
            old(self).pos + 4 > old(self).data@.len() ==> r == Err::<BlockHeader, FlacError>(
                FlacError::TruncatedRead,
            ) && *final(self) == *old(self),
            old(self).pos + 4 <= old(self).data@.len() ==> {
                let h = header_of(
                    old(self).data@.subrange(old(self).pos as int, old(self).pos + 4),
                );
                &&& r == Ok::<BlockHeader, FlacError>(h)
                &&& final(self).pos == old(self).pos + 4
                &&& final(self).done == h.is_last_block
            },
    {
        if self.data.len() - self.pos < 4 {
            return Err(FlacError::TruncatedRead);
        }
        let header_bytes = slice_to_vec(
            slice_subrange(self.data.as_slice(), self.pos, self.pos + 4),
        );
        let block_header = BlockHeader::new(&header_bytes);
        self.pos = self.pos + 4;
        self.done = block_header.is_last_block;
        Ok(block_header)
    }

    /// Decode one whole block at the cursor: its header, then either the
    /// decoded 34-byte STREAMINFO payload or an opaque span of the declared
    /// length, which is skipped. On success the cursor stands just past the
    /// payload and `done` records the header's last-block flag; on failure
    /// the parser is unchanged.
    pub fn next_block(&mut self) -> (r: Result<BlockItem, FlacError>)
        requires
            old(self).wf(),
            !old(self).done,
        ensures
            final(self).wf(),
            final(self).data@ == old(self).data@,
            match step_result(old(self).data@, old(self).pos as int) {
                Ok(step) => {
                    &&& r matches Ok(b) && b@ == step.0
                    &&& final(self).pos == step.1
                    &&& final(self).done == item_header(step.0).is_last_block
                },
                Err(e) => r == Err::<BlockItem, FlacError>(e) && *final(self) == *old(self),
            },
    {
        if self.data.len() - self.pos < 4 {
            return Err(FlacError::TruncatedRead);
        }
        let header_bytes = slice_to_vec(
            slice_subrange(self.data.as_slice(), self.pos, self.pos + 4),
        );
        let h = BlockHeader::new(&header_bytes);
        let is_stream_info = h.block_type == BlockType::StreamInfo;
        if is_stream_info && h.block_length != 34 {
            return Err(FlacError::PayloadLengthMismatch);
        }
        let remaining = self.data.len() - self.pos - 4;
        if h.block_length as usize > remaining {
            return Err(FlacError::TruncatedRead);
        }
        let payload_start = self.pos + 4;
        let payload_end = payload_start + h.block_length as usize;
        let item = if is_stream_info {
            let payload = slice_to_vec(
                slice_subrange(self.data.as_slice(), payload_start, payload_end),
            );
            BlockItem::StreamInfo(Block::new(&payload, h))
        } else {
            BlockItem::Opaque(h)
        };
        self.pos = payload_end;
        self.done = h.is_last_block;
        Ok(item)
    }
}

/// Decode a whole metadata chain: check the magic marker, then decode block
/// after block until one sets the last-block flag. The result is exactly
/// what [`chain_of`] says the buffer holds, in stream order.
pub fn decode_all(data: Vec<u8>) -> (r: Result<Vec<BlockItem>, FlacError>)
    ensures
        data@.len() < 4 ==> r == Err::<Vec<BlockItem>, FlacError>(FlacError::TruncatedRead),
        data@.len() >= 4 && data@.subrange(0, 4) != magic_marker() ==> r == Err::<
            Vec<BlockItem>,
            FlacError,
        >(FlacError::NotAContainer),
        data@.len() >= 4 && data@.subrange(0, 4) == magic_marker() ==> match chain_of(data@, 4) {
            Ok(items) => r matches Ok(v) && views_of(v@) == items,
            Err(e) => r == Err::<Vec<BlockItem>, FlacError>(e),
        },
{
    let ghost gdata = data@;
    let mut parser = match Parser::new(data) {
        Ok(p) => p,
        Err(e) => {
            return Err(e);
        },
    };
    let mut items: Vec<BlockItem> = Vec::new();
    proof {
        assert(views_of(items@) =~= Seq::<ItemView>::empty());
    }
    loop
        invariant
            gdata == data@,
            parser.wf(),
            parser.data@ == gdata,
            !parser.done,
            4 <= parser.pos <= gdata.len(),
            gdata.len() >= 4 && gdata.subrange(0, 4) == magic_marker(),
            match chain_of(gdata, parser.pos as int) {
                Ok(rest) => chain_of(gdata, 4) == Ok::<Seq<ItemView>, FlacError>(
                    views_of(items@) + rest,
                ),
                Err(e) => chain_of(gdata, 4) == Err::<Seq<ItemView>, FlacError>(e),
            },
        decreases gdata.len() - parser.pos,
    {
        let ghost pos0 = parser.pos as int;
        let ghost items0 = items@;
        match parser.next_block() {
            Ok(item) => {
                proof {
                    assert(views_of(items0.push(item)) =~= views_of(items0) + seq![item@]);
                }
                items.push(item);
                if parser.done {
                    proof {
                        let step = step_result(gdata, pos0)->Ok_0;
                        assert(chain_of(gdata, pos0) == Ok::<Seq<ItemView>, FlacError>(
                            seq![step.0],
                        ));
                        assert(views_of(items@) =~= views_of(items0) + seq![step.0]);
                    }
                    return Ok(items);
                }
                proof {
                    let step = step_result(gdata, pos0)->Ok_0;
                    assert(chain_of(gdata, pos0) == (match chain_of(gdata, step.1) {
                        Ok(rest) => Ok::<Seq<ItemView>, FlacError>(seq![step.0] + rest),
                        Err(e) => Err::<Seq<ItemView>, FlacError>(e),
                    }));
                    if let Ok(rest) = chain_of(gdata, step.1) {
                        assert(views_of(items0) + (seq![step.0] + rest) =~= views_of(items@)
                            + rest);
                    }
                }
            },
            Err(e) => {
                return Err(e);
            },
        }
    }
}

/// A well-formed run of `n` back-to-back blocks starting at `pos`: each
/// decodes, and only the `n`-th sets the last-block flag.
pub open spec fn is_chain_of(data: Seq<u8>, pos: int, n: nat) -> bool
    decreases n,
{
    n > 0 && match step_result(data, pos) {
        Ok(step) => {
            &&& (item_header(step.0).is_last_block <==> n == 1)
            &&& (n > 1 ==> is_chain_of(data, step.1, (n - 1) as nat))
        },
        Err(_) => false,
    }
}

/// Chain termination, counting: a run of `n` blocks of which only the last
/// sets the last-block flag yields exactly `n` items.
pub proof fn lemma_chain_yields_exactly(data: Seq<u8>, pos: int, n: nat)
    requires
        is_chain_of(data, pos, n),
    ensures
        chain_of(data, pos) matches Ok(items) && items.len() == n,
    decreases n,
{
    let step = step_result(data, pos)->Ok_0;
    if n > 1 {
        lemma_chain_yields_exactly(data, step.1, (n - 1) as nat);
    }
}

/// An unflagged run of `n` blocks with the buffer exhausted behind it:
/// every block decodes, none sets the last-block flag, and fewer than the 4
/// bytes of a header remain after the run.
pub open spec fn is_unflagged_exhausted(data: Seq<u8>, pos: int, n: nat) -> bool
    decreases n,
{
    if n == 0 {
        pos + 4 > data.len()
    } else {
        match step_result(data, pos) {
            Ok(step) => !item_header(step.0).is_last_block && is_unflagged_exhausted(
                data,
                step.1,
                (n - 1) as nat,
            ),
            Err(_) => false,
        }
    }
}

/// Chain exhaustion: when no block of the buffer ever sets the last-block
/// flag, the chain decode surfaces a truncated read once the bytes run out,
/// rather than yielding a chain.
pub proof fn lemma_unflagged_chain_truncates(data: Seq<u8>, pos: int, n: nat)
    requires
        is_unflagged_exhausted(data, pos, n),
    ensures
        chain_of(data, pos) == Err::<Seq<ItemView>, FlacError>(FlacError::TruncatedRead),
    decreases n,
{
    if n > 0 {
        let step = step_result(data, pos)->Ok_0;
        lemma_unflagged_chain_truncates(data, step.1, (n - 1) as nat);
    }
}

/// Chain termination, stopping: a successfully decoded chain ends exactly
/// at the first block that sets the last-block flag. The last item carries
/// the flag, no earlier item does, and nothing past it was decoded.
pub proof fn lemma_chain_stops_at_flag(data: Seq<u8>, pos: int)
    ensures
        chain_of(data, pos) matches Ok(items) ==> {
            &&& items.len() >= 1
            &&& item_header(items.last()).is_last_block
            &&& forall|i: int|
                0 <= i < items.len() - 1 ==> !item_header(#[trigger] items[i]).is_last_block
        },
    decreases data.len() - pos,
{
    if chain_of(data, pos) is Ok {
        let items = chain_of(data, pos)->Ok_0;
        let step = step_result(data, pos)->Ok_0;
        if !item_header(step.0).is_last_block {
            lemma_chain_stops_at_flag(data, step.1);
            let rest = chain_of(data, step.1)->Ok_0;
            assert(items == seq![step.0] + rest);
            assert(items.last() == rest.last());
            assert(forall|i: int|
                0 < i < items.len() - 1 ==> items[i] == rest[i - 1]
                    && !item_header(#[trigger] items[i]).is_last_block);
        }
    }
}

} // verus!

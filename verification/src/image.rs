//! Files as byte sequences: what a read obtains, what a write leaves, and
//! what stripping the spare bytes from a dump yields.

use vstd::prelude::*;
use crate::layout::SectorLayout;
use crate::layout::lemma_payload_len_bounds;
use crate::layout::lemma_source_index_in_range;

verus! {

/// The bytes that a read of up to `want` bytes obtains at `pos`: as many as
/// the image holds from there on, and none at or past its end.
pub open spec fn read_bytes(image: Seq<u8>, pos: int, want: int) -> Seq<u8> {
    if pos >= image.len() {
        Seq::empty()
    } else if image.len() - pos < want {
        image.subrange(pos, image.len() as int)
    } else {
        image.subrange(pos, pos + want)
    }
}

/// The image after `data` is written at `pos`. The bytes take the place of
/// what was there and lengthen the image where they reach past its end; a gap
/// between the old end and `pos` reads as zeros. Writing nothing changes
/// nothing, wherever the cursor stands.
pub open spec fn written(image: Seq<u8>, pos: int, data: Seq<u8>) -> Seq<u8> {
    if data.len() == 0 {
        image
    } else {
        Seq::new(
            if image.len() >= pos + data.len() {
                image.len()
            } else {
                (pos + data.len()) as nat
            },
            |i: int|
                if pos <= i < pos + data.len() {
                    data[i - pos]
                } else if i < image.len() {
                    image[i]
                } else {
                    0u8
                },
        )
    }
}

/// The payload of the dump that starts at byte `from` of `input`: byte `k` of
/// it is the byte of the dump that lies `k % payload` bytes into unit
/// `k / payload`. A last unit that is cut short gives what payload it has.
pub open spec fn stripped(input: Seq<u8>, from: int, layout: SectorLayout) -> Seq<u8> {
    if from >= input.len() {
        Seq::empty()
    } else {
        Seq::new(
            layout.payload_len(input.len() - from) as nat,
            |k: int| input[from + layout.source_index(k)],
        )
    }
}

/// Stripping takes every byte from the dump, and none from before the byte at
/// `from` or from past the end of the input; there are no more of them than the
/// dump has bytes, and at least one where the dump has any.
pub proof fn lemma_stripped_from_input(input: Seq<u8>, from: int, layout: SectorLayout, k: int)
    requires
        layout.wf(),
        0 <= from,
        0 <= k < stripped(input, from, layout).len(),
    ensures
        from <= from + layout.source_index(k) < input.len(),
        stripped(input, from, layout)[k] == input[from + layout.source_index(k)],
        0 < stripped(input, from, layout).len() <= input.len() - from,
{
    lemma_source_index_in_range(layout, input.len() - from, k);
    lemma_payload_len_bounds(layout, input.len() - from);
}

/// Two writes, the second where the first ended, leave what one write of
/// both pieces leaves.
pub proof fn lemma_written_append(image: Seq<u8>, pos: int, first: Seq<u8>, second: Seq<u8>)
    requires
        0 <= pos,
    ensures
        written(written(image, pos, first), pos + first.len(), second) == written(
            image,
            pos,
            first + second,
        ),
{
    if first.len() == 0 {
        assert(first + second =~= second);
    } else if second.len() == 0 {
        assert(first + second =~= first);
    } else {
        assert(written(written(image, pos, first), pos + first.len(), second) =~= written(
            image,
            pos,
            first + second,
        ));
    }
}

/// A write past the end of an image leaves the image, then zeros up to the
/// cursor, then the bytes written.
pub proof fn lemma_written_past_end(image: Seq<u8>, pos: int, data: Seq<u8>)
    requires
        image.len() <= pos,
        data.len() > 0,
    ensures
        written(image, pos, data) == image + Seq::new((pos - image.len()) as nat, |i: int| 0u8)
            + data,
{
    assert(written(image, pos, data) =~= image + Seq::new(
        (pos - image.len()) as nat,
        |i: int| 0u8,
    ) + data);
}

/// Reads up to `want` bytes of `input` at `pos`.
pub fn read_at(input: &[u8], pos: u64, want: usize) -> (block: Vec<u8>)
    ensures
        block@ == read_bytes(input@, pos as int, want as int),
{
    let mut block: Vec<u8> = Vec::new();
    if pos >= input.len() as u64 {
        return block;
    }
    let start: usize = pos as usize;
    let held: usize = input.len() - start;
    let count: usize = if held < want {
        held
    } else {
        want
    };
    let mut j: usize = 0;
    while j < count
        invariant
            j <= count,
            start + count <= input@.len() <= usize::MAX,
            block@ == input@.subrange(start as int, start + j),
        decreases count - j,
    {
        block.push(input[start + j]);
        j += 1;
    }
    block
}

/// Writes `data` into `image` at `pos`.
pub fn write_at(image: &mut Vec<u8>, pos: usize, data: &[u8])
    requires
        pos + data@.len() <= usize::MAX,
    ensures
        final(image)@ == written(old(image)@, pos as int, data@),
{
    if data.len() == 0 {
        return ;
    }
    let ghost before = image@;
    while image.len() < pos
        invariant
            before.len() <= image@.len(),
            image@.len() <= pos || image@ == before,
            forall|i: int|
                0 <= i < image@.len() ==> image@[i] == if i < before.len() {
                    before[i]
                } else {
                    0u8
                },
        decreases pos - image@.len(),
    {
        image.push(0);
    }
    let mut j: usize = 0;
    while j < data.len()
        invariant
            j <= data@.len(),
            pos + data@.len() <= usize::MAX,
            image@.len() == if before.len() >= pos + j {
                before.len()
            } else {
                (pos + j) as nat
            },
            forall|i: int| pos <= i < pos + j ==> image@[i] == data@[i - pos],
            forall|i: int|
                0 <= i < image@.len() && !(pos <= i < pos + j) ==> image@[i] == if i
                    < before.len() {
                    before[i]
                } else {
                    0u8
                },
        decreases data@.len() - j,
    {
        if pos + j < image.len() {
            image[pos + j] = data[j];
        } else {
            image.push(data[j]);
        }
        j += 1;
    }
}

} // verus!

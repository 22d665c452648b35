//! Splitting an H.264 Annex B byte stream into NAL units.
//!
//! The encoder writes its output in pieces of arbitrary size. A unit begins with
//! the start code `00 00 00 01` and is complete once the next start code has been
//! seen; until then its bytes are held back.
use crate::pw_source::PwSource;
use vstd::prelude::*;
use vstd::slice::slice_subrange;
use vstd::slice::slice_to_vec;

verus! {

/// A start code stands in `data` at position `i`.
pub open spec fn start_code_at(data: Seq<u8>, i: int) -> bool {
    &&& 0 <= i
    &&& i + 4 <= data.len()
    &&& data[i] == 0
    &&& data[i + 1] == 0
    &&& data[i + 2] == 0
    &&& data[i + 3] == 1
}

/// A start code is the four bytes `00 00 00 01`, and nothing else is.
pub proof fn law_start_code_is_four_bytes(data: Seq<u8>, i: int)
    ensures
        start_code_at(data, i) <==> 0 <= i && i + 4 <= data.len() && data.skip(i).take(4)
            == seq![0u8, 0u8, 0u8, 1u8],
{
    if 0 <= i && i + 4 <= data.len() {
        let word = data.skip(i).take(4);
        assert(word[0] == data[i] && word[1] == data[i + 1] && word[2] == data[i + 2] && word[3]
            == data[i + 3]);
        if start_code_at(data, i) {
            assert(word =~= seq![0u8, 0u8, 0u8, 1u8]);
        }
    }
}

/// The position of the first start code in `data` at or after `from`.
pub open spec fn first_start_code(data: Seq<u8>, from: int) -> Option<int>
    decreases data.len() - from,
{
    if from + 4 > data.len() {
        None
    } else if start_code_at(data, from) {
        Some(from)
    } else {
        first_start_code(data, from + 1)
    }
}

/// `first_start_code` is the least position from `from` on that holds a start code.
pub proof fn lemma_first_start_code(data: Seq<u8>, from: int)
    ensures
        match first_start_code(data, from) {
            Some(i) => {
                &&& from <= i
                &&& i + 4 <= data.len()
                &&& start_code_at(data, i)
                &&& forall|j: int| from <= j < i ==> !start_code_at(data, j)
            },
            None => forall|j: int| from <= j ==> !start_code_at(data, j),
        },
    decreases data.len() - from,
{
    if from + 4 <= data.len() && !start_code_at(data, from) {
        lemma_first_start_code(data, from + 1);
    }
}

/// The first start code from `from` on is the first place from there where the four bytes
/// stand, and there is none if they stand nowhere.
pub proof fn law_first_start_code(data: Seq<u8>, from: int)
    requires
        0 <= from,
    ensures
        match first_start_code(data, from) {
            Some(i) => {
                &&& from <= i
                &&& i + 4 <= data.len()
                &&& data.skip(i).take(4) == seq![0u8, 0u8, 0u8, 1u8]
                &&& forall|j: int|
                    from <= j < i ==> (#[trigger] data.skip(j)).take(4) != seq![0u8, 0u8, 0u8, 1u8]
            },
            None => forall|j: int|
                from <= j && j + 4 <= data.len() ==> (#[trigger] data.skip(j)).take(4) != seq![
                    0u8,
                    0u8,
                    0u8,
                    1u8,
                ],
        },
{
    lemma_first_start_code(data, from);
    assert forall|j: int| start_code_at(data, j) == (0 <= j && j + 4 <= data.len() && (
    #[trigger] data.skip(j)).take(4) == seq![0u8, 0u8, 0u8, 1u8]) by {
        law_start_code_is_four_bytes(data, j);
    }
    if let Some(i) = first_start_code(data, from) {
        assert(data.skip(i).take(4) == seq![0u8, 0u8, 0u8, 1u8]);
    }
}

/// The complete units of a stream: each runs from one start code up to the next.
pub open spec fn complete_units(data: Seq<u8>) -> Seq<Seq<u8>>
    decreases data.len(),
{
    match first_start_code(data, 0) {
        None => Seq::empty(),
        Some(start) => match first_start_code(data, start + 4) {
            None => Seq::empty(),
            Some(next) => {
                proof {
                    lemma_first_start_code(data, 0);
                    lemma_first_start_code(data, start + 4);
                }
                seq![data.subrange(start, next)] + complete_units(data.skip(next))
            },
        },
    }
}

/// What is left of a stream once its complete units have been taken off the front.
pub open spec fn pending(data: Seq<u8>) -> Seq<u8>
    decreases data.len(),
{
    match first_start_code(data, 0) {
        None => data,
        Some(start) => match first_start_code(data, start + 4) {
            None => data,
            Some(next) => {
                proof {
                    lemma_first_start_code(data, 0);
                    lemma_first_start_code(data, start + 4);
                }
                pending(data.skip(next))
            },
        },
    }
}

/// The byte sequences that a vector of units holds.
pub open spec fn unit_bytes(units: Seq<Vec<u8>>) -> Seq<Seq<u8>> {
    units.map_values(|u: Vec<u8>| u@)
}

/// What one read from the encoder brought. No bytes mean the end of the stream.
pub enum ReadOutcome<'a> {
    Bytes(&'a [u8]),
    Failed,
}

/// What follows from one read: the byte strings to send on, in order, and whether
/// reading ends.
pub struct ReadStep {
    pub sent: Vec<Vec<u8>>,
    pub stop: bool,
}

impl<'a> ReadOutcome<'a> {
    /// The bytes read, or nothing where the read failed.
    pub open spec fn bytes(self) -> Option<Seq<u8>> {
        match self {
            ReadOutcome::Bytes(bytes) => Some(bytes@),
            ReadOutcome::Failed => None,
        }
    }
}

/// What one read sends on, when `held` was held back before it: the units that are
/// complete now; at the end of the stream all that was held; nothing where the read
/// failed.
pub open spec fn step_sent(held: Seq<u8>, read: Option<Seq<u8>>) -> Seq<Seq<u8>> {
    match read {
        Some(bytes) => if bytes.len() > 0 {
            complete_units(held + bytes)
        } else if held.len() > 0 {
            seq![held]
        } else {
            Seq::empty()
        },
        None => Seq::empty(),
    }
}

/// What is held back after one read, when `held` was held back before it.
pub open spec fn step_held(held: Seq<u8>, read: Option<Seq<u8>>) -> Seq<u8> {
    match read {
        Some(bytes) => if bytes.len() > 0 {
            pending(held + bytes)
        } else {
            Seq::empty()
        },
        None => held,
    }
}

/// Reading ends at the end of the stream and at a failed read.
pub open spec fn step_stops(read: Option<Seq<u8>>) -> bool {
    read is None || read->0.len() == 0
}

/// The state of the thread that reads the encoder's output: the bytes read so far
/// that do not yet make a complete unit.
pub struct NalReader {
    accumulator: Vec<u8>,
}

impl View for NalReader {
    type V = Seq<u8>;

    closed spec fn view(&self) -> Seq<u8> {
        self.accumulator@
    }
}

impl NalReader {
    /// A reader that has read nothing.
    pub fn new() -> (reader: NalReader)
        ensures
            reader@ == Seq::<u8>::empty(),
    {
        NalReader { accumulator: Vec::new() }
    }

    /// Takes in the outcome of one read.
    pub fn on_read(&mut self, outcome: ReadOutcome<'_>) -> (step: ReadStep)
        ensures
            unit_bytes(step.sent@) == step_sent(old(self)@, outcome.bytes()),
            final(self)@ == step_held(old(self)@, outcome.bytes()),
            step.stop == step_stops(outcome.bytes()),
            match outcome {
                ReadOutcome::Bytes(bytes) => if bytes@.len() > 0 {
                    &&& !step.stop
                    &&& step.sent@.len() == complete_units(old(self)@ + bytes@).len()
                    &&& forall|i: int|
                        0 <= i < step.sent@.len() ==> (#[trigger] step.sent@[i])@
                            == complete_units(old(self)@ + bytes@)[i]
                    &&& final(self)@ == pending(old(self)@ + bytes@)
                } else {
                    &&& step.stop
                    &&& old(self)@.len() == 0 ==> step.sent@.len() == 0
                    &&& old(self)@.len() > 0 ==> step.sent@.len() == 1 && step.sent@[0]@ == old(
                        self,
                    )@
                    &&& final(self)@.len() == 0
                },
                ReadOutcome::Failed => {
                    &&& step.stop
                    &&& step.sent@.len() == 0
                    &&& final(self)@ == old(self)@
                },
            },
    {
        match outcome {
            ReadOutcome::Bytes(bytes) => {
                if bytes.len() == 0 {
                    let mut sent: Vec<Vec<u8>> = Vec::new();
                    let mut held: Vec<u8> = Vec::new();
                    std::mem::swap(&mut held, &mut self.accumulator);
                    if held.len() > 0 {
                        sent.push(held);
                    }
                    proof {
                        assert(unit_bytes(sent@).len() == sent@.len());
                    }
                    ReadStep { sent, stop: true }
                } else {
                    self.accumulator.extend_from_slice(bytes);
                    assert(self.accumulator@ =~= old(self)@ + bytes@);
                    let sent: Vec<Vec<u8>> = self.take_units();
                    proof {
                        assert(unit_bytes(sent@).len() == sent@.len());
                        assert forall|i: int| 0 <= i < sent@.len() implies (#[trigger] sent@[i])@
                            == complete_units(old(self)@ + bytes@)[i] by {
                            assert(unit_bytes(sent@)[i] == sent@[i]@);
                        }
                    }
                    ReadStep { sent, stop: false }
                }
            },
            ReadOutcome::Failed => ReadStep { sent: Vec::new(), stop: true },
        }
    }

    /// Takes the complete units off the front of what is held.
    fn take_units(&mut self) -> (units: Vec<Vec<u8>>)
        ensures
            unit_bytes(units@) == complete_units(old(self)@),
            final(self)@ == pending(old(self)@),
    {
        let mut units: Vec<Vec<u8>> = Vec::new();
        let mut search_pos: usize = 0;
        let len: usize = self.accumulator.len();
        let ghost data = self.accumulator@;
        proof {
            assert(data.skip(0) =~= data);
        }
        loop
            invariant
                self.accumulator@ == data,
                len == data.len(),
                search_pos <= data.len(),
                unit_bytes(units@) + complete_units(data.skip(search_pos as int)) =~= complete_units(data),
                pending(data.skip(search_pos as int)) == pending(data),
            ensures
                complete_units(data.skip(search_pos as int)) =~= Seq::<Seq<u8>>::empty(),
                pending(data.skip(search_pos as int)) == data.skip(search_pos as int),
            decreases data.len() - search_pos,
        {
            let ghost rest = data.skip(search_pos as int);
            proof {
                lemma_first_in_skip(data, search_pos as int, 0);
            }
            match PwSource::find_start_code(self.accumulator.as_slice(), search_pos) {
                None => {
                    break;
                },
                Some(start) => {
                    proof {
                        lemma_first_start_code(data, search_pos as int);
                        lemma_first_in_skip(data, search_pos as int, start - search_pos + 4);
                    }
                    match PwSource::find_start_code(self.accumulator.as_slice(), start + 4) {
                        None => {
                            break;
                        },
                        Some(next) => {
                            proof {
                                lemma_first_start_code(data, start + 4);
                            }
                            let unit: Vec<u8> = slice_to_vec(
                                slice_subrange(self.accumulator.as_slice(), start, next),
                            );
                            let ghost before = unit_bytes(units@);
                            units.push(unit);
                            proof {
                                assert(unit_bytes(units@) =~= before.push(unit@));
                                assert(rest.subrange(start - search_pos, next - search_pos)
                                    =~= data.subrange(start as int, next as int));
                                assert(rest.skip(next - search_pos) =~= data.skip(next as int));
                            }
                            search_pos = next;
                        },
                    }
                },
            }
        }
        if search_pos > 0 {
            self.accumulator = slice_to_vec(
                slice_subrange(self.accumulator.as_slice(), search_pos, len),
            );
        }
        proof {
            assert(self.accumulator@ =~= data.skip(search_pos as int));
            assert(unit_bytes(units@) + Seq::<Seq<u8>>::empty() =~= unit_bytes(units@));
        }
        units
    }
}

/// More bytes behind a stream do not move a start code that it already shows.
proof fn lemma_first_in_prefix(data: Seq<u8>, more: Seq<u8>, from: int)
    requires
        0 <= from,
        first_start_code(data, from) is Some,
    ensures
        first_start_code(data + more, from) == first_start_code(data, from),
    decreases data.len() - from,
{
    assert(start_code_at(data + more, from) == start_code_at(data, from));
    if !start_code_at(data, from) {
        lemma_first_in_prefix(data, more, from + 1);
    }
}

/// Splitting a stream when it is whole gives the same units, and leaves the same
/// bytes, as splitting a front part of it first and the rest, behind what that left,
/// afterwards.
pub proof fn law_split_in_two(front: Seq<u8>, back: Seq<u8>)
    ensures
        complete_units(front + back) == complete_units(front) + complete_units(
            pending(front) + back,
        ),
        pending(front + back) == pending(pending(front) + back),
    decreases front.len(),
{
    lemma_first_start_code(front, 0);
    if let Some(start) = first_start_code(front, 0) {
        lemma_first_start_code(front, start + 4);
        if let Some(next) = first_start_code(front, start + 4) {
            lemma_first_in_prefix(front, back, 0);
            lemma_first_in_prefix(front, back, start + 4);
            assert((front + back).subrange(start, next) =~= front.subrange(start, next));
            assert((front + back).skip(next) =~= front.skip(next) + back);
            law_split_in_two(front.skip(next), back);
            assert(complete_units(front + back) =~= complete_units(front) + complete_units(
                pending(front) + back,
            ));
        } else {
            assert(complete_units(front) + complete_units(front + back) =~= complete_units(
                front + back,
            ));
        }
    } else {
        assert(complete_units(front) + complete_units(front + back) =~= complete_units(
            front + back,
        ));
    }
}

/// A complete unit is never held back: what is left holds no complete unit.
pub proof fn law_nothing_complete_is_held(data: Seq<u8>)
    ensures
        complete_units(pending(data)) == Seq::<Seq<u8>>::empty(),
        pending(pending(data)) == pending(data),
    decreases data.len(),
{
    lemma_first_start_code(data, 0);
    if let Some(start) = first_start_code(data, 0) {
        lemma_first_start_code(data, start + 4);
        if let Some(next) = first_start_code(data, start + 4) {
            law_nothing_complete_is_held(data.skip(next));
        }
    }
}

/// Two start codes are never held back: the first of them begins a unit that the second
/// completes.
pub proof fn law_held_has_one_start_code(data: Seq<u8>, i: int, j: int)
    requires
        0 <= i < j,
        j + 4 <= pending(data).len(),
        pending(data).skip(i).take(4) == seq![0u8, 0u8, 0u8, 1u8],
    ensures
        pending(data).skip(j).take(4) != seq![0u8, 0u8, 0u8, 1u8],
{
    let held = pending(data);
    law_start_code_is_four_bytes(held, i);
    law_start_code_is_four_bytes(held, j);
    lemma_held_has_one_start_code(data, i, j);
}

/// The same, over positions of start codes.
proof fn lemma_held_has_one_start_code(data: Seq<u8>, i: int, j: int)
    requires
        0 <= i < j,
        start_code_at(pending(data), i),
    ensures
        !start_code_at(pending(data), j),
    decreases data.len(),
{
    lemma_first_start_code(data, 0);
    if let Some(start) = first_start_code(data, 0) {
        lemma_first_start_code(data, start + 4);
        if let Some(next) = first_start_code(data, start + 4) {
            lemma_held_has_one_start_code(data.skip(next), i, j);
        } else {
            assert(start_code_at(data, start));
            assert(start <= i);
            if start_code_at(data, j) && j < start + 4 {
                assert(data[start + 3] == 1);
                assert(data[j] == 0 && data[j + 1] == 0 && data[j + 2] == 0);
            }
        }
    }
}

/// Where a unit ends the next one begins: once a unit has been taken off, what is left
/// begins with a start code.
pub proof fn law_held_begins_with_start_code(data: Seq<u8>)
    requires
        complete_units(data).len() > 0,
    ensures
        pending(data).len() >= 4,
        pending(data).take(4) == seq![0u8, 0u8, 0u8, 1u8],
    decreases data.len(),
{
    lemma_first_start_code(data, 0);
    let start = first_start_code(data, 0)->0;
    lemma_first_start_code(data, start + 4);
    let next = first_start_code(data, start + 4)->0;
    let rest = data.skip(next);
    if complete_units(rest).len() > 0 {
        law_held_begins_with_start_code(rest);
    } else {
        assert(start_code_at(rest, 0));
        assert(pending(rest) == rest) by {
            lemma_first_start_code(rest, 0);
        }
        assert(rest.take(4) =~= seq![0u8, 0u8, 0u8, 1u8]);
    }
}

/// A unit, whatever its length, is sent as it is once a start code stands behind it, and
/// what follows is split as if it stood alone.
pub proof fn law_unit_is_sent_whole(unit: Seq<u8>, rest: Seq<u8>)
    requires
        start_code_at(unit, 0),
        forall|j: int| 0 < j ==> !start_code_at(unit, j),
        start_code_at(rest, 0),
    ensures
        complete_units(unit + rest) == seq![unit] + complete_units(rest),
        pending(unit + rest) == pending(rest),
{
    let data = unit + rest;
    let n = unit.len() as int;
    assert(start_code_at(data, 0));
    assert(first_start_code(data, 0) == Some(0int));
    assert(start_code_at(data, n)) by {
        assert(data[n] == rest[0] && data[n + 1] == rest[1] && data[n + 2] == rest[2] && data[n + 3]
            == rest[3]);
    }
    assert forall|j: int| 4 <= j < n implies !start_code_at(data, j) by {
        if start_code_at(data, j) {
            if j + 4 <= n {
                assert(start_code_at(unit, j));
            } else {
                assert(data[j + 3] == rest[j + 3 - n]);
            }
        }
    }
    lemma_first_start_code(data, 4);
    assert(first_start_code(data, 4) == Some(n));
    assert(data.subrange(0, n) =~= unit);
    assert(data.skip(n) =~= rest);
}

/// Bytes without two start codes are held back as they are.
pub proof fn law_incomplete_unit_is_held(data: Seq<u8>)
    requires
        forall|i: int, j: int|
            0 <= i < j ==> !(#[trigger] start_code_at(data, i) && #[trigger] start_code_at(data, j)),
    ensures
        complete_units(data) == Seq::<Seq<u8>>::empty(),
        pending(data) == data,
{
    lemma_first_start_code(data, 0);
    if let Some(start) = first_start_code(data, 0) {
        lemma_first_start_code(data, start + 4);
        if let Some(next) = first_start_code(data, start + 4) {
            assert(start_code_at(data, start) && start_code_at(data, next));
        }
    }
}

/// Each complete unit begins with a start code and holds no other.
pub proof fn law_one_start_code_per_unit(data: Seq<u8>, k: int, j: int)
    requires
        0 <= k < complete_units(data).len(),
    ensures
        start_code_at(complete_units(data)[k], j) <==> j == 0,
    decreases data.len(),
{
    lemma_first_start_code(data, 0);
    let start = first_start_code(data, 0)->0;
    lemma_first_start_code(data, start + 4);
    let next = first_start_code(data, start + 4)->0;
    if k == 0 {
        let unit = data.subrange(start, next);
        assert(complete_units(data)[0] == unit);
        if start_code_at(unit, j) {
            assert(start_code_at(data, start + j));
            if 0 < j < 4 {
                assert(data[start + 3] == 1);
                assert(unit[3] == 1);
                assert(unit[0] == 0 && unit[1] == 0 && unit[2] == 0);
            }
        }
    } else {
        law_one_start_code_per_unit(data.skip(next), k - 1, j);
        assert(complete_units(data)[k] == complete_units(data.skip(next))[k - 1]);
    }
}

/// What is sent and what is held back are together the end of what was read; what is
/// missing in front of it holds no start code, and something is missing only if a unit is
/// sent.
pub proof fn law_only_lead_in_is_dropped(data: Seq<u8>, j: int)
    ensures
        complete_units(data).flatten().len() + pending(data).len() <= data.len(),
        complete_units(data).flatten() + pending(data) == data.skip(
            data.len() - complete_units(data).flatten().len() - pending(data).len(),
        ),
        complete_units(data).len() == 0 ==> pending(data) == data,
        0 <= j < data.len() - complete_units(data).flatten().len() - pending(data).len()
            ==> data.skip(j).take(4) != seq![0u8, 0u8, 0u8, 1u8],
{
    law_units_cover_stream(data);
    law_start_code_is_four_bytes(data, j);
    let kept = complete_units(data).flatten() + pending(data);
    assert(kept.len() == data.len() - lead_in(data));
    if complete_units(data).len() == 0 {
        assert(data.skip(0) =~= data);
        assert(complete_units(data) =~= Seq::<Seq<u8>>::empty());
        assert(kept =~= pending(data));
    }
    if 0 <= j < lead_in(data) {
        assert(!start_code_at(data, j));
        if data.skip(j).take(4) == seq![0u8, 0u8, 0u8, 1u8] {
            if j + 4 > data.len() {
                lemma_first_start_code(data, 0);
                assert(complete_units(data).len() > 0);
            }
        }
    }
}

/// The number of bytes in front of the first unit of a stream: those before its
/// first start code if it has a complete unit, and none otherwise.
pub open spec fn lead_in(data: Seq<u8>) -> int {
    if complete_units(data).len() > 0 {
        first_start_code(data, 0)->0
    } else {
        0
    }
}

/// Nothing behind the lead-in is lost, repeated or reordered: the complete units
/// followed by what is left are the stream itself.
pub proof fn law_units_cover_stream(data: Seq<u8>)
    ensures
        0 <= lead_in(data) <= data.len(),
        complete_units(data).flatten() + pending(data) == data.skip(lead_in(data)),
        forall|j: int| 0 <= j < lead_in(data) ==> !start_code_at(data, j),
    decreases data.len(),
{
    lemma_first_start_code(data, 0);
    assert(Seq::<Seq<u8>>::empty().flatten() =~= Seq::<u8>::empty());
    if let Some(start) = first_start_code(data, 0) {
        lemma_first_start_code(data, start + 4);
        if let Some(next) = first_start_code(data, start + 4) {
            let unit = data.subrange(start, next);
            let rest = data.skip(next);
            law_units_cover_stream(rest);
            assert(start_code_at(rest, 0));
            assert(first_start_code(rest, 0) == Some(0int));
            assert(lead_in(rest) == 0);
            assert(rest.skip(0) =~= rest);
            let units = complete_units(data);
            assert(units.drop_first() =~= complete_units(rest));
            assert(units.first() == unit);
            assert(units.flatten() == unit + complete_units(rest).flatten());
            assert(units.flatten() + pending(data) =~= unit + (complete_units(rest).flatten()
                + pending(rest)));
            assert(unit + rest =~= data.skip(start));
        } else {
            assert(complete_units(data).flatten() + data =~= data.skip(0));
        }
    } else {
        assert(complete_units(data).flatten() + data =~= data.skip(0));
    }
}

/// What is sent while `chunks` are read one after the other.
pub open spec fn sent_over(chunks: Seq<Seq<u8>>) -> Seq<Seq<u8>>
    decreases chunks.len(),
{
    if chunks.len() == 0 {
        Seq::empty()
    } else {
        sent_over(chunks.drop_last()) + step_sent(
            held_over(chunks.drop_last()),
            Some(chunks.last()),
        )
    }
}

/// What is held back after `chunks` have been read one after the other.
pub open spec fn held_over(chunks: Seq<Seq<u8>>) -> Seq<u8>
    decreases chunks.len(),
{
    if chunks.len() == 0 {
        Seq::empty()
    } else {
        step_held(held_over(chunks.drop_last()), Some(chunks.last()))
    }
}

/// None of the reads is the one that finds the end of the stream.
pub open spec fn all_before_end(chunks: Seq<Seq<u8>>) -> bool {
    forall|i: int| 0 <= i < chunks.len() ==> (#[trigger] chunks[i]).len() > 0
}

/// How the encoder's output is cut into reads makes no difference: the units that
/// are sent, and the bytes held back, are those of the output as a whole.
pub proof fn law_chunking_is_irrelevant(chunks: Seq<Seq<u8>>)
    requires
        all_before_end(chunks),
    ensures
        sent_over(chunks) == complete_units(chunks.flatten()),
        held_over(chunks) == pending(chunks.flatten()),
    decreases chunks.len(),
{
    chunks.lemma_flatten_and_flatten_alt_are_equivalent();
    if chunks.len() > 0 {
        let front = chunks.drop_last();
        assert(chunks[chunks.len() - 1].len() > 0);
        assert forall|i: int| 0 <= i < front.len() implies (#[trigger] front[i]).len() > 0 by {
            assert(front[i] == chunks[i]);
        }
        law_chunking_is_irrelevant(front);
        front.lemma_flatten_and_flatten_alt_are_equivalent();
        law_split_in_two(front.flatten(), chunks.last());
    }
}

/// What goes out of a whole stream that is read in `chunks` up to its end.
pub open spec fn sent_to_end(chunks: Seq<Seq<u8>>) -> Seq<Seq<u8>> {
    sent_over(chunks) + step_sent(held_over(chunks), Some(Seq::empty()))
}

/// At the end of the stream everything behind the lead-in has gone out, in order.
pub proof fn law_whole_stream_is_sent(chunks: Seq<Seq<u8>>)
    requires
        all_before_end(chunks),
    ensures
        sent_to_end(chunks).flatten() == chunks.flatten().skip(lead_in(chunks.flatten())),
        sent_to_end(chunks) == (if pending(chunks.flatten()).len() > 0 {
            complete_units(chunks.flatten()).push(pending(chunks.flatten()))
        } else {
            complete_units(chunks.flatten())
        }),
{
    let data = chunks.flatten();
    law_chunking_is_irrelevant(chunks);
    law_units_cover_stream(data);
    let held = held_over(chunks);
    let last = step_sent(held, Some(Seq::empty()));
    vstd::seq_lib::lemma_flatten_concat(sent_over(chunks), last);
    if held.len() > 0 {
        last.lemma_flatten_one_element();
        assert(sent_to_end(chunks) =~= complete_units(data).push(held));
    } else {
        assert(last.flatten() =~= held);
        assert(sent_to_end(chunks) =~= complete_units(data));
    }
}

/// Searching in a stream whose first `k` bytes were dropped finds the same start code.
proof fn lemma_first_in_skip(data: Seq<u8>, k: int, from: int)
    requires
        0 <= k <= data.len(),
        0 <= from,
    ensures
        match first_start_code(data, k + from) {
            Some(i) => first_start_code(data.skip(k), from) == Some(i - k),
            None => first_start_code(data.skip(k), from) is None,
        },
    decreases data.len() - from,
{
    let rest = data.skip(k);
    if from + 4 <= rest.len() {
        assert(start_code_at(rest, from) == start_code_at(data, k + from));
        if !start_code_at(rest, from) {
            lemma_first_in_skip(data, k, from + 1);
        }
    }
}

} // verus!

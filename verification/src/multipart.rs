//! Uploading a stream to the object store in parts, and hashing it on the way.
//!
//! As with [`crate::step`], nothing is sent from here: each call returns what to do next.

use vstd::prelude::*;

use crate::digest;
use crate::digest::{finish_hasher, format_digest, new_hasher, update_hasher};
use crate::step;
use crate::storage;
use crate::storage::{error_text, S3Store};
use crate::text;
use crate::text::int_text;

verus! {

/// A part is sent once this much has been collected; only the last part may be smaller.
pub const MULTIPART_PART_SIZE: usize = 8 * 1024 * 1024;

/// A part that was stored: its number, and the tag that the store gave it.
pub type StoredPart = (i32, String);

/// An upload in parts, waiting for the next piece of the stream.
pub struct Multipart {
    hasher: sha2::Sha256,
    parts: Vec<StoredPart>,
    buffer: Vec<u8>,
    total: i64,
    number: i32,
}

/// What a [`Multipart`] holds.
pub struct MultipartView {
    /// All of the stream so far.
    pub received: Seq<u8>,
    /// The parts that were stored.
    pub parts: Seq<(i32, Seq<char>)>,
    /// The end of the stream so far that is in no part yet.
    pub buffer: Seq<u8>,
    /// The length of the stream so far.
    pub total: i64,
    /// The number of the next part.
    pub number: i32,
}

impl DeepView for Multipart {
    type V = MultipartView;

    closed spec fn deep_view(&self) -> MultipartView {
        MultipartView {
            received: digest::hashed(self.hasher),
            parts: self.parts.deep_view(),
            buffer: self.buffer@,
            total: self.total,
            number: self.number,
        }
    }
}

/// Whether an upload in parts is in order: the length is that of the stream, what is in no part
/// is its end, and the parts are numbered from one on.
pub open spec fn in_order(state: MultipartView) -> bool {
    &&& digest::hashable(state.received.len())
    &&& state.total == state.received.len()
    &&& state.buffer.is_suffix_of(state.received)
    &&& state.number == state.parts.len() + 1
    &&& forall|i: int| 0 <= i < state.parts.len() ==> (#[trigger] state.parts[i]).0 == i + 1
}

impl Multipart {
    #[verifier::type_invariant]
    spec fn valid(self) -> bool {
        in_order(self.deep_view())
    }
}

/// An upload in parts, waiting for a part to be stored.
pub struct PartWanted {
    state: Multipart,
    last: bool,
}

/// What a [`PartWanted`] holds.
pub struct PartWantedView {
    pub state: MultipartView,
    /// Whether the stream has ended.
    pub last: bool,
}

impl DeepView for PartWanted {
    type V = PartWantedView;

    closed spec fn deep_view(&self) -> PartWantedView {
        PartWantedView { state: self.state.deep_view(), last: self.last }
    }
}

/// An upload in parts, waiting for the parts to be put together.
pub struct CompletionWanted {
    hasher: sha2::Sha256,
    total: i64,
}

/// What a [`CompletionWanted`] holds.
pub struct CompletionWantedView {
    pub received: Seq<u8>,
    pub total: i64,
}

impl DeepView for CompletionWanted {
    type V = CompletionWantedView;

    closed spec fn deep_view(&self) -> CompletionWantedView {
        CompletionWantedView { received: digest::hashed(self.hasher), total: self.total }
    }
}

impl CompletionWanted {
    #[verifier::type_invariant]
    spec fn valid(self) -> bool {
        digest::hashable(self.deep_view().received.len())
    }
}

/// The next step of an upload in parts.
#[allow(inconsistent_fields)]
pub enum MultipartStep {
    /// Fetch the next piece of the stream.
    NextPiece { then: Multipart },
    /// Store a part.
    UploadPart { number: i32, data: Vec<u8>, then: PartWanted },
    /// Put the parts together.
    Complete { parts: Vec<StoredPart>, then: CompletionWanted },
    /// The object is stored; this is its length and its digest.
    Stored { total: i64, digest: String },
    /// Drop the upload, and fail with this message.
    Abort { message: String },
    /// Fail with this message; there is no upload to drop.
    Fail { message: String },
}

/// What a [`MultipartStep`] holds.
#[allow(inconsistent_fields)]
pub enum MultipartStepView {
    NextPiece { then: MultipartView },
    UploadPart { number: i32, data: Seq<u8>, then: PartWantedView },
    Complete { parts: Seq<(i32, Seq<char>)>, then: CompletionWantedView },
    Stored { total: i64, digest: Seq<char> },
    Abort { message: Seq<char> },
    Fail { message: Seq<char> },
}

impl DeepView for MultipartStep {
    type V = MultipartStepView;

    open spec fn deep_view(&self) -> MultipartStepView {
        match *self {
            MultipartStep::NextPiece { then } => MultipartStepView::NextPiece {
                then: then.deep_view(),
            },
            MultipartStep::UploadPart { number, data, then } => MultipartStepView::UploadPart {
                number,
                data: data@,
                then: then.deep_view(),
            },
            MultipartStep::Complete { parts, then } => MultipartStepView::Complete {
                parts: parts.deep_view(),
                then: then.deep_view(),
            },
            MultipartStep::Stored { total, digest } => MultipartStepView::Stored {
                total,
                digest: digest@,
            },
            MultipartStep::Abort { message } => MultipartStepView::Abort { message: message@ },
            MultipartStep::Fail { message } => MultipartStepView::Fail { message: message@ },
        }
    }
}

/// An upload in parts that has received nothing.
pub open spec fn fresh() -> MultipartView {
    MultipartView {
        received: Seq::empty(),
        parts: Seq::empty(),
        buffer: Seq::empty(),
        total: 0,
        number: 1,
    }
}

/// The start of an upload in parts, once the store has or has not given it an identifier.
pub open spec fn start_step(created: Result<Option<Seq<char>>, Seq<char>>) -> MultipartStepView {
    match created {
        Ok(Some(_)) => MultipartStepView::NextPiece { then: fresh() },
        Ok(None) => MultipartStepView::Fail { message: "missing upload_id in multipart response"@ },
        Err(message) => MultipartStepView::Fail {
            message: storage::error_spec("create_multipart_upload"@, message),
        },
    }
}

/// An upload in parts, with one more piece of the stream.
pub open spec fn extended(state: MultipartView, piece: Seq<u8>) -> MultipartView {
    MultipartView {
        received: state.received + piece,
        buffer: state.buffer + piece,
        total: (state.total + piece.len()) as i64,
        ..state
    }
}

/// Storing what has been collected as the next part.
pub open spec fn part_step(state: MultipartView, last: bool) -> MultipartStepView {
    MultipartStepView::UploadPart {
        number: state.number,
        data: state.buffer,
        then: PartWantedView {
            state: MultipartView { buffer: Seq::empty(), ..state },
            last,
        },
    }
}

/// What follows a piece of the stream: a part, once there is enough for one; the next piece, as
/// long as there is not; at the end of the stream the last part, even an empty one.
pub open spec fn after_piece_step(
    state: MultipartView,
    piece: Result<Option<Seq<u8>>, Seq<char>>,
) -> MultipartStepView {
    match piece {
        Ok(Some(bytes)) => {
            let state = extended(state, bytes);
            if state.buffer.len() >= MULTIPART_PART_SIZE {
                part_step(state, false)
            } else {
                MultipartStepView::NextPiece { then: state }
            }
        },
        Ok(None) => part_step(state, true),
        Err(message) => MultipartStepView::Abort {
            message: storage::error_spec("body stream error"@, message),
        },
    }
}

/// An upload in parts, with one more part stored under a tag.
pub open spec fn with_part(state: MultipartView, tag: Seq<char>) -> MultipartView {
    MultipartView {
        parts: state.parts.push((state.number, tag)),
        number: (state.number + 1) as i32,
        ..state
    }
}

/// The tag under which a part was stored: empty where the store gives none.
pub open spec fn tag_spec(given: Option<Seq<char>>) -> Seq<char> {
    match given {
        Some(tag) => tag,
        None => Seq::empty(),
    }
}

/// What follows a part that was stored: the next piece of the stream, or, after the last part,
/// putting the parts together.
pub open spec fn after_part_step(
    then: PartWantedView,
    stored: Result<Option<Seq<char>>, Seq<char>>,
) -> MultipartStepView {
    match stored {
        Ok(given) => if then.last {
            MultipartStepView::Complete {
                parts: then.state.parts.push((then.state.number, tag_spec(given))),
                then: CompletionWantedView {
                    received: then.state.received,
                    total: then.state.total,
                },
            }
        } else {
            MultipartStepView::NextPiece { then: with_part(then.state, tag_spec(given)) }
        },
        Err(message) => MultipartStepView::Abort {
            message: storage::error_spec(
                "upload_part "@ + text::decimal(then.state.number as int),
                message,
            ),
        },
    }
}

/// What follows putting the parts together: the length and the digest of the whole.
pub open spec fn after_completion_step(
    then: CompletionWantedView,
    completed: Result<(), Seq<char>>,
) -> MultipartStepView {
    match completed {
        Ok(()) => MultipartStepView::Stored {
            total: then.total,
            digest: digest::digest_text(then.received),
        },
        Err(message) => MultipartStepView::Abort {
            message: storage::error_spec("complete_multipart_upload"@, message),
        },
    }
}

/// The pieces of a stream, one after the other.
pub open spec fn joined(pieces: Seq<Seq<u8>>) -> Seq<u8>
    decreases pieces.len(),
{
    if pieces.len() == 0 {
        Seq::empty()
    } else {
        joined(pieces.drop_last()) + pieces.last()
    }
}

/// An upload in parts that has taken the pieces of a stream, and the data of the parts that were
/// stored, each under the tag of its number.
pub open spec fn streamed(pieces: Seq<Seq<u8>>, tags: spec_fn(int) -> Seq<char>) -> (
    MultipartView,
    Seq<Seq<u8>>,
)
    decreases pieces.len(),
{
    if pieces.len() == 0 {
        (fresh(), Seq::empty())
    } else {
        let (state, stored) = streamed(pieces.drop_last(), tags);
        match after_piece_step(state, Ok(Some(pieces.last()))) {
            MultipartStepView::UploadPart { number, data, then } => match after_part_step(
                then,
                Ok(Some(tags(number as int))),
            ) {
                MultipartStepView::NextPiece { then } => (then, stored.push(data)),
                _ => (state, stored),
            },
            MultipartStepView::NextPiece { then } => (then, stored),
            _ => (state, stored),
        }
    }
}

proof fn lemma_streamed(pieces: Seq<Seq<u8>>, tags: spec_fn(int) -> Seq<char>)
    requires
        digest::hashable(joined(pieces).len()),
        streamed(pieces, tags).1.len() + 1 <= i32::MAX,
    ensures
        ({
            let (state, stored) = streamed(pieces, tags);
            &&& in_order(state)
            &&& state.received == joined(pieces)
            &&& joined(stored) + state.buffer == joined(pieces)
            &&& state.buffer.len() < MULTIPART_PART_SIZE
            &&& stored.len() == state.parts.len()
            &&& forall|i: int|
                0 <= i < stored.len() ==> #[trigger] stored[i].len() >= MULTIPART_PART_SIZE
            &&& forall|i: int|
                0 <= i < stored.len() ==> #[trigger] state.parts[i] == ((i + 1) as i32, tags(i + 1))
        }),
    decreases pieces.len(),
{
    if pieces.len() > 0 {
        lemma_streamed(pieces.drop_last(), tags);
        let (before, held) = streamed(pieces.drop_last(), tags);
        let (state, stored) = streamed(pieces, tags);
        let longer = extended(before, pieces.last());
        assert(longer.buffer.is_suffix_of(longer.received));
        assert(joined(held) + longer.buffer =~= joined(pieces));
        if longer.buffer.len() >= MULTIPART_PART_SIZE {
            assert(stored.drop_last() =~= held);
            assert(joined(stored) == joined(held) + longer.buffer);
            assert(joined(stored) + state.buffer =~= joined(stored));
            assert(state.buffer.is_suffix_of(state.received));
        }
    } else {
        assert(joined(Seq::<Seq<u8>>::empty()) + fresh().buffer =~= joined(pieces));
        assert(fresh().buffer.is_suffix_of(fresh().received));
    }
}

/// A stream that is sent without a failure is stored whole: the parts, in the order of their
/// numbers, which count from one, make up the stream; each but the last has at least the size of a
/// part, and the last has less; all of them are put together under the tags that the store gave;
/// and what is reported is the length and the digest of the stream.
pub proof fn law_stream_is_stored_whole(pieces: Seq<Seq<u8>>, tags: spec_fn(int) -> Seq<char>)
    requires
        digest::hashable(joined(pieces).len()),
        streamed(pieces, tags).1.len() + 1 <= i32::MAX,
    ensures
        ({
            let (state, stored) = streamed(pieces, tags);
            let end = after_piece_step(state, Ok(None));
            &&& end matches MultipartStepView::UploadPart { number, data, then: wanted }
            &&& joined(stored.push(data)) == joined(pieces)
            &&& number == stored.len() + 1
            &&& forall|i: int|
                0 <= i < stored.len() ==> #[trigger] stored[i].len() >= MULTIPART_PART_SIZE
            &&& data.len() < MULTIPART_PART_SIZE
            &&& after_part_step(wanted, Ok(Some(tags(number as int)))) matches
                MultipartStepView::Complete { parts, then: completion }
            &&& parts == Seq::new(
                (stored.len() + 1) as nat,
                |i: int| ((i + 1) as i32, tags(i + 1)),
            )
            &&& after_completion_step(completion, Ok(())) == (MultipartStepView::Stored {
                total: joined(pieces).len() as i64,
                digest: digest::digest_text(joined(pieces)),
            })
        }),
{
    lemma_streamed(pieces, tags);
    let (state, stored) = streamed(pieces, tags);
    assert(stored.push(state.buffer).drop_last() =~= stored);
    assert(state.parts.push((state.number, tags(state.number as int))) =~= Seq::new(
        (stored.len() + 1) as nat,
        |i: int| ((i + 1) as i32, tags(i + 1)),
    ));
}

/// Whatever fails once the store has begun an upload, the upload is dropped.
pub proof fn law_failed_upload_is_dropped(
    state: MultipartView,
    part: PartWantedView,
    completion: CompletionWantedView,
    message: Seq<char>,
)
    ensures
        after_piece_step(state, Err(message)) is Abort,
        after_part_step(part, Err(message)) is Abort,
        after_completion_step(completion, Err(message)) is Abort,
{
}

/// An upload in parts starts exactly where the store gave it an identifier, with nothing received;
/// else it fails, and says why.
pub proof fn law_start(created: Result<Option<Seq<char>>, Seq<char>>)
    ensures
        ({
            let step = start_step(created);
            &&& step is NextPiece <==> created is Ok && created->Ok_0 is Some
            &&& step matches MultipartStepView::NextPiece { then } ==> {
                &&& then.received.len() == 0
                &&& then.parts.len() == 0
                &&& then.buffer.len() == 0
                &&& then.total == 0
                &&& then.number == 1
            }
            &&& created is Ok && created->Ok_0 is None ==> step == (MultipartStepView::Fail {
                message: "missing upload_id in multipart response"@,
            })
            &&& created is Err ==> {
                &&& step matches MultipartStepView::Fail { message }
                &&& storage::says(message, "create_multipart_upload"@, created->Err_0)
            }
        }),
{
    if let Err(message) = created {
        storage::law_errors_say_why("create_multipart_upload"@, message);
    }
}

/// A part is sent exactly when the stream has ended or eight mebibytes have been collected: all
/// that has been collected, under the next number.
pub proof fn law_parts_are_sent(state: MultipartView, piece: Option<Seq<u8>>)
    ensures
        ({
            let step = after_piece_step(state, Ok(piece));
            let collected = match piece {
                Some(bytes) => state.buffer + bytes,
                None => state.buffer,
            };
            if piece is None || collected.len() >= 8_388_608 {
                &&& step matches MultipartStepView::UploadPart { number, data, then }
                &&& number == state.number
                &&& data == collected
                &&& then.state.buffer.len() == 0
                &&& then.last <==> piece is None
            } else {
                &&& step matches MultipartStepView::NextPiece { then }
                &&& then.buffer == collected
            }
        }),
{
}

/// A part is stored under the tag that the store gives, or an empty one where it gives none.
pub proof fn law_parts_are_tagged(part: PartWantedView, given: Option<Seq<char>>)
    requires
        part.state.number < i32::MAX,
    ensures
        ({
            let step = after_part_step(part, Ok(given));
            let parts = match step {
                MultipartStepView::Complete { parts, .. } => parts,
                MultipartStepView::NextPiece { then } => then.parts,
                _ => Seq::empty(),
            };
            &&& step is Complete <==> part.last
            &&& step is NextPiece <==> !part.last
            &&& parts.len() == part.state.parts.len() + 1
            &&& parts.drop_last() == part.state.parts
            &&& parts.last().0 == part.state.number
            &&& given is Some ==> parts.last().1 == given->0
            &&& given is None ==> parts.last().1.len() == 0
            &&& step matches MultipartStepView::NextPiece { then } ==> {
                &&& then.number == part.state.number + 1
                &&& then.received == part.state.received
                &&& then.buffer == part.state.buffer
                &&& then.total == part.state.total
            }
        }),
{
    let more = part.state.parts.push((part.state.number, tag_spec(given)));
    assert(more.drop_last() =~= part.state.parts);
}

/// Whatever fails once the store has begun an upload, the message says what failed, and why.
pub proof fn law_failures_say_why(
    state: MultipartView,
    part: PartWantedView,
    completion: CompletionWantedView,
    why: Seq<char>,
)
    ensures
        ({
            &&& after_piece_step(state, Err(why)) matches MultipartStepView::Abort { message }
            &&& storage::says(message, "body stream error"@, why)
        }),
        ({
            &&& after_part_step(part, Err(why)) matches MultipartStepView::Abort { message }
            &&& exists|n: Seq<char>| #[trigger]
                text::writes(n, part.state.number as int) && storage::says(
                    message,
                    "upload_part "@ + n,
                    why,
                )
        }),
        ({
            &&& after_completion_step(completion, Err(why)) matches MultipartStepView::Abort {
                message,
            }
            &&& storage::says(message, "complete_multipart_upload"@, why)
        }),
{
    storage::law_errors_say_why("body stream error"@, why);
    let n = text::decimal(part.state.number as int);
    text::law_decimal_writes(part.state.number as int);
    storage::law_errors_say_why("upload_part "@ + n, why);
    storage::law_errors_say_why("complete_multipart_upload"@, why);
}

/// There is room for a piece exactly where the length of the stream with it, in bits, is less than
/// two to the power of 64.
pub proof fn law_room(state: Multipart, length: usize, res: bool)
    requires
        call_ensures(Multipart::has_room, (&state, length), res),
    ensures
        res <==> 8 * (state.deep_view().received.len() + length) < 0x1_0000_0000_0000_0000,
{
}

/// There is a next number exactly after every part but the last one and the one with the largest
/// number of 32 bits; after the last part none is needed.
pub proof fn law_next_number(part: PartWanted, res: bool)
    requires
        call_ensures(PartWanted::has_next_number, (&part,), res),
    ensures
        !res <==> !part.deep_view().last && part.deep_view().state.number == 0x7fff_ffff,
{
}

impl S3Store {
    /// Starts an upload in parts, once the store has or has not given it an identifier.
    pub fn put_multipart(&self, created: &Result<Option<String>, String>) -> (step: MultipartStep)
        ensures
            step.deep_view() == start_step(step::answer_view(*created)),
    {
        match created {
            Ok(Some(_)) => {
                let then = Multipart {
                    hasher: new_hasher(),
                    parts: Vec::new(),
                    buffer: Vec::new(),
                    total: 0,
                    number: 1,
                };
                assert(then.parts.deep_view() =~= Seq::empty());
                assert(then.deep_view() == fresh());
                MultipartStep::NextPiece { then }
            },
            Ok(None) => MultipartStep::Fail {
                message: "missing upload_id in multipart response".to_owned(),
            },
            Err(message) => MultipartStep::Fail {
                message: error_text("create_multipart_upload", message),
            },
        }
    }
}

impl Multipart {
    /// Whether a piece of this length can still be taken: the length of the stream in bits has
    /// to fit in 64 bits.
    pub fn has_room(&self, length: usize) -> (res: bool)
        ensures
            res == digest::hashable(self.deep_view().received.len() + length as nat),
    {
        proof {
            use_type_invariant(self);
        }
        (length as u64) < 0x2000_0000_0000_0000 - self.total as u64
    }

    /// Goes on with a piece of the stream, or with its end.
    pub fn after_piece(self, piece: Result<Option<Vec<u8>>, String>) -> (step: MultipartStep)
        requires
            piece matches Ok(Some(bytes)) ==> digest::hashable(
                self.deep_view().received.len() + bytes@.len(),
            ),
        ensures
            step.deep_view() == after_piece_step(
                self.deep_view(),
                step::object_view(piece),
            ),
    {
        match piece {
            Ok(Some(bytes)) => {
                proof {
                    use_type_invariant(&self);
                }
                let ghost before = self.deep_view();
                let mut hasher = self.hasher;
                update_hasher(&mut hasher, &bytes);
                let mut buffer = self.buffer;
                buffer.extend_from_slice(&bytes);
                assert(buffer@ =~= before.buffer + bytes@);
                let state = Multipart {
                    hasher,
                    parts: self.parts,
                    buffer,
                    total: self.total + bytes.len() as i64,
                    number: self.number,
                };
                assert(state.deep_view() == extended(before, bytes@));
                if state.buffer.len() >= MULTIPART_PART_SIZE {
                    state.send_buffer(false)
                } else {
                    MultipartStep::NextPiece { then: state }
                }
            },
            Ok(None) => self.send_buffer(true),
            Err(message) => MultipartStep::Abort {
                message: error_text("body stream error", &message),
            },
        }
    }

    /// Sends what has been collected as the next part.
    fn send_buffer(self, last: bool) -> (step: MultipartStep)
        ensures
            step.deep_view() == part_step(self.deep_view(), last),
    {
        proof {
            use_type_invariant(&self);
        }
        let data = self.buffer;
        let state = Multipart {
            hasher: self.hasher,
            parts: self.parts,
            buffer: Vec::new(),
            total: self.total,
            number: self.number,
        };
        assert(state.buffer@ =~= Seq::<u8>::empty());
        MultipartStep::UploadPart { number: state.number, data, then: PartWanted { state, last } }
    }
}

impl PartWanted {
    /// Whether there is a number for another part, or none is needed: the numbers have to fit in
    /// 32 bits.
    pub fn has_next_number(&self) -> (res: bool)
        ensures
            res == (self.deep_view().last || self.deep_view().state.number < i32::MAX),
    {
        self.last || self.state.number < i32::MAX
    }

    /// Goes on when a part was stored under a tag.
    pub fn after_part(self, stored: Result<Option<String>, String>) -> (step: MultipartStep)
        requires
            stored is Ok && !self.deep_view().last ==> self.deep_view().state.number < i32::MAX,
        ensures
            step.deep_view() == after_part_step(
                self.deep_view(),
                step::answer_view(stored),
            ),
    {
        match stored {
            Ok(given) => {
                proof {
                    use_type_invariant(&self.state);
                }
                let tag = match given {
                    Some(tag) => tag,
                    None => String::new(),
                };
                let ghost before = self.state.parts.deep_view();
                let mut parts = self.state.parts;
                parts.push((self.state.number, tag));
                assert(parts.deep_view() =~= before.push((self.state.number, tag@)));
                if self.last {
                    MultipartStep::Complete {
                        parts,
                        then: CompletionWanted {
                            hasher: self.state.hasher,
                            total: self.state.total,
                        },
                    }
                } else {
                    let state = Multipart {
                        hasher: self.state.hasher,
                        parts,
                        buffer: self.state.buffer,
                        total: self.state.total,
                        number: self.state.number + 1,
                    };
                    MultipartStep::NextPiece { then: state }
                }
            },
            Err(message) => {
                let number = int_text(self.state.number as i64);
                let mut what = "upload_part ".to_owned();
                what.append(&number);
                MultipartStep::Abort { message: error_text(&what, &message) }
            },
        }
    }
}

impl CompletionWanted {
    /// Goes on when the parts were put together.
    pub fn after_completion(self, completed: Result<(), String>) -> (step: MultipartStep)
        ensures
            step.deep_view() == after_completion_step(
                self.deep_view(),
                step::done_view(completed),
            ),
    {
        match completed {
            Ok(()) => {
                proof {
                    use_type_invariant(&self);
                }
                let hash = finish_hasher(self.hasher);
                MultipartStep::Stored { total: self.total, digest: format_digest(&hash) }
            },
            Err(message) => MultipartStep::Abort {
                message: error_text("complete_multipart_upload", &message),
            },
        }
    }
}

} // verus!

//! Everything that is believed without proof: the types of `bytes`, `futures`
//! and `multer` that the library holds, names for what they contain, and the
//! contracts of the functions that the library calls on them.

use bytes::Bytes;
use futures::channel::mpsc::{UnboundedReceiver, UnboundedSender};
use futures::StreamExt;
use multer::{Constraints, Field, Multipart, SizeLimit};
use vstd::prelude::*;
use vstd::utf8::*;

use crate::chunk_stream::ChunkStream;
use crate::text::{opt_text, texts};

verus! {

// ---------- bytes ----------

/// `bytes::Bytes`, a shared immutable buffer.
#[verifier::external_type_specification]
#[verifier::external_body]
pub struct ExBytes(bytes::Bytes);

/// The bytes that a buffer holds.
pub uninterp spec fn bytes_contents(buffer: Bytes) -> Seq<u8>;

/// `Bytes::copy_from_slice`: the new buffer holds a copy of the slice.
pub assume_specification[ bytes::Bytes::copy_from_slice ](data: &[u8]) -> (buffer: Bytes)
    ensures
        bytes_contents(buffer) == data@,
;

/// `Bytes::len`: the number of bytes in the buffer.
pub assume_specification[ bytes::Bytes::len ](buffer: &Bytes) -> (len: usize)
    ensures
        len == bytes_contents(*buffer).len(),
;

/// `to_vec` on the slice that `Bytes` dereferences to: a copy of the buffer's
/// bytes.
#[verifier::external_body]
pub(crate) fn bytes_to_vec(buffer: &Bytes) -> (copy: Vec<u8>)
    ensures
        copy@ == bytes_contents(*buffer),
{
    buffer.to_vec()
}

// ---------- futures ----------

/// The sending half of an unbounded channel.
#[verifier::external_type_specification]
#[verifier::external_body]
#[verifier::reject_recursive_types(T)]
pub struct ExUnboundedSender<T>(futures::channel::mpsc::UnboundedSender<T>);

/// The receiving half of an unbounded channel.
#[verifier::external_type_specification]
#[verifier::external_body]
#[verifier::reject_recursive_types(T)]
pub struct ExUnboundedReceiver<T>(futures::channel::mpsc::UnboundedReceiver<T>);

/// The two halves of a channel of chunks, as `mpsc::unbounded` returns them.
pub type ChunkChannel = (UnboundedSender<Bytes>, UnboundedReceiver<Bytes>);

/// Whether the two halves belong to one channel that is open and whose only
/// sender is the first half.
pub uninterp spec fn linked(channel: ChunkChannel) -> bool;

/// The chunks that were sent into a channel and not received yet, oldest
/// first.
pub uninterp spec fn queued(channel: ChunkChannel) -> Seq<Seq<u8>>;

/// The chunks that a receiver hands out, oldest first, before its stream ends.
pub uninterp spec fn pending(receiver: UnboundedReceiver<Bytes>) -> Seq<Seq<u8>>;

/// How many chunks a channel can count: `usize::MAX >> 1`, since one bit of the
/// counter says whether the channel is open.
pub open spec fn channel_capacity() -> nat {
    (usize::MAX / 2) as nat
}

/// `mpsc::unbounded`: a new open channel that holds nothing.
#[verifier::external_body]
pub(crate) fn open_channel() -> (channel: ChunkChannel)
    ensures
        linked(channel),
        queued(channel) == Seq::<Seq<u8>>::empty(),
{
    futures::channel::mpsc::unbounded()
}

/// `UnboundedSender::unbounded_send`, with its error as text: on an open
/// channel whose receiver is still there the call succeeds and the chunk comes
/// behind those already queued. It panics when the channel's counter is full.
#[verifier::external_body]
pub(crate) fn send_chunk(channel: &mut ChunkChannel, chunk: Bytes) -> (sent: Result<(), String>)
    requires
        linked(*old(channel)),
        queued(*old(channel)).len() < channel_capacity(),
    ensures
        sent is Ok,
        linked(*final(channel)),
        queued(*final(channel)) == queued(*old(channel)).push(bytes_contents(chunk)),
{
    channel.0.unbounded_send(chunk).map_err(|e| e.to_string())
}

/// Dropping the only `UnboundedSender` of a channel: the receiver still hands
/// out what is queued, in the order in which it was sent, and its stream ends
/// after that.
#[verifier::external_body]
pub(crate) fn end_of_input(channel: ChunkChannel) -> (receiver: UnboundedReceiver<Bytes>)
    requires
        linked(channel),
    ensures
        pending(receiver) == queued(channel),
{
    let (sender, receiver) = channel;
    drop(sender);
    receiver
}

// ---------- multer: limits and constraints ----------

/// `multer::SizeLimit`, the limits that a parse is held to.
#[verifier::external_type_specification]
#[verifier::external_body]
pub struct ExSizeLimit(multer::SizeLimit);

/// The limit on the whole stream that a `SizeLimit` holds.
pub uninterp spec fn limit_whole_stream(limit: SizeLimit) -> u64;

/// The limit on a field without a limit of its own that a `SizeLimit` holds.
pub uninterp spec fn limit_per_field(limit: SizeLimit) -> u64;

/// The limits on fields of a given name that a `SizeLimit` holds.
pub uninterp spec fn limit_by_name(limit: SizeLimit) -> Map<Seq<char>, u64>;

/// Whether the general limits are the largest `u64` and no field has a limit of
/// its own.
pub open spec fn unlimited(limit: SizeLimit) -> bool {
    &&& limit_whole_stream(limit) == u64::MAX
    &&& limit_per_field(limit) == u64::MAX
    &&& limit_by_name(limit) == Map::<Seq<char>, u64>::empty()
}

/// `SizeLimit::new`: both general limits are the largest `u64`, and no field
/// has a limit of its own.
pub assume_specification[ multer::SizeLimit::new ]() -> (limit: SizeLimit)
    ensures
        unlimited(limit),
;

/// `SizeLimit::whole_stream`: replaces the limit on the whole stream.
pub assume_specification[ multer::SizeLimit::whole_stream ](
    before: SizeLimit,
    limit: u64,
) -> (after: SizeLimit)
    ensures
        limit_whole_stream(after) == limit,
        limit_per_field(after) == limit_per_field(before),
        limit_by_name(after) == limit_by_name(before),
;

/// `SizeLimit::per_field`: replaces the limit on fields without one of their
/// own.
pub assume_specification[ multer::SizeLimit::per_field ](
    before: SizeLimit,
    limit: u64,
) -> (after: SizeLimit)
    ensures
        limit_whole_stream(after) == limit_whole_stream(before),
        limit_per_field(after) == limit,
        limit_by_name(after) == limit_by_name(before),
;

/// `SizeLimit::for_field`: sets the limit of one field name, in place of an
/// earlier limit for that name.
#[verifier::external_body]
pub(crate) fn limit_for_field(before: SizeLimit, name: String, limit: u64) -> (after: SizeLimit)
    ensures
        limit_whole_stream(after) == limit_whole_stream(before),
        limit_per_field(after) == limit_per_field(before),
        limit_by_name(after) == limit_by_name(before).insert(name@, limit),
{
    before.for_field(name, limit)
}

/// `multer::Constraints`, what a parse is held to.
#[verifier::external_type_specification]
#[verifier::external_body]
pub struct ExConstraints(multer::Constraints);

/// The size limits that a `Constraints` holds.
pub uninterp spec fn constraints_size_limit(constraints: Constraints) -> SizeLimit;

/// The field names that a `Constraints` allows; `None` allows every field.
pub uninterp spec fn constraints_allowed(constraints: Constraints) -> Option<Seq<Seq<char>>>;

/// `Constraints::new`: nothing is limited and every field is allowed.
pub assume_specification[ multer::Constraints::new ]() -> (constraints: Constraints)
    ensures
        unlimited(constraints_size_limit(constraints)),
        constraints_allowed(constraints) is None,
;

/// `Constraints::size_limit`: replaces the size limits.
pub assume_specification[ multer::Constraints::size_limit ](
    before: Constraints,
    size_limit: SizeLimit,
) -> (after: Constraints)
    ensures
        constraints_size_limit(after) == size_limit,
        constraints_allowed(after) == constraints_allowed(before),
;

/// `Constraints::allowed_fields`: replaces the list of allowed field names.
#[verifier::external_body]
pub(crate) fn allow_fields(before: Constraints, names: Vec<String>) -> (after: Constraints)
    ensures
        constraints_size_limit(after) == constraints_size_limit(before),
        constraints_allowed(after) == Some(texts(names@)),
{
    before.allowed_fields(names)
}

// ---------- multer: parsing ----------

/// `multer::Error`.
#[verifier::external_type_specification]
#[verifier::external_body]
pub struct ExMulterError(multer::Error);

/// What `Display` writes for a `multer::Error`.
pub uninterp spec fn multer_error_text(error: multer::Error) -> Seq<char>;

/// `to_string` on a `multer::Error`: the text of its `Display`, which depends
/// on the error's own variant and fields and not on the cause that it wraps.
#[verifier::external_body]
pub(crate) fn error_text(error: &multer::Error) -> (text: String)
    ensures
        text@ == multer_error_text(*error),
{
    error.to_string()
}

/// What `multer::parse_boundary` finds in a Content-Type header.
pub uninterp spec fn boundary_in(header: Seq<char>) -> Result<Seq<char>, multer::Error>;

/// `multer::parse_boundary`: the `boundary` parameter of a
/// `multipart/form-data` header, or the error that says what is wrong with the
/// header. The result depends on the header alone.
#[verifier::external_body]
pub(crate) fn find_boundary(header: &str) -> (found: Result<String, multer::Error>)
    ensures
        match found {
            Ok(boundary) => boundary_in(header@) == Ok::<Seq<char>, multer::Error>(boundary@),
            Err(error) => boundary_in(header@) == Err::<Seq<char>, multer::Error>(error),
        },
{
    multer::parse_boundary(header)
}

/// `multer::Multipart`, a parse under way.
#[verifier::external_type_specification]
#[verifier::external_body]
pub struct ExMultipart<'r>(multer::Multipart<'r>);

/// The chunks of the stream that a `Multipart` was made over.
pub uninterp spec fn multipart_input(multipart: Multipart<'static>) -> Seq<Seq<u8>>;

/// The boundary that a `Multipart` was made with.
pub uninterp spec fn multipart_boundary(multipart: Multipart<'static>) -> Seq<char>;

/// The constraints that a `Multipart` was made with.
pub uninterp spec fn multipart_constraints(multipart: Multipart<'static>) -> Constraints;

/// `Multipart::new` over the stream that `StreamExt::map` makes of the
/// receiver: it is made with the boundary as given and with constraints as
/// `Constraints::new` has them. Making it reads nothing of the stream.
#[verifier::external_body]
pub(crate) fn multipart_new(
    stream: ChunkStream,
    boundary: &String,
) -> (multipart: Multipart<'static>)
    ensures
        multipart_input(multipart) == stream@,
        multipart_boundary(multipart) == boundary@,
        unlimited(constraints_size_limit(multipart_constraints(multipart))),
        constraints_allowed(multipart_constraints(multipart)) is None,
{
    Multipart::new(stream.rx.map(ChunkStream::item), boundary)
}

/// `Multipart::with_constraints` over the stream that `StreamExt::map` makes of
/// the receiver: it is made with the boundary and the constraints as given.
/// Making it reads nothing of the stream.
#[verifier::external_body]
pub(crate) fn multipart_with_constraints(
    stream: ChunkStream,
    boundary: &String,
    constraints: Constraints,
) -> (multipart: Multipart<'static>)
    ensures
        multipart_input(multipart) == stream@,
        multipart_boundary(multipart) == boundary@,
        multipart_constraints(multipart) == constraints,
{
    Multipart::with_constraints(stream.rx.map(ChunkStream::item), boundary, constraints)
}

// ---------- multer: fields ----------

/// `multer::Field`, one field of a parse under way.
#[verifier::external_type_specification]
#[verifier::external_body]
pub struct ExField<'r>(multer::Field<'r>);

/// The name that a field's Content-Disposition gives.
pub uninterp spec fn field_name_of(field: Field<'static>) -> Option<Seq<char>>;

/// The file name that a field's Content-Disposition gives.
pub uninterp spec fn field_file_name_of(field: Field<'static>) -> Option<Seq<char>>;

/// The text of a field's content type.
pub uninterp spec fn field_content_type_of(field: Field<'static>) -> Option<Seq<char>>;

/// The names and values of a field's headers.
pub uninterp spec fn field_headers_of(field: Field<'static>) -> Seq<(Seq<u8>, Seq<u8>)>;

/// `Field::name`, copied.
#[verifier::external_body]
pub(crate) fn field_name(field: &Field<'static>) -> (name: Option<String>)
    ensures
        opt_text(name) == field_name_of(*field),
{
    field.name().map(|s| s.to_owned())
}

/// `Field::file_name`, copied.
#[verifier::external_body]
pub(crate) fn field_file_name(field: &Field<'static>) -> (name: Option<String>)
    ensures
        opt_text(name) == field_file_name_of(*field),
{
    field.file_name().map(|s| s.to_owned())
}

/// `Field::content_type`, written out as text.
#[verifier::external_body]
pub(crate) fn field_content_type(field: &Field<'static>) -> (content_type: Option<String>)
    ensures
        opt_text(content_type) == field_content_type_of(*field),
{
    field.content_type().map(|m| m.to_string())
}

/// `Field::headers`, walked by `HeaderMap::iter`: the bytes of each name and
/// value. The order is arbitrary, but it depends on the field alone.
#[verifier::external_body]
pub(crate) fn field_headers(field: &Field<'static>) -> (headers: Vec<(Vec<u8>, Vec<u8>)>)
    ensures
        headers@.map_values(|h: (Vec<u8>, Vec<u8>)| (h.0@, h.1@)) == field_headers_of(*field),
{
    field.headers().iter().map(|(k, v)| (k.as_str().into(), v.as_bytes().into())).collect()
}

// ---------- std ----------

/// `std::io::Error`.
#[verifier::external_type_specification]
#[verifier::external_body]
pub struct ExIoError(std::io::Error);

/// The text that `String::from_utf8_lossy` makes of some bytes.
pub uninterp spec fn lossy_text(bytes: Seq<u8>) -> Seq<char>;

/// `String::from_utf8_lossy`: the text depends on the bytes alone, and of bytes
/// that are valid UTF-8 it is the text that they encode.
#[verifier::external_body]
pub(crate) fn decode_lossy(bytes: &Vec<u8>) -> (text: String)
    ensures
        text@ == lossy_text(bytes@),
        valid_utf8(bytes@) ==> text@ == decode_utf8(bytes@),
{
    String::from_utf8_lossy(bytes).into_owned()
}

/// Limits that limit nothing are the largest `u64` for the stream and for every
/// field, and give no name a limit of its own.
pub proof fn law_unlimited_means_no_limit(limit: SizeLimit)
    ensures
        unlimited(limit) <==> (limit_whole_stream(limit) == 0xffff_ffff_ffff_ffff
            && limit_per_field(limit) == 0xffff_ffff_ffff_ffff && limit_by_name(limit).dom()
            =~= Set::<Seq<char>>::empty()),
{
    if limit_by_name(limit).dom() =~= Set::<Seq<char>>::empty() {
        assert(limit_by_name(limit) =~= Map::<Seq<char>, u64>::empty());
    }
}

/// A channel counts every number that leaves the highest bit of a `usize` clear.
pub proof fn law_channel_capacity()
    ensures
        2 * channel_capacity() + 1 == usize::MAX,
{
}

} // verus!

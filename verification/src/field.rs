//! A field of a multipart stream: its metadata, and its content chunk by chunk.

use bytes::Bytes;
use multer::Field;
use vstd::prelude::*;
use vstd::utf8::{decode_utf8, valid_utf8};

use crate::exception::{Exception, ExceptionView};
use crate::outside::{
    bytes_contents, bytes_to_vec, decode_lossy, error_text, field_content_type,
    field_content_type_of, field_file_name, field_file_name_of, field_headers, field_headers_of,
    field_name, field_name_of, lossy_text, multer_error_text,
};
use crate::text::opt_text;

verus! {

/// What a field is: its metadata, and the `multer` field that the rest of its
/// content is read from, until all of it has been read.
#[verifier::ext_equal]
pub struct FieldView {
    /// The field name.
    pub name: Option<Seq<char>>,
    /// The file name, if this is a file field.
    pub filename: Option<Seq<char>>,
    /// The content type.
    pub content_type: Option<Seq<char>>,
    /// The names and values of the headers.
    pub headers: Seq<(Seq<char>, Seq<char>)>,
    /// Where the content is read from; `None` once it has ended.
    pub source: Option<Field<'static>>,
}

/// What a field is when `multer` has just found it.
pub open spec fn found_field(field: Field<'static>) -> FieldView {
    FieldView {
        name: field_name_of(field),
        filename: field_file_name_of(field),
        content_type: field_content_type_of(field),
        headers: decoded(field_headers_of(field)),
        source: Some(field),
    }
}

/// The texts of headers given as bytes.
pub open spec fn decoded(raw: Seq<(Seq<u8>, Seq<u8>)>) -> Seq<(Seq<char>, Seq<char>)> {
    raw.map_values(|h: (Seq<u8>, Seq<u8>)| (lossy_text(h.0), lossy_text(h.1)))
}

/// Whether a text is what some bytes encode, if they are valid UTF-8.
pub open spec fn plain_text(raw: Seq<u8>, text: Seq<char>) -> bool {
    valid_utf8(raw) ==> text == decode_utf8(raw)
}

/// Whether each name and each value that is valid UTF-8 is the text that it
/// encodes.
pub open spec fn plain_headers(
    raw: Seq<(Seq<u8>, Seq<u8>)>,
    headers: Seq<(Seq<char>, Seq<char>)>,
) -> bool {
    &&& headers.len() == raw.len()
    &&& forall|i: int|
        0 <= i < raw.len() ==> plain_text(#[trigger] raw[i].0, headers[i].0) && plain_text(
            raw[i].1,
            headers[i].1,
        )
}

/// The bytes of a list of headers.
pub open spec fn raw_headers(headers: Seq<(Vec<u8>, Vec<u8>)>) -> Seq<(Seq<u8>, Seq<u8>)> {
    headers.map_values(|h: (Vec<u8>, Vec<u8>)| (h.0@, h.1@))
}

/// The texts of a list of headers.
pub open spec fn header_texts(headers: Seq<(String, String)>) -> Seq<(Seq<char>, Seq<char>)> {
    headers.map_values(|h: (String, String)| (h.0@, h.1@))
}

/// The exception that ends the iteration over a field.
pub open spec fn no_more_chunks() -> ExceptionView {
    ExceptionView::StopAsyncIteration("No more chunks"@)
}

/// What reading one chunk of a field does: the field after it, and what the
/// caller gets. `outcome` is what `multer` answered; it counts only while the
/// content has not ended.
pub open spec fn chunk_step(
    field: FieldView,
    outcome: Result<Option<Bytes>, multer::Error>,
) -> (FieldView, Result<Seq<u8>, ExceptionView>) {
    match field.source {
        None => (field, Err(no_more_chunks())),
        Some(_) => match outcome {
            Ok(Some(chunk)) => (field, Ok(bytes_contents(chunk))),
            Ok(None) => (FieldView { source: None, ..field }, Err(no_more_chunks())),
            Err(error) => (field, Err(ExceptionView::Runtime(multer_error_text(error)))),
        },
    }
}

/// The bytes or the exception of a chunk read.
pub open spec fn chunk_view(read: Result<Vec<u8>, Exception>) -> Result<Seq<u8>, ExceptionView> {
    match read {
        Ok(chunk) => Ok(chunk@),
        Err(exception) => Err(exception@),
    }
}

/// A field of a multipart stream.
pub struct MultipartField {
    name: Option<String>,
    filename: Option<String>,
    content_type: Option<String>,
    headers: Vec<(String, String)>,
    field: Option<Field<'static>>,
}

impl View for MultipartField {
    type V = FieldView;

    closed spec fn view(&self) -> FieldView {
        FieldView {
            name: opt_text(self.name),
            filename: opt_text(self.filename),
            content_type: opt_text(self.content_type),
            headers: header_texts(self.headers@),
            source: self.field,
        }
    }
}

/// A text behind a reference.
pub open spec fn borrowed_text(text: Option<&str>) -> Option<Seq<char>> {
    match text {
        Some(s) => Some(s@),
        None => None,
    }
}

fn borrow_text(text: &Option<String>) -> (borrowed: Option<&str>)
    ensures
        borrowed_text(borrowed) == opt_text(*text),
{
    match text {
        Some(s) => Some(s.as_str()),
        None => None,
    }
}

/// Makes texts of the bytes of headers, in order. Valid UTF-8 becomes the text
/// that it encodes.
pub fn decode_headers(raw: &Vec<(Vec<u8>, Vec<u8>)>) -> (headers: Vec<(String, String)>)
    ensures
        header_texts(headers@) == decoded(raw_headers(raw@)),
        plain_headers(raw_headers(raw@), header_texts(headers@)),
        headers.len() == raw.len(),
        forall|i: int|
            0 <= i < raw.len() ==> (#[trigger] headers@[i]).0@ == lossy_text(raw@[i].0@)
                && headers@[i].1@ == lossy_text(raw@[i].1@),
        forall|i: int|
            0 <= i < raw.len() ==> (valid_utf8(raw@[i].0@) ==> (#[trigger] headers@[i]).0@
                == decode_utf8(raw@[i].0@)) && (valid_utf8(raw@[i].1@) ==> headers@[i].1@
                == decode_utf8(raw@[i].1@)),
{
    let mut headers: Vec<(String, String)> = Vec::new();
    let mut i: usize = 0;
    while i < raw.len()
        invariant
            i <= raw.len(),
            headers.len() == i,
            forall|j: int|
                0 <= j < i ==> #[trigger] headers@[j].0@ == lossy_text(raw@[j].0@)
                    && headers@[j].1@ == lossy_text(raw@[j].1@) && plain_text(
                    raw@[j].0@,
                    headers@[j].0@,
                ) && plain_text(raw@[j].1@, headers@[j].1@),
        decreases raw.len() - i,
    {
        headers.push((decode_lossy(&raw[i].0), decode_lossy(&raw[i].1)));
        i = i + 1;
    }
    assert(header_texts(headers@) =~= decoded(raw_headers(raw@)));
    assert forall|i: int| 0 <= i < raw.len() implies (valid_utf8(raw@[i].0@) ==> (
    #[trigger] headers@[i]).0@ == decode_utf8(raw@[i].0@)) && (valid_utf8(raw@[i].1@)
        ==> headers@[i].1@ == decode_utf8(raw@[i].1@)) by {
        assert(headers@[i].0@ == lossy_text(raw@[i].0@));
        assert(plain_text(raw@[i].0@, headers@[i].0@));
        assert(plain_text(raw@[i].1@, headers@[i].1@));
    }
    headers
}

impl MultipartField {
    /// The field that `multer` has just found.
    pub fn new(field: Field<'static>) -> (found: Self)
        ensures
            found@ == found_field(field),
            plain_headers(field_headers_of(field), found@.headers),
            found@.name == field_name_of(field),
            found@.filename == field_file_name_of(field),
            found@.content_type == field_content_type_of(field),
            found@.source == Some(field),
            found@.headers.len() == field_headers_of(field).len(),
            forall|i: int|
                0 <= i < found@.headers.len() ==> {
                    let raw = field_headers_of(field)[i];
                    &&& (#[trigger] found@.headers[i]).0 == lossy_text(raw.0)
                    &&& found@.headers[i].1 == lossy_text(raw.1)
                    &&& valid_utf8(raw.0) ==> found@.headers[i].0 == decode_utf8(raw.0)
                    &&& valid_utf8(raw.1) ==> found@.headers[i].1 == decode_utf8(raw.1)
                },
    {
        let name = field_name(&field);
        let filename = field_file_name(&field);
        let content_type = field_content_type(&field);
        let headers = decode_headers(&field_headers(&field));
        MultipartField { name, filename, content_type, headers, field: Some(field) }
    }

    /// The field name.
    pub fn name(&self) -> (name: Option<&str>)
        ensures
            borrowed_text(name) == self@.name,
            match name {
                Some(text) => self@.name == Some(text@),
                None => self@.name is None,
            },
    {
        borrow_text(&self.name)
    }

    /// The file name, if this is a file field.
    pub fn filename(&self) -> (filename: Option<&str>)
        ensures
            borrowed_text(filename) == self@.filename,
            match filename {
                Some(text) => self@.filename == Some(text@),
                None => self@.filename is None,
            },
    {
        borrow_text(&self.filename)
    }

    /// The content type.
    pub fn content_type(&self) -> (content_type: Option<&str>)
        ensures
            borrowed_text(content_type) == self@.content_type,
            match content_type {
                Some(text) => self@.content_type == Some(text@),
                None => self@.content_type is None,
            },
    {
        borrow_text(&self.content_type)
    }

    /// The names and values of the headers.
    pub fn headers(&self) -> (headers: Vec<(String, String)>)
        ensures
            header_texts(headers@) == self@.headers,
            headers.len() == self@.headers.len(),
            forall|i: int|
                0 <= i < headers.len() ==> #[trigger] headers@[i].0@ == self@.headers[i].0
                    && headers@[i].1@ == self@.headers[i].1,
    {
        let mut copy: Vec<(String, String)> = Vec::new();
        let mut i: usize = 0;
        while i < self.headers.len()
            invariant
                i <= self.headers.len(),
                copy.len() == i,
                forall|j: int|
                    0 <= j < i ==> #[trigger] copy@[j].0@ == self.headers@[j].0@ && copy@[j].1@
                        == self.headers@[j].1@,
            decreases self.headers.len() - i,
        {
            copy.push((self.headers[i].0.clone(), self.headers[i].1.clone()));
            i = i + 1;
        }
        assert(header_texts(copy@) =~= header_texts(self.headers@));
        copy
    }

    /// The `multer` field that has to be asked for the next chunk, or `None` if
    /// the content has ended. Whatever it answers goes to `next_chunk`.
    pub fn source(&mut self) -> (source: Option<&mut Field<'static>>)
        ensures
            match old(self)@.source {
                Some(field) => source matches Some(s) && *s == field && final(self)@ == (
                FieldView { source: Some(*final(s)), ..old(self)@ }),
                None => source is None && final(self)@ == old(self)@,
            },
    {
        match &mut self.field {
            Some(field) => Some(field),
            None => None,
        }
    }

    /// The next chunk of the content, given what `multer` answered. At the end
    /// of the content, and ever after, the answer is `StopAsyncIteration`, and
    /// the `multer` field is let go. An error of `multer` is passed on and
    /// leaves the field as it is. Once the content has ended `outcome` is not
    /// looked at.
    pub fn next_chunk(
        &mut self,
        outcome: Result<Option<Bytes>, multer::Error>,
    ) -> (read: Result<Vec<u8>, Exception>)
        ensures
            (final(self)@, chunk_view(read)) == chunk_step(old(self)@, outcome),
            final(self)@.name == old(self)@.name,
            final(self)@.filename == old(self)@.filename,
            final(self)@.content_type == old(self)@.content_type,
            final(self)@.headers == old(self)@.headers,
            match old(self)@.source {
                Some(field) => match outcome {
                    Ok(Some(chunk)) => {
                        &&& read matches Ok(data) && data@ == bytes_contents(chunk)
                        &&& final(self)@.source == Some(field)
                    },
                    Ok(None) => {
                        &&& read matches Err(Exception::StopAsyncIteration(message)) && message@
                            == "No more chunks"@
                        &&& final(self)@.source is None
                    },
                    Err(error) => {
                        &&& read matches Err(Exception::Runtime(message)) && message@
                            == multer_error_text(error)
                        &&& final(self)@.source == Some(field)
                    },
                },
                None => {
                    &&& read matches Err(Exception::StopAsyncIteration(message)) && message@
                        == "No more chunks"@
                    &&& final(self)@.source is None
                },
            },
    {
        match &self.field {
            Some(_) => match outcome {
                Ok(Some(chunk)) => Ok(bytes_to_vec(&chunk)),
                Ok(None) => {
                    self.field = None;
                    Err(Exception::StopAsyncIteration("No more chunks".to_owned()))
                },
                Err(error) => Err(Exception::Runtime(error_text(&error))),
            },
            None => Err(Exception::StopAsyncIteration("No more chunks".to_owned())),
        }
    }
}

/// Once the content of a field has ended, reading answers `StopAsyncIteration`
/// whatever `multer` says, and the field stays ended.
pub proof fn law_end_of_field_is_final(
    field: FieldView,
    outcome: Result<Option<Bytes>, multer::Error>,
    later: Result<Option<Bytes>, multer::Error>,
)
    requires
        outcome matches Ok(None),
    ensures
        chunk_step(field, outcome).1 == Err::<Seq<u8>, ExceptionView>(no_more_chunks()),
        ({
            let ended = chunk_step(field, outcome).0;
            &&& ended.source is None
            &&& chunk_step(ended, later) == (
                ended,
                Err::<Seq<u8>, ExceptionView>(no_more_chunks()),
            )
        }),
{
}

/// Reading never changes the metadata of a field.
pub proof fn law_reading_keeps_metadata(
    field: FieldView,
    outcome: Result<Option<Bytes>, multer::Error>,
)
    ensures
        chunk_step(field, outcome).0 == (FieldView {
            source: chunk_step(field, outcome).0.source,
            ..field
        }),
{
}

/// As long as the content has not ended, neither a chunk nor an error ends it.
pub proof fn law_only_the_end_ends_a_field(
    field: FieldView,
    outcome: Result<Option<Bytes>, multer::Error>,
)
    requires
        field.source is Some,
    ensures
        chunk_step(field, outcome).0.source is None <==> (outcome matches Ok(None)),
{
}

/// What a read answers rests on what `multer` says and on whether the content
/// has ended, not on how far `multer` has come with it.
pub proof fn law_answer_rests_on_the_outcome(
    field: FieldView,
    moved: Field<'static>,
    outcome: Result<Option<Bytes>, multer::Error>,
)
    requires
        field.source is Some,
    ensures
        chunk_step(FieldView { source: Some(moved), ..field }, outcome).1 == chunk_step(
            field,
            outcome,
        ).1,
{
}

/// A field that was just found is what `multer` reports of it: the same name,
/// the same file name and the same content type, each whole or absent as it is
/// there, and it is read from that very field.
pub proof fn law_found_field_is_what_multer_reports(field: Field<'static>)
    ensures
        found_field(field).name == field_name_of(field),
        found_field(field).filename == field_file_name_of(field),
        found_field(field).content_type == field_content_type_of(field),
        found_field(field).source == Some(field),
{
}

/// A field that was just found has every header that `multer` reports, in the
/// same order, name by name and value by value.
pub proof fn law_found_field_has_every_header(field: Field<'static>, i: int)
    requires
        0 <= i < field_headers_of(field).len(),
    ensures
        found_field(field).headers.len() == field_headers_of(field).len(),
        found_field(field).headers[i].0 == lossy_text(field_headers_of(field)[i].0),
        found_field(field).headers[i].1 == lossy_text(field_headers_of(field)[i].1),
{
}

/// Headers are made into texts one by one, in order, and their number stays the
/// same.
pub proof fn law_headers_are_decoded_one_by_one(raw: Seq<(Seq<u8>, Seq<u8>)>)
    ensures
        decoded(raw).len() == raw.len(),
        forall|i: int|
            0 <= i < raw.len() ==> (#[trigger] decoded(raw)[i]).0 == lossy_text(raw[i].0)
                && decoded(raw)[i].1 == lossy_text(raw[i].1),
{
}

/// The bytes and the texts of a list of headers are those of its entries, all of
/// them and in order.
pub proof fn law_header_lists_show_every_entry(
    raw: Seq<(Vec<u8>, Vec<u8>)>,
    headers: Seq<(String, String)>,
)
    ensures
        raw_headers(raw).len() == raw.len(),
        forall|i: int|
            0 <= i < raw.len() ==> (#[trigger] raw_headers(raw)[i]).0 == raw[i].0@ && raw_headers(
                raw,
            )[i].1 == raw[i].1@,
        header_texts(headers).len() == headers.len(),
        forall|i: int|
            0 <= i < headers.len() ==> (#[trigger] header_texts(headers)[i]).0 == headers[i].0@
                && header_texts(headers)[i].1 == headers[i].1@,
{
}

/// A header part that is valid UTF-8 is the very text that it encodes.
pub proof fn law_plain_headers_are_their_text(
    raw: Seq<(Seq<u8>, Seq<u8>)>,
    headers: Seq<(Seq<char>, Seq<char>)>,
    i: int,
)
    requires
        plain_headers(raw, headers),
        0 <= i < raw.len(),
    ensures
        headers.len() == raw.len(),
        valid_utf8(raw[i].0) ==> headers[i].0 == decode_utf8(raw[i].0),
        valid_utf8(raw[i].1) ==> headers[i].1 == decode_utf8(raw[i].1),
{
    assert(plain_text(raw[i].0, headers[i].0));
}

/// A text behind a reference is the whole text, and there is one exactly if
/// there is a reference.
pub proof fn law_borrowed_text_is_whole(text: Option<&str>)
    ensures
        text is None <==> borrowed_text(text) is None,
        text matches Some(s) ==> borrowed_text(text) == Some(s@),
{
}

/// While the content has not ended, an error of `multer` reaches the caller as a
/// `RuntimeError` with the whole text of the error, for every field and every
/// error, and the field stays as it is.
pub proof fn law_chunk_errors_reach_the_caller(field: FieldView, error: multer::Error)
    requires
        field.source is Some,
    ensures
        chunk_step(field, Err(error)).1 == Err::<Seq<u8>, ExceptionView>(
            ExceptionView::Runtime(multer_error_text(error)),
        ),
        chunk_step(field, Err(error)).0 == field,
{
}

/// `StopAsyncIteration` is answered exactly if `multer` answered that there is no
/// more or the content had ended before, and its message says so.
pub proof fn law_stop_only_at_the_end(
    field: FieldView,
    outcome: Result<Option<Bytes>, multer::Error>,
)
    ensures
        (chunk_step(field, outcome).1 matches Err(ExceptionView::StopAsyncIteration(_)))
            <==> (field.source is None || outcome matches Ok(None)),
        chunk_step(field, outcome).1 matches Err(ExceptionView::StopAsyncIteration(message))
            ==> message == "No more chunks"@,
        !(chunk_step(field, outcome).1 matches Err(ExceptionView::Value(_))),
{
}

/// While the content has not ended, a chunk that `multer` answers reaches the
/// caller with all its bytes, empty or not, and nothing else is answered as a
/// chunk.
pub proof fn law_chunks_reach_the_caller_whole(
    field: FieldView,
    outcome: Result<Option<Bytes>, multer::Error>,
)
    requires
        field.source is Some,
    ensures
        outcome matches Ok(Some(chunk)) ==> chunk_step(field, outcome) == (
            field,
            Ok::<Seq<u8>, ExceptionView>(bytes_contents(chunk)),
        ),
        chunk_step(field, outcome).1 is Ok <==> (outcome matches Ok(Some(_))),
{
}

/// The bytes or the exception of a read show as they are.
pub proof fn law_chunk_answer_shows_as_it_is(read: Result<Vec<u8>, Exception>)
    ensures
        match read {
            Ok(data) => chunk_view(read) == Ok::<Seq<u8>, ExceptionView>(data@),
            Err(exception) => chunk_view(read) == Err::<Seq<u8>, ExceptionView>(exception@),
        },
{
}

} // verus!

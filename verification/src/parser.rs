//! The multipart parser: bytes are fed in, the input is closed, and fields are
//! read until there are no more.

use bytes::Bytes;
use multer::{Field, Multipart};
use vstd::prelude::*;

use crate::chunk_stream::ChunkStream;
use crate::constraint::{constrains, no_constraints, ConstraintView, ConstraintWrapper};
use crate::exception::{Exception, ExceptionView};
use crate::field::{found_field, plain_headers, FieldView, MultipartField};
use crate::outside::{
    channel_capacity, constraints_allowed, constraints_size_limit, end_of_input, error_text,
    field_content_type_of, field_file_name_of, field_headers_of, field_name_of, limit_by_name,
    limit_per_field, limit_whole_stream, linked, lossy_text, multer_error_text, multipart_boundary, multipart_constraints, multipart_input, multipart_new,
    multipart_with_constraints, open_channel, queued, send_chunk, ChunkChannel,
};

verus! {

/// How far a parser has come.
pub enum Phase {
    /// It takes input; so far these chunks.
    Feeding(Seq<Seq<u8>>),
    /// The input is complete, and `multer` parses it.
    Reading(Multipart<'static>),
    /// There are no more fields.
    Exhausted,
}

/// What a parser is.
pub struct ParserView {
    /// The boundary between the parts.
    pub boundary: Seq<char>,
    /// What the input is held to.
    pub constraints: Option<ConstraintView>,
    /// How far the parser has come.
    pub phase: Phase,
}

/// A parser before any input.
pub open spec fn new_parser(
    boundary: Seq<char>,
    constraints: Option<ConstraintView>,
) -> ParserView {
    ParserView { boundary, constraints, phase: Phase::Feeding(Seq::empty()) }
}

/// The exception for input that comes after the end of the input.
pub open spec fn already_closed() -> ExceptionView {
    ExceptionView::Runtime("Parser already closed"@)
}

/// The exception for reading fields before the end of the input.
pub open spec fn not_initialized() -> ExceptionView {
    ExceptionView::Runtime("Parser not initialized. Call close() first."@)
}

/// What feeding does: the parser after it, and what the caller gets.
pub open spec fn feed_step(
    parser: ParserView,
    data: Seq<u8>,
) -> (ParserView, Result<nat, ExceptionView>) {
    match parser.phase {
        Phase::Feeding(chunks) => (
            ParserView { phase: Phase::Feeding(chunks.push(data)), ..parser },
            Ok(data.len()),
        ),
        _ => (parser, Err(already_closed())),
    }
}

/// Whether `multer` has been set to parse just these chunks, split at the
/// parser's boundary and held to its constraints.
pub open spec fn parses(
    multipart: Multipart<'static>,
    chunks: Seq<Seq<u8>>,
    parser: ParserView,
) -> bool {
    &&& multipart_input(multipart) == chunks
    &&& multipart_boundary(multipart) == parser.boundary
    &&& constrains(
        multipart_constraints(multipart),
        match parser.constraints {
            Some(config) => config,
            None => no_constraints(),
        },
    )
}

/// What closing does: whether it can lead from one parser to another with this
/// answer to the caller.
pub open spec fn close_step(
    before: ParserView,
    after: ParserView,
    answer: Result<bool, ExceptionView>,
) -> bool {
    match before.phase {
        Phase::Feeding(chunks) => {
            &&& answer == Ok::<bool, ExceptionView>(true)
            &&& after.phase matches Phase::Reading(multipart) && parses(multipart, chunks, before)
            &&& after == (ParserView { phase: after.phase, ..before })
        },
        _ => {
            &&& answer == Err::<bool, ExceptionView>(already_closed())
            &&& after == before
        },
    }
}

/// What asking for the next field does: the parser after it, and what the
/// caller gets. `outcome` is what `multer` answered; it counts only while
/// `multer` parses.
pub open spec fn next_field_step(
    parser: ParserView,
    outcome: Result<Option<Field<'static>>, multer::Error>,
) -> (ParserView, Result<Option<FieldView>, ExceptionView>) {
    match parser.phase {
        Phase::Feeding(_) => (parser, Err(not_initialized())),
        Phase::Exhausted => (parser, Ok(None)),
        Phase::Reading(_) => match outcome {
            Ok(Some(field)) => (parser, Ok(Some(found_field(field)))),
            Ok(None) => (ParserView { phase: Phase::Exhausted, ..parser }, Ok(None)),
            Err(error) => (parser, Err(ExceptionView::Runtime(multer_error_text(error)))),
        },
    }
}

/// The number or the exception that feeding answers.
pub open spec fn feed_view(answer: Result<usize, Exception>) -> Result<nat, ExceptionView> {
    match answer {
        Ok(n) => Ok(n as nat),
        Err(exception) => Err(exception@),
    }
}

/// The flag or the exception that closing answers.
pub open spec fn close_view(answer: Result<bool, Exception>) -> Result<bool, ExceptionView> {
    match answer {
        Ok(done) => Ok(done),
        Err(exception) => Err(exception@),
    }
}

/// The field or the exception that asking for a field answers.
pub open spec fn field_answer_view(
    answer: Result<Option<MultipartField>, Exception>,
) -> Result<Option<FieldView>, ExceptionView> {
    match answer {
        Ok(Some(field)) => Ok(Some(field@)),
        Ok(None) => Ok(None),
        Err(exception) => Err(exception@),
    }
}

/// The input side of a parser.
enum ParserState {
    Active(ChunkChannel),
    Closed,
}

/// The output side of a parser.
enum MultipartState {
    NotInitialized,
    Active(Multipart<'static>),
    Exhausted,
}

/// A parser for a multipart/form-data stream.
pub struct MultipartParser {
    state: ParserState,
    boundary: String,
    constraints: Option<ConstraintWrapper>,
    multipart_state: MultipartState,
}

impl View for MultipartParser {
    type V = ParserView;

    closed spec fn view(&self) -> ParserView {
        ParserView {
            boundary: self.boundary@,
            constraints: match self.constraints {
                Some(config) => Some(config@),
                None => None,
            },
            phase: match (self.state, self.multipart_state) {
                (ParserState::Active(channel), _) => Phase::Feeding(queued(channel)),
                (ParserState::Closed, MultipartState::Active(multipart)) => Phase::Reading(
                    multipart,
                ),
                (ParserState::Closed, _) => Phase::Exhausted,
            },
        }
    }
}

/// The number of bytes fed, if the chunk was sent, and else the exception that
/// says why it was not.
pub fn feed_answer(sent: Result<(), String>, len: usize) -> (answer: Result<usize, Exception>)
    ensures
        feed_view(answer) == match sent {
            Ok(_) => Ok::<nat, ExceptionView>(len as nat),
            Err(reason) => Err(ExceptionView::Runtime("Feed error: "@ + reason@)),
        },
        match sent {
            Ok(_) => answer matches Ok(n) && n == len,
            Err(reason) => answer matches Err(Exception::Runtime(message)) && message@
                == "Feed error: "@ + reason@,
        },
{
    match sent {
        Ok(_) => Ok(len),
        Err(reason) => {
            let mut message = "Feed error: ".to_owned();
            message.append(reason.as_str());
            Err(Exception::Runtime(message))
        },
    }
}

impl MultipartParser {
    /// What every operation keeps: the output side is set up exactly if the
    /// input side is closed, and an open input side has its channel.
    pub closed spec fn wf(&self) -> bool {
        match self.state {
            ParserState::Active(channel) => linked(channel)
                && self.multipart_state is NotInitialized,
            ParserState::Closed => !(self.multipart_state is NotInitialized),
        }
    }

    /// A parser that has no input yet.
    pub fn new(boundary: &str, constraints: Option<ConstraintWrapper>) -> (parser: Self)
        ensures
            parser.wf(),
            parser@ == new_parser(
                boundary@,
                match constraints {
                    Some(config) => Some(config@),
                    None => None,
                },
            ),
            parser@.boundary == boundary@,
            match constraints {
                Some(config) => parser@.constraints == Some(config@),
                None => parser@.constraints is None,
            },
            parser@.phase == Phase::Feeding(Seq::<Seq<u8>>::empty()),
    {
        MultipartParser {
            state: ParserState::Active(open_channel()),
            boundary: boundary.to_owned(),
            constraints,
            multipart_state: MultipartState::NotInitialized,
        }
    }

    /// Takes input, and answers how many bytes it took. Once the input is
    /// closed it answers an exception.
    pub fn feed(&mut self, data: &[u8]) -> (answer: Result<usize, Exception>)
        requires
            old(self).wf(),
            old(self)@.phase matches Phase::Feeding(chunks) ==> chunks.len() < channel_capacity(),
        ensures
            final(self).wf(),
            (final(self)@, feed_view(answer)) == feed_step(old(self)@, data@),
            final(self)@.boundary == old(self)@.boundary,
            final(self)@.constraints == old(self)@.constraints,
            match old(self)@.phase {
                Phase::Feeding(chunks) => {
                    &&& answer matches Ok(n) && n == data@.len()
                    &&& final(self)@.phase == Phase::Feeding(chunks.push(data@))
                },
                _ => {
                    &&& answer matches Err(Exception::Runtime(message)) && message@
                        == "Parser already closed"@
                    &&& final(self)@.phase == old(self)@.phase
                },
            },
    {
        let bytes = Bytes::copy_from_slice(data);
        let len = bytes.len();
        match &mut self.state {
            ParserState::Active(channel) => feed_answer(send_chunk(channel, bytes), len),
            ParserState::Closed => Err(Exception::Runtime("Parser already closed".to_owned())),
        }
    }

    /// Ends the input and sets `multer` to parse it. A second call answers an
    /// exception.
    pub fn close(&mut self) -> (answer: Result<bool, Exception>)
        requires
            old(self).wf(),
        ensures
            final(self).wf(),
            close_step(old(self)@, final(self)@, close_view(answer)),
            final(self)@.boundary == old(self)@.boundary,
            final(self)@.constraints == old(self)@.constraints,
            match old(self)@.phase {
                Phase::Feeding(chunks) => {
                    &&& answer matches Ok(done) && done
                    &&& final(self)@.phase matches Phase::Reading(multipart) && {
                        let imposed = multipart_constraints(multipart);
                        let limit = constraints_size_limit(imposed);
                        &&& multipart_input(multipart) == chunks
                        &&& multipart_boundary(multipart) == old(self)@.boundary
                        &&& match old(self)@.constraints {
                            Some(given) if given.allowed_fields.len() > 0 => constraints_allowed(
                                imposed,
                            ) == Some(given.allowed_fields),
                            _ => constraints_allowed(imposed) is None,
                        }
                        &&& match old(self)@.constraints {
                            Some(ConstraintView { size_limit: Some(config), .. }) => {
                                &&& match config.whole_stream {
                                    Some(n) => limit_whole_stream(limit) == n,
                                    None => limit_whole_stream(limit) == 0xffff_ffff_ffff_ffff,
                                }
                                &&& match config.per_field {
                                    Some(n) => limit_per_field(limit) == n,
                                    None => limit_per_field(limit) == 0xffff_ffff_ffff_ffff,
                                }
                                &&& limit_by_name(limit) == config.fields
                            },
                            _ => {
                                &&& limit_whole_stream(limit) == 0xffff_ffff_ffff_ffff
                                &&& limit_per_field(limit) == 0xffff_ffff_ffff_ffff
                                &&& limit_by_name(limit) == Map::<Seq<char>, u64>::empty()
                            },
                        }
                    }
                },
                _ => {
                    &&& answer matches Err(Exception::Runtime(message)) && message@
                        == "Parser already closed"@
                    &&& final(self)@.phase == old(self)@.phase
                },
            },
    {
        let mut state = ParserState::Closed;
        std::mem::swap(&mut state, &mut self.state);
        match state {
            ParserState::Active(channel) => {
                let stream = ChunkStream { rx: end_of_input(channel) };
                let mp = match &self.constraints {
                    Some(c) => multipart_with_constraints(
                        stream,
                        &self.boundary,
                        c.to_constraints(),
                    ),
                    None => multipart_new(stream, &self.boundary),
                };
                self.multipart_state = MultipartState::Active(mp);
                Ok(true)
            },
            ParserState::Closed => Err(Exception::Runtime("Parser already closed".to_owned())),
        }
    }

    /// The `multer` parse that has to be asked for the next field, or `None` if
    /// there is nothing to ask. Whatever it answers goes to `next_field`.
    pub fn multipart(&mut self) -> (multipart: Option<&mut Multipart<'static>>)
        requires
            old(self).wf(),
        ensures
            final(self).wf(),
            match old(self)@.phase {
                Phase::Reading(parse) => multipart matches Some(m) && *m == parse && final(self)@
                    == (ParserView { phase: Phase::Reading(*final(m)), ..old(self)@ }),
                _ => multipart is None && final(self)@ == old(self)@,
            },
    {
        match &mut self.multipart_state {
            MultipartState::Active(mp) => Some(mp),
            _ => None,
        }
    }

    /// The next field, given what `multer` answered. Before the input is closed
    /// the answer is an exception. After the last field it is `None`, and stays
    /// so. An error of `multer` is passed on and leaves the parser as it is.
    /// Where there was nothing to ask `outcome` is not looked at.
    pub fn next_field(
        &mut self,
        outcome: Result<Option<Field<'static>>, multer::Error>,
    ) -> (answer: Result<Option<MultipartField>, Exception>)
        requires
            old(self).wf(),
        ensures
            final(self).wf(),
            (final(self)@, field_answer_view(answer)) == next_field_step(old(self)@, outcome),
            answer matches Ok(Some(found)) ==> outcome matches Ok(Some(field)) && plain_headers(
                field_headers_of(field),
                found@.headers,
            ),
            final(self)@.boundary == old(self)@.boundary,
            final(self)@.constraints == old(self)@.constraints,
            match old(self)@.phase {
                Phase::Feeding(_) => {
                    &&& answer matches Err(Exception::Runtime(message)) && message@
                        == "Parser not initialized. Call close() first."@
                    &&& final(self)@.phase == old(self)@.phase
                },
                Phase::Exhausted => {
                    &&& answer matches Ok(None)
                    &&& final(self)@.phase is Exhausted
                },
                Phase::Reading(_) => match outcome {
                    Ok(Some(field)) => {
                        &&& final(self)@.phase == old(self)@.phase
                        &&& answer matches Ok(Some(found)) && {
                            &&& found@.name == field_name_of(field)
                            &&& found@.filename == field_file_name_of(field)
                            &&& found@.content_type == field_content_type_of(field)
                            &&& found@.source == Some(field)
                            &&& found@.headers.len() == field_headers_of(field).len()
                            &&& forall|i: int|
                                0 <= i < found@.headers.len() ==> (#[trigger] found@.headers[i]).0
                                    == lossy_text(field_headers_of(field)[i].0)
                                    && found@.headers[i].1 == lossy_text(
                                    field_headers_of(field)[i].1,
                                )
                        }
                    },
                    Ok(None) => {
                        &&& answer matches Ok(None)
                        &&& final(self)@.phase is Exhausted
                    },
                    Err(error) => {
                        &&& answer matches Err(Exception::Runtime(message)) && message@
                            == multer_error_text(error)
                        &&& final(self)@.phase == old(self)@.phase
                    },
                },
            },
    {
        match &self.multipart_state {
            MultipartState::Active(_) => match outcome {
                Ok(Some(field)) => Ok(Some(MultipartField::new(field))),
                Ok(None) => {
                    self.multipart_state = MultipartState::Exhausted;
                    Ok(None)
                },
                Err(error) => Err(Exception::Runtime(error_text(&error))),
            },
            MultipartState::NotInitialized => Err(
                Exception::Runtime("Parser not initialized. Call close() first.".to_owned()),
            ),
            MultipartState::Exhausted => Ok(None),
        }
    }
}

} // verus!

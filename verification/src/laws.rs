//! What holds of a parser, and of reading a field, from one call to the next.

use bytes::Bytes;
use multer::{Field, Multipart};
use vstd::prelude::*;

use crate::constraint::{constrains, no_constraints, ConstraintView};
use crate::exception::{Exception, ExceptionView};
use crate::field::{chunk_step, found_field, no_more_chunks, FieldView, MultipartField};
use crate::outside::{
    bytes_contents, constraints_allowed, constraints_size_limit, field_content_type_of,
    field_file_name_of, field_headers_of, field_name_of, limit_by_name, limit_per_field,
    limit_whole_stream, lossy_text, multer_error_text, multipart_boundary, multipart_constraints,
    multipart_input,
};
use crate::parser::{
    already_closed, close_step, close_view, feed_step, feed_view, field_answer_view, new_parser,
    next_field_step, not_initialized, parses, ParserView, Phase,
};

verus! {

/// A parser after some chunks have been fed to it, one call for each.
pub open spec fn feed_all(parser: ParserView, chunks: Seq<Seq<u8>>) -> ParserView
    decreases chunks.len(),
{
    if chunks.len() == 0 {
        parser
    } else {
        feed_step(feed_all(parser, chunks.drop_last()), chunks.last()).0
    }
}

/// The bytes of some chunks, joined.
pub open spec fn joined(chunks: Seq<Seq<u8>>) -> Seq<u8>
    decreases chunks.len(),
{
    if chunks.len() == 0 {
        Seq::empty()
    } else {
        joined(chunks.drop_last()) + chunks.last()
    }
}

/// The place of a phase in the life of a parser.
pub open spec fn progress(phase: Phase) -> nat {
    match phase {
        Phase::Feeding(_) => 0,
        Phase::Reading(_) => 1,
        Phase::Exhausted => 2,
    }
}

/// Chunks are kept in the order in which they are fed, behind those that came
/// before.
pub proof fn law_feeding_accumulates(
    parser: ParserView,
    earlier: Seq<Seq<u8>>,
    chunks: Seq<Seq<u8>>,
)
    requires
        parser.phase == Phase::Feeding(earlier),
    ensures
        feed_all(parser, chunks) == (ParserView {
            phase: Phase::Feeding(earlier + chunks),
            ..parser
        }),
    decreases chunks.len(),
{
    if chunks.len() == 0 {
        assert(earlier + chunks =~= earlier);
    } else {
        law_feeding_accumulates(parser, earlier, chunks.drop_last());
        assert((earlier + chunks.drop_last()).push(chunks.last()) =~= earlier + chunks);
    }
}

/// What is fed before the input is closed, and nothing else, is what `multer`
/// parses, in the order in which it was fed, under the parser's boundary and
/// constraints.
pub proof fn law_multer_parses_what_was_fed(
    boundary: Seq<char>,
    constraints: Option<ConstraintView>,
    chunks: Seq<Seq<u8>>,
    closed: ParserView,
    answer: Result<bool, ExceptionView>,
)
    requires
        close_step(feed_all(new_parser(boundary, constraints), chunks), closed, answer),
    ensures
        answer == Ok::<bool, ExceptionView>(true),
        closed.phase matches Phase::Reading(multipart) && {
            &&& multipart_input(multipart) == chunks
            &&& multipart_boundary(multipart) == boundary
            &&& constrains(
                multipart_constraints(multipart),
                match constraints {
                    Some(config) => config,
                    None => no_constraints(),
                },
            )
        },
{
    law_feeding_accumulates(new_parser(boundary, constraints), Seq::empty(), chunks);
    assert(Seq::<Seq<u8>>::empty() + chunks =~= chunks);
}

/// How the input is cut into chunks does not matter: the same bytes, fed in
/// other pieces, give `multer` the same bytes.
pub proof fn law_cutting_does_not_matter(
    parser: ParserView,
    chunks: Seq<Seq<u8>>,
    others: Seq<Seq<u8>>,
    closed: ParserView,
    closed_other: ParserView,
    answer: Result<bool, ExceptionView>,
    answer_other: Result<bool, ExceptionView>,
)
    requires
        parser.phase is Feeding,
        joined(chunks) == joined(others),
        close_step(feed_all(parser, chunks), closed, answer),
        close_step(feed_all(parser, others), closed_other, answer_other),
    ensures
        closed.phase matches Phase::Reading(multipart) && closed_other.phase matches Phase::Reading(
            other,
        ) && joined(multipart_input(multipart)) == joined(multipart_input(other)),
{
    let earlier = parser.phase->Feeding_0;
    law_feeding_accumulates(parser, earlier, chunks);
    law_feeding_accumulates(parser, earlier, others);
    lemma_joined_concat(earlier, chunks);
    lemma_joined_concat(earlier, others);
}

proof fn lemma_joined_concat(first: Seq<Seq<u8>>, second: Seq<Seq<u8>>)
    ensures
        joined(first + second) == joined(first) + joined(second),
    decreases second.len(),
{
    if second.len() == 0 {
        assert(first + second =~= first);
        assert(joined(first) + joined(second) =~= joined(first));
    } else {
        lemma_joined_concat(first, second.drop_last());
        assert((first + second).drop_last() =~= first + second.drop_last());
        assert((first + second).last() == second.last());
        assert(joined(first + second) =~= joined(first) + joined(second));
    }
}

/// A closed parser refuses both more input and a second close with the same
/// exception, and is not changed by either.
pub proof fn law_closed_parser_refuses_input(
    open: ParserView,
    closed: ParserView,
    answer: Result<bool, ExceptionView>,
    data: Seq<u8>,
    again: ParserView,
    answer_again: Result<bool, ExceptionView>,
)
    requires
        close_step(open, closed, answer),
        close_step(closed, again, answer_again),
    ensures
        feed_step(closed, data) == (closed, Err::<nat, ExceptionView>(already_closed())),
        answer_again == Err::<bool, ExceptionView>(already_closed()),
        again == closed,
{
}

/// Before the input is closed there are no fields: asking for one is answered
/// with an exception, whatever is handed in, and changes nothing.
pub proof fn law_no_fields_before_close(
    boundary: Seq<char>,
    constraints: Option<ConstraintView>,
    chunks: Seq<Seq<u8>>,
    outcome: Result<Option<Field<'static>>, multer::Error>,
)
    ensures
        ({
            let parser = feed_all(new_parser(boundary, constraints), chunks);
            next_field_step(parser, outcome) == (
                parser,
                Err::<Option<FieldView>, ExceptionView>(not_initialized()),
            )
        }),
{
    law_feeding_accumulates(new_parser(boundary, constraints), Seq::empty(), chunks);
}

/// After the last field every further call answers that there is none, whatever
/// is handed in, and changes nothing.
pub proof fn law_exhausted_parser_stays_exhausted(
    parser: ParserView,
    outcome: Result<Option<Field<'static>>, multer::Error>,
    later: Result<Option<Field<'static>>, multer::Error>,
)
    requires
        parser.phase is Reading,
        outcome matches Ok(None),
    ensures
        ({
            let (ended, answer) = next_field_step(parser, outcome);
            &&& answer == Ok::<Option<FieldView>, ExceptionView>(None)
            &&& ended.phase is Exhausted
            &&& next_field_step(ended, later) == (
                ended,
                Ok::<Option<FieldView>, ExceptionView>(None),
            )
        }),
{
}

/// An error of `multer` reaches the caller with its text, and the parser stays
/// as it is, so that it can be asked again.
pub proof fn law_multer_error_is_passed_on(parser: ParserView, error: multer::Error)
    requires
        parser.phase is Reading,
    ensures
        next_field_step(parser, Err(error)) == (
            parser,
            Err::<Option<FieldView>, ExceptionView>(
                ExceptionView::Runtime(multer_error_text(error)),
            ),
        ),
{
}

/// A parser never goes back: no call takes it to an earlier phase.
pub proof fn law_parser_never_goes_back(
    parser: ParserView,
    data: Seq<u8>,
    closed: ParserView,
    answer: Result<bool, ExceptionView>,
    outcome: Result<Option<Field<'static>>, multer::Error>,
)
    requires
        close_step(parser, closed, answer),
    ensures
        progress(feed_step(parser, data).0.phase) >= progress(parser.phase),
        progress(closed.phase) >= progress(parser.phase),
        progress(next_field_step(parser, outcome).0.phase) >= progress(parser.phase),
{
}

/// No call changes the boundary or the constraints of a parser.
pub proof fn law_settings_are_fixed(
    parser: ParserView,
    data: Seq<u8>,
    closed: ParserView,
    answer: Result<bool, ExceptionView>,
    outcome: Result<Option<Field<'static>>, multer::Error>,
)
    requires
        close_step(parser, closed, answer),
    ensures
        feed_step(parser, data).0.boundary == parser.boundary,
        feed_step(parser, data).0.constraints == parser.constraints,
        closed.boundary == parser.boundary,
        closed.constraints == parser.constraints,
        next_field_step(parser, outcome).0.boundary == parser.boundary,
        next_field_step(parser, outcome).0.constraints == parser.constraints,
{
}

/// A parser without constraints parses as one whose constraints constrain
/// nothing.
pub proof fn law_absent_constraints_constrain_nothing(
    multipart: Multipart<'static>,
    chunks: Seq<Seq<u8>>,
    parser: ParserView,
)
    ensures
        parses(multipart, chunks, ParserView { constraints: None, ..parser }) == parses(
            multipart,
            chunks,
            ParserView { constraints: Some(no_constraints()), ..parser },
        ),
{
}

/// Feeding an open parser answers the number of bytes by which its input grows,
/// which is the number of bytes fed.
pub proof fn law_feeding_counts_every_byte(
    parser: ParserView,
    chunks: Seq<Seq<u8>>,
    data: Seq<u8>,
)
    requires
        parser.phase == Phase::Feeding(chunks),
    ensures
        feed_step(parser, data).1 == Ok::<nat, ExceptionView>(data.len()),
        feed_step(parser, data).0.phase matches Phase::Feeding(more) && {
            &&& joined(more) == joined(chunks) + data
            &&& joined(more).len() == joined(chunks).len() + data.len()
        },
{
    assert(chunks.push(data).drop_last() =~= chunks);
}

/// Once the input is closed, fields can be read: each field that `multer` finds
/// reaches the caller, however far `multer` has come, and another can be asked
/// for after it.
pub proof fn law_fields_can_be_read_after_close(
    open: ParserView,
    closed: ParserView,
    moved: Multipart<'static>,
    field: Field<'static>,
)
    requires
        close_step(open, closed, Ok(true)),
    ensures
        ({
            let parser = ParserView { phase: Phase::Reading(moved), ..closed };
            &&& closed.phase is Reading
            &&& next_field_step(parser, Ok(Some(field))) == (
                parser,
                Ok::<Option<FieldView>, ExceptionView>(Some(found_field(field))),
            )
        }),
{
}

/// One read of a field: where `multer` had come to when it was asked, and what
/// it answered.
pub struct Read {
    /// The `multer` field after it was asked.
    pub moved: Field<'static>,
    /// Its answer.
    pub outcome: Result<Option<Bytes>, multer::Error>,
}

/// A field whose `multer` field has been asked for a chunk, if there still is
/// one to ask.
pub open spec fn asked(field: FieldView, moved: Field<'static>) -> FieldView {
    match field.source {
        Some(_) => FieldView { source: Some(moved), ..field },
        None => field,
    }
}

/// A field after some reads.
pub open spec fn read_all(field: FieldView, reads: Seq<Read>) -> FieldView
    decreases reads.len(),
{
    if reads.len() == 0 {
        field
    } else {
        let before = read_all(field, reads.drop_last());
        chunk_step(asked(before, reads.last().moved), reads.last().outcome).0
    }
}

/// The data that a caller gathers by some reads of a field.
pub open spec fn data_read(field: FieldView, reads: Seq<Read>) -> Seq<u8>
    decreases reads.len(),
{
    if reads.len() == 0 {
        Seq::empty()
    } else {
        let before = read_all(field, reads.drop_last());
        let gathered = data_read(field, reads.drop_last());
        match chunk_step(asked(before, reads.last().moved), reads.last().outcome).1 {
            Ok(chunk) => gathered + chunk,
            Err(_) => gathered,
        }
    }
}

/// The bytes of some buffers, each as a chunk.
pub open spec fn chunk_bytes(chunks: Seq<Bytes>) -> Seq<Seq<u8>> {
    chunks.map_values(|chunk: Bytes| bytes_contents(chunk))
}

proof fn lemma_chunks_are_gathered(field: FieldView, chunks: Seq<Bytes>, reads: Seq<Read>)
    requires
        field.source is Some,
        reads.len() == chunks.len(),
        forall|i: int|
            0 <= i < chunks.len() ==> #[trigger] reads[i].outcome == Ok::<
                Option<Bytes>,
                multer::Error,
            >(Some(chunks[i])),
    ensures
        read_all(field, reads).source is Some,
        data_read(field, reads) == joined(chunk_bytes(chunks)),
    decreases chunks.len(),
{
    if chunks.len() > 0 {
        let last = chunks.len() - 1;
        lemma_chunks_are_gathered(field, chunks.drop_last(), reads.drop_last());
        assert(reads[last].outcome == Ok::<Option<Bytes>, multer::Error>(Some(chunks[last])));
        assert(chunk_bytes(chunks).drop_last() =~= chunk_bytes(chunks.drop_last()));
        assert(chunk_bytes(chunks).last() == bytes_contents(chunks[last]));
    }
}

/// Reading a field to its end gives the chunks that `multer` answered, joined in
/// order; the read that finds the end is answered with `StopAsyncIteration` and
/// lets the `multer` field go.
pub proof fn law_reading_to_the_end_gives_the_content(
    field: FieldView,
    chunks: Seq<Bytes>,
    reads: Seq<Read>,
    end: Read,
)
    requires
        field.source is Some,
        reads.len() == chunks.len(),
        forall|i: int|
            0 <= i < chunks.len() ==> #[trigger] reads[i].outcome == Ok::<
                Option<Bytes>,
                multer::Error,
            >(Some(chunks[i])),
        end.outcome matches Ok(None),
    ensures
        data_read(field, reads.push(end)) == joined(chunk_bytes(chunks)),
        chunk_step(asked(read_all(field, reads), end.moved), end.outcome).1 == Err::<
            Seq<u8>,
            ExceptionView,
        >(no_more_chunks()),
        read_all(field, reads.push(end)).source is None,
{
    lemma_chunks_are_gathered(field, chunks, reads);
    assert(reads.push(end).drop_last() =~= reads);
}

/// One request for a field: where `multer` had come to when it was asked, and
/// what it answered.
pub struct Ask {
    /// The `multer` parse after it was asked.
    pub moved: Multipart<'static>,
    /// Its answer.
    pub outcome: Result<Option<Field<'static>>, multer::Error>,
}

/// A parser whose `multer` parse has been asked for a field, if there is one to
/// ask.
pub open spec fn asked_parser(parser: ParserView, moved: Multipart<'static>) -> ParserView {
    match parser.phase {
        Phase::Reading(_) => ParserView { phase: Phase::Reading(moved), ..parser },
        _ => parser,
    }
}

/// A parser after some requests for fields.
pub open spec fn ask_all(parser: ParserView, asks: Seq<Ask>) -> ParserView
    decreases asks.len(),
{
    if asks.len() == 0 {
        parser
    } else {
        let before = ask_all(parser, asks.drop_last());
        next_field_step(asked_parser(before, asks.last().moved), asks.last().outcome).0
    }
}

/// The fields that a caller gets by some requests.
pub open spec fn fields_read(parser: ParserView, asks: Seq<Ask>) -> Seq<FieldView>
    decreases asks.len(),
{
    if asks.len() == 0 {
        Seq::empty()
    } else {
        let before = ask_all(parser, asks.drop_last());
        let gathered = fields_read(parser, asks.drop_last());
        match next_field_step(asked_parser(before, asks.last().moved), asks.last().outcome).1 {
            Ok(Some(field)) => gathered.push(field),
            _ => gathered,
        }
    }
}

/// What some fields are when `multer` has just found them.
pub open spec fn found_fields(fields: Seq<Field<'static>>) -> Seq<FieldView> {
    fields.map_values(|field: Field<'static>| found_field(field))
}

proof fn lemma_fields_are_gathered(
    parser: ParserView,
    fields: Seq<Field<'static>>,
    asks: Seq<Ask>,
)
    requires
        parser.phase is Reading,
        asks.len() == fields.len(),
        forall|i: int|
            0 <= i < fields.len() ==> #[trigger] asks[i].outcome == Ok::<
                Option<Field<'static>>,
                multer::Error,
            >(Some(fields[i])),
    ensures
        ask_all(parser, asks).phase is Reading,
        fields_read(parser, asks) == found_fields(fields),
    decreases fields.len(),
{
    if fields.len() == 0 {
        assert(found_fields(fields) =~= Seq::empty());
    } else {
        let last = fields.len() - 1;
        lemma_fields_are_gathered(parser, fields.drop_last(), asks.drop_last());
        assert(asks[last].outcome == Ok::<Option<Field<'static>>, multer::Error>(
            Some(fields[last]),
        ));
        assert(found_fields(fields) =~= found_fields(fields.drop_last()).push(
            found_field(fields[last]),
        ));
    }
}

/// Asking for fields until there is none gives every field that `multer` found,
/// in order; the request that finds the end is answered with `None` and leaves
/// the parser exhausted.
pub proof fn law_reading_to_the_end_gives_every_field(
    parser: ParserView,
    fields: Seq<Field<'static>>,
    asks: Seq<Ask>,
    end: Ask,
)
    requires
        parser.phase is Reading,
        asks.len() == fields.len(),
        forall|i: int|
            0 <= i < fields.len() ==> #[trigger] asks[i].outcome == Ok::<
                Option<Field<'static>>,
                multer::Error,
            >(Some(fields[i])),
        end.outcome matches Ok(None),
    ensures
        fields_read(parser, asks.push(end)) == found_fields(fields),
        next_field_step(asked_parser(ask_all(parser, asks), end.moved), end.outcome).1 == Ok::<
            Option<FieldView>,
            ExceptionView,
        >(None),
        ask_all(parser, asks.push(end)).phase is Exhausted,
{
    lemma_fields_are_gathered(parser, fields, asks);
    assert(asks.push(end).drop_last() =~= asks);
}

/// The whole life of a parser: what is fed before the input is closed is what
/// `multer` is set to parse, and asking for fields until there is none gives
/// every field that it found there, in order.
pub proof fn law_feed_close_and_read(
    boundary: Seq<char>,
    constraints: Option<ConstraintView>,
    chunks: Seq<Seq<u8>>,
    closed: ParserView,
    answer: Result<bool, ExceptionView>,
    fields: Seq<Field<'static>>,
    asks: Seq<Ask>,
    end: Ask,
)
    requires
        close_step(feed_all(new_parser(boundary, constraints), chunks), closed, answer),
        asks.len() == fields.len(),
        forall|i: int|
            0 <= i < fields.len() ==> #[trigger] asks[i].outcome == Ok::<
                Option<Field<'static>>,
                multer::Error,
            >(Some(fields[i])),
        end.outcome matches Ok(None),
    ensures
        answer == Ok::<bool, ExceptionView>(true),
        closed.phase matches Phase::Reading(multipart) && parses(
            multipart,
            chunks,
            new_parser(boundary, constraints),
        ),
        fields_read(closed, asks.push(end)) == found_fields(fields),
        ask_all(closed, asks.push(end)).phase is Exhausted,
{
    law_multer_parses_what_was_fed(boundary, constraints, chunks, closed, answer);
    law_reading_to_the_end_gives_every_field(closed, fields, asks, end);
}

/// A new parser has the boundary and the constraints that it was given, and no
/// input.
pub proof fn law_new_parser_has_its_settings(
    boundary: Seq<char>,
    constraints: Option<ConstraintView>,
)
    ensures
        new_parser(boundary, constraints).boundary == boundary,
        new_parser(boundary, constraints).constraints == constraints,
        new_parser(boundary, constraints).phase matches Phase::Feeding(chunks) && chunks.len()
            == 0,
{
}

/// An open parser keeps every byte of what it is fed, whatever and however much
/// that is: what it held stays, the new chunk comes last and is the data itself.
pub proof fn law_fed_data_is_kept_whole(
    parser: ParserView,
    chunks: Seq<Seq<u8>>,
    data: Seq<u8>,
)
    requires
        parser.phase == Phase::Feeding(chunks),
    ensures
        feed_step(parser, data).1 matches Ok(n) && n == data.len(),
        feed_step(parser, data).0.phase matches Phase::Feeding(more) && {
            &&& more.len() == chunks.len() + 1
            &&& more.last() == data
            &&& more.drop_last() == chunks
        },
{
    assert(chunks.push(data).drop_last() =~= chunks);
}

/// Input is refused exactly if the parser is no longer open, and the exception
/// says that it is closed.
pub proof fn law_refusals_say_that_the_parser_is_closed(
    parser: ParserView,
    data: Seq<u8>,
    after: ParserView,
    answer: Result<bool, ExceptionView>,
)
    requires
        close_step(parser, after, answer),
    ensures
        feed_step(parser, data).1 is Err <==> !(parser.phase is Feeding),
        answer is Err <==> !(parser.phase is Feeding),
        feed_step(parser, data).1 matches Err(exception) ==> exception == ExceptionView::Runtime(
            "Parser already closed"@,
        ) && feed_step(parser, data).0 == parser,
        answer matches Err(exception) ==> exception == ExceptionView::Runtime(
            "Parser already closed"@,
        ) && after == parser,
{
}

/// Closing an open parser sets `multer` to parse all of its input, under its
/// whole boundary, with every name that it allows and with every limit that it
/// gives, number for number; what is not given is not constrained.
pub proof fn law_closing_hands_everything_to_multer(
    open: ParserView,
    chunks: Seq<Seq<u8>>,
    closed: ParserView,
    answer: Result<bool, ExceptionView>,
)
    requires
        open.phase == Phase::Feeding(chunks),
        close_step(open, closed, answer),
    ensures
        answer matches Ok(done) && done,
        closed.phase matches Phase::Reading(multipart) && {
            let imposed = multipart_constraints(multipart);
            let limit = constraints_size_limit(imposed);
            &&& multipart_input(multipart) == chunks
            &&& multipart_boundary(multipart) == open.boundary
            &&& open.constraints is None ==> {
                &&& constraints_allowed(imposed) is None
                &&& limit_whole_stream(limit) == 0xffff_ffff_ffff_ffff
                &&& limit_per_field(limit) == 0xffff_ffff_ffff_ffff
                &&& limit_by_name(limit).dom() =~= Set::<Seq<char>>::empty()
            }
            &&& open.constraints matches Some(given) ==> {
                &&& given.allowed_fields.len() == 0 ==> constraints_allowed(imposed) is None
                &&& given.allowed_fields.len() > 0 ==> constraints_allowed(imposed) == Some(
                    given.allowed_fields,
                )
                &&& given.size_limit is None ==> {
                    &&& limit_whole_stream(limit) == 0xffff_ffff_ffff_ffff
                    &&& limit_per_field(limit) == 0xffff_ffff_ffff_ffff
                    &&& limit_by_name(limit).dom() =~= Set::<Seq<char>>::empty()
                }
                &&& given.size_limit matches Some(config) ==> {
                    &&& config.whole_stream matches Some(n) ==> limit_whole_stream(limit) == n
                    &&& config.whole_stream is None ==> limit_whole_stream(limit)
                        == 0xffff_ffff_ffff_ffff
                    &&& config.per_field matches Some(n) ==> limit_per_field(limit) == n
                    &&& config.per_field is None ==> limit_per_field(limit)
                        == 0xffff_ffff_ffff_ffff
                    &&& limit_by_name(limit) == config.fields
                }
            }
        },
{
}

/// A field that `multer` finds reaches the caller with all that `multer` reports
/// of it: name, file name, content type and every header.
pub proof fn law_next_field_is_what_multer_reports(parser: ParserView, field: Field<'static>)
    requires
        parser.phase is Reading,
    ensures
        next_field_step(parser, Ok(Some(field))).0 == parser,
        next_field_step(parser, Ok(Some(field))).1 matches Ok(Some(found)) && {
            &&& found.name == field_name_of(field)
            &&& found.filename == field_file_name_of(field)
            &&& found.content_type == field_content_type_of(field)
            &&& found.source == Some(field)
            &&& found.headers.len() == field_headers_of(field).len()
            &&& forall|i: int|
                0 <= i < found.headers.len() ==> (#[trigger] found.headers[i]).0 == lossy_text(
                    field_headers_of(field)[i].0,
                ) && found.headers[i].1 == lossy_text(field_headers_of(field)[i].1)
        },
{
}

/// There is no field exactly if `multer` says so or said so before; a parser ends
/// only in this way.
pub proof fn law_no_field_only_at_the_end(
    parser: ParserView,
    outcome: Result<Option<Field<'static>>, multer::Error>,
)
    ensures
        (next_field_step(parser, outcome).1 matches Ok(None)) <==> (parser.phase is Exhausted || (
        parser.phase is Reading && outcome matches Ok(None))),
        next_field_step(parser, outcome).0.phase is Exhausted <==> (
        next_field_step(parser, outcome).1 matches Ok(None)),
        !(next_field_step(parser, outcome).1 matches Ok(None))
            ==> next_field_step(parser, outcome).0 == parser,
{
}

/// Asking for a field fails exactly if the input is still open or `multer`
/// failed, and the exception says which, with the whole text of the error.
pub proof fn law_field_errors_reach_the_caller(
    parser: ParserView,
    outcome: Result<Option<Field<'static>>, multer::Error>,
)
    ensures
        parser.phase is Feeding ==> next_field_step(parser, outcome).1 == Err::<
            Option<FieldView>,
            ExceptionView,
        >(ExceptionView::Runtime("Parser not initialized. Call close() first."@)),
        parser.phase is Reading ==> (outcome matches Err(error) ==> next_field_step(
            parser,
            outcome,
        ).1 == Err::<Option<FieldView>, ExceptionView>(
            ExceptionView::Runtime(multer_error_text(error)),
        )),
        next_field_step(parser, outcome).1 is Err <==> (parser.phase is Feeding || (
        parser.phase is Reading && outcome is Err)),
{
}

/// The answers of a parser show as they are.
pub proof fn law_answers_show_as_they_are(
    fed: Result<usize, Exception>,
    closed: Result<bool, Exception>,
    asked: Result<Option<MultipartField>, Exception>,
)
    ensures
        match fed {
            Ok(n) => feed_view(fed) == Ok::<nat, ExceptionView>(n as nat),
            Err(exception) => feed_view(fed) == Err::<nat, ExceptionView>(exception@),
        },
        match closed {
            Ok(done) => close_view(closed) == Ok::<bool, ExceptionView>(done),
            Err(exception) => close_view(closed) == Err::<bool, ExceptionView>(exception@),
        },
        match asked {
            Ok(Some(field)) => field_answer_view(asked) == Ok::<Option<FieldView>, ExceptionView>(
                Some(field@),
            ),
            Ok(None) => field_answer_view(asked) == Ok::<Option<FieldView>, ExceptionView>(None),
            Err(exception) => field_answer_view(asked) == Err::<Option<FieldView>, ExceptionView>(
                exception@,
            ),
        },
{
}

/// Joining two runs of chunks joins their bytes, and one chunk alone gives its
/// own bytes: no byte is lost, added or moved.
pub proof fn law_joining_keeps_every_byte(
    first: Seq<Seq<u8>>,
    second: Seq<Seq<u8>>,
    chunk: Seq<u8>,
)
    ensures
        joined(first + second) == joined(first) + joined(second),
        joined(seq![chunk]) == chunk,
{
    lemma_joined_concat(first, second);
    let one = seq![chunk];
    assert(one.drop_last() =~= Seq::<Seq<u8>>::empty());
    assert(joined(one.drop_last()) =~= Seq::<u8>::empty());
    assert(joined(one) =~= chunk);
}

} // verus!

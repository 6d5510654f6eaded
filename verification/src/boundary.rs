//! The boundary in a Content-Type header.

use vstd::prelude::*;

use crate::exception::{Exception, ExceptionView};
use crate::outside::{boundary_in, error_text, find_boundary, multer_error_text};
use crate::text::opt_text;

verus! {

/// What the caller gets for what `multer` found in a header: the boundary, or a
/// `ValueError` that says what is wrong with the header.
pub open spec fn boundary_step(
    found: Result<Seq<char>, multer::Error>,
) -> Result<Option<Seq<char>>, ExceptionView> {
    match found {
        Ok(boundary) => Ok(Some(boundary)),
        Err(error) => Err(ExceptionView::Value(multer_error_text(error))),
    }
}

/// The text of what `multer` found.
pub open spec fn found_view(
    found: Result<String, multer::Error>,
) -> Result<Seq<char>, multer::Error> {
    match found {
        Ok(boundary) => Ok(boundary@),
        Err(error) => Err(error),
    }
}

/// The boundary or the exception that the caller gets.
pub open spec fn boundary_view(
    answer: Result<Option<String>, Exception>,
) -> Result<Option<Seq<char>>, ExceptionView> {
    match answer {
        Ok(boundary) => Ok(opt_text(boundary)),
        Err(exception) => Err(exception@),
    }
}

/// The boundary, if `multer` found one, and else a `ValueError`.
pub fn boundary_answer(
    found: Result<String, multer::Error>,
) -> (answer: Result<Option<String>, Exception>)
    ensures
        boundary_view(answer) == boundary_step(found_view(found)),
        match found {
            Ok(boundary) => answer matches Ok(Some(text)) && text@ == boundary@,
            Err(error) => answer matches Err(Exception::Value(message)) && message@
                == multer_error_text(error),
        },
{
    match found {
        Ok(boundary) => Ok(Some(boundary)),
        Err(error) => Err(Exception::Value(error_text(&error))),
    }
}

/// Finds the boundary in the Content-Type header of a multipart/form-data body.
/// A header that has none is answered with a `ValueError`; success always comes
/// with a boundary.
pub fn py_parse_boundary(header: &str) -> (answer: Result<Option<String>, Exception>)
    ensures
        boundary_view(answer) == boundary_step(boundary_in(header@)),
        match boundary_in(header@) {
            Ok(boundary) => answer matches Ok(Some(text)) && text@ == boundary,
            Err(error) => answer matches Err(Exception::Value(message)) && message@
                == multer_error_text(error),
        },
        answer is Ok <==> boundary_in(header@) is Ok,
        !(answer matches Ok(None)),
{
    boundary_answer(find_boundary(header))
}

/// A boundary that `multer` finds is the boundary that the caller gets, whole:
/// different boundaries are never answered alike.
pub proof fn law_boundary_is_passed_on_whole(
    found: Result<Seq<char>, multer::Error>,
    other: Result<Seq<char>, multer::Error>,
)
    ensures
        found matches Ok(boundary) ==> boundary_step(found) == Ok::<
            Option<Seq<char>>,
            ExceptionView,
        >(Some(boundary)),
        found is Ok && boundary_step(found) == boundary_step(other) ==> other == found,
{
}

/// A header in which `multer` finds no boundary is answered with a `ValueError`
/// that carries the whole text of its error, and only such a header is.
pub proof fn law_boundary_error_is_passed_on_whole(found: Result<Seq<char>, multer::Error>)
    ensures
        boundary_step(found) is Err <==> found is Err,
        found matches Err(error) ==> boundary_step(found) == Err::<
            Option<Seq<char>>,
            ExceptionView,
        >(ExceptionView::Value(multer_error_text(error))),
{
}

/// What the caller gets shows as it is.
pub proof fn law_boundary_answer_shows_as_it_is(answer: Result<Option<String>, Exception>)
    ensures
        match answer {
            Ok(Some(text)) => boundary_view(answer) == Ok::<Option<Seq<char>>, ExceptionView>(
                Some(text@),
            ),
            Ok(None) => boundary_view(answer) == Ok::<Option<Seq<char>>, ExceptionView>(None),
            Err(exception) => boundary_view(answer) == Err::<Option<Seq<char>>, ExceptionView>(
                exception@,
            ),
        },
{
}

} // verus!

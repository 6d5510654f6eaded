use pymulter::{boundary_answer, py_parse_boundary, Exception};

#[test]
fn the_boundary_of_a_form_is_found() {
    let header = "multipart/form-data; boundary=----WebKitFormBoundary7MA4YWxkTrZu0gW";
    assert_eq!(
        py_parse_boundary(header),
        Ok(Some("----WebKitFormBoundary7MA4YWxkTrZu0gW".to_string()))
    );
}

#[test]
fn a_header_of_another_type_is_a_value_error() {
    assert_eq!(
        py_parse_boundary("text/plain; boundary=ABC"),
        Err(Exception::Value("Content-Type is not multipart/form-data".to_string()))
    );
}

#[test]
fn a_header_without_boundary_is_a_value_error() {
    assert_eq!(
        py_parse_boundary("multipart/form-data"),
        Err(Exception::Value("multipart boundary not found in Content-Type".to_string()))
    );
}

#[test]
fn a_header_that_is_no_content_type_is_a_value_error() {
    assert_eq!(
        py_parse_boundary("boundary=ABC"),
        Err(Exception::Value("failed to decode Content-Type".to_string()))
    );
}

#[test]
fn what_was_found_is_passed_on() {
    assert_eq!(boundary_answer(Ok("x".to_string())), Ok(Some("x".to_string())));
    assert_eq!(
        boundary_answer(Err(multer::Error::IncompleteStream)),
        Err(Exception::Value("incomplete multipart stream".to_string()))
    );
}

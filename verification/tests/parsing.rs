use bytes::Bytes;
use futures::executor::block_on;
use pymulter::field::decode_headers;
use pymulter::parser::feed_answer;
use pymulter::{ConstraintWrapper, Exception, MultipartField, MultipartParser, SizeLimitWrapper};

const BODY: &[u8] = b"--XYZ\r\n\
Content-Disposition: form-data; name=\"title\"\r\n\
\r\n\
hello\r\n\
--XYZ\r\n\
Content-Disposition: form-data; name=\"file\"; filename=\"a.txt\"\r\n\
Content-Type: text/plain\r\n\
X-Note: caf\xc3\xa9 \xff\r\n\
\r\n\
line one\r\nline two\r\n\
--XYZ--\r\n";

fn runtime(message: &str) -> Exception {
    Exception::Runtime(message.to_string())
}

fn stop() -> Exception {
    Exception::StopAsyncIteration("No more chunks".to_string())
}

fn closed_parser(chunks: &[&[u8]], constraints: Option<ConstraintWrapper>) -> MultipartParser {
    let mut parser = MultipartParser::new("XYZ", constraints);
    for chunk in chunks {
        assert_eq!(parser.feed(chunk), Ok(chunk.len()));
    }
    assert_eq!(parser.close(), Ok(true));
    parser
}

fn ask(parser: &mut MultipartParser) -> Result<Option<MultipartField>, Exception> {
    let outcome = match parser.multipart() {
        Some(multipart) => block_on(multipart.next_field()),
        None => Ok(None),
    };
    parser.next_field(outcome)
}

fn read(field: &mut MultipartField) -> Result<Vec<u8>, Exception> {
    let outcome = match field.source() {
        Some(source) => block_on(source.chunk()),
        None => Ok(None),
    };
    field.next_chunk(outcome)
}

fn read_all(field: &mut MultipartField) -> Vec<u8> {
    let mut data = Vec::new();
    loop {
        match read(field) {
            Ok(chunk) => data.extend(chunk),
            Err(exception) => {
                assert_eq!(exception, stop());
                return data;
            }
        }
    }
}

fn contents(chunks: &[&[u8]]) -> Vec<(Option<String>, Vec<u8>)> {
    let mut parser = closed_parser(chunks, None);
    let mut fields = Vec::new();
    while let Some(mut field) = ask(&mut parser).unwrap() {
        let name = field.name().map(|s| s.to_string());
        fields.push((name, read_all(&mut field)));
    }
    fields
}

fn expected() -> Vec<(Option<String>, Vec<u8>)> {
    vec![
        (Some("title".to_string()), b"hello".to_vec()),
        (Some("file".to_string()), b"line one\r\nline two".to_vec()),
    ]
}

#[test]
fn a_body_is_split_into_its_fields() {
    assert_eq!(contents(&[BODY]), expected());
}

#[test]
fn chunks_are_read_in_the_order_in_which_they_were_fed() {
    assert_eq!(contents(&[&BODY[..10], &BODY[10..11], b"", &BODY[11..]]), expected());
    let bytes: Vec<&[u8]> = BODY.chunks(1).collect();
    assert_eq!(contents(&bytes), expected());
}

#[test]
fn the_metadata_of_a_field_is_that_of_its_headers() {
    let mut parser = closed_parser(&[BODY], None);
    let mut title = ask(&mut parser).unwrap().unwrap();
    assert_eq!(title.name(), Some("title"));
    assert_eq!(title.filename(), None);
    assert_eq!(title.content_type(), None);
    assert_eq!(
        title.headers(),
        vec![(
            "content-disposition".to_string(),
            "form-data; name=\"title\"".to_string()
        )]
    );
    assert_eq!(read_all(&mut title), b"hello".to_vec());
    assert_eq!(title.name(), Some("title"));
    let file = ask(&mut parser).unwrap().unwrap();
    assert_eq!(file.name(), Some("file"));
    assert_eq!(file.filename(), Some("a.txt"));
    assert_eq!(file.content_type(), Some("text/plain"));
    assert_eq!(file.headers().len(), 3);
    assert!(file
        .headers()
        .contains(&("x-note".to_string(), "caf\u{e9} \u{fffd}".to_string())));
}

#[test]
fn feeding_answers_the_number_of_bytes() {
    let mut parser = MultipartParser::new("XYZ", None);
    assert_eq!(parser.feed(b""), Ok(0));
    assert_eq!(parser.feed(b"abc"), Ok(3));
    assert_eq!(parser.feed(BODY), Ok(BODY.len()));
}

#[test]
fn a_closed_parser_refuses_input_and_a_second_close() {
    let mut parser = closed_parser(&[BODY], None);
    assert_eq!(parser.feed(b"more"), Err(runtime("Parser already closed")));
    assert_eq!(parser.close(), Err(runtime("Parser already closed")));
    let title = ask(&mut parser).unwrap().unwrap();
    assert_eq!(title.name(), Some("title"));
    assert_eq!(parser.feed(b"more"), Err(runtime("Parser already closed")));
    assert_eq!(parser.close(), Err(runtime("Parser already closed")));
}

#[test]
fn fields_before_close_are_an_error_and_change_nothing() {
    let mut parser = MultipartParser::new("XYZ", None);
    let message = "Parser not initialized. Call close() first.";
    assert_eq!(ask(&mut parser).err(), Some(runtime(message)));
    assert_eq!(parser.feed(BODY), Ok(BODY.len()));
    assert!(parser.multipart().is_none());
    assert_eq!(ask(&mut parser).err(), Some(runtime(message)));
    let refused = parser.next_field(Err(multer::Error::NoBoundary));
    assert_eq!(refused.err(), Some(runtime(message)));
    assert_eq!(parser.close(), Ok(true));
    assert_eq!(ask(&mut parser).unwrap().unwrap().name(), Some("title"));
}

#[test]
fn after_the_last_field_there_is_none_ever_after() {
    let mut parser = closed_parser(&[b"--XYZ--\r\n"], None);
    assert!(parser.multipart().is_some());
    assert!(ask(&mut parser).unwrap().is_none());
    assert!(parser.multipart().is_none());
    assert!(ask(&mut parser).unwrap().is_none());
    assert!(parser.next_field(Err(multer::Error::NoBoundary)).unwrap().is_none());
    assert_eq!(parser.feed(b"x"), Err(runtime("Parser already closed")));
    assert_eq!(parser.close(), Err(runtime("Parser already closed")));
}

#[test]
fn an_error_of_the_parse_is_passed_on_and_the_parser_can_be_asked_again() {
    let mut parser = closed_parser(&[b"no boundary here"], None);
    let message = "incomplete multipart stream";
    assert_eq!(ask(&mut parser).err(), Some(runtime(message)));
    assert!(parser.multipart().is_some());
    assert_eq!(ask(&mut parser).err(), Some(runtime(message)));
    assert!(parser.next_field(Ok(None)).unwrap().is_none());
    assert!(parser.multipart().is_none());
}

#[test]
fn an_unfinished_field_blocks_the_next_one_and_an_ended_field_does_not() {
    let mut parser = closed_parser(&[BODY], None);
    let mut title = ask(&mut parser).unwrap().unwrap();
    assert_eq!(
        ask(&mut parser).err(),
        Some(runtime("failed to lock multipart state"))
    );
    assert_eq!(read(&mut title), Ok(b"hello".to_vec()));
    assert_eq!(read(&mut title), Err(stop()));
    assert_eq!(ask(&mut parser).unwrap().unwrap().name(), Some("file"));
}

#[test]
fn reading_a_field_ends_with_stop_ever_after() {
    let mut parser = closed_parser(&[BODY], None);
    let mut title = ask(&mut parser).unwrap().unwrap();
    assert!(title.source().is_some());
    assert_eq!(title.next_chunk(Ok(Some(Bytes::from_static(b"abc")))), Ok(b"abc".to_vec()));
    assert_eq!(title.next_chunk(Ok(Some(Bytes::new()))), Ok(Vec::new()));
    assert_eq!(
        title.next_chunk(Err(multer::Error::IncompleteHeaders)),
        Err(runtime("failed to read field complete headers"))
    );
    assert!(title.source().is_some());
    assert_eq!(title.next_chunk(Ok(None)), Err(stop()));
    assert!(title.source().is_none());
    assert_eq!(title.next_chunk(Ok(Some(Bytes::from_static(b"late")))), Err(stop()));
    assert_eq!(title.next_chunk(Err(multer::Error::IncompleteHeaders)), Err(stop()));
    assert_eq!(title.name(), Some("title"));
}

#[test]
fn a_field_that_is_not_allowed_is_an_error() {
    let constraint = ConstraintWrapper::new(None, Some(vec![Some("title".to_string())])).unwrap();
    let mut parser = closed_parser(&[BODY], Some(constraint));
    let mut title = ask(&mut parser).unwrap().unwrap();
    assert_eq!(read_all(&mut title), b"hello".to_vec());
    assert_eq!(
        ask(&mut parser).err(),
        Some(runtime("unknown field received: \"file\""))
    );
}

#[test]
fn a_constraint_that_constrains_nothing_is_as_none() {
    let constraint = ConstraintWrapper::new(None, None).unwrap();
    let mut parser = closed_parser(&[BODY], Some(constraint));
    let mut title = ask(&mut parser).unwrap().unwrap();
    assert_eq!(read_all(&mut title), b"hello".to_vec());
    let mut file = ask(&mut parser).unwrap().unwrap();
    assert_eq!(read_all(&mut file), b"line one\r\nline two".to_vec());
    assert!(ask(&mut parser).unwrap().is_none());
}

#[test]
fn a_stream_over_its_limit_is_an_error() {
    let limits = SizeLimitWrapper::new(Some(20), None, None);
    let constraint = ConstraintWrapper::new(Some(limits), None).unwrap();
    let mut parser = closed_parser(&[BODY], Some(constraint));
    assert_eq!(
        ask(&mut parser).err(),
        Some(runtime("stream size exceeded limit: 20 bytes"))
    );
}

#[test]
fn a_field_over_its_limit_is_an_error() {
    let limits = SizeLimitWrapper::new(None, Some(4), None);
    let constraint = ConstraintWrapper::new(Some(limits), None).unwrap();
    let mut parser = closed_parser(&[BODY], Some(constraint));
    let mut title = ask(&mut parser).unwrap().unwrap();
    assert_eq!(
        read(&mut title),
        Err(runtime("field \"title\" exceeded the size limit: 4 bytes"))
    );
}

#[test]
fn the_limit_of_a_name_counts_before_the_general_one() {
    let named = Some(vec![(Some("title".to_string()), Some(5))]);
    let limits = SizeLimitWrapper::new(None, Some(4), named);
    let constraint = ConstraintWrapper::new(Some(limits), None).unwrap();
    let mut parser = closed_parser(&[BODY], Some(constraint));
    let mut title = ask(&mut parser).unwrap().unwrap();
    assert_eq!(read_all(&mut title), b"hello".to_vec());
    let mut file = ask(&mut parser).unwrap().unwrap();
    assert_eq!(
        read(&mut file),
        Err(runtime("field \"file\" exceeded the size limit: 4 bytes"))
    );
}

#[test]
fn a_chunk_that_was_not_sent_is_a_feed_error() {
    assert_eq!(feed_answer(Ok(()), 7), Ok(7));
    assert_eq!(
        feed_answer(Err("send failed because receiver is gone".to_string()), 7),
        Err(runtime("Feed error: send failed because receiver is gone"))
    );
}

#[test]
fn header_bytes_become_text_in_order() {
    let raw = vec![
        (b"a".to_vec(), b"caf\xc3\xa9".to_vec()),
        (b"b".to_vec(), b"x\xffy".to_vec()),
        (Vec::new(), Vec::new()),
    ];
    assert_eq!(
        decode_headers(&raw),
        vec![
            ("a".to_string(), "caf\u{e9}".to_string()),
            ("b".to_string(), "x\u{fffd}y".to_string()),
            (String::new(), String::new()),
        ]
    );
}

#[test]
fn chunks_read_to_the_end_are_the_content_in_order() {
    let mut parser = closed_parser(&[BODY], None);
    let mut title = ask(&mut parser).unwrap().unwrap();
    let mut data = Vec::new();
    let outcomes = vec![
        Ok(Some(Bytes::from_static(b"one "))),
        Ok(Some(Bytes::new())),
        Ok(Some(Bytes::from_static(b"two"))),
        Ok(None),
    ];
    let mut ends = 0;
    for outcome in outcomes {
        match title.next_chunk(outcome) {
            Ok(chunk) => data.extend(chunk),
            Err(exception) => {
                assert_eq!(exception, stop());
                ends += 1;
            }
        }
    }
    assert_eq!(data, b"one two".to_vec());
    assert_eq!(ends, 1);
    assert!(title.source().is_none());
}

#[test]
fn fields_asked_for_to_the_end_are_all_fields_in_order() {
    let mut parser = closed_parser(&[BODY], None);
    let mut names = Vec::new();
    let mut ends = 0;
    while ends < 2 {
        match ask(&mut parser).unwrap() {
            Some(field) => names.push(field.name().unwrap().to_string()),
            None => ends += 1,
        }
    }
    assert_eq!(names, vec!["title".to_string(), "file".to_string()]);
    assert!(parser.multipart().is_none());
}

use burngate::reader::{
    read_data, read_line, Cursor, DataReader, DataStep, LineReader, LineStep, ReadError,
};

// -- read_line (bounded) --

#[test]
fn read_line_normal() {
    let mut reader = Cursor::new(b"EHLO example.com\r\n".to_vec());
    let result = read_line(&mut reader, 1024).unwrap();
    assert_eq!(result, Some("EHLO example.com".to_string()));
}

#[test]
fn read_line_lf_only() {
    let mut reader = Cursor::new(b"QUIT\n".to_vec());
    let result = read_line(&mut reader, 1024).unwrap();
    assert_eq!(result, Some("QUIT".to_string()));
}

#[test]
fn read_line_eof_empty() {
    let mut reader = Cursor::new(b"".to_vec());
    let result = read_line(&mut reader, 1024).unwrap();
    assert_eq!(result, None);
}

#[test]
fn read_line_eof_with_partial_data() {
    let mut reader = Cursor::new(b"PARTIAL".to_vec());
    let result = read_line(&mut reader, 1024).unwrap();
    assert_eq!(result, Some("PARTIAL".to_string()));
}

#[test]
fn read_line_exceeds_limit() {
    // 10 bytes of 'A' without a newline, limit of 5
    let mut reader = Cursor::new(b"AAAAAAAAAA".to_vec());
    let result = read_line(&mut reader, 5);
    assert!(result.is_err());
    assert_eq!(result.unwrap_err(), ReadError::LineTooLong);
}

#[test]
fn read_line_exactly_at_limit() {
    // 5 bytes + newline, limit of 5: should succeed
    let mut reader = Cursor::new(b"ABCDE\n".to_vec());
    let result = read_line(&mut reader, 5).unwrap();
    assert_eq!(result, Some("ABCDE".to_string()));
}

#[test]
fn read_line_one_over_limit() {
    // 6 bytes without newline, limit of 5: should fail
    let mut reader = Cursor::new(b"ABCDEF\n".to_vec());
    let result = read_line(&mut reader, 5);
    assert!(result.is_err());
}

#[test]
fn read_line_multiple_lines() {
    let mut reader = Cursor::new(b"LINE1\r\nLINE2\r\n".to_vec());

    let r1 = read_line(&mut reader, 1024).unwrap();
    assert_eq!(r1, Some("LINE1".to_string()));

    let r2 = read_line(&mut reader, 1024).unwrap();
    assert_eq!(r2, Some("LINE2".to_string()));

    let r3 = read_line(&mut reader, 1024).unwrap();
    assert_eq!(r3, None);
}

#[test]
fn read_line_keeps_inner_carriage_return() {
    let mut reader = Cursor::new(b"A\rB\r\r\n".to_vec());
    let result = read_line(&mut reader, 1024).unwrap();
    assert_eq!(result, Some("A\rB\r".to_string()));
}

#[test]
fn read_line_replaces_malformed_utf8() {
    let mut reader = Cursor::new(vec![b'a', 0xff, b'b', b'\n']);
    let result = read_line(&mut reader, 1024).unwrap();
    assert_eq!(result, Some("a\u{fffd}b".to_string()));
}

#[test]
fn read_line_decodes_utf8() {
    let mut reader = Cursor::new("gr\u{fc}\u{df}e\r\n".as_bytes().to_vec());
    let result = read_line(&mut reader, 1024).unwrap();
    assert_eq!(result, Some("gr\u{fc}\u{df}e".to_string()));
}

#[test]
fn read_line_limit_counts_the_carriage_return() {
    let mut reader = Cursor::new(b"ABCDE\r\n".to_vec());
    assert_eq!(read_line(&mut reader, 5), Err(ReadError::LineTooLong));
    let mut reader = Cursor::new(b"ABCDE\r\n".to_vec());
    assert_eq!(read_line(&mut reader, 6), Ok(Some("ABCDE".to_string())));
}

#[test]
fn line_reader_takes_bytes_one_by_one() {
    let mut lines = LineReader::new(3);
    assert_eq!(lines.push(b'a'), LineStep::More);
    assert_eq!(lines.push(b'b'), LineStep::More);
    assert_eq!(lines.push(b'\r'), LineStep::More);
    assert_eq!(lines.push(b'\n'), LineStep::Line(b"ab".to_vec()));
    assert_eq!(lines.push(b'\n'), LineStep::Line(Vec::new()));
    assert_eq!(lines.finish(), None);
}

#[test]
fn line_reader_refuses_the_byte_over_the_limit() {
    let mut lines = LineReader::new(2);
    assert_eq!(lines.push(b'a'), LineStep::More);
    assert_eq!(lines.push(b'b'), LineStep::More);
    assert_eq!(lines.push(b'c'), LineStep::TooLong);
    assert_eq!(lines.push(b'd'), LineStep::More);
    assert_eq!(lines.finish(), Some(b"d".to_vec()));
}

#[test]
fn line_reader_with_zero_limit_takes_empty_lines_only() {
    let mut lines = LineReader::new(0);
    assert_eq!(lines.push(b'\n'), LineStep::Line(Vec::new()));
    assert_eq!(lines.push(b'x'), LineStep::TooLong);
}

// -- read_data (no dot-unstuffing, raw wire format) --

#[test]
fn read_data_simple_message() {
    let mut reader = Cursor::new(b"Subject: test\r\n\r\nHello world\r\n.\r\n".to_vec());
    let data = read_data(&mut reader, 10_000).unwrap();
    assert_eq!(data, b"Subject: test\r\n\r\nHello world\r\n");
}

#[test]
fn read_data_preserves_dot_stuffing() {
    // ".." lines should be passed through raw (no unstuffing)
    let mut reader = Cursor::new(b"..leading dot\r\n.\r\n".to_vec());
    let data = read_data(&mut reader, 10_000).unwrap();
    // Raw wire format: the ".." is preserved
    assert_eq!(data, b"..leading dot\r\n");
}

#[test]
fn read_data_dot_only_terminates() {
    let mut reader = Cursor::new(b"line1\r\n.\r\n".to_vec());
    let data = read_data(&mut reader, 10_000).unwrap();
    assert_eq!(data, b"line1\r\n");
}

#[test]
fn read_data_dot_lf_terminates() {
    // Lone "." with just LF (no CR)
    let mut reader = Cursor::new(b"line1\n.\n".to_vec());
    let data = read_data(&mut reader, 10_000).unwrap();
    assert_eq!(data, b"line1\n");
}

#[test]
fn read_data_exceeds_max_size() {
    // 100 bytes of data, max_size of 10
    let mut input = Vec::new();
    for _ in 0..20 {
        input.extend_from_slice(b"AAAAA\r\n");
    }
    input.extend_from_slice(b".\r\n");
    let mut reader = Cursor::new(input);
    let result = read_data(&mut reader, 10);
    assert!(result.is_err());
    assert_eq!(result.unwrap_err(), ReadError::MessageTooLarge);
}

#[test]
fn read_data_eof_before_terminator() {
    let mut reader = Cursor::new(b"line1\r\nline2\r\n".to_vec());
    let result = read_data(&mut reader, 10_000);
    assert!(result.is_err());
    assert_eq!(result.unwrap_err(), ReadError::UnexpectedEof);
}

#[test]
fn read_data_empty_message() {
    // Just a terminator, no body
    let mut reader = Cursor::new(b".\r\n".to_vec());
    let data = read_data(&mut reader, 10_000).unwrap();
    assert!(data.is_empty());
}

#[test]
fn read_data_dot_in_middle_of_line_not_terminator() {
    // A line with "." in it but not alone
    let mut reader = Cursor::new(b".not-a-terminator\r\n.\r\n".to_vec());
    let data = read_data(&mut reader, 10_000).unwrap();
    // ".not-a-terminator" is not a lone ".", so it's included in data
    assert_eq!(data, b".not-a-terminator\r\n");
}

#[test]
fn read_data_exactly_at_max_size() {
    let mut reader = Cursor::new(b"12345678\r\n.\r\n".to_vec());
    assert_eq!(read_data(&mut reader, 10), Ok(b"12345678\r\n".to_vec()));
    let mut reader = Cursor::new(b"12345678\r\n.\r\n".to_vec());
    assert_eq!(read_data(&mut reader, 9), Err(ReadError::MessageTooLarge));
}

#[test]
fn read_data_leaves_what_follows_the_terminator() {
    let mut reader = Cursor::new(b"hi\r\n.\r\nQUIT\r\n".to_vec());
    assert_eq!(read_data(&mut reader, 100), Ok(b"hi\r\n".to_vec()));
    assert_eq!(read_line(&mut reader, 100), Ok(Some("QUIT".to_string())));
    assert_eq!(read_line(&mut reader, 100), Ok(None));
}

#[test]
fn read_data_lone_dot_at_end_of_stream_terminates() {
    let mut reader = Cursor::new(b"x\r\n.".to_vec());
    assert_eq!(read_data(&mut reader, 100), Ok(b"x\r\n".to_vec()));
}

#[test]
fn read_data_dot_with_carriage_return_only_is_content() {
    let mut reader = Cursor::new(b".\r".to_vec());
    assert_eq!(read_data(&mut reader, 100), Err(ReadError::UnexpectedEof));
}

#[test]
fn data_reader_takes_chunks() {
    let mut body = DataReader::new(8);
    assert_eq!(body.push_chunk(b"abc\r\n"), DataStep::More);
    assert_eq!(body.push_chunk(b"..\n"), DataStep::More);
    assert_eq!(body.push_chunk(b"x"), DataStep::TooLarge);
    assert_eq!(body.push_chunk(b".\r\n"), DataStep::Done(b"abc\r\n..\n".to_vec()));
    assert_eq!(body.push_chunk(b""), DataStep::Truncated);
}

#[test]
fn cursor_hands_out_bytes_and_chunks() {
    let mut reader = Cursor::new(b"ab\ncd".to_vec());
    assert_eq!(reader.remaining(), 5);
    assert_eq!(reader.next_byte(), Some(b'a'));
    assert_eq!(reader.next_chunk(), b"b\n".to_vec());
    assert_eq!(reader.next_chunk(), b"cd".to_vec());
    assert_eq!(reader.next_chunk(), Vec::<u8>::new());
    assert_eq!(reader.next_byte(), None);
    assert_eq!(reader.remaining(), 0);
}

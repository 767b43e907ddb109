use cliant::headers::{
    filename_from_capture, parse_content_disposition, parse_content_length, range_header,
};

#[test]
fn content_length_reads_decimal_numbers() {
    assert_eq!(parse_content_length("1234"), Some(1234));
    assert_eq!(parse_content_length("  1048576\t"), Some(1_048_576));
    assert_eq!(parse_content_length("+5"), Some(5));
    assert_eq!(parse_content_length("0"), Some(0));
    assert_eq!(parse_content_length("007"), Some(7));
    assert_eq!(parse_content_length(&usize::MAX.to_string()), Some(usize::MAX));
}

#[test]
fn content_length_that_is_no_number_counts_as_absent() {
    for bad in ["", " ", "abc", "12a", "-1", "+", "1 2", "1.5", "0x10", "99999999999999999999999999"] {
        assert_eq!(parse_content_length(bad), None);
    }
}

#[test]
fn content_length_agrees_with_the_standard_parser() {
    for text in ["42", " 42 ", "+42", "++42", "4 2", "", "18446744073709551615", "18446744073709551616", "\u{a0}9\u{3000}"] {
        assert_eq!(parse_content_length(text), text.trim().parse::<usize>().ok());
    }
}

#[test]
fn content_disposition_quoted_and_unquoted() {
    assert_eq!(
        parse_content_disposition("attachment; filename=\"download_file.mp4\""),
        Some("download_file.mp4".to_string())
    );
    assert_eq!(
        parse_content_disposition("attachment; filename=archive.zip"),
        Some("archive.zip".to_string())
    );
    assert_eq!(
        parse_content_disposition("attachment; filename=\"a b.txt\"; size=3"),
        Some("a b.txt".to_string())
    );
    assert_eq!(parse_content_disposition("inline"), None);
    assert_eq!(parse_content_disposition(""), None);
}

#[test]
fn content_disposition_percent_encoded_utf8() {
    assert_eq!(
        parse_content_disposition("attachment; filename*=UTF-8''na%C3%AFve%20file.txt"),
        Some("na\u{ef}ve file.txt".to_string())
    );
}

#[test]
fn a_captured_name_loses_quotes_and_encoding() {
    assert_eq!(filename_from_capture("\"x.bin\""), "x.bin");
    assert_eq!(filename_from_capture("\"\"x.bin\""), "x.bin");
    assert_eq!(filename_from_capture("x%20y.bin"), "x%20y.bin");
    assert_eq!(filename_from_capture("UTF-8''x%20y.bin"), "x y.bin");
    assert_eq!(filename_from_capture("\"UTF-8''%E2%82%AC.txt\""), "\u{20ac}.txt");
    assert_eq!(filename_from_capture("UTF-8''%FF"), "\u{fffd}");
    assert_eq!(filename_from_capture(""), "");
}

#[test]
fn a_range_is_asked_for_by_its_ends() {
    assert_eq!(range_header([0, 2047]), "bytes=0-2047");
    assert_eq!(range_header([524_288, 1_048_575]), "bytes=524288-1048575");
    assert_eq!(range_header([7, 7]), "bytes=7-7");
}

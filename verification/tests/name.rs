use cliant::name::{
    carries_extension, collect_head, decimal_text, get_extension, make_safe, path_last_segment, segment_of_url,
    sniff_range, DownloadName,
};

const ZIP: &[u8] = b"PK\x03\x04\x14\x00\x00\x00\x08\x00\x00\x00\x00\x00\x00\x00\x00\x00\x00\x00\x00\x00\x00\x00\x00\x00\x00\x00";
const JPEG: &[u8] = b"\xFF\xD8\xFF\xE0\x00\x10JFIF\x00\x01\x01\x00\x00\x01\x00\x01\x00\x00";

#[test]
fn test_infer_file_ext_zip() {
    assert_eq!(get_extension(&ZIP.to_vec()), Some("zip".to_string()));
}

#[test]
fn the_kind_of_a_jpeg_is_known() {
    assert_eq!(get_extension(&JPEG.to_vec()), Some("jpg".to_string()));
    assert_eq!(get_extension(&b"plain words".to_vec()), None);
    assert_eq!(get_extension(&Vec::new()), None);
}

#[test]
fn the_name_from_the_server_comes_first() {
    let n = DownloadName::new(
        Some("download_file.mp4".to_string()),
        "https://example.com/other.bin".to_string(),
    );
    assert_eq!(n.known(), Some("download_file.mp4".to_string()));
    assert_eq!(n.resolve(Some("zip".to_string()), 9), "download_file.mp4");
    assert_eq!(n.get_or_parse(&ZIP.to_vec()), "download_file.mp4");
}

#[test]
fn a_url_segment_with_an_extension_is_taken() {
    let n = DownloadName::new(None, "http://ipv4.download.thinkbroadband.com/5MB.zip".to_string());
    assert_eq!(n.known(), Some("5MB.zip".to_string()));
    let n = DownloadName::new(None, "https://example.com/a/b/my%20file.tar.gz?x=1#frag".to_string());
    assert_eq!(n.known(), Some("my file.tar.gz".to_string()));
}

#[test]
fn a_url_segment_without_extension_gets_the_sniffed_one() {
    let n = DownloadName::new(None, "https://example.com/files/report".to_string());
    assert_eq!(n.known(), None);
    assert_eq!(n.resolve(Some("pdf".to_string()), 7), "report.pdf");
    assert_eq!(n.resolve(None, 7), "download");
    assert_eq!(n.get_or_parse(&ZIP.to_vec()), "report.zip");
    assert_eq!(n.get_or_parse(&b"nothing known".to_vec()), "download");
}

#[test]
fn without_a_segment_a_number_stands_in() {
    let n = DownloadName::new(None, "https://example.com/".to_string());
    assert_eq!(n.known(), None);
    assert_eq!(n.resolve(Some("zip".to_string()), 42), "42.zip");
    assert_eq!(n.resolve(Some("zip".to_string()), u32::MAX), "4294967295.zip");
    let name = n.get_or_parse(&JPEG.to_vec());
    assert!(name.ends_with(".jpg"));
    let stem = &name[..name.len() - 4];
    assert!(stem.parse::<u32>().is_ok());
}

#[test]
fn names_are_sanitized_and_never_empty() {
    let n = DownloadName::new(Some("../../etc/pass\u{7}wd?.txt".to_string()), "https://e.com/".to_string());
    assert_eq!(n.known(), Some("....etcpasswd.txt".to_string()));
    let n = DownloadName::new(Some("con".to_string()), "https://e.com/".to_string());
    assert_eq!(n.known(), Some("download".to_string()));
    let n = DownloadName::new(Some("".to_string()), "https://e.com/".to_string());
    assert_eq!(n.known(), Some("download".to_string()));
    assert_eq!(make_safe("a/b:c.txt"), "abc.txt");
    assert_eq!(make_safe(".."), "download");
    let long = "x".repeat(400);
    assert_eq!(make_safe(&long).len(), 255);
    for name in ["a/b:c.txt", "plain.bin", "..", "aux.txt", "tail. . ", "con ", "nul. ", "a\\b", &long] {
        let once = make_safe(name);
        assert_eq!(make_safe(&once), once);
        assert!(!once.is_empty());
        assert!(!once.chars().any(|c| "/\\?<>:*|\"".contains(c) || c.is_control()));
    }
    assert_eq!(make_safe("con "), "download");
    assert_eq!(make_safe("tail. . "), "tail");
}

#[test]
fn a_zip_header_with_a_huge_first_entry_is_still_looked_at_where_it_fits() {
    let mut buf = ZIP.to_vec();
    buf.resize(64, 0);
    buf[18..22].copy_from_slice(&[0xff, 0xff, 0xff, 0x00]);
    buf[30..49].copy_from_slice(b"[Content_Types].xml");
    let expected = if usize::MAX as u64 >= 0x00ff_ffff + 25_000 { Some("zip".to_string()) } else { None };
    assert_eq!(get_extension(&buf), expected);
}

#[test]
fn a_url_that_does_not_parse_has_no_segment() {
    let n = DownloadName::new(None, "not a url".to_string());
    assert_eq!(n.known(), None);
    assert_eq!(n.resolve(Some("gz".to_string()), 3), "3.gz");
    assert_eq!(segment_of_url("not a url"), None);
    assert_eq!(segment_of_url("data:text/plain,Hello"), None);
    assert_eq!(segment_of_url("https://example.com/x/%E2%82%AC.txt"), Some("\u{20ac}.txt".to_string()));
    assert_eq!(segment_of_url("https://example.com/x/"), None);
}

#[test]
fn the_last_segment_follows_the_last_slash() {
    assert_eq!(path_last_segment("/a/b/c.txt"), Some("c.txt".to_string()));
    assert_eq!(path_last_segment("/"), Some("".to_string()));
    assert_eq!(path_last_segment("/a/"), Some("".to_string()));
    assert_eq!(path_last_segment("/a"), Some("a".to_string()));
    assert_eq!(path_last_segment("a/b"), None);
    assert_eq!(path_last_segment(""), None);
}

#[test]
fn numbers_are_written_in_decimal() {
    for n in [0u64, 7, 10, 99, 100, 4_294_967_295, u64::MAX] {
        assert_eq!(decimal_text(n), n.to_string());
    }
}

#[test]
fn the_head_of_a_body_is_collected_up_to_its_length() {
    assert_eq!(sniff_range(), [0, 2047]);
    let mut head = Vec::new();
    assert!(!collect_head(&mut head, &vec![1u8; 1000]));
    assert_eq!(head.len(), 1000);
    assert!(!collect_head(&mut head, &vec![2u8; 1047]));
    assert_eq!(head.len(), 2047);
    assert!(collect_head(&mut head, &vec![3u8, 4, 5]));
    assert_eq!(head.len(), 2048);
    assert_eq!(head[2047], 3);
    assert!(collect_head(&mut head, &vec![9u8; 10]));
    assert_eq!(head.len(), 2048);
}

#[test]
fn an_extension_follows_a_dot_that_is_not_in_front() {
    for name in [
        "a.txt", "archive.tar.gz", "a.", "x/y.z", "..a", "a..", "...", "dir.d/f.g", "a.b/", "a.b//",
        "a.b/.", "a.b/./", "dir.d/", "x/a.b/././/",
    ] {
        assert!(carries_extension(name));
        assert!(std::path::Path::new(name).extension().is_some());
    }
    for name in [
        "", "noext", ".bashrc", "..", ".", "dir.d/file", "x/..", "x/.hidden", "a.b/..", "/", "./",
        "/.", "a.b/c/", "a.b/.c/.",
    ] {
        assert!(!carries_extension(name));
        assert!(std::path::Path::new(name).extension().is_none());
    }
}

#[test]
fn a_segment_that_ends_in_a_separator_keeps_its_extension() {
    let n = DownloadName::new(None, "https://example.com/files/a.b%2F".to_string());
    assert_eq!(n.known(), Some("a.b".to_string()));
    let n = DownloadName::new(None, "https://example.com/files/dir.d%2F.".to_string());
    assert_eq!(n.known(), Some("dir.d".to_string()));
}

#[test]
fn a_skippable_frame_is_looked_at_where_its_length_fits() {
    let frame = vec![0x50u8, 0x2a, 0x4d, 0x18, 0xf8, 0xff, 0xff, 0xff];
    assert_eq!(get_extension(&frame), None);
    let mut zst = vec![0x5fu8, 0x2a, 0x4d, 0x18, 0x02, 0x00, 0x00, 0x00, 0xaa, 0xbb];
    zst.extend_from_slice(&[0x28, 0xb5, 0x2f, 0xfd, 0x00]);
    let expected = if usize::MAX as u64 >= 0x1_0000_0007 { Some("zst".to_string()) } else { None };
    assert_eq!(get_extension(&zst), expected);
}

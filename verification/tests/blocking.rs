use cliant::blocking::{
    add_part_bytes, check_name, check_part, extension_from_content_type, get_part, part_file_name,
    retry_request, split_parts, PartStatus,
};
use cliant::transport::RetryDecision;

#[test]
fn rows_follow_the_same_plan() {
    assert!(split_parts(0, 10, 1).is_empty());
    assert_eq!(split_parts(100, 10, 0), vec![vec![0, 99]]);
    assert_eq!(split_parts(100, 0, 1), vec![vec![0, 99]]);
    assert_eq!(split_parts(5 * 1024 * 1024, 10, 10), vec![vec![0, 5 * 1024 * 1024 - 1]]);
    let parts = split_parts(100 * 1024 * 1024, 5, 1);
    assert_eq!(parts.len(), 5);
    assert_eq!(parts[0], vec![0, 20 * 1024 * 1024 - 1]);
    assert_eq!(parts[4], vec![80 * 1024 * 1024, 100 * 1024 * 1024 - 1]);
    let wide = cliant::planner::split_parts(7_340_033, 3, 2);
    let rows = split_parts(7_340_033, 3, 2);
    assert_eq!(rows.len(), wide.len());
    for (row, range) in rows.iter().zip(wide.iter()) {
        assert_eq!(row, &vec![range[0] as u64, range[1] as u64]);
    }
}

#[test]
fn a_part_file_tells_what_became_of_the_part() {
    assert_eq!(check_part(false, 0, 100), PartStatus::Starting);
    assert_eq!(check_part(true, 100, 100), PartStatus::Completed(100));
    assert_eq!(check_part(true, 40, 100), PartStatus::Broken(40));
    assert_eq!(check_part(true, 0, 100), PartStatus::Starting);
    assert_eq!(check_part(true, 150, 100), PartStatus::Starting);
    assert_eq!(get_part(PartStatus::Starting, 10), Some(10));
    assert_eq!(get_part(PartStatus::Broken(40), 10), Some(40));
    assert_eq!(get_part(PartStatus::Completed(100), 10), None);
    assert_eq!(get_part(PartStatus::Started, 10), None);
}

#[test]
fn only_connection_errors_and_timeouts_are_tried_again() {
    assert_eq!(retry_request(1, 3, true), RetryDecision::Again);
    assert_eq!(retry_request(2, 3, true), RetryDecision::Again);
    assert_eq!(retry_request(3, 3, true), RetryDecision::Exhausted);
    assert_eq!(retry_request(1, 3, false), RetryDecision::Surface);
    assert_eq!(retry_request(0, 0, true), RetryDecision::Exhausted);
}

#[test]
fn part_files_are_numbered() {
    assert_eq!(part_file_name(0), "part_0.part");
    assert_eq!(part_file_name(17), "part_17.part");
    assert_eq!(add_part_bytes(5, 7), Some(12));
    assert_eq!(add_part_bytes(usize::MAX, 1), None);
}

#[test]
fn the_content_type_gives_an_extension() {
    assert_eq!(extension_from_content_type("video/mp4"), "mp4");
    assert_eq!(extension_from_content_type("application/\"zip\""), "zip");
    assert_eq!(extension_from_content_type("plain"), "plain");
    assert_eq!(extension_from_content_type("a/b/"), "");
}

#[test]
fn the_header_name_wins_over_a_made_name() {
    let header = Some("attachment; filename=\"movie.mp4\"".to_string());
    assert_eq!(check_name(header, Some("zip".to_string()), "video/mp4", 5), "movie.mp4");
    assert_eq!(check_name(None, Some("zip".to_string()), "video/mp4", 5), "5.zip");
    assert_eq!(check_name(None, None, "video/mp4", 5), "5.mp4");
    assert_eq!(check_name(Some("inline".to_string()), None, "text/html", 12), "12.html");
}

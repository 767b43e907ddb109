use cliant::coordinator::requests_for;
use cliant::errors::DomainError;
use cliant::journal::{journal_path, ProgressFile};

fn journal(total: usize) -> ProgressFile {
    ProgressFile::started_at(total, "My_video_file.mp4".to_string(), "2024-05-01T10:00:00+00:00".to_string())
}

#[test]
fn progress_file_test() {
    let total_size = 38560;
    let name = "My_video_file.mp4".to_string();
    let mut progress = ProgressFile::new(total_size, name);
    assert!(progress.add_chunk((34, 567)).is_ok());
    assert_eq!(progress.load_chunk(), &vec![(34, 567)]);
    assert_eq!(progress.total_size(), 38560);
    assert_eq!(progress.download_name(), "My_video_file.mp4");
    assert!(!progress.started_on().is_empty());
}

#[test]
fn add_chunk_merges_touching_and_overlapping_intervals() {
    let mut j = journal(100);
    j.add_chunk((0, 9)).unwrap();
    j.add_chunk((10, 19)).unwrap();
    assert_eq!(j.load_chunk(), &vec![(0, 19)]);
    j.add_chunk((30, 39)).unwrap();
    assert_eq!(j.load_chunk(), &vec![(0, 19), (30, 39)]);
    j.add_chunk((21, 28)).unwrap();
    assert_eq!(j.load_chunk(), &vec![(0, 19), (21, 28), (30, 39)]);
    j.add_chunk((20, 20)).unwrap();
    assert_eq!(j.load_chunk(), &vec![(0, 28), (30, 39)]);
    j.add_chunk((15, 34)).unwrap();
    assert_eq!(j.load_chunk(), &vec![(0, 39)]);
    j.add_chunk((5, 6)).unwrap();
    assert_eq!(j.load_chunk(), &vec![(0, 39)]);
    j.add_chunk((99, 99)).unwrap();
    assert_eq!(j.load_chunk(), &vec![(0, 39), (99, 99)]);
}

#[test]
fn add_chunk_in_any_order_gives_the_same_journal() {
    let ranges = [(40usize, 49usize), (0, 9), (20, 29), (10, 19), (30, 39)];
    let mut forward = journal(50);
    for r in ranges {
        forward.add_chunk(r).unwrap();
    }
    let mut backward = journal(50);
    for r in ranges.iter().rev() {
        backward.add_chunk(*r).unwrap();
    }
    assert_eq!(forward.load_chunk(), &vec![(0, 49)]);
    assert_eq!(forward.load_chunk(), backward.load_chunk());
    assert!(forward.is_finished());
}

#[test]
fn add_chunk_refuses_ranges_outside_the_download() {
    let mut j = journal(100);
    j.add_chunk((10, 20)).unwrap();
    assert!(matches!(j.add_chunk((50, 100)), Err(DomainError::ValidateError(_))));
    assert!(matches!(j.add_chunk((30, 29)), Err(DomainError::ValidateError(_))));
    assert_eq!(j.load_chunk(), &vec![(10, 20)]);
}

#[test]
fn no_two_intervals_touch_after_many_inserts() {
    let mut j = journal(1000);
    let mut x: usize = 7;
    for _ in 0..200 {
        x = (x * 31 + 17) % 1000;
        let hi = (x + (x % 13)).min(999);
        j.add_chunk((x, hi)).unwrap();
        let chunks = j.load_chunk();
        for i in 0..chunks.len() {
            assert!(chunks[i].0 <= chunks[i].1 && chunks[i].1 < 1000);
            if i + 1 < chunks.len() {
                assert!(chunks[i].1 + 1 < chunks[i + 1].0);
            }
        }
    }
}

#[test]
fn is_completed_wants_the_whole_range_in_one_interval() {
    let mut j = journal(100);
    j.add_chunk((0, 49)).unwrap();
    j.add_chunk((60, 79)).unwrap();
    assert!(j.is_completed(&[0, 49]));
    assert!(j.is_completed(&[10, 20]));
    assert!(j.is_completed(&[60, 79]));
    assert!(!j.is_completed(&[40, 60]));
    assert!(!j.is_completed(&[50, 59]));
    assert!(!j.is_completed(&[70, 90]));
    assert!(!j.is_finished());
}

#[test]
fn resume_after_one_part_requests_only_the_other() {
    let total = 1_048_576;
    let mut j = journal(total);
    j.add_chunk((0, 524_287)).unwrap();
    let plan = vec![[0, 524_287], [524_288, 1_048_575]];
    let todo = requests_for(&j, &plan);
    assert_eq!(todo, vec![[524_288, 1_048_575]]);
    assert_eq!(j.remaining(&plan), todo);
    j.add_chunk((524_288, 1_048_575)).unwrap();
    assert_eq!(j.load_chunk(), &vec![(0, 1_048_575)]);
    assert!(j.is_finished());
    assert!(requests_for(&j, &plan).is_empty());
}

#[test]
fn remaining_keeps_plan_order_and_refetches_partial_ranges() {
    let mut j = journal(100);
    j.add_chunk((20, 39)).unwrap();
    j.add_chunk((60, 70)).unwrap();
    let plan = vec![[0, 19], [20, 39], [40, 59], [60, 79], [80, 99]];
    assert_eq!(j.remaining(&plan), vec![[0, 19], [40, 59], [60, 79], [80, 99]]);
}

#[test]
fn from_parts_sorts_and_merges() {
    let j = ProgressFile::from_parts(
        "a.bin".to_string(),
        100,
        vec![(50, 60), (0, 9), (10, 19), (55, 70), (90, 99)],
        "then".to_string(),
    )
    .unwrap();
    assert_eq!(j.load_chunk(), &vec![(0, 19), (50, 70), (90, 99)]);
    assert_eq!(j.download_name(), "a.bin");
    assert_eq!(j.total_size(), 100);
    assert_eq!(j.started_on(), "then");
}

#[test]
fn from_parts_refuses_a_malformed_record() {
    let r = ProgressFile::from_parts("a".to_string(), 100, vec![(0, 9), (95, 100)], "t".to_string());
    assert!(matches!(r, Err(DomainError::ParseError(_))));
    let r = ProgressFile::from_parts("a".to_string(), 100, vec![(9, 0)], "t".to_string());
    assert!(matches!(r, Err(DomainError::ParseError(_))));
    let r = ProgressFile::from_parts("a".to_string(), 0, vec![(0, 0)], "t".to_string());
    assert!(matches!(r, Err(DomainError::ParseError(_))));
}

#[test]
fn a_journal_rebuilt_from_its_fields_is_the_same() {
    let mut j = journal(500);
    for r in [(400usize, 420usize), (0, 99), (100, 120), (300, 310)] {
        j.add_chunk(r).unwrap();
    }
    let loaded = ProgressFile::from_parts(
        j.download_name().clone(),
        j.total_size(),
        j.load_chunk().clone(),
        j.started_on().clone(),
    )
    .unwrap();
    assert_eq!(loaded.load_chunk(), j.load_chunk());
    assert_eq!(loaded.download_name(), j.download_name());
    assert_eq!(loaded.total_size(), j.total_size());
    assert_eq!(loaded.started_on(), j.started_on());
}

#[test]
fn an_empty_download_is_finished() {
    assert!(journal(0).is_finished());
    assert!(!journal(1).is_finished());
}

#[test]
fn the_journal_lies_beside_the_destination() {
    assert_eq!(journal_path("/tmp/movie.mp4"), "/tmp/movie.mp4.progress");
    assert_eq!(journal_path(""), ".progress");
}

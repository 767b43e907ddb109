use cliant::planner::{fixed_size_parts, generate_chunk, split_parts, split_ranges};

#[test]
fn test_split_parts_zero_file_size() {
    let parts = split_parts(0, 10, 1);
    assert!(parts.is_empty());
}

#[test]
fn test_split_parts_small_file_less_than_min_part() {
    let parts = split_parts(5 * 1024 * 1024, 10, 10);
    assert_eq!(parts, vec![[0, 5 * 1024 * 1024 - 1]]);
}

#[test]
fn test_split_parts_small_file_equal_to_min_part() {
    let parts = split_parts(10 * 1024 * 1024, 10, 10);
    assert_eq!(parts, vec![[0, 10 * 1024 * 1024 - 1]]);
}

#[test]
fn test_split_parts_min_split_part_mb_zero() {
    let parts = split_parts(100, 10, 0);
    assert_eq!(parts, vec![[0, 99]]);
}

#[test]
fn test_split_parts_more_concurrent_than_ideal() {
    let file_size = 10 * 1024 * 1024;
    let max_concurrent = 20;
    let min_split = 1;
    let parts = split_parts(file_size, max_concurrent, min_split);
    assert_eq!(parts.len(), 10);
    assert_eq!(parts[0], [0, 1 * 1024 * 1024 - 1]);
    assert_eq!(parts[9], [9 * 1024 * 1024, 10 * 1024 * 1024 - 1]);
}

#[test]
fn test_split_parts_fewer_concurrent_than_ideal() {
    let file_size = 100 * 1024 * 1024;
    let max_concurrent = 5;
    let min_split = 1;
    let parts = split_parts(file_size, max_concurrent, min_split);
    assert_eq!(parts.len(), 5);
    assert_eq!(parts[0], [0, 20 * 1024 * 1024 - 1]);
    assert_eq!(parts[4], [80 * 1024 * 1024, 100 * 1024 * 1024 - 1]);
}

#[test]
fn test_split_parts_single_part_due_to_max_concurrent() {
    let file_size = 100 * 1024 * 1024;
    let max_concurrent = 1;
    let min_split = 1;
    let parts = split_parts(file_size, max_concurrent, min_split);
    assert_eq!(parts.len(), 1);
    assert_eq!(parts[0], [0, 100 * 1024 * 1024 - 1]);
}

#[test]
fn split_parts_exact_multiple_gives_ten_equal_ranges() {
    let parts = split_parts(10 * 1024 * 1024, 10, 1);
    assert_eq!(parts.len(), 10);
    for (i, part) in parts.iter().enumerate() {
        assert_eq!(*part, [i * 1_048_576, (i + 1) * 1_048_576 - 1]);
    }
    assert_eq!(parts[1], [1_048_576, 2_097_151]);
    assert_eq!(parts[9], [9_437_184, 10_485_759]);
}

#[test]
fn split_parts_spreads_the_remainder_over_the_first_ranges() {
    let total = 3 * 1_048_576 + 2;
    let parts = split_parts(total, 3, 1);
    assert_eq!(
        parts,
        vec![[0, 1_048_576], [1_048_577, 2_097_153], [2_097_154, 3_145_729]]
    );
}

#[test]
fn split_parts_zero_concurrency_is_one_range() {
    assert_eq!(split_parts(5_000_000, 0, 1), vec![[0, 4_999_999]]);
}

#[test]
fn split_parts_huge_minimum_is_one_range() {
    assert_eq!(split_parts(77, 4, usize::MAX), vec![[0, 76]]);
}

#[test]
fn split_parts_tiles_the_download() {
    for total in [1usize, 2, 1_048_577, 7_340_033, 10_485_760, 33_554_431] {
        for max_parts in [1usize, 2, 3, 7, 64] {
            for min_mb in [0usize, 1, 2, 5] {
                let parts = split_parts(total, max_parts, min_mb);
                assert!(!parts.is_empty() && parts.len() <= max_parts);
                assert_eq!(parts[0][0], 0);
                assert_eq!(parts[parts.len() - 1][1], total - 1);
                for i in 0..parts.len() {
                    assert!(parts[i][0] <= parts[i][1]);
                    if i + 1 < parts.len() {
                        assert_eq!(parts[i + 1][0], parts[i][1] + 1);
                    }
                }
                assert_eq!(parts, split_parts(total, max_parts, min_mb));
            }
        }
    }
}

#[test]
fn generate_chunk_without_size_is_the_whole_download() {
    assert_eq!(generate_chunk(38_560, None), vec![[0, 38_559]]);
}

#[test]
fn generate_chunk_cuts_fixed_chunks() {
    assert_eq!(generate_chunk(10, Some(4)), vec![[0, 3], [4, 7], [8, 9]]);
    assert_eq!(generate_chunk(8, Some(4)), vec![[0, 3], [4, 7]]);
    assert_eq!(generate_chunk(3, Some(4)), vec![[0, 2]]);
    assert!(generate_chunk(0, Some(4)).is_empty());
    assert_eq!(generate_chunk(usize::MAX, Some(usize::MAX)), vec![[0, usize::MAX - 1]]);
}

#[test]
fn fixed_size_parts_uses_the_default_and_refuses_zero() {
    let parts = fixed_size_parts(300_000, None).unwrap();
    assert_eq!(parts, vec![[0, 131_071], [131_072, 262_143], [262_144, 299_999]]);
    assert_eq!(fixed_size_parts(10, Some(5)).unwrap(), vec![[0, 4], [5, 9]]);
    let err = fixed_size_parts(10, Some(0)).unwrap_err();
    assert!(matches!(err, cliant::errors::DomainError::ValidateError(_)));
}

#[test]
fn split_ranges_spreads_the_remainder() {
    assert_eq!(split_ranges(100, 3, 30), vec![[0, 33], [34, 66], [67, 99]]);
    assert_eq!(split_ranges(100, 3, 0), vec![[0, 99]]);
    assert_eq!(split_ranges(100, 10, 30), vec![[0, 33], [34, 66], [67, 99]]);
    assert_eq!(split_ranges(100, 2, 30), vec![[0, 49], [50, 99]]);
    assert_eq!(split_ranges(100, 3, 100), vec![[0, 99]]);
    assert_eq!(split_ranges(101, 3, 1), vec![[0, 33], [34, 67], [68, 100]]);
    assert!(split_ranges(0, 3, 30).is_empty());
}

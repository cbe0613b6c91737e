use algoprofile::catalog::{algorithm_summary, find_algorithm, same_text, two_sum_sample, AlgorithmKind};
use algoprofile::data_generation::{
    new_numeric_vector_with_size, new_numeric_vector_with_size_and_range, random_numeric,
};
use algoprofile::two_sum::{algo, algo_profile, RegularArgs};

fn args(nums: Vec<i64>, target: i64) -> RegularArgs {
    RegularArgs { nums, target }
}

#[test]
fn two_sum_sample_finds_first_pair() {
    let sample = two_sum_sample();
    assert_eq!(sample.nums, vec![2, 7, 11, 15]);
    assert_eq!(sample.target, 9);
    assert_eq!(algo(sample), vec![0, 1]);
}

#[test]
fn two_sum_no_pair_gives_empty() {
    assert_eq!(algo(args(vec![1, 2, 3], 100)), Vec::<i64>::new());
    assert_eq!(algo(args(vec![], 0)), Vec::<i64>::new());
    assert_eq!(algo(args(vec![5], 10)), Vec::<i64>::new());
}

#[test]
fn two_sum_equal_elements() {
    assert_eq!(algo(args(vec![3, 3], 6)), vec![0, 1]);
}

#[test]
fn two_sum_takes_latest_partner_of_first_completed_pair() {
    // index 2 is the first that completes a pair; its partners are 0 and 1, the last wins
    assert_eq!(algo(args(vec![1, 1, 5, 1, 5], 6)), vec![1, 2]);
}

#[test]
fn two_sum_negative_numbers() {
    assert_eq!(algo(args(vec![-1000, 4, 1000, -4], 0)), vec![0, 2]);
    assert_eq!(algo(args(vec![-5, -7, 3], -12)), vec![0, 1]);
}

#[test]
fn two_sum_answer_adds_up() {
    let nums = vec![8, -3, 14, 0, 6, 22, -9, 5];
    let target = 11;
    let r = algo(args(nums.clone(), target));
    assert_eq!(r.len(), 2);
    assert!(r[0] < r[1]);
    assert_eq!(nums[r[0] as usize] + nums[r[1] as usize], target);
    assert_eq!(r, vec![1, 2]);
}

#[test]
fn test_data_default_range() {
    let data = RegularArgs::new_test_data(0, 0, 0);
    assert_eq!(data.len(), 101);
    for (k, input) in data.iter().enumerate() {
        assert_eq!(input.nums.len(), k);
        assert!(input.nums.iter().all(|x| (-1000..=1000).contains(x)));
        assert!((0..=100).contains(&input.target));
    }
}

#[test]
fn test_data_custom_step() {
    let data = RegularArgs::new_test_data(5, 20, 5);
    let sizes: Vec<usize> = data.iter().map(|a| a.nums.len()).collect();
    assert_eq!(sizes, vec![5, 10, 15, 20]);
    let data = RegularArgs::new_test_data(1, 10, 4);
    let sizes: Vec<usize> = data.iter().map(|a| a.nums.len()).collect();
    assert_eq!(sizes, vec![1, 5, 9]);
}

#[test]
fn test_data_empty_range() {
    assert!(RegularArgs::new_test_data(10, 5, 1).is_empty());
    assert!(RegularArgs::new_test_data(3, 0, 0).is_empty());
}

#[test]
fn test_data_step_up_to_the_limit() {
    let data = RegularArgs::new_test_data(0, 10, i64::MAX);
    assert_eq!(data.len(), 1);
    assert!(data[0].nums.is_empty());
}

#[test]
fn profile_labels_follow_sizes() {
    let data = algo_profile(0, 0, 0);
    let labels: Vec<i64> = data.iter().map(|(n, _)| *n).collect();
    assert_eq!(labels, (0..=100).collect::<Vec<i64>>());
    let data = algo_profile(2, 11, 3);
    let labels: Vec<i64> = data.iter().map(|(n, _)| *n).collect();
    assert_eq!(labels, vec![2, 5, 8, 11]);
    assert!(algo_profile(7, 6, 1).is_empty());
}

#[test]
fn default_vector() {
    let v: Vec<i64> = new_numeric_vector_with_size(4);
    assert_eq!(v, vec![0, 0, 0, 0]);
    let s: Vec<String> = new_numeric_vector_with_size(2);
    assert_eq!(s, vec![String::new(), String::new()]);
    let e: Vec<i32> = new_numeric_vector_with_size(0);
    assert!(e.is_empty());
}

#[test]
fn random_vector_within_range() {
    let v = new_numeric_vector_with_size_and_range(200, -3, 3);
    assert_eq!(v.len(), 200);
    assert!(v.iter().all(|x| (-3..=3).contains(x)));
    let single = new_numeric_vector_with_size_and_range(5, 7, 7);
    assert_eq!(single, vec![7; 5]);
    let empty = new_numeric_vector_with_size_and_range(0, 9, 1);
    assert!(empty.is_empty());
}

#[test]
fn random_numeric_within_range() {
    assert_eq!(random_numeric(5, 5), 5);
    let draws: Vec<i64> = (0..50).map(|_| random_numeric(0, 1_000_000)).collect();
    assert!(draws.iter().all(|x| (0..=1_000_000).contains(x)));
    assert!(draws.iter().any(|x| *x != 0));
    assert!(draws.iter().any(|x| *x != 1_000_000));
}

#[test]
fn catalog_lookup() {
    assert_eq!(find_algorithm("two_sum"), Some(AlgorithmKind::TwoSum));
    assert_eq!(find_algorithm("two_sums"), None);
    assert_eq!(find_algorithm(""), None);
    assert_eq!(algorithm_summary("two_sum"), ("O(n)", "Find two numbers that sum to target"));
    assert_eq!(algorithm_summary("bubble_sort"), ("Unknown", "Algorithm"));
    assert!(same_text("héllo", "héllo"));
    assert!(!same_text("héllo", "hello"));
}

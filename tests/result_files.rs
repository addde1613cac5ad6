use ahc_tools::{file_name, filter_and_sort_result_files, is_result_file, name_lt};

#[test]
fn test_filter_result_files() {
    let file_path1 = "result_20210901_123456.json";
    let file_path2 = "pahcer/json/result_20210901_234567.json";
    let file_path3 = "unrelated.txt";

    let updated_files = vec![
        file_path1.to_string(),
        file_path2.to_string(),
        file_path3.to_string(),
    ];
    let expected = vec![updated_files[1].clone(), updated_files[0].clone()];

    let result_files = filter_and_sort_result_files(&updated_files);

    assert_eq!(result_files, expected);
}

#[test]
fn latest_of_two_staged_results_comes_first() {
    let files = vec![
        "result_20210901_123456.json".to_string(),
        "result_20210901_234567.json".to_string(),
    ];
    let sorted = filter_and_sort_result_files(&files);
    assert_eq!(sorted[0], "result_20210901_234567.json");
    assert_eq!(sorted.len(), 2);
}

#[test]
fn ordering_ignores_directories() {
    let files = vec![
        "z/result_20200101_000000.json".to_string(),
        "a/result_20240101_000000.json".to_string(),
        "m/result_20220101_000000.json".to_string(),
    ];
    let sorted = filter_and_sort_result_files(&files);
    assert_eq!(
        sorted,
        vec![
            "a/result_20240101_000000.json".to_string(),
            "m/result_20220101_000000.json".to_string(),
            "z/result_20200101_000000.json".to_string(),
        ]
    );
}

#[test]
fn no_result_files_gives_empty() {
    let files = vec!["a.txt".to_string(), "result.json".to_string()];
    assert!(filter_and_sort_result_files(&files).is_empty());
    assert!(filter_and_sort_result_files(&Vec::new()).is_empty());
}

#[test]
fn file_name_is_last_component() {
    assert_eq!(file_name("pahcer/json/result.json"), "result.json");
    assert_eq!(file_name("plain.txt"), "plain.txt");
    assert_eq!(file_name("dir/"), "");
    assert_eq!(file_name(""), "");
}

#[test]
fn result_pattern_needs_both_digit_groups() {
    assert!(is_result_file("result_20210901_123456.json"));
    assert!(is_result_file("out/result_20210901_123456.json"));
    assert!(!is_result_file("result_2021090_123456.json"));
    assert!(!is_result_file("result_20210901_12345.json"));
    assert!(!is_result_file("result_20210901_123456.jsn"));
    assert!(!is_result_file("result_20210901_123456xjson"));
    assert!(!is_result_file("result_20210901_123456.json/other.txt"));
}

#[test]
fn result_pattern_is_the_whole_name() {
    assert!(!is_result_file("old_result_20210901_123456.json.bak"));
    assert!(!is_result_file("old_result_20210901_123456.json"));
    assert!(!is_result_file("result_20210901_123456.json.bak"));
    assert!(!is_result_file("result_202109011_123456.json"));
    assert!(!is_result_file("result_20210901_123456.json\n"));
}

#[test]
fn prefixed_name_is_not_ranked() {
    let files = vec![
        "result_20210901_123456.json".to_string(),
        "zzz_result_20000101_000000.json".to_string(),
    ];
    assert_eq!(
        filter_and_sort_result_files(&files),
        vec!["result_20210901_123456.json".to_string()]
    );
}

#[test]
fn names_compare_by_code_points() {
    assert!(name_lt("result_20210901_123456.json", "result_20210901_234567.json"));
    assert!(!name_lt("b", "a"));
    assert!(!name_lt("a", "a"));
    assert!(name_lt("a", "ab"));
    assert!(!name_lt("ab", "a"));
    assert!(name_lt("", "a"));
}

#[test]
fn equal_names_keep_their_order() {
    let files = vec![
        "b/result_20210901_123456.json".to_string(),
        "result_20200101_000000.json".to_string(),
        "a/result_20210901_123456.json".to_string(),
    ];
    assert_eq!(
        filter_and_sort_result_files(&files),
        vec![
            "b/result_20210901_123456.json".to_string(),
            "a/result_20210901_123456.json".to_string(),
            "result_20200101_000000.json".to_string(),
        ]
    );
}

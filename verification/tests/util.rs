use std::path::PathBuf;
use whipseey_save_manager::util::file::trim_to_existing_dir;
use whipseey_save_manager::util::for_each_window_mut;

#[test]
fn for_each_window_mut_duplicate_new_lines() {
    let mut data = Vec::from(*b"line\n\nline\nline\n\nline\n");
    for_each_window_mut(&mut data, 2, |window: &Vec<u8>| {
        if window[..] == b"\n\n"[..] {
            Some(vec![b'\n', 0])
        } else {
            None
        }
    });
    assert_eq!(data, b"line\n\0line\nline\n\0line\n");
}

#[test]
fn for_each_window_mut_no_match_keeps_data() {
    let mut data = Vec::from(*b"abcdef");
    for_each_window_mut(&mut data, 3, |_window: &Vec<u8>| None);
    assert_eq!(data, b"abcdef");
}

#[test]
fn for_each_window_mut_short_slice_never_calls() {
    let mut data = Vec::from(*b"ab");
    for_each_window_mut(&mut data, 3, |_window: &Vec<u8>| Some(vec![0, 0, 0]));
    assert_eq!(data, b"ab");
}

#[test]
fn trim_to_existing_path_file_only() {
    let file_path = PathBuf::from("file.txt");
    let result_path = PathBuf::new();
    assert_eq!(
        trim_to_existing_dir(file_path.to_str().unwrap()),
        result_path.to_str().unwrap()
    );
}

#[test]
fn trim_to_existing_path_drops_an_existing_file_name() {
    // run from the crate root this names an existing file, which must lose
    // its last component; run from anywhere else nothing exists on the
    // path and it is trimmed away entirely, to the same empty result
    assert_eq!(trim_to_existing_dir("Cargo.toml"), "");
}

#[test]
fn trim_to_existing_path_invalid() {
    let mut test_path = PathBuf::from(r"\\?\");
    test_path.push("msk5JIu3ykdVQTI_WSM_TEST");
    test_path.push("gWqzCcfTQz56Fi8_WSM_TEST");
    test_path.push("xT8iG5h7k7j9LpC_WSM_TEST");
    let result_path = PathBuf::new();
    assert_eq!(
        trim_to_existing_dir(test_path.to_str().unwrap()),
        result_path.to_str().unwrap()
    );
}

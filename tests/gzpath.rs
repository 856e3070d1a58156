use procmon::gzpath::{
    compressed_file_name, decompressed_file_name, default_output_for_compress,
    default_output_for_decompress, output_path_for, same_path, sanitize_level,
};

#[test]
fn level_is_clamped() {
    assert_eq!(sanitize_level(0), 0);
    assert_eq!(sanitize_level(6), 6);
    assert_eq!(sanitize_level(9), 9);
    assert_eq!(sanitize_level(10), 9);
    assert_eq!(sanitize_level(u32::MAX), 9);
}

#[test]
fn compress_output_appends_gz() {
    assert_eq!(default_output_for_compress("dir/file.txt"), "dir/file.txt.gz");
    assert_eq!(default_output_for_compress("file"), "file.gz");
}

#[test]
fn decompress_output_strips_or_appends() {
    assert_eq!(default_output_for_decompress("dir/a.txt.gz"), "dir/a.txt");
    assert_eq!(default_output_for_decompress("a.bin"), "a.bin.out");
}

#[test]
fn names_from_file_name_argument() {
    assert_eq!(compressed_file_name(&Some("x".to_string()), "p/x"), "x.gz");
    assert_eq!(compressed_file_name(&None, ".."), "...gz");
    assert_eq!(decompressed_file_name(&Some("y.gz".to_string()), "p/y.gz"), "y");
    assert_eq!(decompressed_file_name(&Some("y.tar".to_string()), "y.tar"), "y.tar.out");
    assert_eq!(decompressed_file_name(&None, ".."), "...out");
}

#[test]
fn same_path_compares_components() {
    assert!(same_path("a/b", "a/b"));
    assert!(same_path("a//b", "a/b"));
    assert!(!same_path("a/b", "a/c"));
}

#[test]
fn output_path_prefers_the_given_one() {
    assert_eq!(output_path_for("d/x.gz", &Some("y".to_string()), true), "y");
    assert_eq!(output_path_for("d/x.gz", &None, true), "d/x");
    assert_eq!(output_path_for("d/x", &None, false), "d/x.gz");
}

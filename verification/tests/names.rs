//! Tests of the file-name transforms.

use flashimage::file_names::{
    display_name, generate_output_filename, get_xml_path, is_bin_file_name,
};

#[test]
fn bin_extension_becomes_xml() {
    assert_eq!(get_xml_path(b"cafd_00000794.bin"), b"cafd_00000794.xml".to_vec());
}

#[test]
fn extended_suffix_is_kept() {
    assert_eq!(
        get_xml_path(b"btld_00001234.bin.001_015_000"),
        b"btld_00001234.xml.001_015_000".to_vec()
    );
}

#[test]
fn name_without_bin_is_unchanged() {
    assert_eq!(get_xml_path(b"readme.txt"), b"readme.txt".to_vec());
}

#[test]
fn output_name_is_version_part_with_vr_suffix() {
    assert_eq!(
        generate_output_filename(b"swfl_00001234_001_015_000.bin"),
        Some(b"000.vr.bin".to_vec())
    );
}

#[test]
fn output_name_without_underscore_is_none() {
    assert_eq!(generate_output_filename(b"firmware.bin"), None);
}

#[test]
fn output_name_strips_only_a_final_bin() {
    assert_eq!(generate_output_filename(b"a_b"), Some(b"b.vr.bin".to_vec()));
}

#[test]
fn display_name_replaces_bin_dot() {
    assert_eq!(
        display_name(b"swfl_00001234.bin.159_010_001"),
        b"swfl_00001234_159_010_001".to_vec()
    );
}

#[test]
fn display_name_keeps_plain_bin() {
    assert_eq!(display_name(b"swfl.bin"), b"swfl.bin".to_vec());
}

#[test]
fn bin_marker_is_recognized() {
    assert!(is_bin_file_name(b"x.bin"));
    assert!(is_bin_file_name(b"x.bin.001"));
    assert!(!is_bin_file_name(b"x.xml"));
}

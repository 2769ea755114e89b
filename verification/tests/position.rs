//! Tests for the position mapper: 1-based header coordinates to the 0-based
//! coordinates editor clients expect.

use bsv_lang_server::get_column_nr;
use bsv_lang_server::get_line_nr;

#[test]
fn line_one_maps_to_zero() {
    assert_eq!(get_line_nr("Error: \"Top.bsv\", line 1, column 1: (P0005)"), Some(0));
}

#[test]
fn line_98_maps_to_97() {
    assert_eq!(get_line_nr("Error: \"Top.bsv\", line 98, column 3: (P0005)"), Some(97));
}

#[test]
fn column_3_maps_to_2() {
    assert_eq!(get_column_nr("Error: \"Top.bsv\", line 98, column 3: (P0005)"), Some(2));
}

#[test]
fn warning_headers_carry_positions_too() {
    let header = "Warning: \"Mid.bsv\", line 40, column 12: (G0023)";
    assert_eq!(get_line_nr(header), Some(39));
    assert_eq!(get_column_nr(header), Some(11));
}

#[test]
fn missing_line_marker_is_absent() {
    assert_eq!(get_line_nr("Error: \"Top.bsv\", column 3: (P0005)"), None);
}

#[test]
fn missing_column_marker_is_absent() {
    assert_eq!(get_column_nr("Error: \"Top.bsv\", line 98: (P0005)"), None);
}

#[test]
fn non_numeric_line_is_absent() {
    assert_eq!(get_line_nr("Error: \"Top.bsv\", line abc, column 3: (P0005)"), None);
}

#[test]
fn unterminated_line_field_is_absent() {
    assert_eq!(get_line_nr("Error: \"Top.bsv\", line 98"), None);
}

#[test]
fn zero_line_is_absent() {
    assert_eq!(get_line_nr("Error: \"Top.bsv\", line 0, column 3: (P0005)"), None);
}

#[test]
fn huge_line_is_absent() {
    assert_eq!(get_line_nr("Error: \"T.bsv\", line 99999999999999, column 3: (P0005)"), None);
}

#[test]
fn leading_plus_sign_parses() {
    assert_eq!(get_line_nr("Error: \"T.bsv\", line +98, column 3: (P0005)"), Some(97));
}

#[test]
fn empty_line_field_is_absent() {
    assert_eq!(get_line_nr("Error: \"T.bsv\", line , column 3: (P0005)"), None);
}

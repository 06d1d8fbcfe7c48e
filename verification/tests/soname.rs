//! Tests of the shared-library-name to object-name conversion.

use soda::soname::convert_soname_to_object_name;

fn conv(name: &str) -> String {
    String::from_utf8(convert_soname_to_object_name(name.as_bytes())).unwrap()
}

#[test]
fn lib_prefix_and_so_suffix_are_replaced() {
    assert_eq!(conv("libxyz.so"), "xyz.o");
}

#[test]
fn bare_so_suffix_is_replaced() {
    assert_eq!(conv("xyz.so"), "xyz.o");
}

#[test]
fn plain_name_gains_object_suffix() {
    assert_eq!(conv("xyz"), "xyz.o");
}

#[test]
fn versioned_soname_keeps_embedded_so() {
    // Only a trailing `.so` is recognized; `libfoo.so.1` does not end in
    // `.so`, so `.o` is appended and the `lib` prefix stays.
    assert_eq!(conv("libfoo.so.1"), "libfoo.so.1.o");
}

#[test]
fn case_is_ignored_for_prefix_and_suffix() {
    assert_eq!(conv("LIBX.SO"), "X.o");
    assert_eq!(conv("Libx.So"), "x.o");
}

#[test]
fn short_names_gain_object_suffix() {
    assert_eq!(conv(""), ".o");
    assert_eq!(conv("ab"), "ab.o");
    assert_eq!(conv(".so"), ".o");
    assert_eq!(conv("lib.so"), ".o");
}

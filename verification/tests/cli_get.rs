//! The limit on what `get` writes out.

use mdya::cli::get::format_mib;

#[test]
fn format_mib_renders_one_decimal() {
    assert_eq!(format_mib(1024 * 1024), "1.0 MiB");
    assert_eq!(format_mib(2_621_440), "2.5 MiB");
}

//! The memory guard.

use mdya::runtime::install;

#[test]
fn install_with_zero_limit_is_a_noop_and_spawns_no_thread() {
    install(0);
}

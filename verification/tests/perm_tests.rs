use lists::perms::{symbolic, symbolic_full};

#[test]
fn permission_decode_table() {
    assert_eq!("rwx", symbolic(7));
    assert_eq!("rw-", symbolic(6));
    assert_eq!("r-x", symbolic(5));
    assert_eq!("r--", symbolic(4));
    assert_eq!("-wx", symbolic(3));
    assert_eq!("-w-", symbolic(2));
    assert_eq!("--x", symbolic(1));
    assert_eq!("---", symbolic(0));
}

#[test]
fn full_permission_string_decodes_all_three_groups() {
    assert_eq!("rwxr-xr--", symbolic_full(0o754));
    assert_eq!("rw-r--r--", symbolic_full(0o644));
    assert_eq!("---------", symbolic_full(0));
    assert_eq!("rwxrwxrwx", symbolic_full(0o777));
}

#[test]
fn full_permission_string_ignores_high_bits() {
    assert_eq!(symbolic_full(0o644), symbolic_full(0o100644));
}

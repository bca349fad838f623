use rusty_gists::{size_and_align_of, strlen};

#[test]
fn strlen_counts_bytes() {
    let my_str = "a";
    let my_string = String::from("bc");
    let my_boxed_str = String::from("def").into_boxed_str();
    assert_eq!(strlen(my_str), 1);
    assert_eq!(strlen(my_string.as_str()), 2);
    assert_eq!(strlen(&my_boxed_str), 3);
}

#[test]
fn strlen_of_empty_string_is_zero() {
    assert_eq!(strlen(""), 0);
}

#[test]
fn size_and_align_of_primitives() {
    assert_eq!(size_and_align_of::<u8>(), (1, 1));
    assert_eq!(size_and_align_of::<u32>(), (4, 4));
    assert_eq!(size_and_align_of::<u64>(), (8, 8));
    assert_eq!(size_and_align_of::<char>(), (4, 4));
    assert_eq!(size_and_align_of::<[u8; 3]>(), (1, 3));
}

use hidpi::wide::{copy_length, to_wstring, wide_copy};

#[test]
fn ascii_text_is_terminated() {
    assert_eq!(to_wstring("ab"), vec![97, 98, 0]);
    assert_eq!(to_wstring(""), vec![0]);
}

#[test]
fn wide_text_uses_surrogate_pairs() {
    assert_eq!(to_wstring("\u{e9}"), vec![0xe9, 0]);
    assert_eq!(to_wstring("\u{1F600}x"), vec![0xD83D, 0xDE00, 0x78, 0]);
    assert_eq!(to_wstring("\u{FFFF}"), vec![0xFFFF, 0]);
    assert_eq!(to_wstring("\u{10000}"), vec![0xD800, 0xDC00, 0]);
}

#[test]
fn copy_length_leaves_room_for_the_terminator() {
    assert_eq!(copy_length(1, 5), 0);
    assert_eq!(copy_length(4, 5), 3);
    assert_eq!(copy_length(6, 5), 5);
    assert_eq!(copy_length(100, 5), 5);
}

#[test]
fn wide_copy_truncates_and_terminates() {
    assert_eq!(wide_copy(0, "abc"), (vec![], 0));
    assert_eq!(wide_copy(1, "abc"), (vec![0], 0));
    assert_eq!(wide_copy(3, "abc"), (vec![97, 98, 0], 2));
    assert_eq!(wide_copy(4, "abc"), (vec![97, 98, 99, 0], 3));
    assert_eq!(wide_copy(10, "abc"), (vec![97, 98, 99, 0], 3));
}

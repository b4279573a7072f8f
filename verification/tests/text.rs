use auth_core::text::chars_of;

#[test]
fn characters_in_order() {
    assert_eq!(chars_of("abc"), vec!['a', 'b', 'c']);
    assert_eq!(chars_of(""), Vec::<char>::new());
    assert_eq!(chars_of("é✓ x"), vec!['é', '✓', ' ', 'x']);
}

use metapak::utils::PasswordInput;

#[test]
fn test_password_input() {
    let mut pwd = PasswordInput::new();
    assert!(pwd.is_empty());

    pwd.push('a');
    pwd.push('b');
    pwd.push('c');

    assert_eq!(pwd.len(), 3);
    assert_eq!(pwd.expose_secret(), "abc");
    assert_eq!(pwd.masked(), "***█");

    pwd.pop();
    assert_eq!(pwd.len(), 2);
    assert_eq!(pwd.expose_secret(), "ab");

    pwd.clear();
    assert!(pwd.is_empty());
}

#[test]
fn test_password_input_from_string() {
    let pwd = PasswordInput::from_string("test123".to_string());
    assert_eq!(pwd.len(), 7);
    assert_eq!(pwd.masked(), "*******█");
}

use magicbot::osrelease::os_id_from_release;

#[test]
fn os_id_quoted_and_plain() {
    let text = "NAME=\"Fedora Linux\"\nVERSION_ID=40\nID=fedora\nID_LIKE=rhel\n";
    assert_eq!(os_id_from_release(text), Some("fedora".to_string()));
    let quoted = "NAME=\"Rocky Linux\"\r\nID=\"rocky\"\r\nVERSION_ID=\"9.3\"\r\n";
    assert_eq!(os_id_from_release(quoted), Some("rocky".to_string()));
}

#[test]
fn os_id_first_line_wins() {
    assert_eq!(os_id_from_release("ID= almalinux \nID=other"), Some("almalinux".to_string()));
}

#[test]
fn os_id_missing() {
    assert_eq!(os_id_from_release("NAME=x\nVERSION_ID=1\n"), None);
    assert_eq!(os_id_from_release(""), None);
    assert_eq!(os_id_from_release("XID=1"), None);
}

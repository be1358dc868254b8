use filemanager::fs::validators::validate_file_name;

#[test]
fn test_validate_file_name() {
    assert!(validate_file_name("valid_file.txt").is_ok());
    assert!(validate_file_name("file-name.doc").is_ok());

    assert!(validate_file_name("").is_err());
    assert!(validate_file_name("   ").is_err());
    assert!(validate_file_name("file<name>.txt").is_err());
    assert!(validate_file_name("file:name.txt").is_err());
    assert!(validate_file_name("CON").is_err());
    assert!(validate_file_name("con.txt").is_err());
    assert!(validate_file_name("file.").is_err());
    assert!(validate_file_name("file ").is_err());
}

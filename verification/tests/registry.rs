use task_nexus::registry::extract_path_from_command;

#[test]
fn test_extract_path() {
    assert_eq!(
        extract_path_from_command(r#""C:\Program Files\App\app.exe" --arg"#, &Vec::new()),
        r"C:\Program Files\App\app.exe"
    );
    assert_eq!(
        extract_path_from_command(r"C:\Windows\System32\cmd.exe /c", &Vec::new()),
        r"C:\Windows\System32\cmd.exe"
    );
}

#[test]
fn extract_path_prefers_existing_paths() {
    let existing = vec![r"C:\Program Files\App\app.exe".to_string()];
    // The whole command has arguments, but a space-cut prefix exists on disk.
    assert_eq!(
        extract_path_from_command(r"C:\Program Files\App\app.exe --arg --two", &existing),
        r"C:\Program Files\App\app.exe"
    );
    // The whole command itself exists.
    assert_eq!(
        extract_path_from_command(r"C:\Program Files\App\app.exe", &existing),
        r"C:\Program Files\App\app.exe"
    );
}

#[test]
fn extract_path_edge_forms() {
    // Installer command lines are skipped.
    assert_eq!(
        extract_path_from_command("MsiExec.exe /X{9A25-4AB}", &Vec::new()),
        ""
    );
    // No separator: the trimmed command comes back whole.
    assert_eq!(extract_path_from_command("  notepad  ", &Vec::new()), "notepad");
    // A quoted path is cut at the closing quote.
    assert_eq!(
        extract_path_from_command(r#"  "D:\tools\run.exe" "#, &Vec::new()),
        r"D:\tools\run.exe"
    );
    assert_eq!(extract_path_from_command("", &Vec::new()), "");
}

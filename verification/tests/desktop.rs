use liblis::desktop::parse_desktop_file;
use liblis::error::LisError;

fn missing_name() -> LisError {
    LisError::Format { detail: "No Name field found in .desktop file".to_string() }
}

#[test]
fn name_and_comment_are_read() {
    let text = "[Desktop Entry]\nName=MyApp\nComment=A tool\nExec=myapp\n";
    assert_eq!(parse_desktop_file(text), Ok(("MyApp".to_string(), "A tool".to_string())));
}

#[test]
fn an_entry_without_a_name_is_an_error() {
    let text = "[Desktop Entry]\nComment=A tool\nExec=myapp\n";
    assert_eq!(parse_desktop_file(text), Err(missing_name()));
    assert_eq!(parse_desktop_file(""), Err(missing_name()));
    assert_eq!(parse_desktop_file("\n\n"), Err(missing_name()));
}

#[test]
fn an_empty_name_is_an_error() {
    assert_eq!(parse_desktop_file("Name=\nComment=x\n"), Err(missing_name()));
    assert_eq!(parse_desktop_file("Name=   \nComment=x\n"), Err(missing_name()));
}

#[test]
fn the_first_occurrence_wins() {
    let text = "Name=First\nName=Second\nComment=One\nComment=Two\n";
    assert_eq!(parse_desktop_file(text), Ok(("First".to_string(), "One".to_string())));
    assert_eq!(parse_desktop_file("Name=\nName=Second\n"), Err(missing_name()));
}

#[test]
fn a_missing_comment_is_empty() {
    assert_eq!(parse_desktop_file("Name=Solo"), Ok(("Solo".to_string(), String::new())));
}

#[test]
fn lines_are_trimmed_before_they_are_read() {
    let text = "  Name=Padded App  \r\n\tComment= spaced \r\n";
    assert_eq!(parse_desktop_file(text), Ok(("Padded App".to_string(), " spaced".to_string())));
}

#[test]
fn only_the_exact_keys_count() {
    let text = "Name[es]=Nombre\nGenericName=Thing\nXName=No\nname=lower\nName=Real\n";
    assert_eq!(parse_desktop_file(text), Ok(("Real".to_string(), String::new())));
    let text2 = "Comment[de]=Nein\nName=App\nComment=Ja";
    assert_eq!(parse_desktop_file(text2), Ok(("App".to_string(), "Ja".to_string())));
}

#[test]
fn the_order_of_the_keys_does_not_matter() {
    let text = "Comment=Before\nName=After\n";
    assert_eq!(parse_desktop_file(text), Ok(("After".to_string(), "Before".to_string())));
}

#[test]
fn the_error_reads_as_text() {
    assert_eq!(missing_name().message(), "No Name field found in .desktop file");
}

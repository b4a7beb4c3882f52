use openkj_ticker::db::{read_current_singer_id, read_text_position, settings_files};

fn files(texts: &[Option<&str>]) -> Vec<Option<String>> {
    texts.iter().map(|t| t.map(|s| s.to_string())).collect()
}

#[test]
fn files_are_consulted_in_order() {
    assert_eq!(settings_files(), vec!["openkj.ini", "openkj2.ini", "openkj2-unstable.ini"]);
}

#[test]
fn position_is_found_under_a_section() {
    let text = "[General]\nautoPlayOnEnter=true\ncurrentRotationPosition=42\nother=7\n";
    assert_eq!(read_text_position(text), Some(42));
}

#[test]
fn key_and_value_are_trimmed_and_case_is_ignored() {
    assert_eq!(read_text_position("  CURRENTrotationPOSITION \t=  -3 \r\nx=1"), Some(-3));
    assert_eq!(read_text_position("currentRotationPosition = +5"), Some(5));
}

#[test]
fn value_runs_to_the_end_of_the_line() {
    assert_eq!(read_text_position("currentRotationPosition=1=2"), None);
    assert_eq!(read_text_position("currentRotationPosition"), None);
    assert_eq!(read_text_position("currentRotationPositions=1"), None);
    assert_eq!(read_text_position(""), None);
}

#[test]
fn unparsable_value_does_not_end_the_search() {
    let text = "currentRotationPosition=none\ncurrentRotationPosition=9\ncurrentRotationPosition=10";
    assert_eq!(read_text_position(text), Some(9));
    assert_eq!(read_text_position("currentRotationPosition=9223372036854775808"), None);
}

#[test]
fn first_file_with_a_position_wins() {
    let f = files(&[None, Some("currentRotationPosition=2"), Some("currentRotationPosition=3")]);
    assert_eq!(read_current_singer_id(&f), Some(2));
    let f = files(&[
        Some("currentRotationPosition=x"),
        Some("nothing"),
        Some("currentRotationPosition=3"),
    ]);
    assert_eq!(read_current_singer_id(&f), Some(3));
}

#[test]
fn no_readable_file_gives_no_position() {
    assert_eq!(read_current_singer_id(&files(&[None, None, None])), None);
    assert_eq!(read_current_singer_id(&Vec::new()), None);
}

#[test]
fn unreadable_file_is_skipped() {
    let with = files(&[Some("a=1"), None, Some("currentRotationPosition=3")]);
    let without = files(&[Some("a=1"), Some("currentRotationPosition=3")]);
    assert_eq!(read_current_singer_id(&with), read_current_singer_id(&without));
}

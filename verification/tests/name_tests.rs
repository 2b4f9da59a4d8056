use taking_turns::name::{validate_name, NameError};

#[test]
fn build_from_a_string() {
    let name = validate_name("Xavier").unwrap();
    assert_eq!(name.as_str(), "Xavier");
}

#[test]
fn trims_a_space_before() {
    let name = validate_name(" Xavier").unwrap();
    assert_eq!(name.as_str(), "Xavier");
}

#[test]
fn trims_a_space_after() {
    let name = validate_name("Xavier ").unwrap();
    assert_eq!(name.as_str(), "Xavier");
}

#[test]
fn trims_spaces_at_both_ends() {
    let name = validate_name(" Xavier ").unwrap();
    assert_eq!(name.as_str(), "Xavier");
}

#[test]
fn a_padded_name_equals_the_bare_name() {
    let padded = validate_name(" Xavier ").unwrap();
    let bare = validate_name("Xavier").unwrap();
    assert_eq!(padded, bare);
}

#[test]
fn cannot_be_fully_empty() {
    assert_eq!(validate_name(""), Err(NameError::EmptyName));
}

#[test]
fn cannot_be_a_single_space() {
    assert_eq!(validate_name(" "), Err(NameError::EmptyName));
}

#[test]
fn cannot_be_only_whitespace() {
    assert_eq!(validate_name(" \t\n "), Err(NameError::EmptyName));
}

#[test]
fn trims_other_whitespace_kinds() {
    let name = validate_name("\tMerve\n").unwrap();
    assert_eq!(name.as_str(), "Merve");
}

#[test]
fn keeps_whitespace_inside_the_label() {
    let name = validate_name(" Xavier D ").unwrap();
    assert_eq!(name.as_str(), "Xavier D");
}

#[test]
fn validating_an_already_trimmed_name_changes_nothing() {
    let once = validate_name("Merve").unwrap();
    let twice = validate_name(once.as_str()).unwrap();
    assert_eq!(once, twice);
}

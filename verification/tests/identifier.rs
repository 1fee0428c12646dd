use tskmstr::error::TaskError;
use tskmstr::identifier::{decode, encode, id_char};

#[test]
fn encode_joins_with_a_slash() {
    assert_eq!(encode("gh0", "123"), "gh0/123");
    assert_eq!(encode("jira-main", "PROJ-123"), "jira-main/PROJ-123");
}

#[test]
fn decode_undoes_encode() {
    let pairs = vec![("gh0", "123"), ("gl_1", "7"), ("J", "PROJ-123"), ("a-b_c", "0")];
    for (repo_id, native_id) in pairs {
        let decoded = decode(&encode(repo_id, native_id));
        assert!(matches!(decoded, Ok((ref r, ref n)) if r == repo_id && n == native_id));
    }
}

#[test]
fn decode_splits_at_the_slash() {
    let (repo_id, native_id) = decode("gh0/123").unwrap();
    assert_eq!(repo_id, "gh0");
    assert_eq!(native_id, "123");
}

#[test]
fn decode_refuses_a_reference_without_slash() {
    assert!(matches!(decode("gh0"), Err(TaskError::InvalidIdentifierFormat)));
    assert!(matches!(decode(""), Err(TaskError::InvalidIdentifierFormat)));
}

#[test]
fn decode_refuses_an_empty_segment() {
    assert!(matches!(decode("/123"), Err(TaskError::InvalidIdentifierFormat)));
    assert!(matches!(decode("gh0/"), Err(TaskError::InvalidIdentifierFormat)));
    assert!(matches!(decode("/"), Err(TaskError::InvalidIdentifierFormat)));
}

#[test]
fn decode_refuses_a_second_slash() {
    assert!(matches!(decode("gh0/12/34"), Err(TaskError::InvalidIdentifierFormat)));
}

#[test]
fn decode_refuses_characters_outside_the_charset() {
    assert!(matches!(decode("gh 0/123"), Err(TaskError::InvalidIdentifierFormat)));
    assert!(matches!(decode("gh0/12.3"), Err(TaskError::InvalidIdentifierFormat)));
    assert!(matches!(decode("gh0/12\u{e9}"), Err(TaskError::InvalidIdentifierFormat)));
}

#[test]
fn decode_is_case_sensitive() {
    let (repo_id, native_id) = decode("GH0/Proj-1").unwrap();
    assert_eq!(repo_id, "GH0");
    assert_eq!(native_id, "Proj-1");
}

#[test]
fn id_char_accepts_letters_digits_underscore_and_hyphen() {
    for c in "AZaz09_-".chars() {
        assert!(id_char(c));
    }
    for c in "/ .@[`{:\u{e9}".chars() {
        assert!(!id_char(c));
    }
}

use fuzzy_search::chars_match;
use fuzzy_search::chars_of;
use fuzzy_search::fuzzy_search_match;

#[test]
fn fuzzy_search_match_exact_string_true() {
    // Arrange
    let search_string: String = String::from("string");
    let reference_string: String = String::from("string");
    let expected_value: bool = true;

    // Act
    let actual_value: bool = fuzzy_search_match(&search_string, &reference_string);

    // Assert
    assert_eq!(expected_value, actual_value);
}

#[test]
fn fuzzy_search_match_search_longer_than_reference_false() {
    // Arrange
    let search_string: String = String::from("longer");
    let reference_string: String = String::from("a");
    let expected_value: bool = false;

    // Act
    let actual_value: bool = fuzzy_search_match(&search_string, &reference_string);

    // Assert
    assert_eq!(expected_value, actual_value);
}

#[test]
fn fuzzy_search_match_search_first_three_letters_true() {
    // Arrange
    let search_string: String = String::from("str");
    let reference_string: String = String::from("string");
    let expected_value: bool = true;

    // Act
    let actual_value: bool = fuzzy_search_match(&search_string, &reference_string);

    // Assert
    assert_eq!(expected_value, actual_value);
}

#[test]
fn fuzzy_search_match_search_multibyte_characters_true() {
    // Arrange
    let search_string: String = String::from("老虎é");
    let reference_string: String = String::from("Löwe 老虎 Léopard");
    let expected_value: bool = true;

    // Act
    let actual_value: bool = fuzzy_search_match(&search_string, &reference_string);

    // Assert
    assert_eq!(expected_value, actual_value);
}

#[test]
fn fuzzy_search_match_search_exact_multibyte_string_true() {
    // Arrange
    let search_string: String = String::from("Löwe 老虎 Léopard");
    let reference_string: String = String::from("Löwe 老虎 Léopard");
    let expected_value: bool = true;

    // Act
    let actual_value: bool = fuzzy_search_match(&search_string, &reference_string);

    // Assert
    assert_eq!(expected_value, actual_value);
}

#[test]
fn fuzzy_search_match_search_string_spaces_true() {
    // Arrange
    let search_string: String = String::from("Löwe 老虎");
    let reference_string: String = String::from("Löwe 老虎 Léopard");
    let expected_value: bool = true;

    // Act
    let actual_value: bool = fuzzy_search_match(&search_string, &reference_string);

    // Assert
    assert_eq!(expected_value, actual_value);
}

#[test]
fn fuzzy_search_match_code_example_true() {
    // Arrange
    let search_string: String = String::from("Super.cs");
    let reference_string: String = String::from("SuperAwesomeClass.cs");
    let expected_value: bool = true;

    // Act
    let actual_value: bool = fuzzy_search_match(&search_string, &reference_string);

    // Assert
    assert_eq!(expected_value, actual_value);
}

#[test]
fn fuzzy_search_match_ref_and_search_same_letters_reversed_false() {
    // Arrange
    let search_string: String = String::from("tac");
    let reference_string: String = String::from("cat");
    let expected_value: bool = false;

    // Act
    let actual_value: bool = fuzzy_search_match(&search_string, &reference_string);

    // Assert
    assert_eq!(expected_value, actual_value);
}

#[test]
fn fuzzy_search_match_split_characters_false() {
    // A combining breve attached to one base letter must not match the breve
    // of a differently composed character: the search string below is a 'y'
    // followed by a combining breve, while the reference holds only the
    // precomposed letter 'ŏ'. Matching is by exact scalar value, so no
    // character of the search string after the 'y' is present.

    // Arrange
    let search_string: String = String::from("y\u{0306}");
    let reference_string: String = String::from("ya\u{014f}");
    let expected_value: bool = false;

    // Act
    let actual_value: bool = fuzzy_search_match(&search_string, &reference_string);

    // Assert
    assert_eq!(expected_value, actual_value);
}

#[test]
fn fuzzy_search_match_empty_search_empty_reference_true() {
    assert_eq!(fuzzy_search_match("", ""), true);
}

#[test]
fn fuzzy_search_match_empty_search_true() {
    assert_eq!(fuzzy_search_match("", "anything at all"), true);
}

#[test]
fn fuzzy_search_match_empty_reference_false() {
    assert_eq!(fuzzy_search_match("a", ""), false);
}

#[test]
fn fuzzy_search_match_scattered_subsequence_true() {
    assert_eq!(fuzzy_search_match("fu_rch_match", "fuzzy_search_match"), true);
}

#[test]
fn fuzzy_search_match_initials_not_in_order_false() {
    assert_eq!(fuzzy_search_match("abc", "Alaska Beer Crusade"), false);
}

#[test]
fn fuzzy_search_match_case_sensitive_false() {
    assert_eq!(fuzzy_search_match("S", "s"), false);
}

#[test]
fn chars_of_splits_by_scalar_value() {
    let out: Vec<char> = chars_of("老虎é");
    assert_eq!(out, vec!['老', '虎', 'é']);
}

#[test]
fn chars_match_scattered_true() {
    let pattern: Vec<char> = vec!['a', 'c'];
    let subject: Vec<char> = vec!['a', 'b', 'c'];
    assert_eq!(chars_match(&pattern, &subject), true);
}

#[test]
fn chars_match_out_of_order_false() {
    let pattern: Vec<char> = vec!['c', 'a'];
    let subject: Vec<char> = vec!['a', 'b', 'c'];
    assert_eq!(chars_match(&pattern, &subject), false);
}

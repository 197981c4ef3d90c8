use string_join::join_string_values;
use string_join::join_strings;

#[test]
fn join_strings_accepts_slice() {
    assert_eq!(join_strings(&["One", "Two"]), "One, Two");
}

#[test]
fn join_strings_accept_vector() {
    assert_eq!(join_strings(&vec!["One", "Two"]), "One, Two");
}

#[test]
fn join_empty_input_yields_empty_output() {
    let empty: [&str; 0] = [];
    assert_eq!(join_strings(&empty), "");
}

#[test]
fn join_single_element_is_unchanged() {
    assert_eq!(join_strings(&["X"]), "X");
}

#[test]
fn join_two_elements_uses_exactly_one_separator() {
    assert_eq!(join_strings(&["One", "Two"]), "One, Two");
    assert_eq!(join_strings(&["One", "Two"]).matches(", ").count(), 1);
}

#[test]
fn join_preserves_empty_string_elements() {
    assert_eq!(join_strings(&["a", "", "b"]), "a, , b");
}

#[test]
fn join_separator_count_matches_element_count() {
    let joined = join_strings(&["one", "two", "three", "four"]);
    assert_eq!(joined.matches(", ").count(), 3);
    assert_eq!(join_strings(&["solo"]).matches(", ").count(), 0);
    let empty: [&str; 0] = [];
    assert_eq!(join_strings(&empty).matches(", ").count(), 0);
}

#[test]
fn join_does_not_escape_embedded_separators() {
    assert_eq!(join_strings(&["x, y"]), "x, y");
    assert_eq!(join_strings(&["x, y", "z"]), "x, y, z");
    assert_eq!(join_strings(&["a,", " b"]), "a,,  b");
}

#[test]
fn join_is_deterministic_and_leaves_input_unchanged() {
    let input = vec!["alpha", "beta", "gamma"];
    let first = join_strings(&input);
    let second = join_strings(&input);
    assert_eq!(first, second);
    assert_eq!(input, vec!["alpha", "beta", "gamma"]);
}

#[test]
fn join_is_container_shape_independent() {
    let from_array = join_strings(&["One", "Two", "Three"]);
    let from_vector = join_strings(&vec!["One", "Two", "Three"]);
    assert_eq!(from_array, from_vector);
    assert_eq!(from_array, "One, Two, Three");
}

#[test]
fn join_accepts_owned_strings() {
    let owned = vec![String::from("One"), String::from("Two")];
    assert_eq!(join_string_values(&owned), "One, Two");
    assert_eq!(owned, vec![String::from("One"), String::from("Two")]);
}

use companion_gen::decl::{CaseClass, ParseError};
use companion_gen::parse::parse;

fn go(
    input: &str,
    expected_class_name: &str,
    expected_type_params: &[&str],
    expected_fields: &[&str],
) {
    assert_eq!(
        parse(input).unwrap(),
        CaseClass {
            name: expected_class_name.to_owned(),
            type_params: expected_type_params
                .into_iter()
                .map(|s| s.to_string())
                .collect(),
            fields: expected_fields.into_iter().map(|s| s.to_string()).collect()
        }
    )
}

#[test]
fn test_parse() {
    go("case class Person(age: Int)", "Person", &[], &["age"]);
    go(
        "case class Person(age: Int, favoriteFood: Food)",
        "Person",
        &[],
        &["age", "favoriteFood"],
    );
    go(
        "case class Person(
                age: Int,
                favoriteFood: Food
            )",
        "Person",
        &[],
        &["age", "favoriteFood"],
    );
    go(
        "case class Person(age: Int, favoriteFoods: List[Food])",
        "Person",
        &[],
        &["age", "favoriteFoods"],
    );
    go(
        "case class Generic[A](something: List[A])",
        "Generic",
        &["A"],
        &["something"],
    );
    go(
        "case class Generic[A <: B](something: List[A])",
        "Generic",
        &["A"],
        &["something"],
    );
    go(
        "case class Generic[A: Something](something: List[A])",
        "Generic",
        &["A"],
        &["something"],
    );
    go(
        "case class Generic[+A: Something](something: List[A])",
        "Generic",
        &["A"],
        &["something"],
    );
}

#[test]
fn test_parse_variance_marker_minus() {
    go(
        "case class Generic[-A](something: List[A])",
        "Generic",
        &["A"],
        &["something"],
    );
}

#[test]
fn test_parse_two_type_params() {
    go(
        "case class Pair[A, B](first: A, second: B)",
        "Pair",
        &["A", "B"],
        &["first", "second"],
    );
}

#[test]
fn test_parse_multiline_equals_single_line() {
    let one_line = parse("case class Person(age: Int, favoriteFood: Food)").unwrap();
    let multi_line = parse(
        "case class Person(
            age: Int,
            favoriteFood: Food
        )",
    )
    .unwrap();
    assert_eq!(one_line, multi_line);
}

#[test]
fn test_parse_missing_colon_is_malformed_field() {
    let err = parse("case class Bad(age Int)").unwrap_err();
    assert_eq!(err, ParseError::MalformedField);
}

#[test]
fn test_parse_no_declaration_is_malformed() {
    assert_eq!(
        parse("hello world").unwrap_err(),
        ParseError::MalformedDeclaration
    );
    assert_eq!(parse("").unwrap_err(), ParseError::MalformedDeclaration);
    assert_eq!(
        parse("case class Person()").unwrap_err(),
        ParseError::MalformedDeclaration
    );
}

#[test]
fn test_parse_bad_type_param() {
    let err = parse("case class Generic[%](something: Int)").unwrap_err();
    assert_eq!(err, ParseError::MalformedTypeParameter);
}

#[test]
fn test_parse_surrounding_text() {
    // The declaration is located inside the input: matching starts at the
    // leftmost `case class` and the field group runs to the final closing
    // paren.
    go(
        "see the case class Person(age: Int) here",
        "Person",
        &[],
        &["age"],
    );
}

#[test]
fn test_parse_comma_inside_field_type_missplits() {
    // The comma split is not aware of nesting, a limitation kept on
    // purpose: a field type holding a top-level comma splits the piece
    // and the parse fails.
    let err = parse("case class Person(pets: Map[Int, String])").unwrap_err();
    assert_eq!(err, ParseError::MalformedField);
}

#[test]
fn test_parse_error_messages() {
    assert_eq!(
        ParseError::MalformedDeclaration.message(),
        "could not match the case class declaration"
    );
    assert_eq!(
        ParseError::MalformedTypeParameter.message(),
        "could not extract a type parameter"
    );
    assert_eq!(
        ParseError::MalformedField.message(),
        "could not extract a field name"
    );
}

#[test]
fn test_is_generic() {
    assert!(!parse("case class Person(age: Int)").unwrap().is_generic());
    assert!(parse("case class Generic[A](something: List[A])")
        .unwrap()
        .is_generic());
}

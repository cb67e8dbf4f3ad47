use companion_gen::decl::CaseClass;
use companion_gen::parse::parse;
use companion_gen::snake_case;

#[test]
fn test_companion_object_basic() {
    let class = CaseClass {
        name: "Person".to_string(),
        type_params: vec![],
        fields: vec!["age".to_string(), "favoriteFood".to_string()],
    };
    assert_eq!(
        class.companion_object(),
        "object Person {\n  implicit lazy val encoder: Encoder[Person] = Encoder.forProduct2(\"age\", \"favorite_food\")(a => (a.age, a.favoriteFood))\n\n  implicit lazy val decoder: Decoder[Person] = Decoder.forProduct2(\"age\", \"favorite_food\")(Person.apply)\n}"
    );
}

#[test]
fn test_companion_object_generic() {
    let class = CaseClass {
        name: "Generic".to_string(),
        type_params: vec!["A".to_string()],
        fields: vec!["something".to_string()],
    };
    assert_eq!(
        class.companion_object(),
        "object Generic {\n  implicit def encoder[A: Encoder]: Encoder[Generic[A]] = Encoder.forProduct1(\"something\")(a => (a.something))\n\n  implicit def decoder[A: Decoder]: Decoder[Generic[A]] = Decoder.forProduct1(\"something\")(Generic.apply[A])\n}"
    );
}

#[test]
fn test_companion_object_single_field() {
    let class = parse("case class Person(age: Int)").unwrap();
    assert_eq!(
        class.companion_object(),
        "object Person {\n  implicit lazy val encoder: Encoder[Person] = Encoder.forProduct1(\"age\")(a => (a.age))\n\n  implicit lazy val decoder: Decoder[Person] = Decoder.forProduct1(\"age\")(Person.apply)\n}"
    );
}

#[test]
fn test_companion_object_field_count() {
    let class = parse("case class Triple(one: Int, twoTwo: Int, threeThree: Int)").unwrap();
    assert_eq!(
        class.companion_object(),
        "object Triple {\n  implicit lazy val encoder: Encoder[Triple] = Encoder.forProduct3(\"one\", \"two_two\", \"three_three\")(a => (a.one, a.twoTwo, a.threeThree))\n\n  implicit lazy val decoder: Decoder[Triple] = Decoder.forProduct3(\"one\", \"two_two\", \"three_three\")(Triple.apply)\n}"
    );
}

#[test]
fn test_companion_object_two_type_params() {
    let class = parse("case class Pair[A, B](first: A, second: B)").unwrap();
    assert_eq!(
        class.companion_object(),
        "object Pair {\n  implicit def encoder[A: Encoder, B: Encoder]: Encoder[Pair[A, B]] = Encoder.forProduct2(\"first\", \"second\")(a => (a.first, a.second))\n\n  implicit def decoder[A: Decoder, B: Decoder]: Decoder[Pair[A, B]] = Decoder.forProduct2(\"first\", \"second\")(Pair.apply[A, B])\n}"
    );
}

#[test]
fn test_pipeline_deterministic() {
    let text = "case class Generic[+A: Something](something: List[A])";
    let first = parse(text).unwrap().companion_object();
    let second = parse(text).unwrap().companion_object();
    assert_eq!(first, second);
}

#[test]
fn test_multiline_renders_identically() {
    let one_line = parse("case class Person(age: Int, favoriteFood: Food)").unwrap();
    let multi_line = parse("case class Person(\n    age: Int,\n    favoriteFood: Food\n)").unwrap();
    assert_eq!(one_line.companion_object(), multi_line.companion_object());
}

#[test]
fn test_snake_case() {
    assert_eq!(snake_case("age"), "age");
    assert_eq!(snake_case("favoriteFood"), "favorite_food");
    assert_eq!(snake_case("a1B"), "a1_b");
    assert_eq!(snake_case("XFile"), "xfile");
    assert_eq!(snake_case(""), "");
}

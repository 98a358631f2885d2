use liquid_interpreter::Expression;
use liquid_interpreter::Object;
use liquid_interpreter::Scalar;
use liquid_interpreter::Value;
use liquid_interpreter::Variable;

#[test]
fn literal_shows_as_its_value() {
    assert_eq!(Expression::with_literal("hello").to_text(), "hello");
    assert_eq!(Expression::with_literal(42i64).to_text(), "42");
    assert_eq!(Expression::with_literal(true).to_text(), "true");
    assert_eq!(Expression::Literal(Value::Nil).to_text(), "");
}

#[test]
fn variable_shows_as_its_path_is_written() {
    let name = Variable::with_literal("user").push_literal("name");
    assert_eq!(Expression::Variable(name).to_text(), "user.name");
    assert_eq!(Expression::Variable(Variable::with_literal("x")).to_text(), "x");
}

#[test]
fn variable_text_does_not_depend_on_what_is_bound() {
    // No context is given at all: the text is that of the path, not of a value.
    let path = Variable::with_literal("user").push_literal("name");
    assert_eq!(path.to_text(), "user.name");
    assert_eq!(Expression::Variable(path.clone()).to_text(), path.to_text());
}

#[test]
fn indexes_show_in_brackets() {
    let numbered = Variable::with_literal("items").push_literal(0i64);
    assert_eq!(numbered.to_text(), "items[0]");
    let dynamic = Variable::with_literal("items").push_index(Expression::Variable(
        Variable::with_literal("user").push_literal("index"),
    ));
    assert_eq!(dynamic.to_text(), "items[user.index]");
    let flagged = Variable::with_literal("items").push_literal(false);
    assert_eq!(flagged.to_text(), "items[false]");
    let deep = Variable::with_literal("a")
        .push_literal("b")
        .push_index(Expression::Variable(Variable::with_literal("c").push_literal(-3i64)))
        .push_literal("d");
    assert_eq!(deep.to_text(), "a.b[c[-3]].d");
    let by_nil = Variable::with_literal("a").push_index(Expression::Literal(Value::Nil));
    assert_eq!(by_nil.to_text(), "a[]");
}

#[test]
fn integers_show_in_decimal() {
    assert_eq!(Scalar::Integer(0).to_text(), "0");
    assert_eq!(Scalar::Integer(7).to_text(), "7");
    assert_eq!(Scalar::Integer(10).to_text(), "10");
    assert_eq!(Scalar::Integer(1234567890).to_text(), "1234567890");
    assert_eq!(Scalar::Integer(-1).to_text(), "-1");
    assert_eq!(Scalar::Integer(-205).to_text(), "-205");
    assert_eq!(Scalar::Integer(i64::MAX).to_text(), "9223372036854775807");
    assert_eq!(Scalar::Integer(i64::MIN).to_text(), "-9223372036854775808");
    for i in [-1000i64, -99, -10, -9, 0, 9, 10, 11, 99, 100, 101, 65535] {
        assert_eq!(Scalar::Integer(i).to_text(), i.to_string());
    }
}

#[test]
fn booleans_and_texts_show_as_written() {
    assert_eq!(Scalar::Boolean(true).to_text(), "true");
    assert_eq!(Scalar::Boolean(false).to_text(), "false");
    assert_eq!(Scalar::Text(String::new()).to_text(), "");
    assert_eq!(Scalar::from("two words").to_text(), "two words");
    assert_eq!(Scalar::from("grüße").to_text(), "grüße");
}

#[test]
fn array_shows_its_elements_one_after_the_other() {
    let items = Value::Array(vec![Value::scalar(1i64), Value::scalar("a"), Value::Nil, Value::scalar(-2i64)]);
    assert_eq!(items.to_text(), "1a-2");
    assert_eq!(Value::Array(Vec::new()).to_text(), "");
    let nested = Value::Array(vec![Value::Array(vec![Value::scalar(1i64)]), Value::scalar(2i64)]);
    assert_eq!(nested.to_text(), "12");
}

#[test]
fn object_shows_its_entries_in_order() {
    let mut object = Object::new();
    assert_eq!(Value::Object(object.clone()).to_text(), "");
    object.insert("name", Value::scalar("ada"));
    assert_eq!(Value::Object(object.clone()).to_text(), "name: ada");
    object.insert("age", Value::scalar(36i64));
    object.insert("tags", Value::Array(vec![Value::scalar("x"), Value::scalar("y")]));
    assert_eq!(Value::Object(object.clone()).to_text(), "name: ada, age: 36, tags: xy");
    let mut outer = Object::new();
    outer.insert("inner", Value::Object(object));
    assert_eq!(Value::Object(outer).to_text(), "inner: name: ada, age: 36, tags: xy");
}

#[test]
fn append_text_keeps_what_was_there() {
    let mut out = String::from("value=");
    Value::scalar(5i64).append_text(&mut out);
    assert_eq!(out, "value=5");
    Variable::with_literal("a").push_literal("b").append_text(&mut out);
    assert_eq!(out, "value=5a.b");
    Expression::with_literal("!").append_text(&mut out);
    assert_eq!(out, "value=5a.b!");
}

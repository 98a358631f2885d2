use liquid_interpreter::Context;
use liquid_interpreter::Error;
use liquid_interpreter::Expression;
use liquid_interpreter::Object;
use liquid_interpreter::Path;
use liquid_interpreter::Scalar;
use liquid_interpreter::Stack;
use liquid_interpreter::Value;
use liquid_interpreter::Variable;

fn integer(i: i64) -> Value {
    Value::Scalar(Scalar::Integer(i))
}

fn text(t: &str) -> Value {
    Value::Scalar(Scalar::Text(t.to_string()))
}

/// One scope with `user: {name: "ada", index: 1}`, `items: [10, 20, 30]`,
/// `key: "name"` and `flag: true`.
fn data() -> Context {
    let mut user = Object::new();
    user.insert("name", text("ada"));
    user.insert("index", integer(1));
    let mut scope = Object::new();
    scope.insert("user", Value::Object(user));
    scope.insert("items", Value::Array(vec![integer(10), integer(20), integer(30)]));
    scope.insert("key", text("name"));
    scope.insert("flag", Value::Scalar(Scalar::Boolean(true)));
    let mut stack = Stack::new();
    stack.push_frame(scope);
    Context::with_stack(stack)
}

fn path_of(root: &str, rest: Vec<Scalar>) -> Path {
    let mut path = Path::with_index(Scalar::from(root));
    for segment in rest {
        path.push(segment);
    }
    path
}

#[test]
fn static_member_path() {
    let name = Variable::with_literal("user").push_literal("name");
    assert_eq!(name.evaluate(&data()), Ok(path_of("user", vec![Scalar::from("name")])));
    assert_eq!(Expression::Variable(name).evaluate(&data()), Ok(text("ada")));
}

#[test]
fn static_index_path() {
    let second = Variable::with_literal("items").push_literal(1i64);
    assert_eq!(Expression::Variable(second).evaluate(&data()), Ok(integer(20)));
    let first = Variable::with_literal("items").push_literal(0i64);
    assert_eq!(Expression::Variable(first).evaluate(&data()), Ok(integer(10)));
    let last = Variable::with_literal("items").push_literal(2i64);
    assert_eq!(Expression::Variable(last).evaluate(&data()), Ok(integer(30)));
}

#[test]
fn dynamic_index_is_evaluated_first() {
    // items[user.index]
    let index = Variable::with_literal("user").push_literal("index");
    let element = Variable::with_literal("items").push_index(Expression::Variable(index));
    assert_eq!(element.evaluate(&data()), Ok(path_of("items", vec![Scalar::Integer(1)])));
    assert_eq!(Expression::Variable(element).evaluate(&data()), Ok(integer(20)));
}

#[test]
fn dynamic_key_is_evaluated_first() {
    // user[key]
    let member = Variable::with_literal("user")
        .push_index(Expression::Variable(Variable::with_literal("key")));
    assert_eq!(member.evaluate(&data()), Ok(path_of("user", vec![Scalar::from("name")])));
    assert_eq!(Expression::Variable(member).evaluate(&data()), Ok(text("ada")));
}

#[test]
fn whole_composite_is_cloned() {
    let items = Expression::Variable(Variable::with_literal("items"));
    assert_eq!(items.evaluate(&data()), Ok(Value::Array(vec![integer(10), integer(20), integer(30)])));
    let mut user = Object::new();
    user.insert("name", text("ada"));
    user.insert("index", integer(1));
    let found = Expression::Variable(Variable::with_literal("user")).evaluate(&data());
    assert_eq!(found, Ok(Value::Object(user)));
}

#[test]
fn unbound_root_is_an_unbound_lookup() {
    let missing = Expression::Variable(Variable::with_literal("missing"));
    assert_eq!(missing.evaluate(&data()), Err(Error::UnboundLookup));
    assert_eq!(missing.evaluate(&Context::new()), Err(Error::UnboundLookup));
}

#[test]
fn missing_member_is_an_unbound_lookup() {
    let age = Variable::with_literal("user").push_literal("age");
    assert_eq!(Expression::Variable(age).evaluate(&data()), Err(Error::UnboundLookup));
    let past_end = Variable::with_literal("items").push_literal(3i64);
    assert_eq!(Expression::Variable(past_end).evaluate(&data()), Err(Error::UnboundLookup));
    let negative = Variable::with_literal("items").push_literal(-1i64);
    assert_eq!(Expression::Variable(negative).evaluate(&data()), Err(Error::UnboundLookup));
    let into_scalar = Variable::with_literal("key").push_literal("length");
    assert_eq!(Expression::Variable(into_scalar).evaluate(&data()), Err(Error::UnboundLookup));
    let by_name = Variable::with_literal("items").push_literal("first");
    assert_eq!(Expression::Variable(by_name).evaluate(&data()), Err(Error::UnboundLookup));
    let by_flag = Variable::with_literal("items").push_literal(true);
    assert_eq!(Expression::Variable(by_flag).evaluate(&data()), Err(Error::UnboundLookup));
}

#[test]
fn root_that_is_no_name_is_an_unbound_lookup() {
    let number = Expression::Variable(Variable::with_literal(1i64));
    assert_eq!(number.evaluate(&data()), Err(Error::UnboundLookup));
    let flag = Expression::Variable(Variable::with_literal(true));
    assert_eq!(flag.evaluate(&data()), Err(Error::UnboundLookup));
}

#[test]
fn failing_dynamic_index_is_an_unresolved_path() {
    // items[missing]: the index is unbound.
    let unbound = Variable::with_literal("items")
        .push_index(Expression::Variable(Variable::with_literal("missing")));
    assert_eq!(unbound.evaluate(&data()), Err(Error::UnresolvedPath));
    assert_eq!(Expression::Variable(unbound).evaluate(&data()), Err(Error::UnresolvedPath));
}

#[test]
fn failing_dynamic_index_wins_over_an_unbound_root() {
    // nothing[missing]: both the root and the index are unbound.
    let both = Variable::with_literal("nothing")
        .push_index(Expression::Variable(Variable::with_literal("missing")));
    assert_eq!(Expression::Variable(both).evaluate(&data()), Err(Error::UnresolvedPath));
    // nothing[key]: the index resolves, the root is unbound.
    let root_only = Variable::with_literal("nothing")
        .push_index(Expression::Variable(Variable::with_literal("key")));
    assert_eq!(Expression::Variable(root_only).evaluate(&data()), Err(Error::UnboundLookup));
}

#[test]
fn composite_index_is_an_unresolved_path() {
    // items[items] and items[user]: the index is no scalar.
    let by_array = Variable::with_literal("items")
        .push_index(Expression::Variable(Variable::with_literal("items")));
    assert_eq!(Expression::Variable(by_array).evaluate(&data()), Err(Error::UnresolvedPath));
    let by_object = Variable::with_literal("items")
        .push_index(Expression::Variable(Variable::with_literal("user")));
    assert_eq!(Expression::Variable(by_object).evaluate(&data()), Err(Error::UnresolvedPath));
    let by_nil = Variable::with_literal("items").push_index(Expression::Literal(Value::Nil));
    assert_eq!(Expression::Variable(by_nil).evaluate(&data()), Err(Error::UnresolvedPath));
}

#[test]
fn later_index_failure_is_an_unresolved_path() {
    // user.name[missing]
    let variable = Variable::with_literal("user")
        .push_literal("name")
        .push_index(Expression::Variable(Variable::with_literal("missing")));
    assert_eq!(variable.evaluate(&data()), Err(Error::UnresolvedPath));
}

#[test]
fn nested_dynamic_indexes() {
    // items[items[user.index]] is items[20], which is not there;
    // items[user[key]] has a text index, which selects nothing of an array.
    let inner = Variable::with_literal("items").push_index(Expression::Variable(
        Variable::with_literal("user").push_literal("index"),
    ));
    let outer = Variable::with_literal("items").push_index(Expression::Variable(inner));
    assert_eq!(outer.evaluate(&data()), Ok(path_of("items", vec![Scalar::Integer(20)])));
    assert_eq!(Expression::Variable(outer).evaluate(&data()), Err(Error::UnboundLookup));
}

#[test]
fn innermost_binding_decides_even_where_the_member_is_missing() {
    let mut rich = Object::new();
    rich.insert("name", text("outer"));
    let mut outer = Object::new();
    outer.insert("user", Value::Object(rich));
    let mut inner = Object::new();
    inner.insert("user", Value::Object(Object::new()));
    let mut stack = Stack::new();
    stack.push_frame(outer);
    stack.push_frame(inner);
    let context = Context::with_stack(stack);
    let name = Variable::with_literal("user").push_literal("name");
    assert_eq!(Expression::Variable(name).evaluate(&context), Err(Error::UnboundLookup));
}

#[test]
fn stack_get_follows_the_path() {
    let context = data();
    let path = path_of("user", vec![Scalar::from("name")]);
    assert_eq!(context.stack().get(&path), Ok(&text("ada")));
    let path = path_of("items", vec![Scalar::Integer(2)]);
    assert_eq!(context.stack().get(&path), Ok(&integer(30)));
    let path = path_of("items", vec![Scalar::Integer(2), Scalar::Integer(0)]);
    assert_eq!(context.stack().get(&path), Err(Error::UnboundLookup));
    assert_eq!(Stack::new().get(&path_of("x", vec![])), Err(Error::UnboundLookup));
}

#[test]
fn path_segments() {
    let path = path_of("user", vec![Scalar::from("name"), Scalar::Integer(4)]);
    assert_eq!(path.len(), 3);
    assert_eq!(path.get(0), Some(&Scalar::Text("user".to_string())));
    assert_eq!(path.get(1), Some(&Scalar::Text("name".to_string())));
    assert_eq!(path.get(2), Some(&Scalar::Integer(4)));
    assert_eq!(path.get(3), None);
}

use crisp::crisp;
use proc_macro2::TokenStream;
use std::ops::Add;
use std::sync::Arc;

/// Runtime values as far as these tests need them.
#[derive(Clone)]
enum Value {
    Number(f32),
    Function(Arc<dyn Fn(&[Value]) -> Value>),
}

impl Value {
    fn number(&self) -> f32 {
        match self {
            Value::Number(n) => *n,
            Value::Function(_) => panic!("Not a number"),
        }
    }

    fn call(&self, args: &[Value]) -> Value {
        match self {
            Value::Function(f) => f(args),
            Value::Number(_) => panic!("Not a function"),
        }
    }
}

impl Add<Value> for Value {
    type Output = Value;

    fn add(self, other: Value) -> Value {
        Value::Number(self.number() + other.number())
    }
}

fn host(text: &str) -> String {
    text.parse::<TokenStream>().unwrap().to_string()
}

#[test]
fn anonymous_function_of_two_arguments_adds_them() {
    let emitted = crisp("(fn [x y] (+ x y))").unwrap().to_string();
    let expected = "Value::Function(Arc::new(|args: &[Value]| {
        let x: Value = args[0usize].clone().into();
        let y: Value = args[1usize].clone().into();
        x + y
    }))";
    assert_eq!(emitted, host(expected));

    // The same code, compiled here.
    let function = Value::Function(Arc::new(|args: &[Value]| {
        let x: Value = args[0usize].clone().into();
        let y: Value = args[1usize].clone().into();
        x + y
    }));
    let sum = function.call(&[Value::Number(1.0), Value::Number(2.0)]);
    assert_eq!(sum.number(), 3.0);
}

#[test]
fn function_value_can_be_called_again_and_through_a_clone() {
    let emitted = crisp("(fn [x] x)").unwrap().to_string();
    let expected = "Value::Function(Arc::new(|args: &[Value]| {
        let x: Value = args[0usize].clone().into();
        x
    }))";
    assert_eq!(emitted, host(expected));

    let function = Value::Function(Arc::new(|args: &[Value]| {
        let x: Value = args[0usize].clone().into();
        x
    }));
    let handle = function.clone();
    assert_eq!(function.call(&[Value::Number(2.0)]).number(), 2.0);
    assert_eq!(function.call(&[Value::Number(3.0)]).number(), 3.0);
    assert_eq!(handle.call(&[Value::Number(4.0)]).number(), 4.0);
}

#[test]
fn typed_parameters_are_bound_at_their_types() {
    let emitted = crisp("(define f [x Number y Number] (+ x y))").unwrap().to_string();
    assert!(emitted.contains(&host("let x: f32 = args[0usize].clone().into();")));
    assert!(emitted.contains(&host("let y: f32 = args[1usize].clone().into();")));
    assert!(emitted.contains(&host("(x + y).into()")));
}

#[test]
fn untyped_parameters_are_bound_as_runtime_values() {
    let emitted = crisp("(define f [x y] (+ x y))").unwrap().to_string();
    assert!(emitted.contains(&host("let x: Value = args[0usize].clone().into();")));
    assert!(emitted.contains(&host("let y: Value = args[1usize].clone().into();")));
}

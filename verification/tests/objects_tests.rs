use juc::assembly::instruction::{Directive, Width};
use juc::compilation::scope::Scope;
use juc::objects::function::Function;
use juc::objects::type_::{
    string_to_type, type_size_to_assembly, type_size_to_usize, type_to_assembly, Type,
};
use juc::objects::variable::Variable;
use juc::parsing::elements::Operation;
use juc::parsing::elements::Token;

#[test]
fn types_are_read_by_name() {
    assert_eq!(Type::from_string("byte".to_string()), Type::Byte);
    assert_eq!(Type::from_string("int".to_string()), Type::Integer);
    assert_eq!(Type::from_string("bigint".to_string()), Type::BigInteger);
    assert_eq!(Type::from_string("str".to_string()), Type::Str);
    assert_eq!(
        Type::from_string("matrix".to_string()),
        Type::NotNative("matrix".to_string())
    );
    assert_eq!(
        Type::array_from_string("int".to_string(), 3),
        Type::Array(Box::new(Type::Integer), 3)
    );
    assert_eq!(
        Type::static_array_from_string("byte".to_string()),
        Type::StaticArray(Box::new(Type::Byte))
    );
    assert_eq!(Type::new_array(Type::Str, 2), Type::Array(Box::new(Type::Str), 2));
}

#[test]
fn sizes_of_types() {
    assert_eq!(Type::Byte.to_usize(), 1);
    assert_eq!(Type::Integer.to_usize(), 4);
    assert_eq!(Type::BigInteger.to_usize(), 8);
    assert_eq!(Type::Str.to_usize(), 1);
    assert_eq!(Type::new_array(Type::Integer, 5).to_usize(), 20);
    assert_eq!(Type::new_array(Type::new_array(Type::BigInteger, 2), 3).to_usize(), 48);
    assert_eq!(Type::StaticArray(Box::new(Type::BigInteger)).to_usize(), 8);
    assert_eq!(Type::new_array(Type::Integer, 0).checked_size(), Some(0));
    assert_eq!(Type::NotNative("x".to_string()).checked_size(), None);
    assert_eq!(Type::new_array(Type::NotNative("x".to_string()), 0).checked_size(), None);
    assert_eq!(Type::new_array(Type::Integer, usize::MAX).checked_size(), None);
    assert_eq!(
        Type::new_array(Type::new_array(Type::BigInteger, usize::MAX), 0).checked_size(),
        Some(0)
    );
    assert!(Type::new_array(Type::Integer, usize::MAX).is_sized());
    assert!(!Type::NotNative("x".to_string()).is_sized());
}

#[test]
fn widths_and_directives_of_types() {
    assert_eq!(Type::Byte.width(), Some(Width::Byte));
    assert_eq!(Type::Integer.width(), Some(Width::Dword));
    assert_eq!(Type::BigInteger.width(), Some(Width::Qword));
    assert_eq!(Type::Str.width(), Some(Width::Byte));
    assert_eq!(Type::new_array(Type::Byte, 1).width(), None);
    assert_eq!(Type::Byte.directive(), Some(Directive::Db));
    assert_eq!(Type::Integer.directive(), Some(Directive::Dd));
    assert_eq!(Type::BigInteger.directive(), Some(Directive::Dq));
    assert_eq!(Type::Str.directive(), Some(Directive::Db));
    assert_eq!(Type::new_array(Type::Integer, 2).directive(), Some(Directive::Dd));
    assert_eq!(Type::NotNative("x".to_string()).directive(), None);
    assert_eq!(Width::Qword.text(), "qword");
}

#[test]
fn clones_are_equal() {
    let t = Type::new_array(Type::NotNative("x".to_string()), 2);
    assert_eq!(t.clone(), t);
    let v = Variable::new("a".to_string(), t, Token::Other("1".to_string()), 8);
    assert_eq!(v.clone(), v);
    assert_eq!(Token::Plus.clone(), Token::Plus);
}

#[test]
fn variable_keeps_what_it_is_given() {
    let mut v = Variable::new("a".to_string(), Type::Integer, Token::Other("1".to_string()), 4);
    assert_eq!(v.id(), "a");
    assert_eq!(v.type_(), &Type::Integer);
    assert_eq!(v.current_value(), &Token::Other("1".to_string()));
    assert_eq!(v.stack_pos(), &4);
    v.set_current_value(Token::Nothing);
    v.set_stack_pos(12);
    assert_eq!(v.current_value(), &Token::Nothing);
    assert_eq!(v.stack_pos(), &12);
    let s = Variable::static_("s".to_string(), Type::Str, Token::Other("\"x\"".to_string()));
    assert_eq!(s.stack_pos(), &0);
}

#[test]
fn function_and_operation_keep_what_they_are_given() {
    let p = Variable::new("a".to_string(), Type::Integer, Token::Nothing, 0);
    let f = Function::new("f".to_string(), vec![p.clone()], "int".to_string());
    assert_eq!(f.id(), "f");
    assert_eq!(f.params(), &vec![p]);
    assert_eq!(f.return_type(), "int");
    let o = Operation::new(Token::Plus, Token::BracketOpen, Token::Other("1".to_string()));
    assert_eq!(o.operator(), &Token::Plus);
    assert_eq!(o.arg1(), &Token::BracketOpen);
    assert_eq!(o.arg2(), &Token::Other("1".to_string()));
}

#[test]
fn scope_is_a_stack_of_names() {
    let mut scope = Scope::new();
    assert_eq!(scope.to_string(), "");
    scope.pop();
    assert_eq!(scope.to_string(), "");
    scope.push("file".to_string());
    assert_eq!(scope.to_string(), "file");
    scope.push("outer".to_string());
    scope.push("inner".to_string());
    assert_eq!(scope.to_string(), "file.outer.inner");
    let copy = scope.clone();
    scope.pop();
    assert_eq!(scope.to_string(), "file.outer");
    assert_eq!(copy.to_string(), "file.outer.inner");
    scope.reset();
    assert_eq!(scope.to_string(), "");
    let from = Scope::from(vec!["a".to_string(), "".to_string(), "b".to_string()]);
    assert_eq!(from.to_string(), "a..b");
}

#[test]
fn types_are_written_for_the_assembler() {
    let cases = [
        ("byte", "db", "byte", 1),
        ("int", "dd", "dword", 4),
        ("bigint", "dq", "qword", 8),
        ("str", "db", "byte", 1),
    ];
    for (name, directive, width, size) in cases {
        let type_ = string_to_type(name.to_string());
        assert_eq!(type_, Type::from_string(name.to_string()));
        assert_eq!(type_to_assembly(&type_), directive);
        assert_eq!(type_size_to_assembly(&type_), width);
        assert_eq!(type_size_to_usize(&type_), size);
    }
    assert_eq!(type_to_assembly(&string_to_type("matrix".to_string())), "matrix");
    assert_eq!(type_to_assembly(&Type::new_array(Type::BigInteger, 4)), "dq");
    assert_eq!(type_size_to_usize(&Type::new_array(Type::BigInteger, 4)), 32);
}

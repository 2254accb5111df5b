use lean_checker::environment::{Environment, InfoAnnotation, IntegrityError, NameItem, NotFoundError};

#[test]
fn names() {
    let mut env = Environment::new();
    /*
     * 1 #NS 0 foo
     * 2 #NS 1 bla
     * 3 #NI 2 1
     * 4 #NS 3 boo
     */
    env.add_name(1, NameItem::Str("foo".to_string()), 0).unwrap();
    env.add_name(2, NameItem::Str("bla".to_string()), 1).unwrap();
    env.add_name(3, NameItem::Int(1), 2).unwrap();
    env.add_name(4, NameItem::Str("boo".to_string()), 3).unwrap();
    assert_eq!(env.name_to_string(1), Ok("foo".to_string()));
    assert_eq!(env.name_to_string(2), Ok("foo.bla".to_string()));
    assert_eq!(env.name_to_string(3), Ok("foo.bla.1".to_string()));
    assert_eq!(env.name_to_string(4), Ok("foo.bla.1.boo".to_string()));
}

#[test]
fn levels() {
    let mut env = Environment::new();
    /*
     * 1 #NS 0 l1
     * 2 #NS 0 l2
     * 1 #US 0
     * 2 #US 1
     * 3 #UP 1
     * 4 #UP 2
     * 5 #UM 2 3
     * 6 #UIM 5 4
     */
    env.add_name(1, NameItem::Str("l1".to_string()), 0).unwrap();
    env.add_name(2, NameItem::Str("l2".to_string()), 0).unwrap();
    env.add_level_succ(1, 0).unwrap();
    env.add_level_succ(2, 1).unwrap();
    env.add_level_param(3, 1).unwrap();
    env.add_level_param(4, 2).unwrap();
    env.add_level_max(5, 2, 3).unwrap();
    env.add_level_imax(6, 5, 4).unwrap();
    assert_eq!(
        env.level_to_string(6),
        Ok("(imax (max (succ (succ 0)) l1) l2)".to_string())
    );
}

#[test]
fn occupied_index_is_refused_and_table_kept() {
    let mut env = Environment::new();
    env.add_name(1, NameItem::Str("a".to_string()), 0).unwrap();
    assert_eq!(
        env.add_name(1, NameItem::Str("b".to_string()), 0),
        Err(IntegrityError::Occupied)
    );
    assert_eq!(env.name_to_string(1), Ok("a".to_string()));
    assert_eq!(env.add_level_succ(0, 0), Err(IntegrityError::Occupied));
    assert_eq!(env.level_to_string(0), Ok("0".to_string()));
    env.add_expr_bound_var(0, 0).unwrap();
    assert_eq!(env.add_expr_sort(0, 0), Err(IntegrityError::Occupied));
}

#[test]
fn name_index_zero_is_reserved() {
    let mut env = Environment::new();
    assert_eq!(
        env.add_name(0, NameItem::Str("a".to_string()), 0),
        Err(IntegrityError::Reserved)
    );
    assert_eq!(env.name_to_string(0), Err(NotFoundError));
}

#[test]
fn missing_references_are_refused() {
    let mut env = Environment::new();
    assert_eq!(
        env.add_name(1, NameItem::Str("a".to_string()), 7),
        Err(IntegrityError::Missing)
    );
    assert_eq!(env.name_to_string(1), Err(NotFoundError));
    assert_eq!(env.add_level_succ(1, 3), Err(IntegrityError::Missing));
    assert_eq!(env.add_level_max(1, 0, 3), Err(IntegrityError::Missing));
    assert_eq!(env.add_level_imax(1, 3, 0), Err(IntegrityError::Missing));
    assert_eq!(env.add_level_param(1, 1), Err(IntegrityError::Missing));
    assert_eq!(env.level_to_string(1), Err(NotFoundError));
    assert_eq!(env.add_expr_sort(0, 9), Err(IntegrityError::Missing));
    assert_eq!(env.add_expr_funappl(0, 1, 2), Err(IntegrityError::Missing));
    env.add_name(1, NameItem::Str("x".to_string()), 0).unwrap();
    assert_eq!(env.add_expr_constant(0, 1, vec![0, 5]), Err(IntegrityError::Missing));
    assert_eq!(
        env.add_expr_lambda(0, InfoAnnotation::Default, 1, 0, 0),
        Err(IntegrityError::Missing)
    );
    assert_eq!(
        env.add_expr_pi(0, InfoAnnotation::Default, 2, 0, 0),
        Err(IntegrityError::Missing)
    );
    assert_eq!(env.expr_to_string(0), Err(NotFoundError));
    env.add_expr_sort(0, 0).unwrap();
    assert_eq!(env.add_definition(1, 0, 3, vec![]), Err(IntegrityError::Missing));
    assert_eq!(env.add_definition(1, 0, 0, vec![4]), Err(IntegrityError::Missing));
    assert_eq!(env.add_definition(2, 0, 0, vec![]), Err(IntegrityError::Missing));
    assert_eq!(env.add_inductive(0, 1, 0, vec![(1, 8)], vec![]), Err(IntegrityError::Missing));
    assert_eq!(env.add_inductive(0, 3, 0, vec![], vec![]), Err(IntegrityError::Missing));
    assert_eq!(env.decl_to_string(1), Err(NotFoundError));
}

fn definition_env() -> Environment {
    let mut env = Environment::new();
    env.add_name(1, NameItem::Str("id".to_string()), 0).unwrap();
    env.add_name(2, NameItem::Str("x".to_string()), 0).unwrap();
    env.add_expr_sort(0, 0).unwrap();
    env.add_expr_bound_var(1, 0).unwrap();
    env.add_expr_lambda(2, InfoAnnotation::Default, 2, 0, 1).unwrap();
    env
}

#[test]
fn definition_renders_binder_names() {
    let mut env = definition_env();
    env.add_definition(1, 0, 2, vec![]).unwrap();
    assert_eq!(
        env.decl_to_string(1),
        Ok("definition id Sort 0 := (x : Sort 0), x".to_string())
    );
    assert_eq!(env.add_definition(1, 0, 2, vec![]), Err(IntegrityError::Occupied));
}

#[test]
fn definition_with_universe_parameters() {
    let mut env = definition_env();
    env.add_name(3, NameItem::Str("u".to_string()), 0).unwrap();
    env.add_name(4, NameItem::Str("v".to_string()), 0).unwrap();
    env.add_definition(1, 0, 2, vec![3, 4]).unwrap();
    assert_eq!(
        env.decl_to_string(1),
        Ok("definition id.{u,v} Sort 0 := (x : Sort 0), x".to_string())
    );
}

#[test]
fn free_bound_variable_prints_placeholder() {
    let mut env = Environment::new();
    env.add_expr_bound_var(0, 3).unwrap();
    assert_eq!(env.expr_to_string(0), Ok("<3>".to_string()));
    let mut stack = vec!["a".to_string(), "b".to_string()];
    assert_eq!(env.expr_to_string_help(0, &mut stack), "<3>");
    assert_eq!(stack, vec!["a".to_string(), "b".to_string()]);
    env.add_expr_bound_var(1, 1).unwrap();
    assert_eq!(env.expr_to_string_help(1, &mut stack), "a");
    assert_eq!(stack, vec!["a".to_string(), "b".to_string()]);
}

#[test]
fn binder_delimiters() {
    let mut env = Environment::new();
    env.add_name(1, NameItem::Str("a".to_string()), 0).unwrap();
    env.add_expr_sort(0, 0).unwrap();
    env.add_expr_bound_var(1, 0).unwrap();
    env.add_expr_pi(2, InfoAnnotation::Implicit, 1, 0, 1).unwrap();
    env.add_expr_pi(3, InfoAnnotation::StrictImplicit, 1, 0, 1).unwrap();
    env.add_expr_lambda(4, InfoAnnotation::InstImplicit, 1, 0, 1).unwrap();
    assert_eq!(env.expr_to_string(2), Ok("{a : Sort 0}, a".to_string()));
    assert_eq!(env.expr_to_string(3), Ok("{{a : Sort 0}}, a".to_string()));
    assert_eq!(env.expr_to_string(4), Ok("[a : Sort 0], a".to_string()));
    assert_eq!(InfoAnnotation::Default.to_delims(), ("(", ")"));
}

#[test]
fn nested_binders_resolve_innermost_first() {
    let mut env = Environment::new();
    env.add_name(1, NameItem::Str("a".to_string()), 0).unwrap();
    env.add_name(2, NameItem::Str("b".to_string()), 0).unwrap();
    env.add_expr_sort(0, 0).unwrap();
    env.add_expr_bound_var(1, 0).unwrap();
    env.add_expr_bound_var(2, 1).unwrap();
    env.add_expr_funappl(3, 1, 2).unwrap();
    env.add_expr_lambda(4, InfoAnnotation::Default, 2, 0, 3).unwrap();
    env.add_expr_lambda(5, InfoAnnotation::Default, 1, 0, 4).unwrap();
    assert_eq!(
        env.expr_to_string(5),
        Ok("(a : Sort 0), (b : Sort 0), (b a)".to_string())
    );
    assert_eq!(env.expr_to_string(3), Ok("(<0> <1>)".to_string()));
}

#[test]
fn constant_with_levels() {
    let mut env = Environment::new();
    env.add_name(1, NameItem::Str("List".to_string()), 0).unwrap();
    env.add_name(2, NameItem::Str("u".to_string()), 0).unwrap();
    env.add_level_param(1, 2).unwrap();
    env.add_level_succ(2, 1).unwrap();
    env.add_expr_constant(0, 1, vec![]).unwrap();
    env.add_expr_constant(1, 1, vec![1, 2]).unwrap();
    assert_eq!(env.expr_to_string(0), Ok("List".to_string()));
    assert_eq!(env.expr_to_string(1), Ok("List.{u,(succ u)}".to_string()));
}

#[test]
fn inductive_renders_constructors() {
    let mut env = Environment::new();
    env.add_name(1, NameItem::Str("Nat".to_string()), 0).unwrap();
    env.add_name(2, NameItem::Str("zero".to_string()), 1).unwrap();
    env.add_name(3, NameItem::Str("succ".to_string()), 1).unwrap();
    env.add_name(4, NameItem::Str("u".to_string()), 0).unwrap();
    env.add_name(5, NameItem::Str("n".to_string()), 0).unwrap();
    env.add_level_succ(1, 0).unwrap();
    env.add_expr_sort(0, 1).unwrap();
    env.add_expr_constant(1, 1, vec![]).unwrap();
    env.add_expr_pi(2, InfoAnnotation::Default, 5, 1, 1).unwrap();
    env.add_inductive(0, 1, 0, vec![(2, 1), (3, 2)], vec![]).unwrap();
    assert_eq!(
        env.decl_to_string(1),
        Ok("inductive Nat Sort (succ 0)\n| Nat.zero : Nat \n| Nat.succ : (n : Nat), Nat".to_string())
    );
    env.add_inductive(1, 4, 0, vec![], vec![4]).unwrap();
    assert_eq!(env.decl_to_string(4), Ok("inductive u {u} Sort (succ 0)".to_string()));
    assert_eq!(env.add_inductive(0, 1, 0, vec![], vec![]), Err(IntegrityError::Occupied));
}

#[test]
fn name_item_text() {
    assert_eq!(NameItem::Int(1234567890).to_text(), "1234567890");
    assert_eq!(NameItem::Int(0).to_text(), "0");
    assert_eq!(NameItem::Str("abc".to_string()).to_text(), "abc");
}

//! Scopes and the tables they are made of.

use rlox::environment::Environment;
use rlox::locals::Locals;
use rlox::lox_type::LoxType;
use rlox::table::Table;
use rlox::token::Token;
use rlox::token_type::TokenType;

fn number(value: f64) -> LoxType {
    LoxType::Number(value.to_bits())
}

fn identifier(name: &str, line: usize) -> Token {
    Token::new(TokenType::Identifier, name.to_string(), None, line)
}

#[test]
fn table_binds_names() {
    let mut table: Table<usize> = Table::new();
    assert!(!table.contains_key("a"));
    assert_eq!(table.get("a"), None);
    table.insert("a".to_string(), 1);
    table.insert("b".to_string(), 2);
    assert!(table.contains_key("a"));
    assert!(table.contains_key("b"));
    assert!(!table.contains_key("ab"));
    assert!(!table.contains_key(""));
    assert_eq!(table.get("a"), Some(&1));
    assert_eq!(table.get("b"), Some(&2));
    table.insert("a".to_string(), 3);
    assert_eq!(table.get("a"), Some(&3));
    assert_eq!(table.get("b"), Some(&2));
    table.insert("".to_string(), 4);
    assert_eq!(table.get(""), Some(&4));
}

#[test]
fn new_environment_has_one_empty_scope() {
    let environment = Environment::new();
    assert_eq!(environment.len(), 1);
    assert_eq!(environment.enclosing(0), None);
    assert_eq!(environment.get(0, "a"), None);
}

#[test]
fn scopes_link_to_the_scope_around_them() {
    let mut environment = Environment::new();
    let first = environment.with_enclosing(0);
    let second = environment.with_enclosing(first);
    let sibling = environment.with_enclosing(0);
    assert_eq!((first, second, sibling), (1, 2, 3));
    assert_eq!(environment.enclosing(second), Some(first));
    assert_eq!(environment.enclosing(first), Some(0));
    assert_eq!(environment.enclosing(sibling), Some(0));
    assert_eq!(environment.len(), 4);
}

#[test]
fn get_searches_outwards() {
    let mut environment = Environment::new();
    let inner = environment.with_enclosing(0);
    let innermost = environment.with_enclosing(inner);
    environment.define(0, "a", number(1.0));
    environment.define(0, "b", number(2.0));
    environment.define(inner, "b", number(3.0));
    assert_eq!(environment.get(innermost, "a"), Some(number(1.0)));
    assert_eq!(environment.get(innermost, "b"), Some(number(3.0)));
    assert_eq!(environment.get(inner, "b"), Some(number(3.0)));
    assert_eq!(environment.get(0, "b"), Some(number(2.0)));
    assert_eq!(environment.get(innermost, "c"), None);
}

#[test]
fn get_does_not_search_inwards_or_sideways() {
    let mut environment = Environment::new();
    let inner = environment.with_enclosing(0);
    let sibling = environment.with_enclosing(0);
    environment.define(inner, "a", number(1.0));
    assert_eq!(environment.get(0, "a"), None);
    assert_eq!(environment.get(sibling, "a"), None);
}

#[test]
fn get_at_looks_at_exactly_one_scope() {
    let mut environment = Environment::new();
    let inner = environment.with_enclosing(0);
    let innermost = environment.with_enclosing(inner);
    environment.define(0, "a", number(1.0));
    environment.define(innermost, "a", number(3.0));
    environment.define(inner, "only", number(2.0));
    assert_eq!(environment.get_at(innermost, 0, "a"), Some(number(3.0)));
    assert_eq!(environment.get_at(innermost, 1, "a"), None);
    assert_eq!(environment.get_at(innermost, 2, "a"), Some(number(1.0)));
    assert_eq!(environment.get_at(innermost, 1, "only"), Some(number(2.0)));
    assert_eq!(environment.get_at(innermost, 0, "only"), None);
    assert_eq!(environment.get_at(innermost, 2, "only"), None);
}

#[test]
fn get_at_beyond_the_chain_finds_nothing() {
    let mut environment = Environment::new();
    let inner = environment.with_enclosing(0);
    environment.define(0, "a", number(1.0));
    assert_eq!(environment.get_at(inner, 2, "a"), None);
    assert_eq!(environment.get_at(0, 1, "a"), None);
    assert_eq!(environment.get_at(inner, usize::MAX, "a"), None);
}

#[test]
fn define_overwrites_in_the_same_scope_only() {
    let mut environment = Environment::new();
    let inner = environment.with_enclosing(0);
    environment.define(0, "a", number(1.0));
    environment.define(inner, "a", number(2.0));
    environment.define(inner, "a", number(3.0));
    assert_eq!(environment.get_at(inner, 0, "a"), Some(number(3.0)));
    assert_eq!(environment.get_at(inner, 1, "a"), Some(number(1.0)));
}

#[test]
fn assign_changes_the_first_scope_that_binds_the_name() {
    let mut environment = Environment::new();
    let inner = environment.with_enclosing(0);
    let innermost = environment.with_enclosing(inner);
    environment.define(0, "a", number(1.0));
    environment.define(inner, "a", number(2.0));
    assert!(environment.assign(innermost, "a", number(9.0)));
    assert_eq!(environment.get_at(innermost, 0, "a"), None);
    assert_eq!(environment.get_at(innermost, 1, "a"), Some(number(9.0)));
    assert_eq!(environment.get_at(innermost, 2, "a"), Some(number(1.0)));
}

#[test]
fn assign_never_makes_a_binding() {
    let mut environment = Environment::new();
    let inner = environment.with_enclosing(0);
    assert!(!environment.assign(inner, "a", number(1.0)));
    assert_eq!(environment.get(inner, "a"), None);
    assert_eq!(environment.get(0, "a"), None);
}

#[test]
fn assign_at_changes_exactly_the_scope_at_the_distance() {
    let mut environment = Environment::new();
    let inner = environment.with_enclosing(0);
    let innermost = environment.with_enclosing(inner);
    environment.define(0, "a", number(1.0));
    environment.define(inner, "a", number(2.0));
    environment.define(innermost, "a", number(3.0));
    assert!(environment.assign_at(innermost, 1, "a", number(20.0)));
    assert_eq!(environment.get_at(innermost, 0, "a"), Some(number(3.0)));
    assert_eq!(environment.get_at(innermost, 1, "a"), Some(number(20.0)));
    assert_eq!(environment.get_at(innermost, 2, "a"), Some(number(1.0)));
    assert!(environment.assign_at(innermost, 2, "a", number(10.0)));
    assert_eq!(environment.get_at(innermost, 0, "a"), Some(number(3.0)));
    assert_eq!(environment.get_at(innermost, 1, "a"), Some(number(20.0)));
    assert_eq!(environment.get_at(innermost, 2, "a"), Some(number(10.0)));
}

#[test]
fn assign_at_does_not_search_and_does_not_bind() {
    let mut environment = Environment::new();
    let inner = environment.with_enclosing(0);
    environment.define(0, "a", number(1.0));
    assert!(!environment.assign_at(inner, 0, "a", number(5.0)));
    assert_eq!(environment.get_at(inner, 0, "a"), None);
    assert_eq!(environment.get_at(inner, 1, "a"), Some(number(1.0)));
    assert!(!environment.assign_at(inner, 2, "a", number(5.0)));
    assert_eq!(environment.get_at(inner, 1, "a"), Some(number(1.0)));
}

#[test]
fn every_holder_of_a_scope_sees_a_change() {
    let mut environment = Environment::new();
    let shared = environment.with_enclosing(0);
    let left = environment.with_enclosing(shared);
    let right = environment.with_enclosing(shared);
    environment.define(shared, "n", number(0.0));
    assert!(environment.assign(left, "n", number(1.0)));
    assert_eq!(environment.get(right, "n"), Some(number(1.0)));
    assert!(environment.assign_at(right, 1, "n", number(2.0)));
    assert_eq!(environment.get(left, "n"), Some(number(2.0)));
}

#[test]
fn values_keep_their_text() {
    let mut environment = Environment::new();
    environment.define(0, "s", LoxType::String("héllo".to_string()));
    assert_eq!(environment.get(0, "s"), Some(LoxType::String("héllo".to_string())));
}

#[test]
fn distances_are_recorded_by_text_and_line() {
    let mut locals = Locals::new();
    assert_eq!(locals.get(&identifier("a", 1)), None);
    locals.insert(&identifier("a", 1), 2);
    locals.insert(&identifier("a", 3), 0);
    locals.insert(&identifier("b", 1), 5);
    assert_eq!(locals.get(&identifier("a", 1)), Some(2));
    assert_eq!(locals.get(&identifier("a", 3)), Some(0));
    assert_eq!(locals.get(&identifier("b", 1)), Some(5));
    assert_eq!(locals.get(&identifier("a", 2)), None);
    assert_eq!(locals.get(&identifier("b", 3)), None);
    assert_eq!(locals.get(&identifier("a", 100)), None);
    locals.insert(&identifier("a", 1), 7);
    assert_eq!(locals.get(&identifier("a", 1)), Some(7));
    assert_eq!(locals.get(&identifier("a", 0)), None);
    locals.insert(&identifier("a", 0), 1);
    assert_eq!(locals.get(&identifier("a", 0)), Some(1));
}

#[test]
fn tokens_are_the_same_when_text_and_line_are() {
    let a = identifier("a", 1);
    assert!(a == identifier("a", 1));
    assert!(a != identifier("a", 2));
    assert!(a != identifier("b", 1));
    assert!(a == Token::new(TokenType::This, "a".to_string(), Some(LoxType::Nil), 1));
    let copy = a.clone();
    assert_eq!(copy.lexeme, "a");
    assert_eq!(copy.line, 1);
    assert_eq!(copy.token_type, TokenType::Identifier);
    assert!(copy.literal.is_none());
}

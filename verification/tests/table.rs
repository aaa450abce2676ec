use vera::table::Table;
use vera::tokenizer::Token;

fn key(text: &str) -> String {
    text.to_string()
}

#[test]
fn empty_table_holds_nothing() {
    let table: Table<Token> = Table::new();
    assert_eq!(table.get(&key("x")), None);
    assert!(!table.contains_key(&key("x")));
    assert!(!table.contains_key(&key("")));
}

#[test]
fn insert_then_get() {
    let mut table: Table<Token> = Table::new();
    table.insert(key("x"), Token::IntegerType);
    table.insert(key("y"), Token::StringType);
    assert_eq!(table.get(&key("x")), Some(&Token::IntegerType));
    assert_eq!(table.get(&key("y")), Some(&Token::StringType));
    assert_eq!(table.get(&key("z")), None);
    assert!(table.contains_key(&key("x")));
    assert!(!table.contains_key(&key("X")));
}

#[test]
fn the_last_insertion_under_a_name_wins() {
    let mut table: Table<Token> = Table::new();
    table.insert(key("x"), Token::IntegerType);
    table.insert(key("y"), Token::BooleanType);
    table.insert(key("x"), Token::StringType);
    assert_eq!(table.get(&key("x")), Some(&Token::StringType));
    assert_eq!(table.get(&key("y")), Some(&Token::BooleanType));
    table.insert(key("x"), Token::IntegerType);
    assert_eq!(table.get(&key("x")), Some(&Token::IntegerType));
}

#[test]
fn the_empty_name_is_a_name() {
    let mut table: Table<Token> = Table::new();
    table.insert(String::new(), Token::Plus);
    assert_eq!(table.get(&String::new()), Some(&Token::Plus));
    assert_eq!(table.get(&key(" ")), None);
}

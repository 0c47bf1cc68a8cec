use erl_aotc::fterm::{
    is_first_unquoted_atom_character, is_unquoted_atom, is_unquoted_atom_character, FTerm,
};

fn atom(s: &str) -> FTerm {
    FTerm::Atom(s.to_string())
}

#[test]
fn shape_tests() {
    assert!(atom("a").is_atom());
    assert!(!FTerm::Int64(1).is_atom());
    assert!(FTerm::Int64(1).is_int());
    assert!(!atom("a").is_int());
    assert!(FTerm::List(vec![atom("a")]).is_list());
    assert!(FTerm::EmptyList.is_list());
    assert!(!FTerm::EmptyTuple.is_list());
    assert!(FTerm::Tuple(vec![atom("a")]).is_tuple());
    assert!(FTerm::EmptyTuple.is_tuple());
    assert!(!FTerm::EmptyList.is_tuple());
    assert!(!FTerm::String("a".to_string()).is_atom());
}

#[test]
fn atom_with_a_given_text() {
    assert!(atom("k_fdef").is_atom_of("k_fdef"));
    assert!(!atom("k_fdef").is_atom_of("k_mdef"));
    assert!(!atom("k_fdef").is_atom_of("k_fde"));
    assert!(!FTerm::String("k_fdef".to_string()).is_atom_of("k_fdef"));
}

#[test]
fn coercions() {
    assert_eq!(atom("abc").get_atom_text(), "abc".to_string());
    assert_eq!(FTerm::Int64(-7).get_i64(), -7);
    assert!(atom("true").get_bool());
    assert!(!atom("false").get_bool());
    let items = vec![atom("a"), FTerm::Int64(2)];
    assert_eq!(FTerm::List(items.clone()).get_vec(), items);
    assert_eq!(FTerm::Tuple(items.clone()).get_vec(), items);
    assert_eq!(FTerm::EmptyList.get_vec(), vec![]);
    assert_eq!(FTerm::EmptyTuple.get_vec(), vec![]);
    assert_eq!(FTerm::List(items.clone()).get_list_vec(), items);
    assert_eq!(FTerm::EmptyList.get_list_vec(), vec![]);
    assert_eq!(FTerm::Tuple(items.clone()).get_tuple_vec(), items);
    assert_eq!(FTerm::EmptyTuple.get_tuple_vec(), vec![]);
    assert_eq!(FTerm::List(items).list_size(), 2);
    assert_eq!(FTerm::EmptyList.list_size(), 0);
}

#[test]
fn clone_is_deep() {
    let t = FTerm::Tuple(vec![
        atom("a"),
        FTerm::List(vec![FTerm::Int64(1), FTerm::String("s".to_string())]),
        FTerm::Binary(vec![1, 2]),
        FTerm::EmptyList,
    ]);
    assert_eq!(t.clone(), t);
}

#[test]
fn atoms_that_need_no_quotes() {
    assert!(is_unquoted_atom(&"abc".to_string()));
    assert!(is_unquoted_atom(&"a_B9".to_string()));
    assert!(is_unquoted_atom(&"_x".to_string()));
    assert!(is_unquoted_atom(&"1abc".to_string()));
    assert!(!is_unquoted_atom(&"".to_string()));
    assert!(!is_unquoted_atom(&"Abc".to_string()));
    assert!(!is_unquoted_atom(&"a b".to_string()));
    assert!(!is_unquoted_atom(&"a@b".to_string()));
    assert!(!is_unquoted_atom(&"é".to_string()));
    assert!(is_unquoted_atom_character('Z'));
    assert!(!is_unquoted_atom_character('-'));
    assert!(is_first_unquoted_atom_character('7'));
    assert!(!is_first_unquoted_atom_character('Z'));
}

#[test]
fn text_of_atoms() {
    assert_eq!(atom("abc").to_text(), "abc");
    assert_eq!(atom("k_fdef").to_text(), "k_fdef");
    assert_eq!(atom("Abc").to_text(), "'Abc'");
    assert_eq!(atom("aaa@example.com").to_text(), "'aaa@example.com'");
    assert_eq!(atom("").to_text(), "''");
    assert_eq!(atom("<=").to_text(), "'<='");
}

#[test]
fn text_of_strings() {
    assert_eq!(FTerm::String("str".to_string()).to_text(), "\"str\"");
    assert_eq!(FTerm::String(String::new()).to_text(), "\"\"");
    assert_eq!(FTerm::String("a b".to_string()).to_text(), "\"a\\x20b\"");
    assert_eq!(FTerm::String("a\nb".to_string()).to_text(), "\"a\\xab\"");
    assert_eq!(FTerm::String("\u{0}\u{f}\u{10}\u{1f}!".to_string()).to_text(), "\"\\x0\\xf\\x10\\x1f!\"");
    assert_eq!(FTerm::String("é\u{7f}".to_string()).to_text(), "\"é\u{7f}\"");
}

#[test]
fn text_of_integers() {
    assert_eq!(FTerm::Int64(0).to_text(), "0");
    assert_eq!(FTerm::Int64(7).to_text(), "7");
    assert_eq!(FTerm::Int64(10).to_text(), "10");
    assert_eq!(FTerm::Int64(-1).to_text(), "-1");
    assert_eq!(FTerm::Int64(1234567890).to_text(), "1234567890");
    assert_eq!(FTerm::Int64(i64::MAX).to_text(), "9223372036854775807");
    assert_eq!(FTerm::Int64(i64::MIN).to_text(), "-9223372036854775808");
}

#[test]
fn text_of_lists_and_tuples() {
    assert_eq!(FTerm::EmptyList.to_text(), "[]");
    assert_eq!(FTerm::EmptyTuple.to_text(), "{}");
    assert_eq!(FTerm::List(vec![atom("a")]).to_text(), "[a]");
    assert_eq!(FTerm::List(vec![atom("a"), FTerm::Int64(1)]).to_text(), "[a, 1]");
    assert_eq!(FTerm::Tuple(vec![atom("foo"), FTerm::Int64(1), FTerm::Int64(2), FTerm::Int64(3)]).to_text(), "{foo, 1, 2, 3}");
    assert_eq!(
        FTerm::Tuple(vec![atom("a"), FTerm::List(vec![FTerm::EmptyTuple, FTerm::String("x".to_string())]), atom("B")]).to_text(),
        "{a, [{}, \"x\"], 'B'}"
    );
}

#[test]
fn text_of_binaries() {
    assert_eq!(FTerm::Binary(vec![]).to_text(), "<<[]>>");
    assert_eq!(FTerm::Binary(vec![0, 10, 255]).to_text(), "<<[0, 10, 255]>>");
}

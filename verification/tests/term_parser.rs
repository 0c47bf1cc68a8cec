use erl_aotc::fterm::FTerm;
use erl_aotc::parser::parse_nodot;

fn mk_atom(s: &str) -> FTerm {
    FTerm::Atom(s.to_string())
}

#[test]
fn erlang_term_parser_atoms() {
    let expr = parse_nodot("atom").unwrap();
    assert_eq!(expr, FTerm::Atom("atom".to_string()));

    let expr = parse_nodot("'aaa@example.com'").unwrap();
    assert_eq!(expr, FTerm::Atom("aaa@example.com".to_string()));
}

#[test]
fn lib_erlang_term_parser_str() {
    let expr = parse_nodot(r#""""#).unwrap();
    assert_eq!(expr, FTerm::String(String::new()));

    let expr = parse_nodot(r#""str""#).unwrap();
    assert_eq!(expr, FTerm::String("str".to_string()));
}

#[test]
fn lib_erlang_term_parser_list() {
    let expr = parse_nodot("[atom]").unwrap();
    assert_eq!(expr, FTerm::List(vec![FTerm::Atom("atom".to_string())]));

    let expr = parse_nodot("[atom, atom]").unwrap();
    assert_eq!(
        expr,
        FTerm::List(vec![FTerm::Atom("atom".to_string()), FTerm::Atom("atom".to_string())])
    );

    let expr = parse_nodot("{atom}").unwrap();
    assert_eq!(expr, FTerm::Tuple(vec![FTerm::Atom("atom".to_string())]));

    let expr = parse_nodot("{atom, atom}").unwrap();
    assert_eq!(
        expr,
        FTerm::Tuple(vec![FTerm::Atom("atom".to_string()), FTerm::Atom("atom".to_string())])
    );
}

#[test]
fn erlang_term_parser_atom() {
    // One letter atom
    let expr = parse_nodot("a").unwrap();
    assert_eq!(expr, mk_atom("a"));

    let expr = parse_nodot("atom").unwrap();
    assert_eq!(expr, mk_atom("atom"));
}

#[test]
fn erlang_term_parser_q_atom() {
    let expr = parse_nodot("'a'").unwrap();
    assert_eq!(expr, mk_atom("a"));

    let expr = parse_nodot("'<='").unwrap();
    assert_eq!(expr, mk_atom("<="));

    let expr = parse_nodot("'aaa@example.com'").unwrap();
    assert_eq!(expr, mk_atom("aaa@example.com"));
}

#[test]
fn erlang_term_parser_str() {
    let expr = parse_nodot(r#""""#).unwrap();
    assert_eq!(expr, FTerm::String(String::new()));

    let expr = parse_nodot(r#""str""#).unwrap();
    assert_eq!(expr, FTerm::String("str".to_string()));
}

#[test]
fn erlang_term_parser_escaped_str() {
    let expr = parse_nodot(r#""\"""#).unwrap();
    assert_eq!(expr, FTerm::String(r#"""#.to_string()));
}

#[test]
fn erlang_term_parser_list() {
    let expr = parse_nodot("[atom]").unwrap();
    assert_eq!(expr, FTerm::List(vec![mk_atom("atom")]));

    let expr = parse_nodot("[atom, atom]").unwrap();
    assert_eq!(expr, FTerm::List(vec![mk_atom("atom"), mk_atom("atom")]));
}

#[test]
fn erlang_term_parser_tuple() {
    let expr = parse_nodot("{atom}").unwrap();
    assert_eq!(expr, FTerm::Tuple(vec![mk_atom("atom")]));

    let expr = parse_nodot("{atom, atom}").unwrap();
    assert_eq!(expr, FTerm::Tuple(vec![mk_atom("atom"), mk_atom("atom")]));
}

use erl_aotc::erl_types::MFA;
use erl_aotc::fterm::FTerm;
use erl_aotc::kernel::lower::{LowerError, Shape, Tag};
use erl_aotc::kernel::parse::{
    arity_of_form, as_arity, as_atom, as_bool, as_int, as_unit, parse_expr, parse_expr_list,
    parse_form, parse_funref, tag_of,
};
use erl_aotc::kernel::{
    Expr, FunRef, KAlt, KBinarySegment, KCall, KEnter, KGuard, KGuardClause, KMatch, KReturn,
    KSelect, KSeq, KTypeClause, KValClause,
};
use erl_aotc::parser::parse_nodot;

fn term(text: &str) -> FTerm {
    parse_nodot(text).unwrap()
}

fn lower(text: &str) -> Result<Expr, LowerError> {
    parse_expr(&term(text))
}

fn atom(s: &str) -> Expr {
    Expr::Atom(s.to_string())
}

fn var(s: &str) -> Expr {
    Expr::Variable(s.to_string())
}

fn anno(n: i64) -> FTerm {
    FTerm::List(vec![FTerm::Int64(n)])
}

fn expected(shape: Shape, got: &str) -> LowerError {
    LowerError::Expected { shape, got: term(got) }
}

#[test]
fn bare_terms() {
    assert_eq!(lower("42"), Ok(Expr::Int64(42)));
    assert_eq!(lower("ok"), Ok(atom("ok")));
    assert_eq!(lower("[]"), Ok(Expr::MultipleExprs(vec![])));
    assert_eq!(
        lower("[{k_atom, [], a}, {k_int, [], 1}]"),
        Ok(Expr::MultipleExprs(vec![atom("a"), Expr::Int64(1)]))
    );
}

#[test]
fn elements_of_a_list_are_forms() {
    assert_eq!(lower("[a]"), Err(expected(Shape::TaggedTuple, "a")));
    assert_eq!(lower("[{k_atom, [], a}, 1]"), Err(expected(Shape::TaggedTuple, "1")));
    assert_eq!(parse_expr_list(&term("{k_atom, [], a}")), Err(expected(Shape::List, "{k_atom, [], a}")));
    assert_eq!(parse_expr_list(&term("[]")), Ok(vec![]));
}

#[test]
fn what_is_no_form() {
    assert_eq!(lower("\"str\""), Err(expected(Shape::TaggedTuple, "\"str\"")));
    assert_eq!(lower("{}"), Err(expected(Shape::TaggedTuple, "{}")));
    assert_eq!(parse_form(&FTerm::Tuple(vec![])), Err(LowerError::Expected { shape: Shape::TaggedTuple, got: FTerm::Tuple(vec![]) }));
    assert_eq!(parse_form(&term("a")), Err(expected(Shape::TaggedTuple, "a")));
    assert_eq!(lower("{1, 2}"), Err(expected(Shape::Atom, "1")));
    assert_eq!(lower("{\"k_nil\", []}"), Err(expected(Shape::Atom, "\"k_nil\"")));
}

#[test]
fn unknown_and_unsupported_tags() {
    assert_eq!(lower("{k_frob, [], 1}"), Err(LowerError::UnknownTag("k_frob".to_string())));
    assert_eq!(lower("{k_local, [], f, 1}"), Err(LowerError::UnknownTag("k_local".to_string())));
    for tag in ["k_try", "k_try_enter", "k_catch", "k_receive", "k_receive_accept", "k_receive_next", "k_break"] {
        assert_eq!(lower(&format!("{{{}, [], 1}}", tag)), Err(LowerError::UnsupportedForm(tag.to_string())));
        assert_eq!(lower(&format!("{{{}}}", tag)), Err(LowerError::UnsupportedForm(tag.to_string())));
    }
}

#[test]
fn tags_and_their_arities() {
    let table = [
        ("k_var", Tag::Var, 3),
        ("k_bif", Tag::Bif, 5),
        ("k_atom", Tag::Atom, 3),
        ("k_int", Tag::Int, 3),
        ("k_call", Tag::Call, 5),
        ("k_literal", Tag::Literal, 3),
        ("k_put", Tag::Put, 4),
        ("k_cons", Tag::Cons, 4),
        ("k_nil", Tag::Nil, 2),
        ("k_protected", Tag::Protected, 4),
        ("k_test", Tag::Test, 5),
        ("k_guard_match", Tag::GuardMatch, 5),
        ("k_tuple", Tag::Tuple, 3),
        ("k_binary", Tag::Binary, 3),
        ("k_match", Tag::Match, 5),
        ("k_seq", Tag::Sequence, 4),
        ("k_alt", Tag::Alt, 4),
        ("k_enter", Tag::Enter, 4),
        ("k_return", Tag::Return, 3),
        ("k_select", Tag::Select, 4),
        ("k_guard", Tag::Guard, 3),
        ("k_guard_break", Tag::GuardBreak, 3),
    ];
    for (name, tag, arity) in table {
        assert_eq!(tag_of(name), tag);
        assert_eq!(arity_of_form(tag), arity);
    }
    assert_eq!(tag_of("k_receive"), Tag::Unsupported);
    assert_eq!(tag_of("k_"), Tag::Unknown);
    assert_eq!(tag_of(""), Tag::Unknown);
    assert_eq!(tag_of("K_VAR"), Tag::Unknown);
}

#[test]
fn a_form_has_the_elements_of_its_tag() {
    assert_eq!(lower("{k_nil}"), Err(expected(Shape::Form, "{k_nil}")));
    assert_eq!(lower("{k_nil, [], []}"), Err(expected(Shape::Form, "{k_nil, [], []}")));
    assert_eq!(lower("{k_atom, []}"), Err(expected(Shape::Form, "{k_atom, []}")));
    assert_eq!(lower("{k_atom, [], a, b}"), Err(expected(Shape::Form, "{k_atom, [], a, b}")));
    assert_eq!(lower("{k_match, [], [], a}"), Err(expected(Shape::Form, "{k_match, [], [], a}")));
    assert_eq!(lower("{k_call, [], a, []}"), Err(expected(Shape::Form, "{k_call, [], a, []}")));
}

#[test]
fn values() {
    assert_eq!(lower("{k_var, [1], x}"), Ok(var("x")));
    assert_eq!(lower("{k_var, [1], 'X'}"), Ok(var("X")));
    assert_eq!(lower("{k_var, [1], 12}"), Ok(var("12")));
    assert_eq!(lower("{k_var, [1], -3}"), Ok(var("-3")));
    assert_eq!(lower("{k_var, [1], \"x\"}"), Err(expected(Shape::VariableName, "\"x\"")));
    assert_eq!(lower("{k_atom, [1], ok}"), Ok(atom("ok")));
    assert_eq!(lower("{k_atom, [1], 1}"), Err(expected(Shape::Atom, "1")));
    assert_eq!(lower("{k_int, [1], 7}"), Ok(Expr::Int64(7)));
    assert_eq!(lower("{k_int, [1], a}"), Err(expected(Shape::Integer, "a")));
    assert_eq!(lower("{k_nil, [1]}"), Ok(Expr::Nil));
    assert_eq!(
        lower("{k_literal, [1], {a, \"b\", [3]}}"),
        Ok(Expr::Value { anno: anno(1), val: term("{a, \"b\", [3]}") })
    );
    assert_eq!(
        lower("{k_tuple, [1], [{k_atom, [], a}, {k_var, [], x}]}"),
        Ok(Expr::Tuple { anno: anno(1), elements: vec![atom("a"), var("x")] })
    );
    assert_eq!(
        lower("{k_cons, [1], {k_int, [], 1}, {k_nil, []}}"),
        Ok(Expr::Cons { anno: anno(1), hd: Box::new(Expr::Int64(1)), tl: Box::new(Expr::Nil) })
    );
}

#[test]
fn put_and_protected() {
    assert_eq!(
        lower("{k_put, [1], {k_atom, [], a}, [{k_var, [], x}]}"),
        Ok(Expr::Put {
            anno: anno(1),
            arg: Box::new(atom("a")),
            ret: Box::new(Expr::MultipleExprs(vec![var("x")]))
        })
    );
    assert_eq!(
        lower("{k_protected, [1], {k_atom, [], a}, []}"),
        Ok(Expr::Protected {
            anno: anno(1),
            arg: Box::new(atom("a")),
            ret: Box::new(Expr::MultipleExprs(vec![]))
        })
    );
}

#[test]
fn annotations_are_kept_as_they_are() {
    assert_eq!(
        lower("{k_return, {anno, [\"file.erl\", {line, 12}], 'X'}, []}"),
        Ok(Expr::Return(KReturn { anno: term("{anno, [\"file.erl\", {line, 12}], 'X'}"), args: vec![] }))
    );
    assert_eq!(
        lower("{k_guard_break, {}, []}"),
        Ok(Expr::GuardBreak { anno: FTerm::EmptyTuple, args: vec![] })
    );
}

#[test]
fn match_and_guard_match() {
    assert_eq!(
        lower("{k_match, [1], [{k_var, [], x}], {k_atom, [], body}, []}"),
        Ok(Expr::Match(Box::new(KMatch {
            anno: anno(1),
            vars: vec![var("x")],
            body: Box::new(atom("body")),
            ret: Expr::Nil
        })))
    );
    assert_eq!(
        lower("{k_match, [1], [], body, [{k_var, [], x}]}"),
        Err(expected(Shape::NoReturnValue, "[{k_var, [], x}]"))
    );
    assert_eq!(
        lower("{k_guard_match, [1], [{k_var, [], x}], {k_atom, [], body}, [{k_var, [], r}]}"),
        Ok(Expr::GuardMatch(Box::new(KMatch {
            anno: anno(1),
            vars: vec![var("x")],
            body: Box::new(atom("body")),
            ret: Expr::MultipleExprs(vec![var("r")])
        })))
    );
}

#[test]
fn sequence_and_alternative() {
    assert_eq!(
        lower("{k_seq, [1], {k_atom, [], a}, {k_atom, [], b}}"),
        Ok(Expr::Sequence(Box::new(KSeq { anno: anno(1), arg: atom("a"), body: atom("b") })))
    );
    assert_eq!(
        lower("{k_alt, [1], {k_atom, [], a}, {k_atom, [], b}}"),
        Ok(Expr::Alt(KAlt { anno: anno(1), first: Box::new(atom("a")), then: Box::new(atom("b")) }))
    );
}

#[test]
fn function_references() {
    assert_eq!(
        parse_funref(&term("{k_local, [], foo, 2}")),
        Ok(FunRef::FArity { f: atom("foo"), arity: Expr::Int64(2) })
    );
    assert_eq!(
        parse_funref(&term("{k_remote, [], {k_atom, [], lists}, {k_atom, [], map}, 2}")),
        Ok(FunRef::MFArity { m: atom("lists"), f: atom("map"), arity: Expr::Int64(2) })
    );
    assert_eq!(
        parse_funref(&term("{k_internal, [], dsetelement, 3}")),
        Ok(FunRef::Internal(MFA::new2("dsetelement".to_string(), 3)))
    );
    assert_eq!(
        parse_funref(&term("{k_bif, [1], {k_internal, [], put_tuple, 1}, [{k_int, [], 1}], []}")),
        Ok(FunRef::Bif(Box::new(KCall {
            anno: anno(1),
            op: FunRef::Internal(MFA::new2("put_tuple".to_string(), 1)),
            args: vec![Expr::Int64(1)],
            ret: vec![]
        })))
    );
}

#[test]
fn what_is_no_function_reference() {
    assert_eq!(parse_funref(&term("{k_atom, [], a}")), Err(LowerError::UnknownFunRef("k_atom".to_string())));
    assert_eq!(parse_funref(&term("foo")), Err(expected(Shape::TaggedTuple, "foo")));
    assert_eq!(parse_funref(&term("{}")), Err(expected(Shape::TaggedTuple, "{}")));
    assert_eq!(parse_funref(&term("{1}")), Err(expected(Shape::Atom, "1")));
    assert_eq!(parse_funref(&term("{k_local, [], foo}")), Err(expected(Shape::Form, "{k_local, [], foo}")));
    assert_eq!(parse_funref(&term("{k_remote, [], m, f}")), Err(expected(Shape::Form, "{k_remote, [], m, f}")));
    assert_eq!(parse_funref(&term("{k_internal, [], f}")), Err(expected(Shape::Form, "{k_internal, [], f}")));
    assert_eq!(parse_funref(&term("{k_bif, [], f}")), Err(expected(Shape::Form, "{k_bif, [], f}")));
    assert_eq!(parse_funref(&term("{k_internal, [], 1, 1}")), Err(expected(Shape::Atom, "1")));
    assert_eq!(parse_funref(&term("{k_internal, [], f, -1}")), Err(expected(Shape::Arity, "-1")));
    assert_eq!(parse_funref(&term("{k_internal, [], f, x}")), Err(expected(Shape::Arity, "x")));
}

#[test]
fn calls_and_bifs() {
    let call = KCall {
        anno: anno(1),
        op: FunRef::FArity { f: atom("foo"), arity: Expr::Int64(1) },
        args: vec![var("x")],
        ret: vec![var("r")],
    };
    assert_eq!(
        lower("{k_call, [1], {k_local, [], foo, 1}, [{k_var, [], x}], [{k_var, [], r}]}"),
        Ok(Expr::Call(Box::new(call)))
    );
    let bif = KCall {
        anno: anno(2),
        op: FunRef::MFArity { m: atom("erlang"), f: atom("+"), arity: Expr::Int64(2) },
        args: vec![Expr::Int64(1), Expr::Int64(2)],
        ret: vec![],
    };
    assert_eq!(
        lower("{k_bif, [2], {k_remote, [], erlang, '+', 2}, [{k_int, [], 1}, {k_int, [], 2}], []}"),
        Ok(Expr::Bif(Box::new(bif)))
    );
}

#[test]
fn enter_and_return() {
    assert_eq!(
        lower("{k_enter, [1], {k_local, [], loop, 1}, [{k_var, [], x}]}"),
        Ok(Expr::Enter(Box::new(KEnter {
            anno: anno(1),
            op: FunRef::FArity { f: atom("loop"), arity: Expr::Int64(1) },
            args: vec![var("x")]
        })))
    );
    assert_eq!(
        lower("{k_return, [1], [{k_atom, [], ok}, {k_int, [], 2}]}"),
        Ok(Expr::Return(KReturn { anno: anno(1), args: vec![atom("ok"), Expr::Int64(2)] }))
    );
    assert_eq!(lower("{k_return, [1], ok}"), Err(expected(Shape::List, "ok")));
}

#[test]
fn tests_and_their_truth_values() {
    let test = |inverted: bool| Expr::Test {
        anno: anno(1),
        op: Box::new(FunRef::MFArity { m: atom("erlang"), f: atom("is_atom"), arity: Expr::Int64(1) }),
        args: vec![var("x")],
        inverted,
    };
    assert_eq!(
        lower("{k_test, [1], {k_remote, [], erlang, is_atom, 1}, [{k_var, [], x}], false}"),
        Ok(test(false))
    );
    assert_eq!(
        lower("{k_test, [1], {k_remote, [], erlang, is_atom, 1}, [{k_var, [], x}], true}"),
        Ok(test(true))
    );
    assert_eq!(
        lower("{k_test, [1], {k_remote, [], erlang, is_atom, 1}, [{k_var, [], x}], maybe}"),
        Err(expected(Shape::Boolean, "maybe"))
    );
    assert_eq!(
        lower("{k_test, [1], {k_remote, [], erlang, is_atom, 1}, [{k_var, [], x}], 1}"),
        Err(expected(Shape::Boolean, "1"))
    );
}

#[test]
fn guards_keep_the_order_of_their_clauses() {
    assert_eq!(
        lower(
            "{k_guard, [1], [{k_guard_clause, [2], {k_atom, [], g1}, {k_atom, [], b1}}, \
             {k_guard_clause, [3], {k_atom, [], g2}, {k_atom, [], b2}}]}"
        ),
        Ok(Expr::Guard(KGuard {
            anno: anno(1),
            clauses: vec![
                KGuardClause { anno: anno(2), guard: atom("g1"), body: atom("b1") },
                KGuardClause { anno: anno(3), guard: atom("g2"), body: atom("b2") },
            ]
        }))
    );
    assert_eq!(lower("{k_guard, [1], []}"), Ok(Expr::Guard(KGuard { anno: anno(1), clauses: vec![] })));
    assert_eq!(lower("{k_guard, [1], {a}}"), Err(expected(Shape::List, "{a}")));
    assert_eq!(lower("{k_guard, [1], [{k_guard, [], a, b}]}"), Err(expected(Shape::GuardClause, "{k_guard, [], a, b}")));
    assert_eq!(lower("{k_guard, [1], [{k_guard_clause, [], a}]}"), Err(expected(Shape::GuardClause, "{k_guard_clause, [], a}")));
    assert_eq!(lower("{k_guard, [1], [[k_guard_clause, [], a, b]]}"), Err(expected(Shape::GuardClause, "[k_guard_clause, [], a, b]")));
    assert_eq!(
        lower("{k_guard_break, [1], [{k_var, [], x}]}"),
        Ok(Expr::GuardBreak { anno: anno(1), args: vec![var("x")] })
    );
}

#[test]
fn a_select_with_its_clauses() {
    assert_eq!(
        lower(
            "{k_select, [1], {k_var, [], x}, [\
               {k_type_clause, [2], k_atom, [\
                  {k_val_clause, [3], {k_atom, [], a}, {k_int, [], 1}}, \
                  {k_val_clause, [4], {k_atom, [], b}, {k_int, [], 2}}]}, \
               {k_type_clause, [5], k_int, [\
                  {k_val_clause, [6], {k_int, [], 0}, {k_int, [], 3}}]}]}"
        ),
        Ok(Expr::Select(Box::new(KSelect {
            anno: anno(1),
            var: var("x"),
            types: vec![
                KTypeClause {
                    anno: anno(2),
                    type_tag: "k_atom".to_string(),
                    values: vec![
                        KValClause { anno: anno(3), val: atom("a"), body: Expr::Int64(1) },
                        KValClause { anno: anno(4), val: atom("b"), body: Expr::Int64(2) },
                    ]
                },
                KTypeClause {
                    anno: anno(5),
                    type_tag: "k_int".to_string(),
                    values: vec![KValClause { anno: anno(6), val: Expr::Int64(0), body: Expr::Int64(3) }]
                },
            ]
        })))
    );
    assert_eq!(
        lower("{k_select, [1], {k_var, [], x}, []}"),
        Ok(Expr::Select(Box::new(KSelect { anno: anno(1), var: var("x"), types: vec![] })))
    );
}

#[test]
fn what_is_no_clause_of_a_select() {
    assert_eq!(lower("{k_select, [1], x, a}"), Err(expected(Shape::Sequence, "a")));
    assert_eq!(lower("{k_select, [1], x, [a]}"), Err(expected(Shape::TypeClause, "a")));
    assert_eq!(
        lower("{k_select, [1], x, [{k_val_clause, [], k_atom, []}]}"),
        Err(expected(Shape::TypeClause, "{k_val_clause, [], k_atom, []}"))
    );
    assert_eq!(
        lower("{k_select, [1], x, [{k_type_clause, [], k_atom}]}"),
        Err(expected(Shape::TypeClause, "{k_type_clause, [], k_atom}"))
    );
    assert_eq!(lower("{k_select, [1], x, [{k_type_clause, [], 1, []}]}"), Err(expected(Shape::Atom, "1")));
    assert_eq!(lower("{k_select, [1], x, [{k_type_clause, [], k_atom, 1}]}"), Err(expected(Shape::Sequence, "1")));
    assert_eq!(
        lower("{k_select, [1], x, [{k_type_clause, [], k_atom, [{k_type_clause, [], a, b}]}]}"),
        Err(expected(Shape::ValClause, "{k_type_clause, [], a, b}"))
    );
    assert_eq!(
        lower("{k_select, [1], x, [{k_type_clause, [], k_atom, [{k_val_clause, [], a}]}]}"),
        Err(expected(Shape::ValClause, "{k_val_clause, [], a}"))
    );
}

#[test]
fn clauses_of_a_select_may_stand_in_lists_or_tuples() {
    let want = Ok(Expr::Select(Box::new(KSelect {
        anno: anno(1),
        var: var("x"),
        types: vec![KTypeClause {
            anno: anno(2),
            type_tag: "k_nil".to_string(),
            values: vec![KValClause { anno: anno(3), val: Expr::Nil, body: atom("b") }],
        }],
    })));
    assert_eq!(
        lower("{k_select, [1], {k_var, [], x}, {{k_type_clause, [2], k_nil, {{k_val_clause, [3], {k_nil, []}, b}}}}}"),
        want
    );
    assert_eq!(
        lower("{k_select, [1], {k_var, [], x}, [[k_type_clause, [2], k_nil, [[k_val_clause, [3], {k_nil, []}, b]]]]}"),
        want
    );
}

#[test]
fn binaries_and_their_segments() {
    assert_eq!(
        lower("{k_binary, [1], {k_bin_end, []}}"),
        Ok(Expr::ConstructBinary { anno: anno(1), segments: None })
    );
    assert_eq!(
        lower(
            "{k_binary, [1], {k_bin_seg, [2], {k_int, [], 8}, 1, integer, [unsigned, big], {k_var, [], x}, \
             {k_bin_seg, [3], {k_atom, [], all}, 8, binary, [], {k_var, [], y}, {k_bin_end, []}}}}"
        ),
        Ok(Expr::ConstructBinary {
            anno: anno(1),
            segments: Some(Box::new(KBinarySegment {
                anno: anno(2),
                size: Expr::Int64(8),
                unit: 1,
                seg_type: "integer".to_string(),
                flags: vec!["unsigned".to_string(), "big".to_string()],
                seg: var("x"),
                next: Some(Box::new(KBinarySegment {
                    anno: anno(3),
                    size: atom("all"),
                    unit: 8,
                    seg_type: "binary".to_string(),
                    flags: vec![],
                    seg: var("y"),
                    next: None,
                })),
            }))
        })
    );
}

#[test]
fn what_is_no_segment_of_a_binary() {
    assert_eq!(lower("{k_binary, [1], []}"), Err(expected(Shape::BinarySegment, "[]")));
    assert_eq!(lower("{k_binary, [1], {k_bin_end}}"), Err(expected(Shape::BinarySegment, "{k_bin_end}")));
    assert_eq!(
        lower("{k_binary, [1], {k_bin_int, [], 8, 1, [], 0, {k_bin_end, []}}}"),
        Err(expected(Shape::BinarySegment, "{k_bin_int, [], 8, 1, [], 0, {k_bin_end, []}}"))
    );
    let seg = |unit: &str, ty: &str, flags: &str, next: &str| {
        lower(&format!("{{k_binary, [1], {{k_bin_seg, [], 8, {}, {}, {}, x, {}}}}}", unit, ty, flags, next))
    };
    assert_eq!(seg("-1", "integer", "[]", "{k_bin_end, []}"), Err(expected(Shape::Unit, "-1")));
    assert_eq!(seg("4294967296", "integer", "[]", "{k_bin_end, []}"), Err(expected(Shape::Unit, "4294967296")));
    assert_eq!(seg("a", "integer", "[]", "{k_bin_end, []}"), Err(expected(Shape::Unit, "a")));
    assert_eq!(seg("1", "\"integer\"", "[]", "{k_bin_end, []}"), Err(expected(Shape::Atom, "\"integer\"")));
    assert_eq!(seg("1", "integer", "big", "{k_bin_end, []}"), Err(expected(Shape::List, "big")));
    assert_eq!(seg("1", "integer", "[big, 1]", "{k_bin_end, []}"), Err(expected(Shape::Atom, "1")));
    assert_eq!(seg("1", "integer", "[]", "nope"), Err(expected(Shape::BinarySegment, "nope")));
    assert!(seg("4294967295", "integer", "[]", "{k_bin_end, []}").is_ok());
}

#[test]
fn the_first_failure_in_the_order_of_lowering_is_reported() {
    // arguments fail from left to right
    assert_eq!(
        lower("{k_return, [], [{k_atom, [], a}, {k_int, [], x}, {k_atom, [], 2}]}"),
        Err(expected(Shape::Integer, "x"))
    );
    // the body of a match is lowered before its variables and its result
    assert_eq!(
        lower("{k_match, [], [{k_atom, [], 1}], {k_int, [], body}, [x]}"),
        Err(expected(Shape::Integer, "body"))
    );
    assert_eq!(
        lower("{k_match, [], [{k_atom, [], 1}], body, [x]}"),
        Err(expected(Shape::Atom, "1"))
    );
    // the clauses of a select are lowered before its variable
    assert_eq!(
        lower("{k_select, [], {k_int, [], v}, [bad]}"),
        Err(expected(Shape::TypeClause, "bad"))
    );
    // the body of a guard clause is lowered before its guard
    assert_eq!(
        lower("{k_guard, [], [{k_guard_clause, [], {k_int, [], g}, {k_int, [], b}}]}"),
        Err(expected(Shape::Integer, "b"))
    );
    // the function called is lowered before the arguments
    assert_eq!(
        lower("{k_call, [], {k_nope, []}, [{k_int, [], a}], []}"),
        Err(LowerError::UnknownFunRef("k_nope".to_string()))
    );
}

#[test]
fn failures_come_from_any_depth() {
    assert_eq!(
        lower("{k_seq, [], {k_atom, [], a}, {k_alt, [], {k_atom, [], b}, {k_match, [], [], {k_cons, [], {k_receive, []}, {k_nil, []}}, []}}}"),
        Err(LowerError::UnsupportedForm("k_receive".to_string()))
    );
}

#[test]
fn messages() {
    assert_eq!(LowerError::UnsupportedForm("k_receive".to_string()).message(), "unsupported form: k_receive");
    assert_eq!(LowerError::UnknownTag("k_frob".to_string()).message(), "don't know how to lower tag k_frob");
    assert_eq!(
        LowerError::UnknownFunRef("k_frob".to_string()).message(),
        "don't know how to lower function reference k_frob"
    );
    assert_eq!(expected(Shape::KernelModule, "oops").message(), "expected kernel module tuple, got oops");
    assert_eq!(
        expected(Shape::MfaTuple, "{foo, 1, 2, 3}").message(),
        "tuple of 2 or 3 expected, got {foo, 1, 2, 3}"
    );
    assert_eq!(expected(Shape::Atom, "\"a\"").message(), "atom expected, got \"a\"");
    assert_eq!(Shape::List.text(), "list expected");
    assert_eq!(Shape::Boolean.text(), "true or false expected");
}

#[test]
fn checked_coercions() {
    assert_eq!(as_atom(&term("abc")), Ok("abc".to_string()));
    assert_eq!(as_atom(&term("\"abc\"")), Err(expected(Shape::Atom, "\"abc\"")));
    assert_eq!(as_int(&term("-5")), Ok(-5));
    assert_eq!(as_int(&term("[5]")), Err(expected(Shape::Integer, "[5]")));
    assert_eq!(as_arity(&term("0")), Ok(0));
    assert_eq!(as_arity(&term("255")), Ok(255));
    assert_eq!(as_arity(&term("-1")), Err(expected(Shape::Arity, "-1")));
    assert_eq!(as_arity(&term("{}")), Err(expected(Shape::Arity, "{}")));
    assert_eq!(as_unit(&term("8")), Ok(8));
    assert_eq!(as_unit(&term("4294967295")), Ok(4294967295));
    assert_eq!(as_unit(&term("4294967296")), Err(expected(Shape::Unit, "4294967296")));
    assert_eq!(as_bool(&term("true")), Ok(true));
    assert_eq!(as_bool(&term("false")), Ok(false));
    assert_eq!(as_bool(&term("'True'")), Err(expected(Shape::Boolean, "'True'")));
    assert_eq!(as_bool(&term("\"true\"")), Err(expected(Shape::Boolean, "\"true\"")));
}

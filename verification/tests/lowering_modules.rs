use erl_aotc::erl_types::MFA;
use erl_aotc::fterm::FTerm;
use erl_aotc::kernel::lower::{LowerError, Shape};
use erl_aotc::kernel::parse::{create_kmod, parse_mfa_list, process_fun, process_kmod_fdefs, process_module};
use erl_aotc::kernel::registry::{FunDef, Module};
use erl_aotc::kernel::{Expr, KReturn, KSelect};
use erl_aotc::parser::parse_nodot;

fn term(text: &str) -> FTerm {
    parse_nodot(text).unwrap()
}

fn expected(shape: Shape, got: &str) -> LowerError {
    LowerError::Expected { shape, got: term(got) }
}

fn mfa(m: &str, f: &str, a: usize) -> MFA {
    MFA::new3(m.to_string(), f.to_string(), a)
}

fn ret(atom: &str) -> Expr {
    Expr::Return(KReturn { anno: FTerm::EmptyList, args: vec![Expr::Atom(atom.to_string())] })
}

fn fdef(name: &str, arity: usize, atom: &str) -> String {
    format!("{{k_fdef, [], {}, {}, [], {{k_return, [], [{{k_atom, [], {}}}]}}}}", name, arity, atom)
}

fn module(imports: &str, exports: &str, fdefs: &str) -> String {
    format!("{{k_mdef, {}, mymod, {}, [{{vsn, 1}}], {}}}", imports, exports, fdefs)
}

#[test]
fn a_module_with_its_functions() {
    let text = module(
        "[{lists, map, 2}]",
        "[{foo, 1}, {bar, 0}]",
        &format!("[{}, {}]", fdef("foo", 1, "ok"), fdef("bar", 0, "no")),
    );
    let m = process_module(term(&text)).unwrap();
    assert_eq!(m.name(), "mymod");
    assert_eq!(m.imports(), &vec![mfa("lists", "map", 2)]);
    assert_eq!(m.exports(), &vec![mfa("", "foo", 1), mfa("", "bar", 0)]);
    assert_eq!(m.attrs(), &term("[{vsn, 1}]"));
    assert_eq!(m.fun_count(), 2);
    assert_eq!(m.fun_at(0), &FunDef::new("bar".to_string(), 0, ret("no")));
    assert_eq!(m.fun_at(1), &FunDef::new("foo".to_string(), 1, ret("ok")));
    assert_eq!(m.get_fun(&mfa("", "foo", 1)).map(|f| &f.k_code), Some(&ret("ok")));
}

#[test]
fn a_module_without_functions() {
    let m = process_module(term(&module("[]", "[]", "[]"))).unwrap();
    assert_eq!(m, Module::new("mymod".to_string(), vec![], vec![], term("[{vsn, 1}]")));
    assert_eq!(m.fun_count(), 0);
}

#[test]
fn scenario_not_a_module() {
    let r = process_module(FTerm::Atom("oops".to_string()));
    assert_eq!(r, Err(expected(Shape::KernelModule, "oops")));
    assert_eq!(r.unwrap_err().message(), "expected kernel module tuple, got oops");
}

#[test]
fn a_module_has_six_elements() {
    assert_eq!(process_module(term("{k_mdef, [], m, [], []}")), Err(expected(Shape::KernelModule, "{k_mdef, [], m, [], []}")));
    assert_eq!(
        process_module(term("{k_mdef, [], m, [], [], [], []}")),
        Err(expected(Shape::KernelModule, "{k_mdef, [], m, [], [], [], []}"))
    );
    assert_eq!(process_module(FTerm::EmptyTuple), Err(expected(Shape::KernelModule, "{}")));
    assert_eq!(process_module(term("[k_mdef, [], m, [], [], []]")), Err(expected(Shape::KernelModule, "[k_mdef, [], m, [], [], []]")));
}

#[test]
fn scenario_import_of_four_elements() {
    let r = process_module(term(&module("[{foo, 1, 2, 3}]", "[]", "[]")));
    assert_eq!(r, Err(expected(Shape::MfaTuple, "{foo, 1, 2, 3}")));
    assert_eq!(r.unwrap_err().message(), "tuple of 2 or 3 expected, got {foo, 1, 2, 3}");
}

#[test]
fn scenario_unsupported_form_in_a_body() {
    let text = module("[]", "[]", "[{k_fdef, [], foo, 0, [], {k_receive, [], x}}]");
    let r = process_module(term(&text));
    assert_eq!(r, Err(LowerError::UnsupportedForm("k_receive".to_string())));
    assert_eq!(r.unwrap_err().message(), "unsupported form: k_receive");
    let text = module("[]", "[]", "[{k_fdef, [], foo, 0, [], {k_frobnicate, [], x}}]");
    assert_eq!(process_module(term(&text)), Err(LowerError::UnknownTag("k_frobnicate".to_string())));
}

#[test]
fn imports_and_exports() {
    assert_eq!(parse_mfa_list(&term("[]")), Ok(vec![]));
    assert_eq!(
        parse_mfa_list(&term("[{foo, 1}, {lists, map, 2}, {'Bar', 0}]")),
        Ok(vec![mfa("", "foo", 1), mfa("lists", "map", 2), mfa("", "Bar", 0)])
    );
    assert_eq!(parse_mfa_list(&term("{foo, 1}")), Err(expected(Shape::MfaList, "{foo, 1}")));
    assert_eq!(parse_mfa_list(&term("foo")), Err(expected(Shape::MfaList, "foo")));
    assert_eq!(parse_mfa_list(&term("{}")), Err(expected(Shape::MfaList, "{}")));
    assert_eq!(parse_mfa_list(&term("[foo]")), Err(expected(Shape::MfaTuple, "foo")));
    assert_eq!(parse_mfa_list(&term("[{foo}]")), Err(expected(Shape::MfaTuple, "{foo}")));
    assert_eq!(parse_mfa_list(&term("[{}]")), Err(expected(Shape::MfaTuple, "{}")));
    assert_eq!(parse_mfa_list(&term("[[foo, 1]]")), Err(expected(Shape::MfaTuple, "[foo, 1]")));
    assert_eq!(parse_mfa_list(&term("[{foo, 1}, {1, 1}]")), Err(expected(Shape::Atom, "1")));
    assert_eq!(parse_mfa_list(&term("[{m, 2, 1}]")), Err(expected(Shape::Atom, "2")));
    assert_eq!(parse_mfa_list(&term("[{foo, bar}]")), Err(expected(Shape::Arity, "bar")));
    assert_eq!(parse_mfa_list(&term("[{foo, -1}]")), Err(expected(Shape::Arity, "-1")));
    assert_eq!(parse_mfa_list(&term("[{a, 1}, {b, 2, 3}, {c, d, e}]")), Err(expected(Shape::Atom, "2")));
}

#[test]
fn references_of_two_and_of_three_elements_and_their_texts() {
    let list = parse_mfa_list(&term("[{f, 0}, {foo, 12}, {m, f, 3}, {lists, 'keyfind', 3}]")).unwrap();
    let texts: Vec<String> = list.iter().map(|x| x.to_text()).collect();
    assert_eq!(texts, vec!["f/0", "foo/12", "m:f/3", "lists:keyfind/3"]);
    assert_eq!(list[0].m, "");
    assert_eq!(list[1].m, "");
    assert_eq!(list[2].m, "m");
    // a reference of three elements whose module is the empty atom reads as a local one
    let list = parse_mfa_list(&term("[{'', f, 1}]")).unwrap();
    assert_eq!(list[0].to_text(), "f/1");
}

#[test]
fn head_of_a_module() {
    let t = term(&module("[{a, 1}]", "[{b, 2}]", "[x, y]"));
    let (m, fdefs) = create_kmod(&t.get_tuple_vec()).unwrap();
    assert_eq!(m, Module::new("mymod".to_string(), vec![mfa("", "a", 1)], vec![mfa("", "b", 2)], term("[{vsn, 1}]")));
    assert_eq!(fdefs, term("[x, y]"));
    let t = term("{k_mdef, [], \"name\", [], [], []}");
    assert_eq!(create_kmod(&t.get_tuple_vec()).map(|_| ()), Err(expected(Shape::Atom, "\"name\"")));
    // the name is looked at before the imports, the imports before the exports
    let t = term("{k_mdef, nope, 1, nope2, [], []}");
    assert_eq!(create_kmod(&t.get_tuple_vec()).map(|_| ()), Err(expected(Shape::Atom, "1")));
    let t = term("{k_mdef, nope, m, nope2, [], []}");
    assert_eq!(create_kmod(&t.get_tuple_vec()).map(|_| ()), Err(expected(Shape::MfaList, "nope")));
    let t = term("{k_mdef, [], m, nope2, [], []}");
    assert_eq!(create_kmod(&t.get_tuple_vec()).map(|_| ()), Err(expected(Shape::MfaList, "nope2")));
}

#[test]
fn the_head_fails_before_the_functions() {
    let text = "{k_mdef, [], m, [{foo, 1, 2, 3}], [], [bad]}";
    assert_eq!(process_module(term(text)), Err(expected(Shape::MfaTuple, "{foo, 1, 2, 3}")));
}

#[test]
fn function_definitions() {
    assert_eq!(process_fun(&term(&fdef("foo", 2, "ok"))), Ok(FunDef::new("foo".to_string(), 2, ret("ok"))));
    assert_eq!(process_fun(&term("{k_fdef, [], foo, 0, [], 7}")), Ok(FunDef::new("foo".to_string(), 0, Expr::Int64(7))));
    assert_eq!(process_fun(&term("foo")), Err(expected(Shape::FunDef, "foo")));
    assert_eq!(process_fun(&term("{k_fun, [], foo, 0, [], 7}")), Err(expected(Shape::FunDef, "{k_fun, [], foo, 0, [], 7}")));
    assert_eq!(process_fun(&term("{k_fdef, [], foo, 0, 7}")), Err(expected(Shape::FunDef, "{k_fdef, [], foo, 0, 7}")));
    assert_eq!(process_fun(&term("[k_fdef, [], foo, 0, [], 7]")), Err(expected(Shape::FunDef, "[k_fdef, [], foo, 0, [], 7]")));
    assert_eq!(process_fun(&term("{k_fdef, [], 1, 0, [], 7}")), Err(expected(Shape::Atom, "1")));
    assert_eq!(process_fun(&term("{k_fdef, [], foo, x, [], 7}")), Err(expected(Shape::Arity, "x")));
    assert_eq!(process_fun(&term("{k_fdef, [], foo, -2, [], 7}")), Err(expected(Shape::Arity, "-2")));
    // the body is lowered before name and arity are looked at
    assert_eq!(process_fun(&term("{k_fdef, [], 1, x, [], \"s\"}")), Err(expected(Shape::TaggedTuple, "\"s\"")));
}

#[test]
fn function_definitions_stand_in_a_list() {
    let empty = || Module::new("m".to_string(), vec![], vec![], FTerm::EmptyList);
    assert_eq!(process_kmod_fdefs(empty(), &term("[]")), Ok(empty()));
    assert_eq!(process_kmod_fdefs(empty(), &term("{}")), Err(expected(Shape::FunDefList, "{}")));
    assert_eq!(process_kmod_fdefs(empty(), &term("x")), Err(expected(Shape::FunDefList, "x")));
    let tuple = format!("{{{}}}", fdef("foo", 1, "ok"));
    assert_eq!(process_kmod_fdefs(empty(), &term(&tuple)), Err(expected(Shape::FunDefList, &tuple)));
    let list = format!("[{}, oops, {}]", fdef("foo", 1, "ok"), "also_bad");
    assert_eq!(process_kmod_fdefs(empty(), &term(&list)), Err(expected(Shape::FunDef, "oops")));
}

#[test]
fn of_two_definitions_of_a_function_the_later_stays() {
    let text = module(
        "[]",
        "[]",
        &format!("[{}, {}, {}]", fdef("foo", 1, "first"), fdef("bar", 1, "other"), fdef("foo", 1, "second")),
    );
    let m = process_module(term(&text)).unwrap();
    assert_eq!(m.fun_count(), 2);
    assert_eq!(m.fun_at(0), &FunDef::new("bar".to_string(), 1, ret("other")));
    assert_eq!(m.fun_at(1), &FunDef::new("foo".to_string(), 1, ret("second")));
}

#[test]
fn functions_come_out_in_the_order_of_name_and_arity() {
    let text = module(
        "[]",
        "[]",
        &format!(
            "[{}, {}, {}, {}]",
            fdef("zz", 0, "a"),
            fdef("b", 2, "b"),
            fdef("b", 1, "c"),
            fdef("a", 9, "d")
        ),
    );
    let m = process_module(term(&text)).unwrap();
    let names: Vec<String> = (0..m.fun_count()).map(|i| m.fun_at(i).funarity.to_text()).collect();
    assert_eq!(names, vec!["a/9", "b/1", "b/2", "zz/0"]);
}

#[test]
fn lowering_twice_gives_the_same_module() {
    let text = module(
        "[{lists, map, 2}, {io, format, 2}]",
        "[{foo, 1}]",
        &format!(
            "[{}, {{k_fdef, [], g, 2, [], {{k_seq, [7], {{k_call, [], {{k_local, [], h, 1}}, [{{k_var, [], x}}], []}}, \
             {{k_select, [], {{k_var, [], x}}, [{{k_type_clause, [], k_atom, [{{k_val_clause, [], {{k_atom, [], a}}, {{k_nil, []}}}}]}}]}}}}}}]",
            fdef("foo", 1, "ok")
        ),
    );
    let t = term(&text);
    let first = process_module(t.clone());
    let second = process_module(t);
    assert!(first.is_ok());
    assert_eq!(first, second);
    let again = process_module(term(&text));
    assert_eq!(first, again);
}

#[test]
fn lowering_twice_gives_the_same_failure() {
    let t = term(&module("[]", "[{f, 1}, {g}]", "[]"));
    let first = process_module(t.clone());
    let second = process_module(t);
    assert_eq!(first, Err(expected(Shape::MfaTuple, "{g}")));
    assert_eq!(first, second);
}

#[test]
fn a_select_keeps_the_order_of_its_clauses() {
    let n = 5;
    let m = 4;
    let mut types = Vec::new();
    for i in 0..n {
        let mut values = Vec::new();
        for j in 0..m {
            values.push(format!(
                "{{k_val_clause, [{}], {{k_int, [], {}}}, {{k_atom, [], b{}_{}}}}}",
                i * 100 + j,
                (7 * j + 3 * i) % 11,
                i,
                j
            ));
        }
        types.push(format!("{{k_type_clause, [{}], t{}, [{}]}}", (n - i) * 3, (n - i) % 3, values.join(", ")));
    }
    let text = format!("{{k_select, [], {{k_var, [], x}}, [{}]}}", types.join(", "));
    let lowered = erl_aotc::kernel::parse::parse_expr(&term(&text)).unwrap();
    let sel: Box<KSelect> = match lowered {
        Expr::Select(k) => k,
        other => panic!("not a select: {:?}", other),
    };
    assert_eq!(sel.types.len(), n as usize);
    for i in 0..n {
        let tc = &sel.types[i as usize];
        assert_eq!(tc.anno, FTerm::List(vec![FTerm::Int64((n - i) * 3)]));
        assert_eq!(tc.type_tag, format!("t{}", (n - i) % 3));
        assert_eq!(tc.values.len(), m as usize);
        for j in 0..m {
            let vc = &tc.values[j as usize];
            assert_eq!(vc.anno, FTerm::List(vec![FTerm::Int64(i * 100 + j)]));
            assert_eq!(vc.val, Expr::Int64((7 * j + 3 * i) % 11));
            assert_eq!(vc.body, Expr::Atom(format!("b{}_{}", i, j)));
        }
    }
}

#[test]
fn function_definitions_go_into_the_module_that_is_there() {
    let mut m = Module::new("m".to_string(), vec![], vec![], FTerm::EmptyList);
    m.add_fun(FunDef::new("foo".to_string(), 1, ret("old")));
    m.add_fun(FunDef::new("keep".to_string(), 0, ret("kept")));
    let list = format!("[{}, {}]", fdef("foo", 1, "new"), fdef("bar", 2, "added"));
    let m = process_kmod_fdefs(m, &term(&list)).unwrap();
    assert_eq!(m.fun_count(), 3);
    assert_eq!(m.fun_at(0), &FunDef::new("bar".to_string(), 2, ret("added")));
    assert_eq!(m.fun_at(1), &FunDef::new("foo".to_string(), 1, ret("new")));
    assert_eq!(m.fun_at(2), &FunDef::new("keep".to_string(), 0, ret("kept")));
}

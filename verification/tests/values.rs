use polish::ErrorKind;
use polish::Function;
use polish::List;
use polish::NativeFn;
use polish::NumExpr;
use polish::VMState;
use polish::VMValue;

fn num(text: &str) -> VMValue {
    VMValue::Number(NumExpr::Lit(text.to_string()))
}

#[test]
fn list_vector_round_trip() {
    let items = vec![num("12.4"), VMValue::new_str("hello"), num("13")];
    let l = List::from_vec(items);
    let v = l.to_vec();
    assert_eq!(v.len(), 3);
    let l2 = List::from_vec(v);
    assert_eq!(l2, l);
}

#[test]
fn empty_list_round_trip() {
    let l = List::from_vec(Vec::new());
    assert_eq!(*l, List::Nil);
    assert_eq!(l.to_vec().len(), 0);
}

#[test]
fn append_adds_lengths_and_keeps_order() {
    let l1 = List::from_vec(vec![num("1"), num("2")]);
    let l2 = List::from_vec(vec![num("3"), num("4"), num("5")]);
    let r = l1.append(&l2);
    assert_eq!(r.to_vec().len(), 5);
    assert_eq!(r.index(2).unwrap(), l2.index(0).unwrap());
    assert_eq!(r.index(0).unwrap(), num("1"));
    assert_eq!(r.index(4).unwrap(), num("5"));
}

#[test]
fn index_walks_the_chain() {
    let l = List::from_vec(vec![num("7"), VMValue::new_str("x")]);
    assert_eq!(l.index(1).unwrap(), VMValue::new_str("x"));
}

#[test]
fn index_out_of_bounds_is_reported() {
    let l = List::from_vec(vec![num("7")]);
    assert_eq!(l.index(-1), Err(ErrorKind::IndexOutOfBounds));
    assert_eq!(l.index(1), Err(ErrorKind::IndexOutOfBounds));
    assert_eq!(List::Nil.index(0), Err(ErrorKind::IndexOutOfBounds));
}

#[test]
fn list_addition_concatenates() {
    let a = VMValue::List(List::from_vec(vec![num("1")]));
    let b = VMValue::List(List::from_vec(vec![num("2")]));
    let r = a.add(b).unwrap();
    match &r {
        VMValue::List(l) => assert_eq!(l.to_vec(), vec![num("1"), num("2")]),
        other => panic!("expected a list, got {:?}", other),
    }
    let c = VMValue::List(List::from_vec(vec![num("1")]));
    assert_eq!(c.add(num("2")), Err(ErrorKind::AddListMismatch));
}

#[test]
fn currying_waits_for_the_arity_then_invokes() {
    let mut vm = VMState::new();
    let f = Function::new_static(NativeFn::Print, 2);
    let partial = f.add_arg(VMValue::new_str("x"), &mut vm).unwrap();
    assert_eq!(vm.printed_entries().len(), 0);
    let g = match partial {
        VMValue::Function(g) => g,
        other => panic!("expected a partial application, got {:?}", other),
    };
    let first = g.add_arg(num("1"), &mut vm).unwrap();
    assert_eq!(first, num("1"));
    let second = g.add_arg(num("2"), &mut vm).unwrap();
    assert_eq!(second, num("2"));
    assert_ne!(first, second);
    assert_eq!(
        vm.printed_entries(),
        &vec![
            vec![VMValue::new_str("x"), num("1")],
            vec![VMValue::new_str("x"), num("2")],
        ]
    );
}

#[test]
fn curried_argument_through_the_evaluator() {
    let mut vm = VMState::new();
    assert_eq!(vm.eval("print \"hi\"").unwrap(), VMValue::new_str("hi"));
    assert_eq!(vm.printed_entries(), &vec![vec![VMValue::new_str("hi")]]);
}

#[test]
fn source_backed_bodies_are_an_open_extension() {
    let mut vm = VMState::new();
    let f = Function::new_dynamic(Vec::new(), 1);
    assert_eq!(
        f.add_arg(num("1"), &mut vm),
        Err(ErrorKind::SourceBodyUnsupported)
    );
}

#[test]
fn accessors_unwrap_their_variant() {
    assert_eq!(num("5").as_num(), Ok(NumExpr::Lit("5".to_string())));
    assert_eq!(num("5").as_str(), Err(()));
    assert_eq!(VMValue::new_str("s").as_str(), Ok("s".to_string()));
    let l = VMValue::List(List::from_vec(vec![num("1")]));
    assert!(l.as_list().is_ok());
    assert!(VMValue::Nil.as_list().is_err());
}

#[test]
fn rendering_of_simple_values() {
    assert_eq!(VMValue::new_str("hi").render(), "hi");
    assert_eq!(VMValue::Bool(true).render(), "true");
    assert_eq!(VMValue::Bool(false).render(), "false");
    assert_eq!(VMValue::Nil.render(), "nil");
    assert_eq!(VMValue::EOF.render(), "");
    assert_eq!(num("1.5").render(), "1.5");
    let f = VMValue::Function(Box::new(Function::new_static(NativeFn::Print, 1)));
    assert_eq!(f.render(), "<function>");
}

#[test]
fn rendering_of_lists() {
    assert_eq!(List::Nil.render(), "[]");
    let l = List::from_vec(vec![num("12"), VMValue::new_str("hi")]);
    assert_eq!(l.render(), "[12, hi]");
    assert_eq!(VMValue::List(l).render(), "[12, hi]");
}

#[test]
fn computed_numbers_render_symbolically() {
    let mut vm = VMState::new();
    let v = vm.eval("+ 2 11").unwrap();
    assert_eq!(v.render(), "(+ 2 11)");
}

#[test]
fn print_is_registered_at_startup() {
    let vm = VMState::new();
    match vm.get("print") {
        VMValue::Function(_) => {}
        other => panic!("expected the print builtin, got {:?}", other),
    }
}

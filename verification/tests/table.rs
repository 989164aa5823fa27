use exprtk_rs::{InvalidName, SymbolTable};

#[test]
fn test_ids() {
    let mut s = SymbolTable::new();
    let a_id = s.add_variable("a", f64::to_bits(1.0)).unwrap().unwrap();
    let b_id = s.add_variable("b", f64::to_bits(1.0)).unwrap().unwrap();
    let s_id = s.add_stringvar("s", b"value").unwrap().unwrap();
    let v_id = s
        .add_vector("v", &[f64::to_bits(1.0), f64::to_bits(2.0)])
        .unwrap()
        .unwrap();
    assert_eq!(s.get_var_id("a"), Ok(Some(a_id)));
    assert_eq!(s.get_var_id("b"), Ok(Some(b_id)));
    assert_eq!(s.get_var_id("c"), Ok(None));
    assert_eq!(s.get_string_id("s"), Ok(Some(s_id)));
    assert_eq!(s.get_vec_id("v"), Ok(Some(v_id)));
    assert_eq!(s.get_vec_id("s"), Ok(None));
}

#[test]
fn test_clear() {
    let mut s = SymbolTable::new();
    s.add_variable("a", f64::to_bits(1.0)).unwrap().unwrap();
    s.add_stringvar("s", b"value").unwrap().unwrap();
    s.add_vector("v", &[f64::to_bits(1.0), f64::to_bits(2.0)])
        .unwrap()
        .unwrap();
    s.clear_variables();
    s.clear_strings();
    s.clear_vectors();
    assert!(s.get_variable_names().is_empty());
    assert!(s.get_stringvar_names().is_empty());
    assert!(s.get_vector_names().is_empty());
}

#[test]
fn valid_name_accepted_exactly_once() {
    let mut s = SymbolTable::new();
    assert_eq!(s.add_variable("a", f64::to_bits(2.0)), Ok(Some(0)));
    assert_eq!(s.add_variable("a", f64::to_bits(3.0)), Ok(None));
    assert_eq!(s.add_constant("a", f64::to_bits(3.0)), Ok(false));
    assert_eq!(s.add_stringvar("a", b"x"), Ok(None));
    assert_eq!(s.add_vector("a", &[f64::to_bits(1.0)]), Ok(None));
    assert_eq!(s.add_function("a", 2), Ok(false));
    assert_eq!(s.variable_count(), 1);
    assert_eq!(f64::from_bits(s.value(0)), 2.0);
}

#[test]
fn invalid_names_rejected_without_side_effect() {
    let mut s = SymbolTable::new();
    for name in ["a\u{0}b", "caf\u{e9}", "\u{3c0}"] {
        let expected_id = Err(InvalidName(name.to_string()));
        let expected_flag = Err(InvalidName(name.to_string()));
        assert_eq!(s.add_variable(name, 0), expected_id);
        assert_eq!(s.add_constant(name, 0), expected_flag);
        assert_eq!(s.add_stringvar(name, b"x"), expected_id);
        assert_eq!(s.add_vector(name, &[0]), expected_id);
        assert_eq!(s.add_function(name, 1), expected_flag);
        assert_eq!(s.get_var_id(name), expected_id);
        assert_eq!(s.symbol_exists(name), Err(InvalidName(name.to_string())));
    }
    assert_eq!(s.variable_count(), 0);
    assert_eq!(s.stringvar_count(), 0);
    assert_eq!(s.vector_count(), 0);
    assert_eq!(s.function_count(), 0);
}

#[test]
fn clone_matches_original_and_is_independent() {
    let mut s = SymbolTable::new();
    let a_id = s.add_variable("a", f64::to_bits(1.0)).unwrap().unwrap();
    assert!(s.add_constant("c", f64::to_bits(2.5)).unwrap());
    let s_id = s.add_stringvar("s", b"s").unwrap().unwrap();
    let v_id = s
        .add_vector("v", &[f64::to_bits(1.0), f64::to_bits(2.0)])
        .unwrap()
        .unwrap();
    assert!(s.add_function("f", 1).unwrap());

    let mut c = s.clone();
    assert_eq!(c.get_variable_names(), s.get_variable_names());
    assert_eq!(c.get_stringvar_names(), s.get_stringvar_names());
    assert_eq!(c.get_vector_names(), s.get_vector_names());
    assert_eq!(c.get_function_names(), s.get_function_names());
    assert_eq!(c.function_count(), s.function_count());
    assert_eq!(c.value_from_name("a"), Ok(f64::to_bits(1.0)));
    assert_eq!(c.value_from_name("c"), Ok(f64::to_bits(2.5)));
    assert_eq!(c.is_constant_node("a"), Ok(false));
    assert_eq!(c.is_constant_node("c"), Ok(true));
    assert_eq!(c.string(s_id).unwrap().get().as_slice(), b"s");
    assert_eq!(
        c.vector(v_id).unwrap().as_slice(),
        &[f64::to_bits(1.0), f64::to_bits(2.0)]
    );

    c.set_value(a_id, f64::to_bits(9.0));
    assert!(c.set_string(s_id, b"changed"));
    c.set_vector_value(v_id, 0, f64::to_bits(8.0));
    c.add_variable("fresh", 0).unwrap().unwrap();
    assert_eq!(s.value(a_id), f64::to_bits(1.0));
    assert_eq!(s.string(s_id).unwrap().get().as_slice(), b"s");
    assert_eq!(s.vector(v_id).unwrap()[0], f64::to_bits(1.0));
    assert_eq!(s.get_var_id("fresh"), Ok(None));
}

#[test]
fn clear_variables_twice_leaves_zero_both_times() {
    let mut s = SymbolTable::new();
    s.add_variable("a", f64::to_bits(1.0)).unwrap().unwrap();
    s.add_variable("b", f64::to_bits(2.0)).unwrap().unwrap();
    assert!(s.add_constant("c", f64::to_bits(3.0)).unwrap());
    s.clear_variables();
    assert_eq!(s.variable_count(), 0);
    s.clear_variables();
    assert_eq!(s.variable_count(), 0);
}

#[test]
fn identifiers_are_not_reused_after_clear() {
    let mut s = SymbolTable::new();
    assert_eq!(s.add_variable("a", f64::to_bits(1.0)), Ok(Some(0)));
    s.clear_variables();
    assert_eq!(s.get_var_id("a"), Ok(None));
    assert_eq!(s.add_variable("b", f64::to_bits(5.0)), Ok(Some(1)));
    assert_eq!(s.get_var_id("b"), Ok(Some(1)));
    assert_eq!(f64::from_bits(s.value(1)), 5.0);

    let mut t = SymbolTable::new();
    assert_eq!(t.add_stringvar("s", b"x"), Ok(Some(0)));
    t.clear_strings();
    assert_eq!(t.add_stringvar("u", b"y"), Ok(Some(1)));
    assert_eq!(t.get_string_id("u"), Ok(Some(1)));
    assert_eq!(t.add_vector("v", &[0]), Ok(Some(0)));
    t.clear_vectors();
    assert_eq!(t.add_vector("w", &[0]), Ok(Some(1)));
    assert_eq!(t.get_vec_id("w"), Ok(Some(1)));
}

#[test]
fn well_known_constants() {
    let mut s = SymbolTable::new();
    assert!(s.add_constants());
    assert_eq!(s.value_from_name("pi"), Ok(std::f64::consts::PI.to_bits()));
    assert_eq!(s.value_from_name("epsilon"), Ok(f64::EPSILON.to_bits()));
    assert_eq!(s.value_from_name("inf"), Ok(f64::INFINITY.to_bits()));
    assert_eq!(s.is_constant_node("pi"), Ok(true));
    assert_eq!(s.variable_count(), 3);
    assert!(!s.add_pi());
    assert!(!s.add_epsilon());
    assert!(!s.add_infinity());
    assert!(!s.add_constants());
    assert_eq!(s.variable_count(), 3);

    let mut t = SymbolTable::new();
    assert!(t.add_pi());
    assert!(!t.add_pi());
    assert_eq!(t.variable_count(), 1);

    // Registration stops at the first name already present: with
    // `epsilon` taken, `pi` is still added first, `inf` is never reached.
    let mut u = SymbolTable::new();
    u.add_variable("epsilon", 0).unwrap().unwrap();
    assert!(!u.add_constants());
    assert_eq!(u.symbol_exists("pi"), Ok(true));
    assert_eq!(u.symbol_exists("inf"), Ok(false));
}

#[test]
fn scalar_value_update() {
    let mut s = SymbolTable::new();
    let a_id = s.add_variable("a", f64::to_bits(0.0)).unwrap().unwrap();
    assert_eq!(f64::from_bits(s.value(a_id)), 0.0);
    s.set_value(a_id, f64::to_bits(2.0));
    assert_eq!(f64::from_bits(s.value(a_id)), 2.0);
    assert_eq!(s.value_from_name("a"), Ok(f64::to_bits(2.0)));
}

#[test]
fn string_value_update() {
    let mut s = SymbolTable::new();
    let s_id = s.add_stringvar("s", b"string").unwrap().unwrap();
    assert_eq!(s.string(s_id).unwrap().len(), 6);
    assert!(s.set_string(s_id, b"string2"));
    assert_eq!(s.string(s_id).unwrap().len(), 7);
    assert_eq!(s.string(s_id).unwrap().get().as_slice(), b"string2");
    assert!(!s.set_string(s_id + 1, b"nope"));
    assert!(s.string(s_id + 1).is_none());
}

#[test]
fn vector_element_update() {
    let mut s = SymbolTable::new();
    let bits: Vec<u64> = [0.0f64, 1.0, 2.0, 3.0].iter().map(|x| x.to_bits()).collect();
    let v_id = s.add_vector("v", &bits).unwrap().unwrap();
    assert_eq!(s.vector(v_id).unwrap().len(), 4);
    assert_eq!(f64::from_bits(s.vector(v_id).unwrap()[1]), 1.0);
    s.set_vector_value(v_id, 1, f64::to_bits(2.0));
    assert_eq!(f64::from_bits(s.vector(v_id).unwrap()[1]), 2.0);
    assert_eq!(f64::from_bits(s.vector(v_id).unwrap()[3]), 3.0);
    assert!(s.vector(v_id + 1).is_none());
}

#[test]
fn counts_include_constants_where_relevant() {
    let mut s = SymbolTable::new();
    s.add_variable("a", 0).unwrap().unwrap();
    assert!(s.add_constant("c", 0).unwrap());
    s.add_stringvar("s", b"x").unwrap().unwrap();
    s.add_vector("v", &[0]).unwrap().unwrap();
    assert!(s.add_function("f", 3).unwrap());
    assert_eq!(s.variable_count(), 2);
    assert_eq!(s.stringvar_count(), 1);
    assert_eq!(s.vector_count(), 1);
    assert_eq!(s.function_count(), 1);
    s.clear_local_constants();
    assert_eq!(s.variable_count(), 1);
    s.clear_functions();
    assert_eq!(s.function_count(), 0);
}

#[test]
fn name_queries() {
    let mut s = SymbolTable::new();
    s.add_variable("a", 0).unwrap().unwrap();
    assert!(s.add_constant("c", 0).unwrap());
    s.add_stringvar("s", b"x").unwrap().unwrap();
    assert_eq!(s.get_variable_names(), vec!["a".to_string(), "c".to_string()]);
    assert_eq!(s.get_stringvar_names(), vec!["s".to_string()]);
    assert_eq!(s.symbol_exists("a"), Ok(true));
    assert_eq!(s.symbol_exists("s"), Ok(true));
    assert_eq!(s.symbol_exists("z"), Ok(false));
    assert_eq!(s.get_var_id("c"), Ok(None));
    assert_eq!(s.is_constant_string("s"), Ok(false));
    assert_eq!(s.is_constant_string("z"), Ok(false));
}

#[test]
fn default_is_empty() {
    let s = SymbolTable::default();
    assert_eq!(s.variable_count(), 0);
    assert_eq!(s.stringvar_count(), 0);
    assert_eq!(s.vector_count(), 0);
    assert_eq!(s.function_count(), 0);
}

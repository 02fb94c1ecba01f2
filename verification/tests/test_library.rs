use srs_compiler::collections::{
    List, box_clone, box_deref, box_new, list_clone, list_new, memcopy, vec_get,
};
use srs_compiler::rust_types::{RAstType, rAstType_clone};
use srs_compiler::symtable::{
    FnSignature, Variable, symTable_contains, symTable_enter_scope, symTable_insert_enum,
    symTable_insert_function, symTable_insert_variable, symTable_leave_scope,
    symTable_lookup_function_signature, symTable_lookup_variable, symTable_new,
};
use srs_compiler::text::{
    ByteString, and, or, string_clone, string_eq, string_from_str, string_get, string_len,
    string_new, string_push, string_push_str, string_push_string, string_with_capacity, unwrap,
};

// Helper to convert the library's string to a std string for easy comparison
fn to_std_string(s: &ByteString) -> String {
    (0..string_len(s))
        .map(|i| unwrap::<char>(string_get(s, i)))
        .collect::<String>()
}

// ----------------------- Option<char> --------------------------

#[test]
fn test_unwrap_char_some() {
    assert_eq!(unwrap::<char>(Option::Some('a')), 'a');
}

// ------------------------- String ----------------------------

#[test]
fn test_string_new() {
    let s = string_new();
    assert_eq!(string_len(&s), 0);
}

#[test]
fn test_string_push() {
    let mut s = string_new();
    string_push(&mut s, 'H');
    assert_eq!(string_len(&s), 1);
    assert_eq!(to_std_string(&s), "H");
}

#[test]
fn test_string_push_multiple() {
    let mut s = string_new();
    for c in ['a', 'b', 'c'] {
        string_push(&mut s, c);
    }
    assert_eq!(string_len(&s), 3);
    assert_eq!(to_std_string(&s), "abc");
}

#[test]
fn test_string_push_str() {
    let mut s = string_new();
    string_push_str(&mut s, "Hello");
    assert_eq!(string_len(&s), 5);
    assert_eq!(to_std_string(&s), "Hello");
}

#[test]
fn test_string_push_str_empty() {
    let mut s = string_new();
    string_push_str(&mut s, "");
    assert_eq!(string_len(&s), 0);
    assert_eq!(to_std_string(&s), "");
}

#[test]
fn test_string_push_and_push_str_combined() {
    let mut s = string_new();
    string_push_str(&mut s, "Hi");
    string_push(&mut s, '!');
    assert_eq!(to_std_string(&s), "Hi!");
}

#[test]
fn test_string_get_out_of_bounds() {
    let s = string_new();
    assert!(matches!(string_get(&s, 0), Option::None));
}

#[test]
fn test_string_get_out_of_bounds_nonempty() {
    let mut s = string_new();
    string_push(&mut s, 'x');
    assert!(matches!(string_get(&s, 1), Option::None));
}

#[test]
fn test_string_grows_for_many_pushes() {
    let mut s = string_new();
    for _ in 0..128 {
        string_push(&mut s, 'x');
    }
    assert_eq!(string_len(&s), 128);
    assert_eq!(to_std_string(&s), "x".repeat(128));
}

// ------------------------- Memory ----------------------------

#[test]
fn test_ptr_add() {
    let data: Vec<u8> = vec![10, 20, 30, 40];
    for (i, &expected) in data.iter().enumerate() {
        assert_eq!(vec_get::<u8>(&data, i), Some(&expected));
    }
    assert_eq!(vec_get::<u8>(&data, 4), None);
}

#[test]
fn test_memcopy() {
    let src = vec![1u8, 2, 3, 4];
    let mut dest = vec![0u8; 4];
    memcopy::<u8>(&mut dest, &src, 4);
    assert_eq!(dest, src);
}

#[test]
fn test_memcopy_partial() {
    let src = vec![5u8, 6, 7, 8];
    let mut dest = vec![0u8; 4];
    memcopy::<u8>(&mut dest, &src, 2);
    assert_eq!(dest, vec![5, 6, 0, 0]);
}

#[test]
fn test_memcopy_zero() {
    let src = vec![1u8, 2, 3, 4];
    let mut dest = vec![0u8; 4];
    memcopy::<u8>(&mut dest, &src, 0);
    assert_eq!(dest, vec![0; 4]);
}

#[test]
fn test_string_push_string() {
    let mut left = string_from_str("left");
    let right = string_from_str("_right");
    string_push_string(&mut left, &right);
    assert_eq!(to_std_string(&left), "left_right");
}

#[test]
fn test_string_from_str_direct() {
    let s = string_from_str("hello");
    assert!(string_eq(&s, &string_from_str("hello")));
}

fn rAstType_match(a: &RAstType, b: &RAstType) -> bool {
    match (a, b) {
        (RAstType::U8, RAstType::U8) => true,
        (RAstType::Usize, RAstType::Usize) => true,
        (RAstType::Bool, RAstType::Bool) => true,
        (RAstType::Char, RAstType::Char) => true,
        (RAstType::Unit, RAstType::Unit) => true,
        (RAstType::Never, RAstType::Never) => true,
        (RAstType::Custom(a_name), RAstType::Custom(b_name)) => string_eq(a_name, b_name),
        _ => false,
    }
}

fn rAstTypeList_match(a: &List<RAstType>, b: &List<RAstType>) -> bool {
    match (a, b) {
        (List::Nil, List::Nil) => true,
        (List::Cons(a_head, a_tail), List::Cons(b_head, b_tail)) => and(
            rAstType_match(a_head, b_head),
            rAstTypeList_match(
                box_deref::<List<RAstType>>(a_tail),
                box_deref::<List<RAstType>>(b_tail),
            ),
        ),
        _ => false,
    }
}

fn rAstTypeList_single(t: RAstType) -> List<RAstType> {
    List::Cons(t, box_new::<List<RAstType>>(List::Nil))
}

fn clone_rAstType_list(list: &List<RAstType>) -> List<RAstType> {
    list_clone::<RAstType>(list, rAstType_clone)
}

// ------------------------- Bool ----------------------------

#[test]
fn test_and() {
    assert_eq!(and(true, true), true);
    assert_eq!(and(true, false), false);
    assert_eq!(and(false, true), false);
    assert_eq!(and(false, false), false);
}

#[test]
fn test_or() {
    assert_eq!(or(true, true), true);
    assert_eq!(or(true, false), true);
    assert_eq!(or(false, true), true);
    assert_eq!(or(false, false), false);
}

#[test]
fn test_string_with_capacity() {
    let mut s = string_with_capacity(32);
    assert_eq!(string_len(&s), 0);
    for _ in 0..32 {
        string_push(&mut s, 'a');
    }
    assert_eq!(string_len(&s), 32);
    assert_eq!(to_std_string(&s), "a".repeat(32));
}

#[test]
fn test_string_clone() {
    let mut s = string_from_str("clone me");
    let clone = string_clone(&s);
    string_push(&mut s, '!');
    assert_eq!(to_std_string(&clone), "clone me");
    assert_eq!(to_std_string(&s), "clone me!");
}

// ------------------------- Symbol Table ----------------------------

#[test]
fn test_symtable_global_insert_and_lookup() {
    let mut symtable = symTable_new();
    assert!(symTable_insert_function(
        &mut symtable,
        string_from_str("f"),
        list_new::<RAstType>(),
        RAstType::Usize
    ));
    assert!(symTable_contains(&symtable, &string_from_str("f")));

    match symTable_lookup_function_signature(&symtable, &string_from_str("f")) {
        Option::Some(FnSignature::Fn(parameter_types, return_type)) => {
            assert!(matches!(parameter_types, List::Nil));
            assert!(matches!(return_type, RAstType::Usize));
        }
        Option::None => assert!(false, "expected function signature"),
    }

    assert!(symTable_insert_enum(
        &mut symtable,
        string_from_str("State"),
        list_new::<RAstType>()
    ));
    assert!(symTable_contains(&symtable, &string_from_str("State")));
}

#[test]
fn test_symtable_scope_and_variables() {
    let mut symtable = symTable_new();
    assert!(symTable_insert_variable(
        &mut symtable,
        string_from_str("x"),
        RAstType::U8,
        true
    ));
    assert!(!symTable_contains(&symtable, &string_from_str("x")));
    assert!(matches!(
        symTable_lookup_variable(&symtable, &string_from_str("x")),
        Option::None
    ));

    symTable_enter_scope(&mut symtable);
    assert!(!symTable_insert_variable(
        &mut symtable,
        string_from_str("x"),
        RAstType::U8,
        true
    ));
    assert!(symTable_contains(&symtable, &string_from_str("x")));
    assert!(matches!(
        symTable_lookup_variable(&symtable, &string_from_str("x")),
        Option::Some(Variable::Variable(RAstType::U8, true))
    ));

    symTable_enter_scope(&mut symtable);
    assert!(!symTable_insert_variable(
        &mut symtable,
        string_from_str("x"),
        RAstType::Usize,
        false
    ));
    assert!(matches!(
        symTable_lookup_variable(&symtable, &string_from_str("x")),
        Option::Some(Variable::Variable(RAstType::Usize, false))
    ));
    assert!(symTable_leave_scope(&mut symtable));
    assert!(matches!(
        symTable_lookup_variable(&symtable, &string_from_str("x")),
        Option::Some(Variable::Variable(RAstType::U8, true))
    ));
    assert!(symTable_leave_scope(&mut symtable));
    assert!(matches!(
        symTable_lookup_variable(&symtable, &string_from_str("x")),
        Option::None
    ));
    assert!(!symTable_leave_scope(&mut symtable));
}

#[test]
fn test_type_clone() {
    let custom = RAstType::Custom(string_from_str("MyType"));
    let cloned = rAstType_clone(&custom);
    assert!(rAstType_match(&custom, &cloned));
}

#[test]
fn test_type_list_clone() {
    let types = rAstTypeList_single(RAstType::Custom(string_from_str("Node")));
    let cloned = list_clone::<RAstType>(&types, rAstType_clone);
    assert!(rAstTypeList_match(&types, &cloned));
}

#[test]
fn test_type_list_box_new_deref_clone() {
    let ptr = box_new::<List<RAstType>>(List::Nil);
    assert!(matches!(box_deref::<List<RAstType>>(&ptr), List::Nil));

    let cloned_ptr = box_clone::<List<RAstType>>(&ptr, clone_rAstType_list);
    assert!(matches!(box_deref::<List<RAstType>>(&cloned_ptr), List::Nil));
}

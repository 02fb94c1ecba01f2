//! The symbol table of the compiler: global functions and enums, and a stack
//! of local scopes that hold variables.
use vstd::prelude::*;
use crate::collections::{List, list_clone};
use crate::rust_types::{RAstType, RAstTypeV, rAstType_clone};
use crate::text::{ByteString, string_clone, string_eq};

verus! {

/// The (type) signature of a function.
#[derive(Debug)]
pub enum FnSignature {
    /// parameter types, return type
    Fn(List<RAstType>, RAstType),
}

/// Symbol table entry for functions, enums and variables.
#[derive(Debug)]
pub enum SymTableEntry {
    /// name, signature
    Function(ByteString, FnSignature),
    /// name, variant types
    Enum(ByteString, List<RAstType>),
    /// name, type, is mutable
    Variable(ByteString, RAstType, bool),
}

/// What is known of a variable: its type and whether it is mutable.
#[derive(Debug)]
pub enum Variable {
    /// type, is mutable
    Variable(RAstType, bool),
}

/// Global symbol table represented as a cons list, newest entry first.
#[derive(Debug)]
pub enum GlobalSymTable {
    /// head, tail
    Cons(SymTableEntry, Box<GlobalSymTable>),
    Nil,
}

/// Single local scope represented as a cons list, newest entry first.
#[derive(Debug)]
pub enum LocalSymTable {
    /// head, tail
    Cons(SymTableEntry, Box<LocalSymTable>),
    Nil,
}

/// Stack of local scopes, innermost first.
#[derive(Debug)]
pub enum LocalSymTableStack {
    /// head, tail
    Cons(LocalSymTable, Box<LocalSymTableStack>),
    Nil,
}

/// Data structure that manages a global symbol table and a stack of local ones.
#[derive(Debug)]
pub enum SymTable {
    Table(GlobalSymTable, LocalSymTableStack),
}

// ------------------------------------------------------------------
// The model
// ------------------------------------------------------------------

/// The value of a symbol table entry.
pub enum EntryV {
    Function(Seq<u8>, Seq<RAstTypeV>, RAstTypeV),
    Enum(Seq<u8>, Seq<RAstTypeV>),
    Variable(Seq<u8>, RAstTypeV, bool),
}

/// The values of a list of types.
pub open spec fn types_view(l: List<RAstType>) -> Seq<RAstTypeV> {
    l@.map_values(|t: RAstType| t@)
}

pub open spec fn entry_view(e: SymTableEntry) -> EntryV {
    match e {
        SymTableEntry::Function(name, FnSignature::Fn(params, ret)) => EntryV::Function(
            name@,
            types_view(params),
            ret@,
        ),
        SymTableEntry::Enum(name, variants) => EntryV::Enum(name@, types_view(variants)),
        SymTableEntry::Variable(name, ty, mutable) => EntryV::Variable(name@, ty@, mutable),
    }
}

pub open spec fn entry_name(e: EntryV) -> Seq<u8> {
    match e {
        EntryV::Function(name, _, _) => name,
        EntryV::Enum(name, _) => name,
        EntryV::Variable(name, _, _) => name,
    }
}

/// The entries of the global table, newest first.
pub open spec fn global_view(g: GlobalSymTable) -> Seq<EntryV>
    decreases g,
{
    match g {
        GlobalSymTable::Cons(head, tail) => seq![entry_view(head)] + global_view(*tail),
        GlobalSymTable::Nil => Seq::empty(),
    }
}

/// The entries of one scope, newest first.
pub open spec fn local_view(l: LocalSymTable) -> Seq<EntryV>
    decreases l,
{
    match l {
        LocalSymTable::Cons(head, tail) => seq![entry_view(head)] + local_view(*tail),
        LocalSymTable::Nil => Seq::empty(),
    }
}

/// The scopes, innermost first.
pub open spec fn stack_view(s: LocalSymTableStack) -> Seq<Seq<EntryV>>
    decreases s,
{
    match s {
        LocalSymTableStack::Cons(head, tail) => seq![local_view(head)] + stack_view(*tail),
        LocalSymTableStack::Nil => Seq::empty(),
    }
}

/// The value of a symbol table: the global entries and the scopes.
pub struct SymTableV {
    pub globals: Seq<EntryV>,
    pub scopes: Seq<Seq<EntryV>>,
}

impl View for SymTable {
    type V = SymTableV;

    open spec fn view(&self) -> SymTableV {
        let SymTable::Table(g, s) = *self;
        SymTableV { globals: global_view(g), scopes: stack_view(s) }
    }
}

/// Some entry is named `name`.
pub open spec fn entries_contain(s: Seq<EntryV>, name: Seq<u8>) -> bool {
    exists|i: int| 0 <= i < s.len() && entry_name(#[trigger] s[i]) == name
}

/// Some scope holds an entry named `name`.
pub open spec fn scopes_contain(ss: Seq<Seq<EntryV>>, name: Seq<u8>) -> bool {
    exists|i: int| 0 <= i < ss.len() && entries_contain(#[trigger] ss[i], name)
}

/// The type and mutability of the newest variable entry named `name`.
pub open spec fn find_variable(s: Seq<EntryV>, name: Seq<u8>) -> Option<(RAstTypeV, bool)>
    decreases s.len(),
{
    if s.len() == 0 {
        None
    } else {
        match s[0] {
            EntryV::Variable(n, t, m) => if n == name {
                Some((t, m))
            } else {
                find_variable(s.drop_first(), name)
            },
            _ => find_variable(s.drop_first(), name),
        }
    }
}

/// The variable named `name` in the innermost scope that has one.
pub open spec fn scopes_find_variable(ss: Seq<Seq<EntryV>>, name: Seq<u8>) -> Option<
    (RAstTypeV, bool),
>
    decreases ss.len(),
{
    if ss.len() == 0 {
        None
    } else {
        match find_variable(ss[0], name) {
            Some(v) => Some(v),
            None => scopes_find_variable(ss.drop_first(), name),
        }
    }
}

/// The signature of the newest function entry named `name`.
pub open spec fn find_function(s: Seq<EntryV>, name: Seq<u8>) -> Option<
    (Seq<RAstTypeV>, RAstTypeV),
>
    decreases s.len(),
{
    if s.len() == 0 {
        None
    } else {
        match s[0] {
            EntryV::Function(n, params, ret) => if n == name {
                Some((params, ret))
            } else {
                find_function(s.drop_first(), name)
            },
            _ => find_function(s.drop_first(), name),
        }
    }
}

pub open spec fn variable_view(v: Variable) -> (RAstTypeV, bool) {
    let Variable::Variable(t, m) = v;
    (t@, m)
}

pub open spec fn signature_view(s: FnSignature) -> (Seq<RAstTypeV>, RAstTypeV) {
    let FnSignature::Fn(params, ret) = s;
    (types_view(params), ret@)
}

proof fn lemma_cons_view(x: EntryV, rest: Seq<EntryV>)
    ensures
        (seq![x] + rest).len() == rest.len() + 1,
        (seq![x] + rest)[0] == x,
        (seq![x] + rest).drop_first() == rest,
{
    assert((seq![x] + rest).drop_first() =~= rest);
}

proof fn lemma_stack_cons_view(x: Seq<EntryV>, rest: Seq<Seq<EntryV>>)
    ensures
        (seq![x] + rest).len() == rest.len() + 1,
        (seq![x] + rest)[0] == x,
        (seq![x] + rest).drop_first() == rest,
{
    assert((seq![x] + rest).drop_first() =~= rest);
}

/// An entry list contains `name` exactly when its head or its tail does.
proof fn lemma_contains_cons(x: EntryV, rest: Seq<EntryV>, name: Seq<u8>)
    ensures
        entries_contain(seq![x] + rest, name) == (entry_name(x) == name || entries_contain(
            rest,
            name,
        )),
{
    let s = seq![x] + rest;
    if entries_contain(rest, name) {
        let i = choose|i: int| 0 <= i < rest.len() && entry_name(#[trigger] rest[i]) == name;
        assert(s[i + 1] == rest[i]);
    }
    if entries_contain(s, name) {
        let i = choose|i: int| 0 <= i < s.len() && entry_name(#[trigger] s[i]) == name;
        if i > 0 {
            assert(s[i] == rest[i - 1]);
        }
    }
    assert(s[0] == x);
}

proof fn lemma_scopes_contain_cons(x: Seq<EntryV>, rest: Seq<Seq<EntryV>>, name: Seq<u8>)
    ensures
        scopes_contain(seq![x] + rest, name) == (entries_contain(x, name) || scopes_contain(
            rest,
            name,
        )),
{
    let s = seq![x] + rest;
    if scopes_contain(rest, name) {
        let i = choose|i: int| 0 <= i < rest.len() && entries_contain(#[trigger] rest[i], name);
        assert(s[i + 1] == rest[i]);
    }
    if scopes_contain(s, name) {
        let i = choose|i: int| 0 <= i < s.len() && entries_contain(#[trigger] s[i], name);
        if i > 0 {
            assert(s[i] == rest[i - 1]);
        }
    }
    assert(s[0] == x);
}

/// A copy made by `list_clone` with `rAstType_clone` has the same types.
proof fn lemma_types_cloned(source_list: List<RAstType>, copy: List<RAstType>)
    requires
        copy@.len() == source_list@.len(),
        forall|i: int|
            0 <= i < source_list@.len() ==> rAstType_clone.ensures((&source_list@[i],), #[trigger] copy@[i]),
    ensures
        types_view(copy) == types_view(source_list),
{
    assert forall|i: int| 0 <= i < source_list@.len() implies copy@[i]@ == source_list@[i]@ by {
        assert(rAstType_clone.ensures((&source_list@[i],), copy@[i]));
    }
    assert(types_view(copy) =~= types_view(source_list));
}

// ------------------------------------------------------------------
// Entries and copies
// ------------------------------------------------------------------

/// Get the name associated with a symbol table entry.
pub fn symTableEntry_name(entry: &SymTableEntry) -> (r: &ByteString)
    ensures
        r@ == entry_name(entry_view(*entry)),
{
    match entry {
        SymTableEntry::Function(name, _) => name,
        SymTableEntry::Enum(name, _) => name,
        SymTableEntry::Variable(name, _, _) => name,
    }
}

/// Copy a function signature.
pub fn fnSignature_clone(signature: &FnSignature) -> (r: FnSignature)
    ensures
        signature_view(r) == signature_view(*signature),
{
    let FnSignature::Fn(parameters, return_type) = signature;
    let copy: List<RAstType> = list_clone(parameters, rAstType_clone);
    proof {
        lemma_types_cloned(*parameters, copy);
    }
    FnSignature::Fn(copy, rAstType_clone(return_type))
}

/// Copy a symbol table entry.
pub fn symTableEntry_clone(entry: &SymTableEntry) -> (r: SymTableEntry)
    ensures
        entry_view(r) == entry_view(*entry),
{
    match entry {
        SymTableEntry::Function(name, signature) => SymTableEntry::Function(
            string_clone(name),
            fnSignature_clone(signature),
        ),
        SymTableEntry::Enum(name, variants) => {
            let copy: List<RAstType> = list_clone(variants, rAstType_clone);
            proof {
                lemma_types_cloned(*variants, copy);
            }
            SymTableEntry::Enum(string_clone(name), copy)
        },
        SymTableEntry::Variable(name, ty, mutable) => SymTableEntry::Variable(
            string_clone(name),
            rAstType_clone(ty),
            *mutable,
        ),
    }
}

/// Copy the global table.
pub fn globalSymTable_clone(symtable: &GlobalSymTable) -> (r: GlobalSymTable)
    ensures
        global_view(r) == global_view(*symtable),
    decreases symtable,
{
    match symtable {
        GlobalSymTable::Cons(entry, tail) => GlobalSymTable::Cons(
            symTableEntry_clone(entry),
            Box::new(globalSymTable_clone(&**tail)),
        ),
        GlobalSymTable::Nil => GlobalSymTable::Nil,
    }
}

/// Copy one local scope.
pub fn localSymTable_clone(symtable: &LocalSymTable) -> (r: LocalSymTable)
    ensures
        local_view(r) == local_view(*symtable),
    decreases symtable,
{
    match symtable {
        LocalSymTable::Cons(entry, tail) => LocalSymTable::Cons(
            symTableEntry_clone(entry),
            Box::new(localSymTable_clone(&**tail)),
        ),
        LocalSymTable::Nil => LocalSymTable::Nil,
    }
}

/// Copy the stack of local scopes.
pub fn localSymTableStack_clone(stack: &LocalSymTableStack) -> (r: LocalSymTableStack)
    ensures
        stack_view(r) == stack_view(*stack),
    decreases stack,
{
    match stack {
        LocalSymTableStack::Cons(local, tail) => LocalSymTableStack::Cons(
            localSymTable_clone(local),
            Box::new(localSymTableStack_clone(&**tail)),
        ),
        LocalSymTableStack::Nil => LocalSymTableStack::Nil,
    }
}

// ------------------------------------------------------------------
// The global table
// ------------------------------------------------------------------

/// Prepend an entry to the global table.
pub fn globalSymTable_prepend(symtable: &mut GlobalSymTable, entry: SymTableEntry)
    ensures
        global_view(*final(symtable)) == seq![entry_view(entry)] + global_view(*old(symtable)),
{
    let mut old_table: GlobalSymTable = GlobalSymTable::Nil;
    std::mem::swap(&mut old_table, symtable);
    *symtable = GlobalSymTable::Cons(entry, Box::new(old_table));
}

/// Check whether a name exists in the global table.
pub fn globalSymTable_contains(symtable: &GlobalSymTable, name: &ByteString) -> (r: bool)
    ensures
        r == entries_contain(global_view(*symtable), name@),
    decreases symtable,
{
    match symtable {
        GlobalSymTable::Cons(head, tail) => {
            proof {
                lemma_contains_cons(entry_view(*head), global_view(**tail), name@);
            }
            let entry_name: &ByteString = symTableEntry_name(head);
            if string_eq(entry_name, name) {
                true
            } else {
                globalSymTable_contains(&**tail, name)
            }
        },
        GlobalSymTable::Nil => false,
    }
}

/// Lookup a function signature in the global table.
pub fn globalSymTable_lookup_function_signature(symtable: &GlobalSymTable, name: &ByteString) -> (r:
    Option<FnSignature>)
    ensures
        match r {
            Some(s) => find_function(global_view(*symtable), name@) == Some(signature_view(s)),
            None => find_function(global_view(*symtable), name@) is None,
        },
    decreases symtable,
{
    match symtable {
        GlobalSymTable::Cons(entry, tail) => {
            proof {
                lemma_cons_view(entry_view(*entry), global_view(**tail));
            }
            match entry {
                SymTableEntry::Function(entry_name, signature) => {
                    if string_eq(entry_name, name) {
                        Some(fnSignature_clone(signature))
                    } else {
                        globalSymTable_lookup_function_signature(&**tail, name)
                    }
                },
                _ => globalSymTable_lookup_function_signature(&**tail, name),
            }
        },
        GlobalSymTable::Nil => None,
    }
}

/// Insert a function entry into the global table; false (and no change) when
/// the name is taken.
pub fn globalSymTable_insert_function(
    symtable: &mut GlobalSymTable,
    name: ByteString,
    parameter_types: List<RAstType>,
    return_type: RAstType,
) -> (r: bool)
    ensures
        r == !entries_contain(global_view(*old(symtable)), name@),
        r ==> global_view(*final(symtable)) == seq![
            EntryV::Function(name@, types_view(parameter_types), return_type@),
        ] + global_view(*old(symtable)),
        !r ==> global_view(*final(symtable)) == global_view(*old(symtable)),
{
    if globalSymTable_contains(symtable, &name) {
        return false;
    }
    let signature: FnSignature = FnSignature::Fn(parameter_types, return_type);
    let entry: SymTableEntry = SymTableEntry::Function(name, signature);
    globalSymTable_prepend(symtable, entry);
    true
}

/// Insert an enum entry into the global table; false (and no change) when the
/// name is taken.
pub fn globalSymTable_insert_enum(
    symtable: &mut GlobalSymTable,
    name: ByteString,
    variants: List<RAstType>,
) -> (r: bool)
    ensures
        r == !entries_contain(global_view(*old(symtable)), name@),
        r ==> global_view(*final(symtable)) == seq![EntryV::Enum(name@, types_view(variants))]
            + global_view(*old(symtable)),
        !r ==> global_view(*final(symtable)) == global_view(*old(symtable)),
{
    if globalSymTable_contains(symtable, &name) {
        return false;
    }
    let entry: SymTableEntry = SymTableEntry::Enum(name, variants);
    globalSymTable_prepend(symtable, entry);
    true
}

// ------------------------------------------------------------------
// Local scopes
// ------------------------------------------------------------------

/// Prepend an entry to a local scope.
pub fn localSymTable_prepend(symtable: &mut LocalSymTable, entry: SymTableEntry)
    ensures
        local_view(*final(symtable)) == seq![entry_view(entry)] + local_view(*old(symtable)),
{
    let mut old_table: LocalSymTable = LocalSymTable::Nil;
    std::mem::swap(&mut old_table, symtable);
    *symtable = LocalSymTable::Cons(entry, Box::new(old_table));
}

/// Check whether a name exists in a local scope.
pub fn localSymTable_contains(symtable: &LocalSymTable, name: &ByteString) -> (r: bool)
    ensures
        r == entries_contain(local_view(*symtable), name@),
    decreases symtable,
{
    match symtable {
        LocalSymTable::Cons(head, tail) => {
            proof {
                lemma_contains_cons(entry_view(*head), local_view(**tail), name@);
            }
            let entry_name: &ByteString = symTableEntry_name(head);
            if string_eq(entry_name, name) {
                true
            } else {
                localSymTable_contains(&**tail, name)
            }
        },
        LocalSymTable::Nil => false,
    }
}

/// Lookup a variable in a single local scope.
pub fn localSymTable_lookup_variable(symtable: &LocalSymTable, name: &ByteString) -> (r: Option<
    Variable,
>)
    ensures
        match r {
            Some(v) => find_variable(local_view(*symtable), name@) == Some(variable_view(v)),
            None => find_variable(local_view(*symtable), name@) is None,
        },
    decreases symtable,
{
    match symtable {
        LocalSymTable::Cons(entry, tail) => {
            proof {
                lemma_cons_view(entry_view(*entry), local_view(**tail));
            }
            match entry {
                SymTableEntry::Variable(entry_name, variable_type, mutable) => {
                    if string_eq(entry_name, name) {
                        Some(Variable::Variable(rAstType_clone(variable_type), *mutable))
                    } else {
                        localSymTable_lookup_variable(&**tail, name)
                    }
                },
                _ => localSymTable_lookup_variable(&**tail, name),
            }
        },
        LocalSymTable::Nil => None,
    }
}

/// Lookup a variable type in a single local scope.
pub fn localSymTable_lookup_variable_type(symtable: &LocalSymTable, name: &ByteString) -> (r:
    Option<RAstType>)
    ensures
        match r {
            Some(t) => find_variable(local_view(*symtable), name@) matches Some(v) && v.0 == t@,
            None => find_variable(local_view(*symtable), name@) is None,
        },
{
    match localSymTable_lookup_variable(symtable, name) {
        Some(Variable::Variable(variable_type, _)) => Some(variable_type),
        None => None,
    }
}

/// Insert a variable into a single local scope. The variable is inserted in
/// any case (a later one shadows an earlier one); the result tells whether the
/// name was already used in this scope.
pub fn localSymTable_insert_variable(
    symtable: &mut LocalSymTable,
    name: ByteString,
    variable_type: RAstType,
    mutable: bool,
) -> (r: bool)
    ensures
        r == entries_contain(local_view(*old(symtable)), name@),
        local_view(*final(symtable)) == seq![EntryV::Variable(name@, variable_type@, mutable)]
            + local_view(*old(symtable)),
{
    let already_used: bool = localSymTable_contains(symtable, &name);
    let entry: SymTableEntry = SymTableEntry::Variable(name, variable_type, mutable);
    localSymTable_prepend(symtable, entry);
    already_used
}

/// Push a new empty local scope onto the stack.
pub fn localSymTableStack_push(stack: &mut LocalSymTableStack)
    ensures
        stack_view(*final(stack)) == seq![Seq::<EntryV>::empty()] + stack_view(*old(stack)),
{
    let mut old_stack: LocalSymTableStack = LocalSymTableStack::Nil;
    std::mem::swap(&mut old_stack, stack);
    *stack = LocalSymTableStack::Cons(LocalSymTable::Nil, Box::new(old_stack));
}

/// Pop the innermost scope; false when there is none.
pub fn localSymTableStack_pop(stack: &mut LocalSymTableStack) -> (r: bool)
    ensures
        r == (stack_view(*old(stack)).len() > 0),
        r ==> stack_view(*final(stack)) == stack_view(*old(stack)).drop_first(),
        !r ==> stack_view(*final(stack)) == stack_view(*old(stack)),
{
    let mut old_stack: LocalSymTableStack = LocalSymTableStack::Nil;
    std::mem::swap(&mut old_stack, stack);
    match old_stack {
        LocalSymTableStack::Cons(local, tail) => {
            proof {
                lemma_stack_cons_view(local_view(local), stack_view(*tail));
            }
            *stack = *tail;
            true
        },
        LocalSymTableStack::Nil => false,
    }
}

/// Check whether a name exists in any local scope.
pub fn localSymTableStack_contains(stack: &LocalSymTableStack, name: &ByteString) -> (r: bool)
    ensures
        r == scopes_contain(stack_view(*stack), name@),
    decreases stack,
{
    match stack {
        LocalSymTableStack::Cons(local, tail) => {
            proof {
                lemma_scopes_contain_cons(local_view(*local), stack_view(**tail), name@);
            }
            if localSymTable_contains(local, name) {
                true
            } else {
                localSymTableStack_contains(&**tail, name)
            }
        },
        LocalSymTableStack::Nil => false,
    }
}

/// Lookup a variable in the innermost scope that has it.
pub fn localSymTableStack_lookup_variable(stack: &LocalSymTableStack, name: &ByteString) -> (r:
    Option<Variable>)
    ensures
        match r {
            Some(v) => scopes_find_variable(stack_view(*stack), name@) == Some(variable_view(v)),
            None => scopes_find_variable(stack_view(*stack), name@) is None,
        },
    decreases stack,
{
    match stack {
        LocalSymTableStack::Cons(local, tail) => {
            proof {
                lemma_stack_cons_view(local_view(*local), stack_view(**tail));
            }
            match localSymTable_lookup_variable(local, name) {
                Some(variable) => Some(variable),
                None => localSymTableStack_lookup_variable(&**tail, name),
            }
        },
        LocalSymTableStack::Nil => None,
    }
}

/// Lookup a variable type in the innermost scope that has it.
pub fn localSymTableStack_lookup_variable_type(stack: &LocalSymTableStack, name: &ByteString) -> (r:
    Option<RAstType>)
    ensures
        match r {
            Some(t) => scopes_find_variable(stack_view(*stack), name@) matches Some(v) && v.0 == t@,
            None => scopes_find_variable(stack_view(*stack), name@) is None,
        },
{
    match localSymTableStack_lookup_variable(stack, name) {
        Some(Variable::Variable(variable_type, _)) => Some(variable_type),
        None => None,
    }
}

// ------------------------------------------------------------------
// The symbol table
// ------------------------------------------------------------------

/// Create an empty symbol table: no globals and no scope.
pub fn symTable_new() -> (r: SymTable)
    ensures
        r@.globals == Seq::<EntryV>::empty(),
        r@.scopes == Seq::<Seq<EntryV>>::empty(),
{
    SymTable::Table(GlobalSymTable::Nil, LocalSymTableStack::Nil)
}

/// Check whether a symbol exists in a local scope or among the globals.
pub fn symTable_contains(symtable: &SymTable, name: &ByteString) -> (r: bool)
    ensures
        r == (scopes_contain(symtable@.scopes, name@) || entries_contain(symtable@.globals, name@)),
{
    let SymTable::Table(global, local) = symtable;
    if localSymTableStack_contains(local, name) {
        true
    } else {
        globalSymTable_contains(global, name)
    }
}

/// Lookup a variable (its type and mutability) in the local scopes.
pub fn symTable_lookup_variable(symtable: &SymTable, name: &ByteString) -> (r: Option<Variable>)
    ensures
        match r {
            Some(v) => scopes_find_variable(symtable@.scopes, name@) == Some(variable_view(v)),
            None => scopes_find_variable(symtable@.scopes, name@) is None,
        },
{
    let SymTable::Table(_, local) = symtable;
    localSymTableStack_lookup_variable(local, name)
}

/// Lookup a variable type in the local scopes.
pub fn symTable_lookup_variable_type(symtable: &SymTable, name: &ByteString) -> (r: Option<RAstType>)
    ensures
        match r {
            Some(t) => scopes_find_variable(symtable@.scopes, name@) matches Some(v) && v.0 == t@,
            None => scopes_find_variable(symtable@.scopes, name@) is None,
        },
{
    let SymTable::Table(_, local) = symtable;
    localSymTableStack_lookup_variable_type(local, name)
}

/// Lookup a function signature among the globals.
pub fn symTable_lookup_function_signature(symtable: &SymTable, name: &ByteString) -> (r: Option<
    FnSignature,
>)
    ensures
        match r {
            Some(s) => find_function(symtable@.globals, name@) == Some(signature_view(s)),
            None => find_function(symtable@.globals, name@) is None,
        },
{
    let SymTable::Table(global, _) = symtable;
    globalSymTable_lookup_function_signature(global, name)
}

/// Enter a new, empty local scope.
pub fn symTable_enter_scope(symtable: &mut SymTable)
    ensures
        final(symtable)@.globals == old(symtable)@.globals,
        final(symtable)@.scopes == seq![Seq::<EntryV>::empty()] + old(symtable)@.scopes,
{
    let SymTable::Table(_, local) = symtable;
    localSymTableStack_push(local);
}

/// Leave the innermost scope; false when there is none.
pub fn symTable_leave_scope(symtable: &mut SymTable) -> (r: bool)
    ensures
        r == (old(symtable)@.scopes.len() > 0),
        final(symtable)@.globals == old(symtable)@.globals,
        r ==> final(symtable)@.scopes == old(symtable)@.scopes.drop_first(),
        !r ==> final(symtable)@.scopes == old(symtable)@.scopes,
{
    let SymTable::Table(_, local_stack) = symtable;
    localSymTableStack_pop(local_stack)
}

/// Insert a function into the globals; false (and no change) when the name is
/// taken by a global.
pub fn symTable_insert_function(
    symtable: &mut SymTable,
    name: ByteString,
    parameter_types: List<RAstType>,
    return_type: RAstType,
) -> (r: bool)
    ensures
        r == !entries_contain(old(symtable)@.globals, name@),
        final(symtable)@.scopes == old(symtable)@.scopes,
        r ==> final(symtable)@.globals == seq![
            EntryV::Function(name@, types_view(parameter_types), return_type@),
        ] + old(symtable)@.globals,
        !r ==> final(symtable)@.globals == old(symtable)@.globals,
{
    let SymTable::Table(global, _) = symtable;
    globalSymTable_insert_function(global, name, parameter_types, return_type)
}

/// Insert an enum into the globals; false (and no change) when the name is
/// taken by a global.
pub fn symTable_insert_enum(symtable: &mut SymTable, name: ByteString, variants: List<RAstType>) -> (r:
    bool)
    ensures
        r == !entries_contain(old(symtable)@.globals, name@),
        final(symtable)@.scopes == old(symtable)@.scopes,
        r ==> final(symtable)@.globals == seq![EntryV::Enum(name@, types_view(variants))] + old(
            symtable,
        )@.globals,
        !r ==> final(symtable)@.globals == old(symtable)@.globals,
{
    let SymTable::Table(global, _) = symtable;
    globalSymTable_insert_enum(global, name, variants)
}

/// Insert a variable into the innermost scope. With no scope nothing is
/// inserted and the result is true; otherwise the variable is inserted (it
/// shadows an earlier one) and the result tells whether the name was already
/// used in that scope.
pub fn symTable_insert_variable(
    symtable: &mut SymTable,
    name: ByteString,
    variable_type: RAstType,
    mutable: bool,
) -> (r: bool)
    ensures
        final(symtable)@.globals == old(symtable)@.globals,
        old(symtable)@.scopes.len() == 0 ==> r && final(symtable)@.scopes == old(symtable)@.scopes,
        old(symtable)@.scopes.len() > 0 ==> {
            &&& r == entries_contain(old(symtable)@.scopes[0], name@)
            &&& final(symtable)@.scopes == old(symtable)@.scopes.update(
                0,
                seq![EntryV::Variable(name@, variable_type@, mutable)] + old(symtable)@.scopes[0],
            )
        },
{
    let SymTable::Table(_, local_stack) = symtable;
    match local_stack {
        LocalSymTableStack::Cons(local, tail) => {
            let ghost tail_view = stack_view(**tail);
            let r = localSymTable_insert_variable(local, name, variable_type, mutable);
            proof {
                let new_scopes = stack_view(*local_stack);
                assert(new_scopes =~= seq![local_view(*local)] + tail_view);
                assert(new_scopes =~= old(symtable)@.scopes.update(0, local_view(*local)));
            }
            r
        },
        LocalSymTableStack::Nil => true,
    }
}

// ------------------------------------------------------------------
// Laws
// ------------------------------------------------------------------

/// The newest variable of a scope shadows the others: after inserting a
/// variable, a lookup of its name finds it.
pub proof fn law_inserted_variable_is_found(
    scopes: Seq<Seq<EntryV>>,
    name: Seq<u8>,
    ty: RAstTypeV,
    mutable: bool,
)
    requires
        scopes.len() > 0,
    ensures
        scopes_find_variable(
            scopes.update(0, seq![EntryV::Variable(name, ty, mutable)] + scopes[0]),
            name,
        ) == Some((ty, mutable)),
{
    let inner = seq![EntryV::Variable(name, ty, mutable)] + scopes[0];
    assert(inner[0] == EntryV::Variable(name, ty, mutable));
    assert(scopes.update(0, inner)[0] == inner);
}

/// Entering a scope and leaving it again restores the table.
pub proof fn law_enter_leave_restores(scopes: Seq<Seq<EntryV>>)
    ensures
        (seq![Seq::<EntryV>::empty()] + scopes).len() > 0,
        (seq![Seq::<EntryV>::empty()] + scopes).drop_first() == scopes,
{
    assert((seq![Seq::<EntryV>::empty()] + scopes).drop_first() =~= scopes);
}

/// A global name is defined at most once: inserting a function or an enum
/// under a name that is taken fails, and one that succeeded makes the name
/// known and its signature found.
pub proof fn law_inserted_function_is_found(
    globals: Seq<EntryV>,
    name: Seq<u8>,
    params: Seq<RAstTypeV>,
    ret: RAstTypeV,
)
    ensures
        entries_contain(seq![EntryV::Function(name, params, ret)] + globals, name),
        find_function(seq![EntryV::Function(name, params, ret)] + globals, name) == Some(
            (params, ret),
        ),
{
    let s = seq![EntryV::Function(name, params, ret)] + globals;
    assert(s[0] == EntryV::Function(name, params, ret));
    assert(entry_name(s[0]) == name);
}

} // verus!

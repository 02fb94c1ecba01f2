//! Types of the compiled Rust subset and the casts between them.
use vstd::prelude::*;
use vstd::string::StringSliceAdditionalSpecFns;
use crate::text::{ByteString, string_clone, string_eq, string_from_str};

verus! {

/// Type forms supported by the front end; `S` is the representation of names.
#[derive(Debug)]
pub enum RAstTypeOf<S> {
    U8,
    Usize,
    Bool,
    Char,
    /// `()`
    Unit,
    /// `!`
    Never,
    /// an enum, by name
    Custom(S),
    /// `&T` and `&mut T`
    Reference(Box<RAstTypeOf<S>>, bool),
    /// `*mut T`
    RawPointerMut(Box<RAstTypeOf<S>>),
}

/// A type of the front end.
pub type RAstType = RAstTypeOf<ByteString>;

/// The value of a type: names as bytes.
pub type RAstTypeV = RAstTypeOf<Seq<u8>>;

pub open spec fn type_view(t: RAstType) -> RAstTypeV
    decreases t,
{
    match t {
        RAstTypeOf::U8 => RAstTypeOf::U8,
        RAstTypeOf::Usize => RAstTypeOf::Usize,
        RAstTypeOf::Bool => RAstTypeOf::Bool,
        RAstTypeOf::Char => RAstTypeOf::Char,
        RAstTypeOf::Unit => RAstTypeOf::Unit,
        RAstTypeOf::Never => RAstTypeOf::Never,
        RAstTypeOf::Custom(name) => RAstTypeOf::Custom(name@),
        RAstTypeOf::Reference(inner, mutable) => RAstTypeOf::Reference(
            Box::new(type_view(*inner)),
            mutable,
        ),
        RAstTypeOf::RawPointerMut(inner) => RAstTypeOf::RawPointerMut(Box::new(type_view(*inner))),
    }
}

impl View for RAstTypeOf<ByteString> {
    type V = RAstTypeV;

    open spec fn view(&self) -> RAstTypeV {
        type_view(*self)
    }
}

/// The type `&str`.
pub open spec fn str_ref_type() -> RAstTypeV {
    RAstTypeOf::Reference(Box::new(RAstTypeOf::Custom("str".spec_bytes())), false)
}

/// Make the type `&str`.
pub fn str_ref() -> (r: RAstType)
    ensures
        r@ == str_ref_type(),
{
    let inner: RAstType = RAstTypeOf::Custom(string_from_str("str"));
    assert(inner@ == RAstTypeOf::<Seq<u8>>::Custom("str".spec_bytes()));
    RAstTypeOf::Reference(Box::new(inner), false)
}

/// Copy a type.
pub fn rAstType_clone(t: &RAstType) -> (r: RAstType)
    ensures
        r@ == t@,
    decreases t,
{
    match t {
        RAstTypeOf::U8 => RAstTypeOf::U8,
        RAstTypeOf::Usize => RAstTypeOf::Usize,
        RAstTypeOf::Bool => RAstTypeOf::Bool,
        RAstTypeOf::Char => RAstTypeOf::Char,
        RAstTypeOf::Unit => RAstTypeOf::Unit,
        RAstTypeOf::Never => RAstTypeOf::Never,
        RAstTypeOf::Custom(name) => RAstTypeOf::Custom(string_clone(name)),
        RAstTypeOf::Reference(inner, mutable) => RAstTypeOf::Reference(
            Box::new(rAstType_clone(&**inner)),
            *mutable,
        ),
        RAstTypeOf::RawPointerMut(inner) => RAstTypeOf::RawPointerMut(
            Box::new(rAstType_clone(&**inner)),
        ),
    }
}

/// Check whether two types are equal.
pub fn type_eq(a: &RAstType, b: &RAstType) -> (r: bool)
    ensures
        r == (a@ == b@),
    decreases a,
{
    match a {
        RAstTypeOf::U8 => matches!(b, RAstTypeOf::U8),
        RAstTypeOf::Usize => matches!(b, RAstTypeOf::Usize),
        RAstTypeOf::Bool => matches!(b, RAstTypeOf::Bool),
        RAstTypeOf::Char => matches!(b, RAstTypeOf::Char),
        RAstTypeOf::Unit => matches!(b, RAstTypeOf::Unit),
        RAstTypeOf::Never => matches!(b, RAstTypeOf::Never),
        RAstTypeOf::Custom(a_name) => match b {
            RAstTypeOf::Custom(b_name) => string_eq(a_name, b_name),
            _ => false,
        },
        RAstTypeOf::Reference(a_inner, a_mutable) => match b {
            RAstTypeOf::Reference(b_inner, b_mutable) => {
                if *a_mutable == *b_mutable {
                    let r = type_eq(&**a_inner, &**b_inner);
                    proof {
                        if !r {
                            assert(type_view(**a_inner) != type_view(**b_inner));
                            let va = type_view(*a);
                            let vb = type_view(*b);
                            if va == vb {
                                assert(*va->Reference_0 == *vb->Reference_0);
                            }
                        }
                    }
                    r
                } else {
                    false
                }
            },
            _ => false,
        },
        RAstTypeOf::RawPointerMut(a_inner) => match b {
            RAstTypeOf::RawPointerMut(b_inner) => {
                let r = type_eq(&**a_inner, &**b_inner);
                proof {
                    if !r {
                        let va = type_view(*a);
                        let vb = type_view(*b);
                        if va == vb {
                            assert(*va->RawPointerMut_0 == *vb->RawPointerMut_0);
                        }
                    }
                }
                r
            },
            _ => false,
        },
    }
}

/// The numeric types are `u8` and `usize`.
pub open spec fn is_numeric_type(t: RAstTypeV) -> bool {
    t is U8 || t is Usize
}

/// Check whether a type is numeric.
pub fn type_is_numeric(ty: &RAstType) -> (r: bool)
    ensures
        r == is_numeric_type(ty@),
{
    match ty {
        RAstTypeOf::U8 => true,
        RAstTypeOf::Usize => true,
        _ => false,
    }
}

/// The LLVM-IR type that represents a type (`usize` is 64 bits wide).
pub open spec fn llvm_type_name(t: RAstTypeV) -> Seq<u8> {
    match t {
        RAstTypeOf::U8 => "i8".spec_bytes(),
        RAstTypeOf::Usize => "i64".spec_bytes(),
        RAstTypeOf::Bool => "i1".spec_bytes(),
        RAstTypeOf::Char => "i32".spec_bytes(),
        RAstTypeOf::Unit => "void".spec_bytes(),
        RAstTypeOf::Never => "void".spec_bytes(),
        RAstTypeOf::Custom(_) => "i64".spec_bytes(),
        RAstTypeOf::Reference(_, _) => "ptr".spec_bytes(),
        RAstTypeOf::RawPointerMut(_) => "ptr".spec_bytes(),
    }
}

/// Convert a type into its LLVM-IR type name.
pub fn type_to_llvm_name(ty: &RAstType) -> (r: ByteString)
    ensures
        r@ == llvm_type_name(ty@),
{
    match ty {
        RAstTypeOf::U8 => string_from_str("i8"),
        RAstTypeOf::Usize => string_from_str("i64"),
        RAstTypeOf::Bool => string_from_str("i1"),
        RAstTypeOf::Char => string_from_str("i32"),
        RAstTypeOf::Unit => string_from_str("void"),
        RAstTypeOf::Never => string_from_str("void"),
        RAstTypeOf::Custom(_) => string_from_str("i64"),
        RAstTypeOf::Reference(_, _) => string_from_str("ptr"),
        RAstTypeOf::RawPointerMut(_) => string_from_str("ptr"),
    }
}

/// Which casts the language allows: between the integer-like types `u8`,
/// `usize` and `char` (with `bool` only as a source), and from a reference or
/// raw pointer to a raw pointer.
pub open spec fn can_cast(from: RAstTypeV, to: RAstTypeV) -> bool {
    match from {
        RAstTypeOf::U8 | RAstTypeOf::Usize => to is U8 || to is Usize || to is Char,
        RAstTypeOf::Bool => to is Bool || to is U8 || to is Usize,
        RAstTypeOf::Char => to is Char || to is Usize || to is U8,
        RAstTypeOf::Reference(_, _) | RAstTypeOf::RawPointerMut(_) => to is RawPointerMut,
        _ => false,
    }
}

/// Returns true if the `from` type can be cast into the `to` type.
pub fn type_can_cast_to(from: &RAstType, to: &RAstType) -> (r: bool)
    ensures
        r == can_cast(from@, to@),
{
    match from {
        RAstTypeOf::U8 | RAstTypeOf::Usize => match to {
            RAstTypeOf::U8 | RAstTypeOf::Usize | RAstTypeOf::Char => true,
            _ => false,
        },
        RAstTypeOf::Bool => match to {
            RAstTypeOf::Bool | RAstTypeOf::U8 | RAstTypeOf::Usize => true,
            _ => false,
        },
        RAstTypeOf::Char => match to {
            RAstTypeOf::Char | RAstTypeOf::Usize | RAstTypeOf::U8 => true,
            _ => false,
        },
        RAstTypeOf::Reference(_, _) | RAstTypeOf::RawPointerMut(_) => match to {
            RAstTypeOf::RawPointerMut(_) => true,
            _ => false,
        },
        _ => false,
    }
}

/// What a cast does to a value.
#[derive(Debug, PartialEq, Eq, Structural, Clone, Copy)]
pub enum CastOperation {
    /// A type with smaller bitwidth is zero-extended to a larger bitwidth.
    ZeroExtend,
    /// A type with larger bitwidth is truncated to a smaller bitwidth.
    Truncate,
    /// Nothing is done: the types are equal (a no-op cast is illegal in LLVM-IR).
    NoOp,
    /// The cast is illegal.
    Invalid,
}

/// The operation that casts from `from` to `to`, by the bit widths of
/// `bool` (1), `u8` (8), `char` (32) and `usize` (64).
pub open spec fn cast_operation(from: RAstTypeV, to: RAstTypeV) -> CastOperation {
    if from == to {
        CastOperation::NoOp
    } else {
        match from {
            RAstTypeOf::U8 => if to is Usize || to is Char {
                CastOperation::ZeroExtend
            } else {
                CastOperation::Invalid
            },
            RAstTypeOf::Usize => if to is U8 {
                CastOperation::Truncate
            } else {
                CastOperation::Invalid
            },
            RAstTypeOf::Bool => if to is U8 || to is Usize {
                CastOperation::ZeroExtend
            } else {
                CastOperation::Invalid
            },
            RAstTypeOf::Char => if to is Usize {
                CastOperation::ZeroExtend
            } else if to is U8 {
                CastOperation::Truncate
            } else {
                CastOperation::Invalid
            },
            _ => CastOperation::Invalid,
        }
    }
}

/// Return the operation that casts a value of `left_type` to `right_type`.
pub fn type_get_cast_operation(left_type: &RAstType, right_type: &RAstType) -> (r: CastOperation)
    ensures
        r == cast_operation(left_type@, right_type@),
{
    if type_eq(left_type, right_type) {
        return CastOperation::NoOp;
    }
    match left_type {
        RAstTypeOf::U8 => match right_type {
            RAstTypeOf::Usize | RAstTypeOf::Char => CastOperation::ZeroExtend,
            _ => CastOperation::Invalid,
        },
        RAstTypeOf::Usize => match right_type {
            RAstTypeOf::U8 => CastOperation::Truncate,
            _ => CastOperation::Invalid,
        },
        RAstTypeOf::Bool => match right_type {
            RAstTypeOf::U8 | RAstTypeOf::Usize => CastOperation::ZeroExtend,
            _ => CastOperation::Invalid,
        },
        RAstTypeOf::Char => match right_type {
            RAstTypeOf::Usize => CastOperation::ZeroExtend,
            RAstTypeOf::U8 => CastOperation::Truncate,
            _ => CastOperation::Invalid,
        },
        _ => CastOperation::Invalid,
    }
}

/// The width in bits of a value of a primitive type: `bool` 1, `u8` 8, `char`
/// 32 and `usize` 64 (0 for the other types).
pub open spec fn bit_width(t: RAstTypeV) -> nat {
    match t {
        RAstTypeOf::Bool => 1,
        RAstTypeOf::U8 => 8,
        RAstTypeOf::Char => 32,
        RAstTypeOf::Usize => 64,
        _ => 0,
    }
}

/// `bool`, `u8`, `char` or `usize`.
pub open spec fn is_primitive(t: RAstTypeV) -> bool {
    t is Bool || t is U8 || t is Char || t is Usize
}

/// A cast between primitive types follows their widths: it zero-extends
/// exactly to a wider type, truncates exactly to a narrower one, and does
/// nothing exactly when the types are the same.
pub proof fn law_cast_follows_widths(from: RAstTypeV, to: RAstTypeV)
    requires
        is_primitive(from),
        is_primitive(to),
        cast_operation(from, to) != CastOperation::Invalid,
    ensures
        (cast_operation(from, to) == CastOperation::ZeroExtend) == (bit_width(from) < bit_width(to)),
        (cast_operation(from, to) == CastOperation::Truncate) == (bit_width(from) > bit_width(to)),
        (cast_operation(from, to) == CastOperation::NoOp) == (from == to),
{
}

/// Every widening cast that the casting rules allow zero-extends, and every
/// narrowing one truncates, except `usize` to `char`, which is refused.
pub proof fn law_allowed_casts_follow_widths(from: RAstTypeV, to: RAstTypeV)
    requires
        is_primitive(from),
        can_cast(from, to),
    ensures
        bit_width(from) < bit_width(to) ==> cast_operation(from, to) == CastOperation::ZeroExtend,
        bit_width(from) > bit_width(to) && !(from is Usize && to is Char) ==> cast_operation(from, to)
            == CastOperation::Truncate,
{
}

/// Every cast that is not invalid is allowed by the casting rules.
pub proof fn law_valid_cast_is_allowed(from: RAstTypeV, to: RAstTypeV)
    requires
        (from is U8 || from is Usize || from is Bool || from is Char),
        cast_operation(from, to) != CastOperation::Invalid,
    ensures
        can_cast(from, to),
{
}

} // verus!

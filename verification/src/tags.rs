//! Resource keys: structured type tags. A tag names a struct type — the
//! address and module that declare it, the type's own name, and its generic
//! type arguments, which are themselves type tags.

use vstd::prelude::*;
use crate::keys::{Address, ModuleName};

verus! {

/// A type usable as a generic type argument: a primitive, a vector of a
/// type, or a declared struct type.
pub enum TypeTag {
    Bool,
    U8,
    U16,
    U32,
    U64,
    U128,
    U256,
    Address,
    Signer,
    Vector(Box<TypeTag>),
    Struct(Box<StructTag>),
}

/// The list of generic type arguments of a struct tag.
pub enum TypeArgs {
    Nil,
    Cons(Box<TypeTag>, Box<TypeArgs>),
}

/// A resource key: the struct type whose value is stored, unique within an
/// account.
pub struct StructTag {
    pub address: Address,
    pub module: ModuleName,
    pub name: ModuleName,
    pub type_args: TypeArgs,
}

/// The mathematical shape of a type tag: the same tree, with names and
/// addresses read as byte sequences.
pub enum TypeTagView {
    Bool,
    U8,
    U16,
    U32,
    U64,
    U128,
    U256,
    Address,
    Signer,
    Vector(Box<TypeTagView>),
    Struct(Box<StructTagView>),
}

/// The mathematical shape of a type argument list.
pub enum TypeArgsView {
    Nil,
    Cons(Box<TypeTagView>, Box<TypeArgsView>),
}

/// The mathematical shape of a struct tag.
#[verifier::ext_equal]
pub struct StructTagView {
    pub address: Seq<u8>,
    pub module: Seq<u8>,
    pub name: Seq<u8>,
    pub type_args: TypeArgsView,
}

pub open spec fn tag_view(t: TypeTag) -> TypeTagView
    decreases t,
{
    match t {
        TypeTag::Bool => TypeTagView::Bool,
        TypeTag::U8 => TypeTagView::U8,
        TypeTag::U16 => TypeTagView::U16,
        TypeTag::U32 => TypeTagView::U32,
        TypeTag::U64 => TypeTagView::U64,
        TypeTag::U128 => TypeTagView::U128,
        TypeTag::U256 => TypeTagView::U256,
        TypeTag::Address => TypeTagView::Address,
        TypeTag::Signer => TypeTagView::Signer,
        TypeTag::Vector(e) => TypeTagView::Vector(Box::new(tag_view(*e))),
        TypeTag::Struct(s) => TypeTagView::Struct(Box::new(struct_tag_view(*s))),
    }
}

pub open spec fn args_view(a: TypeArgs) -> TypeArgsView
    decreases a,
{
    match a {
        TypeArgs::Nil => TypeArgsView::Nil,
        TypeArgs::Cons(t, rest) => TypeArgsView::Cons(
            Box::new(tag_view(*t)),
            Box::new(args_view(*rest)),
        ),
    }
}

pub open spec fn struct_tag_view(s: StructTag) -> StructTagView
    decreases s,
{
    StructTagView {
        address: s.address@,
        module: s.module@,
        name: s.name@,
        type_args: args_view(s.type_args),
    }
}

impl View for StructTag {
    type V = StructTagView;

    open spec fn view(&self) -> StructTagView {
        struct_tag_view(*self)
    }
}

/// True exactly when the two tags name the same type.
pub fn tag_equals(a: &TypeTag, b: &TypeTag) -> (r: bool)
    ensures
        r == (tag_view(*a) == tag_view(*b)),
    decreases *a,
{
    match (a, b) {
        (TypeTag::Bool, TypeTag::Bool) => true,
        (TypeTag::U8, TypeTag::U8) => true,
        (TypeTag::U16, TypeTag::U16) => true,
        (TypeTag::U32, TypeTag::U32) => true,
        (TypeTag::U64, TypeTag::U64) => true,
        (TypeTag::U128, TypeTag::U128) => true,
        (TypeTag::U256, TypeTag::U256) => true,
        (TypeTag::Address, TypeTag::Address) => true,
        (TypeTag::Signer, TypeTag::Signer) => true,
        (TypeTag::Vector(x), TypeTag::Vector(y)) => tag_equals(x, y),
        (TypeTag::Struct(x), TypeTag::Struct(y)) => struct_tag_equals(x, y),
        _ => false,
    }
}

/// True exactly when the two lists hold the same type arguments in the
/// same order.
pub fn args_equals(a: &TypeArgs, b: &TypeArgs) -> (r: bool)
    ensures
        r == (args_view(*a) == args_view(*b)),
    decreases *a,
{
    match (a, b) {
        (TypeArgs::Nil, TypeArgs::Nil) => true,
        (TypeArgs::Cons(t1, rest1), TypeArgs::Cons(t2, rest2)) => {
            if tag_equals(t1, t2) {
                args_equals(rest1, rest2)
            } else {
                false
            }
        }
        _ => false,
    }
}

/// True exactly when the two struct tags name the same struct type with
/// the same type arguments.
pub fn struct_tag_equals(a: &StructTag, b: &StructTag) -> (r: bool)
    ensures
        r == (a@ == b@),
    decreases *a,
{
    let same_address = a.address.equals(&b.address);
    let same_module = a.module.equals(&b.module);
    let same_name = a.name.equals(&b.name);
    if same_address && same_module && same_name {
        args_equals(&a.type_args, &b.type_args)
    } else {
        false
    }
}

} // verus!

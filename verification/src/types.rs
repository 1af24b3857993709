use vstd::prelude::*;

use crate::label::Label;

verus! {

/// A type variable, numbered.
#[derive(Debug, Clone, PartialEq, Eq, Hash)]
pub struct TypeVar(pub usize);

/// Types of program values.
#[derive(Debug, PartialEq, Eq)]
pub enum TypeExpr {
    Bool,
    Unit,
    Int,
    Float,
    Named(String),
    Var(TypeVar),
    Union(Box<TypeExpr>, Box<TypeExpr>),
}

/// Constraints collected during type inference.
#[derive(Debug, Clone, PartialEq, Eq)]
pub enum TypeConstraint {
    Equal(TypeExpr, TypeExpr),
    Numeric(TypeExpr),
    Iterable(TypeExpr),
    Mapping(TypeExpr, TypeExpr),
    Sequence(TypeExpr),
}

/// The mathematical model of a type: names are character sequences.
pub enum TypeModel {
    Bool,
    Unit,
    Int,
    Float,
    Named(Seq<char>),
    Var(usize),
    Union(Box<TypeModel>, Box<TypeModel>),
}

/// The model of a type expression.
pub open spec fn type_model(t: TypeExpr) -> TypeModel
    decreases t,
{
    match t {
        TypeExpr::Bool => TypeModel::Bool,
        TypeExpr::Unit => TypeModel::Unit,
        TypeExpr::Int => TypeModel::Int,
        TypeExpr::Float => TypeModel::Float,
        TypeExpr::Named(name) => TypeModel::Named(name@),
        TypeExpr::Var(v) => TypeModel::Var(v.0),
        TypeExpr::Union(l, r) => TypeModel::Union(Box::new(type_model(*l)), Box::new(type_model(*r))),
    }
}

impl DeepView for TypeExpr {
    type V = TypeModel;

    open spec fn deep_view(&self) -> TypeModel {
        type_model(*self)
    }
}

/// The model of a constraint.
pub enum ConstraintModel {
    Equal(TypeModel, TypeModel),
    Numeric(TypeModel),
    Iterable(TypeModel),
    Mapping(TypeModel, TypeModel),
    Sequence(TypeModel),
}

impl DeepView for TypeConstraint {
    type V = ConstraintModel;

    open spec fn deep_view(&self) -> ConstraintModel {
        match *self {
            TypeConstraint::Equal(l, r) => ConstraintModel::Equal(type_model(l), type_model(r)),
            TypeConstraint::Numeric(t) => ConstraintModel::Numeric(type_model(t)),
            TypeConstraint::Iterable(t) => ConstraintModel::Iterable(type_model(t)),
            TypeConstraint::Mapping(k, v) => ConstraintModel::Mapping(type_model(k), type_model(v)),
            TypeConstraint::Sequence(t) => ConstraintModel::Sequence(type_model(t)),
        }
    }
}

impl TypeExpr {
    /// A copy of this type.
    pub fn copy(&self) -> (r: TypeExpr)
        ensures
            r == *self,
        decreases self,
    {
        match self {
            TypeExpr::Bool => TypeExpr::Bool,
            TypeExpr::Unit => TypeExpr::Unit,
            TypeExpr::Int => TypeExpr::Int,
            TypeExpr::Float => TypeExpr::Float,
            TypeExpr::Named(name) => TypeExpr::Named(name.clone()),
            TypeExpr::Var(v) => TypeExpr::Var(TypeVar(v.0)),
            TypeExpr::Union(l, r) => TypeExpr::Union(Box::new(l.copy()), Box::new(r.copy())),
        }
    }

    /// Decides whether two types have the same model.
    pub fn same(&self, other: &TypeExpr) -> (b: bool)
        ensures
            b == (type_model(*self) == type_model(*other)),
        decreases self,
    {
        match self {
            TypeExpr::Bool => match other {
                TypeExpr::Bool => true,
                _ => false,
            },
            TypeExpr::Unit => match other {
                TypeExpr::Unit => true,
                _ => false,
            },
            TypeExpr::Int => match other {
                TypeExpr::Int => true,
                _ => false,
            },
            TypeExpr::Float => match other {
                TypeExpr::Float => true,
                _ => false,
            },
            TypeExpr::Named(a) => match other {
                TypeExpr::Named(b) => {
                    let r = *a == *b;
                    r
                },
                _ => false,
            },
            TypeExpr::Var(a) => match other {
                TypeExpr::Var(b) => a.0 == b.0,
                _ => false,
            },
            TypeExpr::Union(al, ar) => match other {
                TypeExpr::Union(bl, br) => {
                    let l = al.same(bl);
                    if !l {
                        return false;
                    }
                    ar.same(br)
                },
                _ => false,
            },
        }
    }
}

/// The least upper bound of two types: a type variable, not yet known,
/// gives way to the other type; equal types are their own bound; other
/// types join in a union.
pub open spec fn lub_model(left: TypeModel, right: TypeModel) -> TypeModel {
    if left is Var {
        right
    } else if right is Var {
        left
    } else if left == right {
        left
    } else {
        TypeModel::Union(Box::new(left), Box::new(right))
    }
}

/// The least upper bound of a type with itself is the type; a type
/// variable on the left gives way to the other type.
pub proof fn law_lub_idempotent_var_left(t: TypeModel, u: TypeModel)
    ensures
        lub_model(t, t) == t,
        t is Var ==> lub_model(t, u) == u,
        u is Var && !(t is Var) ==> lub_model(t, u) == t,
{
}

impl TypeExpr {
    /// The least upper bound of two types (see `lub_model`).
    pub fn lub(left: TypeExpr, right: TypeExpr) -> (r: TypeExpr)
        ensures
            type_model(r) == lub_model(type_model(left), type_model(right)),
    {
        match left {
            TypeExpr::Var(_) => right,
            _ => match right {
                TypeExpr::Var(_) => left,
                _ => if left.same(&right) {
                    left
                } else {
                    TypeExpr::Union(Box::new(left), Box::new(right))
                },
            },
        }
    }
}

impl Clone for TypeExpr {
    fn clone(&self) -> (r: Self)
        ensures
            r == *self,
    {
        self.copy()
    }
}

impl crate::label::FreshSort for TypeExpr {
    open spec fn spec_fresh_sort(index: usize) -> TypeModel {
        TypeModel::Var(index)
    }

    /// The type variable numbered `index`.
    fn fresh_sort(index: usize) -> (r: Self)
        ensures
            r == TypeExpr::Var(TypeVar(index)),
    {
        TypeExpr::Var(TypeVar(index))
    }
}

impl Label for TypeExpr {
    fn duplicate(&self) -> (r: Self) {
        self.copy()
    }

    fn equals(&self, other: &Self) -> (b: bool) {
        self.same(other)
    }
}

} // verus!

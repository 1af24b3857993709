//! Typing signatures of the Python builtins and operators.

use vstd::prelude::*;

verus! {

/// A type variable of a builtin signature, by name.
#[derive(Debug, Clone, Copy, PartialEq, Eq, Hash, PartialOrd, Ord)]
pub struct TypeVar(pub &'static str);

/// Python types as they appear in builtin signatures.
#[derive(Debug)]
pub enum PyType {
    Any,
    NoneType,
    Bool,
    Int,
    Float,
    Complex,
    Str,
    Bytes,
    ByteArray,
    Range,
    Slice,
    MemoryView,
    Object,
    Type,
    Var(TypeVar),
    Iterable(Box<PyType>),
    Sequence(Box<PyType>),
    List(Box<PyType>),
    Tuple(Vec<PyType>),
    TupleOf(Box<PyType>),
    Dict(Box<PyType>, Box<PyType>),
    SetOf(Box<PyType>),
    FrozenSet(Box<PyType>),
    Mapping(Box<PyType>, Box<PyType>),
}

/// Constraints that a builtin signature places on its type variables.
#[derive(Debug, Clone, PartialEq, Eq)]
pub enum Constraint {
    Numeric(TypeVar),
    Iterable(TypeVar),
    Mapping(TypeVar, TypeVar),
    Sequence(TypeVar),
}

/// One overload of a builtin: parameter types, result type and constraints.
#[derive(Debug)]
pub struct TypeScheme {
    pub params: Vec<TypeVar>,
    pub inputs: Vec<PyType>,
    pub output: PyType,
    pub constraints: Vec<Constraint>,
}

/// The overloads of one builtin function or operator.
#[derive(Debug)]
pub struct BuiltinSignature {
    pub name: &'static str,
    pub schemes: Vec<TypeScheme>,
}

/// The model of a signature type: type variables by name, lists as
/// sequences.
#[verifier::ext_equal]
pub enum PyTypeModel {
    Any,
    NoneType,
    Bool,
    Int,
    Float,
    Complex,
    Str,
    Bytes,
    ByteArray,
    Range,
    Slice,
    MemoryView,
    Object,
    Type,
    Var(Seq<char>),
    Iterable(Box<PyTypeModel>),
    Sequence(Box<PyTypeModel>),
    List(Box<PyTypeModel>),
    Tuple(Seq<PyTypeModel>),
    TupleOf(Box<PyTypeModel>),
    Dict(Box<PyTypeModel>, Box<PyTypeModel>),
    SetOf(Box<PyTypeModel>),
    FrozenSet(Box<PyTypeModel>),
    Mapping(Box<PyTypeModel>, Box<PyTypeModel>),
}

/// The model of a constraint of a signature.
pub enum SigConstraintModel {
    Numeric(Seq<char>),
    Iterable(Seq<char>),
    Mapping(Seq<char>, Seq<char>),
    Sequence(Seq<char>),
}

/// The model of one overload.
#[verifier::ext_equal]
pub struct SchemeModel {
    pub params: Seq<Seq<char>>,
    pub inputs: Seq<PyTypeModel>,
    pub output: PyTypeModel,
    pub constraints: Seq<SigConstraintModel>,
}

/// The model of the overloads of one builtin.
#[verifier::ext_equal]
pub struct BuiltinModel {
    pub name: Seq<char>,
    pub schemes: Seq<SchemeModel>,
}

/// The model of a signature type.
pub open spec fn pytype_model(p: PyType) -> PyTypeModel
    decreases p,
{
    match p {
        PyType::Any => PyTypeModel::Any,
        PyType::NoneType => PyTypeModel::NoneType,
        PyType::Bool => PyTypeModel::Bool,
        PyType::Int => PyTypeModel::Int,
        PyType::Float => PyTypeModel::Float,
        PyType::Complex => PyTypeModel::Complex,
        PyType::Str => PyTypeModel::Str,
        PyType::Bytes => PyTypeModel::Bytes,
        PyType::ByteArray => PyTypeModel::ByteArray,
        PyType::Range => PyTypeModel::Range,
        PyType::Slice => PyTypeModel::Slice,
        PyType::MemoryView => PyTypeModel::MemoryView,
        PyType::Object => PyTypeModel::Object,
        PyType::Type => PyTypeModel::Type,
        PyType::Var(v) => PyTypeModel::Var(v.0@),
        PyType::Iterable(i) => PyTypeModel::Iterable(Box::new(pytype_model(*i))),
        PyType::Sequence(i) => PyTypeModel::Sequence(Box::new(pytype_model(*i))),
        PyType::List(i) => PyTypeModel::List(Box::new(pytype_model(*i))),
        PyType::Tuple(items) => PyTypeModel::Tuple(pytype_models(items@)),
        PyType::TupleOf(i) => PyTypeModel::TupleOf(Box::new(pytype_model(*i))),
        PyType::Dict(k, v) => PyTypeModel::Dict(Box::new(pytype_model(*k)), Box::new(pytype_model(*v))),
        PyType::SetOf(i) => PyTypeModel::SetOf(Box::new(pytype_model(*i))),
        PyType::FrozenSet(i) => PyTypeModel::FrozenSet(Box::new(pytype_model(*i))),
        PyType::Mapping(k, v) => PyTypeModel::Mapping(Box::new(pytype_model(*k)), Box::new(pytype_model(*v))),
    }
}

/// The models of a list of signature types.
pub open spec fn pytype_models(ps: Seq<PyType>) -> Seq<PyTypeModel>
    decreases ps,
{
    Seq::new(
        ps.len(),
        |i: int|
            if 0 <= i < ps.len() {
                pytype_model(ps[i])
            } else {
                PyTypeModel::Any
            },
    )
}

/// The model of a constraint of a signature.
pub open spec fn sig_constraint_model(c: Constraint) -> SigConstraintModel {
    match c {
        Constraint::Numeric(t) => SigConstraintModel::Numeric(t.0@),
        Constraint::Iterable(t) => SigConstraintModel::Iterable(t.0@),
        Constraint::Mapping(k, v) => SigConstraintModel::Mapping(k.0@, v.0@),
        Constraint::Sequence(t) => SigConstraintModel::Sequence(t.0@),
    }
}

impl DeepView for TypeScheme {
    type V = SchemeModel;

    open spec fn deep_view(&self) -> SchemeModel {
        SchemeModel {
            params: self.params@.map_values(|t: TypeVar| t.0@),
            inputs: pytype_models(self.inputs@),
            output: pytype_model(self.output),
            constraints: self.constraints@.map_values(|c: Constraint| sig_constraint_model(c)),
        }
    }
}

impl DeepView for BuiltinSignature {
    type V = BuiltinModel;

    open spec fn deep_view(&self) -> BuiltinModel {
        BuiltinModel { name: self.name@, schemes: self.schemes@.map_values(|s: TypeScheme| s.deep_view()) }
    }
}

/// The table of the builtin signatures, in lookup order.
pub open spec fn builtin_table() -> Seq<BuiltinModel> {
    seq![
        builtin_entry_0(),
        builtin_entry_1(),
        builtin_entry_2(),
        builtin_entry_3(),
        builtin_entry_4(),
        builtin_entry_5(),
        builtin_entry_6(),
        builtin_entry_7(),
        builtin_entry_8(),
        builtin_entry_9(),
        builtin_entry_10(),
        builtin_entry_11(),
        builtin_entry_12(),
        builtin_entry_13(),
        builtin_entry_14(),
        builtin_entry_15(),
        builtin_entry_16(),
        builtin_entry_17(),
        builtin_entry_18(),
        builtin_entry_19(),
        builtin_entry_20(),
        builtin_entry_21(),
        builtin_entry_22(),
        builtin_entry_23(),
        builtin_entry_24(),
        builtin_entry_25(),
        builtin_entry_26(),
        builtin_entry_27(),
        builtin_entry_28(),
        builtin_entry_29(),
        builtin_entry_30(),
        builtin_entry_31(),
        builtin_entry_32(),
        builtin_entry_33(),
        builtin_entry_34(),
        builtin_entry_35(),
        builtin_entry_36(),
        builtin_entry_37(),
        builtin_entry_38(),
        builtin_entry_39(),
        builtin_entry_40(),
        builtin_entry_41(),
        builtin_entry_42(),
        builtin_entry_43(),
        builtin_entry_44(),
        builtin_entry_45(),
        builtin_entry_46(),
        builtin_entry_47(),
        builtin_entry_48(),
        builtin_entry_49(),
        builtin_entry_50(),
        builtin_entry_51(),
        builtin_entry_52(),
        builtin_entry_53(),
        builtin_entry_54(),
        builtin_entry_55(),
        builtin_entry_56(),
        builtin_entry_57(),
        builtin_entry_58(),
        builtin_entry_59(),
        builtin_entry_60(),
        builtin_entry_61()
    ]
}

/// Entry 0 of the table.
pub open spec fn builtin_entry_0() -> BuiltinModel {
    let t = "T"@;
    let u = "U"@;
    let k = "K"@;
    let v = "V"@;
        BuiltinModel {
            name: "bool"@,
            schemes: seq![
                SchemeModel {
                    params: seq![],
                    inputs: seq![],
                    output: PyTypeModel::Bool,
                    constraints: seq![],
                },
                SchemeModel {
                    params: seq![],
                    inputs: seq![PyTypeModel::Any],
                    output: PyTypeModel::Bool,
                    constraints: seq![],
                },
            ],
        }
}

#[verifier::rlimit(50)]
fn builtin_signature_0() -> (r: BuiltinSignature)
    ensures
        r.deep_view() == builtin_entry_0(),
{
    let t = TypeVar("T");
    let u = TypeVar("U");
    let k = TypeVar("K");
    let v = TypeVar("V");
    let r = BuiltinSignature {
            name: "bool",
            schemes: vec![
                TypeScheme {
                    params: vec![],
                    inputs: vec![],
                    output: PyType::Bool,
                    constraints: vec![],
                },
                TypeScheme {
                    params: vec![],
                    inputs: vec![PyType::Any],
                    output: PyType::Bool,
                    constraints: vec![],
                },
            ],
        };
    proof {
        reveal_with_fuel(pytype_models, 4);
        reveal_with_fuel(pytype_model, 4);
        assert(r.deep_view() =~~= builtin_entry_0());
    }
    r
}

/// Entry 1 of the table.
pub open spec fn builtin_entry_1() -> BuiltinModel {
    let t = "T"@;
    let u = "U"@;
    let k = "K"@;
    let v = "V"@;
        BuiltinModel {
            name: "int"@,
            schemes: seq![
                SchemeModel {
                    params: seq![],
                    inputs: seq![],
                    output: PyTypeModel::Int,
                    constraints: seq![],
                },
                SchemeModel {
                    params: seq![],
                    inputs: seq![PyTypeModel::Any],
                    output: PyTypeModel::Int,
                    constraints: seq![],
                },
            ],
        }
}

#[verifier::rlimit(50)]
fn builtin_signature_1() -> (r: BuiltinSignature)
    ensures
        r.deep_view() == builtin_entry_1(),
{
    let t = TypeVar("T");
    let u = TypeVar("U");
    let k = TypeVar("K");
    let v = TypeVar("V");
    let r = BuiltinSignature {
            name: "int",
            schemes: vec![
                TypeScheme {
                    params: vec![],
                    inputs: vec![],
                    output: PyType::Int,
                    constraints: vec![],
                },
                TypeScheme {
                    params: vec![],
                    inputs: vec![PyType::Any],
                    output: PyType::Int,
                    constraints: vec![],
                },
            ],
        };
    proof {
        reveal_with_fuel(pytype_models, 4);
        reveal_with_fuel(pytype_model, 4);
        assert(r.deep_view() =~~= builtin_entry_1());
    }
    r
}

/// Entry 2 of the table.
pub open spec fn builtin_entry_2() -> BuiltinModel {
    let t = "T"@;
    let u = "U"@;
    let k = "K"@;
    let v = "V"@;
        BuiltinModel {
            name: "float"@,
            schemes: seq![
                SchemeModel {
                    params: seq![],
                    inputs: seq![],
                    output: PyTypeModel::Float,
                    constraints: seq![],
                },
                SchemeModel {
                    params: seq![],
                    inputs: seq![PyTypeModel::Any],
                    output: PyTypeModel::Float,
                    constraints: seq![],
                },
            ],
        }
}

#[verifier::rlimit(50)]
fn builtin_signature_2() -> (r: BuiltinSignature)
    ensures
        r.deep_view() == builtin_entry_2(),
{
    let t = TypeVar("T");
    let u = TypeVar("U");
    let k = TypeVar("K");
    let v = TypeVar("V");
    let r = BuiltinSignature {
            name: "float",
            schemes: vec![
                TypeScheme {
                    params: vec![],
                    inputs: vec![],
                    output: PyType::Float,
                    constraints: vec![],
                },
                TypeScheme {
                    params: vec![],
                    inputs: vec![PyType::Any],
                    output: PyType::Float,
                    constraints: vec![],
                },
            ],
        };
    proof {
        reveal_with_fuel(pytype_models, 4);
        reveal_with_fuel(pytype_model, 4);
        assert(r.deep_view() =~~= builtin_entry_2());
    }
    r
}

/// Entry 3 of the table.
pub open spec fn builtin_entry_3() -> BuiltinModel {
    let t = "T"@;
    let u = "U"@;
    let k = "K"@;
    let v = "V"@;
        BuiltinModel {
            name: "complex"@,
            schemes: seq![
                SchemeModel {
                    params: seq![],
                    inputs: seq![],
                    output: PyTypeModel::Complex,
                    constraints: seq![],
                },
                SchemeModel {
                    params: seq![],
                    inputs: seq![PyTypeModel::Any],
                    output: PyTypeModel::Complex,
                    constraints: seq![],
                },
                SchemeModel {
                    params: seq![],
                    inputs: seq![PyTypeModel::Any, PyTypeModel::Any],
                    output: PyTypeModel::Complex,
                    constraints: seq![],
                },
            ],
        }
}

#[verifier::rlimit(50)]
fn builtin_signature_3() -> (r: BuiltinSignature)
    ensures
        r.deep_view() == builtin_entry_3(),
{
    let t = TypeVar("T");
    let u = TypeVar("U");
    let k = TypeVar("K");
    let v = TypeVar("V");
    let r = BuiltinSignature {
            name: "complex",
            schemes: vec![
                TypeScheme {
                    params: vec![],
                    inputs: vec![],
                    output: PyType::Complex,
                    constraints: vec![],
                },
                TypeScheme {
                    params: vec![],
                    inputs: vec![PyType::Any],
                    output: PyType::Complex,
                    constraints: vec![],
                },
                TypeScheme {
                    params: vec![],
                    inputs: vec![PyType::Any, PyType::Any],
                    output: PyType::Complex,
                    constraints: vec![],
                },
            ],
        };
    proof {
        reveal_with_fuel(pytype_models, 4);
        reveal_with_fuel(pytype_model, 4);
        assert(r.deep_view() =~~= builtin_entry_3());
    }
    r
}

/// Entry 4 of the table.
pub open spec fn builtin_entry_4() -> BuiltinModel {
    let t = "T"@;
    let u = "U"@;
    let k = "K"@;
    let v = "V"@;
        BuiltinModel {
            name: "str"@,
            schemes: seq![
                SchemeModel {
                    params: seq![],
                    inputs: seq![],
                    output: PyTypeModel::Str,
                    constraints: seq![],
                },
                SchemeModel {
                    params: seq![],
                    inputs: seq![PyTypeModel::Any],
                    output: PyTypeModel::Str,
                    constraints: seq![],
                },
            ],
        }
}

#[verifier::rlimit(50)]
fn builtin_signature_4() -> (r: BuiltinSignature)
    ensures
        r.deep_view() == builtin_entry_4(),
{
    let t = TypeVar("T");
    let u = TypeVar("U");
    let k = TypeVar("K");
    let v = TypeVar("V");
    let r = BuiltinSignature {
            name: "str",
            schemes: vec![
                TypeScheme {
                    params: vec![],
                    inputs: vec![],
                    output: PyType::Str,
                    constraints: vec![],
                },
                TypeScheme {
                    params: vec![],
                    inputs: vec![PyType::Any],
                    output: PyType::Str,
                    constraints: vec![],
                },
            ],
        };
    proof {
        reveal_with_fuel(pytype_models, 4);
        reveal_with_fuel(pytype_model, 4);
        assert(r.deep_view() =~~= builtin_entry_4());
    }
    r
}

/// Entry 5 of the table.
pub open spec fn builtin_entry_5() -> BuiltinModel {
    let t = "T"@;
    let u = "U"@;
    let k = "K"@;
    let v = "V"@;
        BuiltinModel {
            name: "bytes"@,
            schemes: seq![
                SchemeModel {
                    params: seq![],
                    inputs: seq![],
                    output: PyTypeModel::Bytes,
                    constraints: seq![],
                },
                SchemeModel {
                    params: seq![t],
                    inputs: seq![PyTypeModel::Iterable(Box::new(PyTypeModel::Var(t)))],
                    output: PyTypeModel::Bytes,
                    constraints: seq![],
                },
                SchemeModel {
                    params: seq![],
                    inputs: seq![PyTypeModel::Str, PyTypeModel::Str],
                    output: PyTypeModel::Bytes,
                    constraints: seq![],
                },
            ],
        }
}

#[verifier::rlimit(50)]
fn builtin_signature_5() -> (r: BuiltinSignature)
    ensures
        r.deep_view() == builtin_entry_5(),
{
    let t = TypeVar("T");
    let u = TypeVar("U");
    let k = TypeVar("K");
    let v = TypeVar("V");
    let r = BuiltinSignature {
            name: "bytes",
            schemes: vec![
                TypeScheme {
                    params: vec![],
                    inputs: vec![],
                    output: PyType::Bytes,
                    constraints: vec![],
                },
                TypeScheme {
                    params: vec![t],
                    inputs: vec![PyType::Iterable(Box::new(PyType::Var(t)))],
                    output: PyType::Bytes,
                    constraints: vec![],
                },
                TypeScheme {
                    params: vec![],
                    inputs: vec![PyType::Str, PyType::Str],
                    output: PyType::Bytes,
                    constraints: vec![],
                },
            ],
        };
    proof {
        reveal_with_fuel(pytype_models, 4);
        reveal_with_fuel(pytype_model, 4);
        assert(r.deep_view() =~~= builtin_entry_5());
    }
    r
}

/// Entry 6 of the table.
pub open spec fn builtin_entry_6() -> BuiltinModel {
    let t = "T"@;
    let u = "U"@;
    let k = "K"@;
    let v = "V"@;
        BuiltinModel {
            name: "bytearray"@,
            schemes: seq![
                SchemeModel {
                    params: seq![],
                    inputs: seq![],
                    output: PyTypeModel::ByteArray,
                    constraints: seq![],
                },
                SchemeModel {
                    params: seq![t],
                    inputs: seq![PyTypeModel::Iterable(Box::new(PyTypeModel::Var(t)))],
                    output: PyTypeModel::ByteArray,
                    constraints: seq![],
                },
                SchemeModel {
                    params: seq![],
                    inputs: seq![PyTypeModel::Str, PyTypeModel::Str],
                    output: PyTypeModel::ByteArray,
                    constraints: seq![],
                },
            ],
        }
}

#[verifier::rlimit(50)]
fn builtin_signature_6() -> (r: BuiltinSignature)
    ensures
        r.deep_view() == builtin_entry_6(),
{
    let t = TypeVar("T");
    let u = TypeVar("U");
    let k = TypeVar("K");
    let v = TypeVar("V");
    let r = BuiltinSignature {
            name: "bytearray",
            schemes: vec![
                TypeScheme {
                    params: vec![],
                    inputs: vec![],
                    output: PyType::ByteArray,
                    constraints: vec![],
                },
                TypeScheme {
                    params: vec![t],
                    inputs: vec![PyType::Iterable(Box::new(PyType::Var(t)))],
                    output: PyType::ByteArray,
                    constraints: vec![],
                },
                TypeScheme {
                    params: vec![],
                    inputs: vec![PyType::Str, PyType::Str],
                    output: PyType::ByteArray,
                    constraints: vec![],
                },
            ],
        };
    proof {
        reveal_with_fuel(pytype_models, 4);
        reveal_with_fuel(pytype_model, 4);
        assert(r.deep_view() =~~= builtin_entry_6());
    }
    r
}

/// Entry 7 of the table.
pub open spec fn builtin_entry_7() -> BuiltinModel {
    let t = "T"@;
    let u = "U"@;
    let k = "K"@;
    let v = "V"@;
        BuiltinModel {
            name: "list"@,
            schemes: seq![
                SchemeModel {
                    params: seq![],
                    inputs: seq![],
                    output: PyTypeModel::List(Box::new(PyTypeModel::Any)),
                    constraints: seq![],
                },
                SchemeModel {
                    params: seq![t],
                    inputs: seq![PyTypeModel::Iterable(Box::new(PyTypeModel::Var(t)))],
                    output: PyTypeModel::List(Box::new(PyTypeModel::Var(t))),
                    constraints: seq![SigConstraintModel::Iterable(t)],
                },
            ],
        }
}

#[verifier::rlimit(50)]
fn builtin_signature_7() -> (r: BuiltinSignature)
    ensures
        r.deep_view() == builtin_entry_7(),
{
    let t = TypeVar("T");
    let u = TypeVar("U");
    let k = TypeVar("K");
    let v = TypeVar("V");
    let r = BuiltinSignature {
            name: "list",
            schemes: vec![
                TypeScheme {
                    params: vec![],
                    inputs: vec![],
                    output: PyType::List(Box::new(PyType::Any)),
                    constraints: vec![],
                },
                TypeScheme {
                    params: vec![t],
                    inputs: vec![PyType::Iterable(Box::new(PyType::Var(t)))],
                    output: PyType::List(Box::new(PyType::Var(t))),
                    constraints: vec![Constraint::Iterable(t)],
                },
            ],
        };
    proof {
        reveal_with_fuel(pytype_models, 4);
        reveal_with_fuel(pytype_model, 4);
        assert(r.deep_view() =~~= builtin_entry_7());
    }
    r
}

/// Entry 8 of the table.
pub open spec fn builtin_entry_8() -> BuiltinModel {
    let t = "T"@;
    let u = "U"@;
    let k = "K"@;
    let v = "V"@;
        BuiltinModel {
            name: "tuple"@,
            schemes: seq![
                SchemeModel {
                    params: seq![],
                    inputs: seq![],
                    output: PyTypeModel::TupleOf(Box::new(PyTypeModel::Any)),
                    constraints: seq![],
                },
                SchemeModel {
                    params: seq![t],
                    inputs: seq![PyTypeModel::Iterable(Box::new(PyTypeModel::Var(t)))],
                    output: PyTypeModel::TupleOf(Box::new(PyTypeModel::Var(t))),
                    constraints: seq![SigConstraintModel::Iterable(t)],
                },
            ],
        }
}

#[verifier::rlimit(50)]
fn builtin_signature_8() -> (r: BuiltinSignature)
    ensures
        r.deep_view() == builtin_entry_8(),
{
    let t = TypeVar("T");
    let u = TypeVar("U");
    let k = TypeVar("K");
    let v = TypeVar("V");
    let r = BuiltinSignature {
            name: "tuple",
            schemes: vec![
                TypeScheme {
                    params: vec![],
                    inputs: vec![],
                    output: PyType::TupleOf(Box::new(PyType::Any)),
                    constraints: vec![],
                },
                TypeScheme {
                    params: vec![t],
                    inputs: vec![PyType::Iterable(Box::new(PyType::Var(t)))],
                    output: PyType::TupleOf(Box::new(PyType::Var(t))),
                    constraints: vec![Constraint::Iterable(t)],
                },
            ],
        };
    proof {
        reveal_with_fuel(pytype_models, 4);
        reveal_with_fuel(pytype_model, 4);
        assert(r.deep_view() =~~= builtin_entry_8());
    }
    r
}

/// Entry 9 of the table.
pub open spec fn builtin_entry_9() -> BuiltinModel {
    let t = "T"@;
    let u = "U"@;
    let k = "K"@;
    let v = "V"@;
        BuiltinModel {
            name: "dict"@,
            schemes: seq![
                SchemeModel {
                    params: seq![],
                    inputs: seq![],
                    output: PyTypeModel::Dict(Box::new(PyTypeModel::Any), Box::new(PyTypeModel::Any)),
                    constraints: seq![],
                },
                SchemeModel {
                    params: seq![k, v],
                    inputs: seq![PyTypeModel::Mapping(
                        Box::new(PyTypeModel::Var(k)),
                        Box::new(PyTypeModel::Var(v)),
                    )],
                    output: PyTypeModel::Dict(
                        Box::new(PyTypeModel::Var(k)),
                        Box::new(PyTypeModel::Var(v)),
                    ),
                    constraints: seq![SigConstraintModel::Mapping(k, v)],
                },
                SchemeModel {
                    params: seq![k, v],
                    inputs: seq![PyTypeModel::Iterable(Box::new(PyTypeModel::Tuple(seq![
                        PyTypeModel::Var(k),
                        PyTypeModel::Var(v),
                    ])))],
                    output: PyTypeModel::Dict(
                        Box::new(PyTypeModel::Var(k)),
                        Box::new(PyTypeModel::Var(v)),
                    ),
                    constraints: seq![SigConstraintModel::Iterable(k)],
                },
            ],
        }
}

#[verifier::rlimit(50)]
fn builtin_signature_9() -> (r: BuiltinSignature)
    ensures
        r.deep_view() == builtin_entry_9(),
{
    let t = TypeVar("T");
    let u = TypeVar("U");
    let k = TypeVar("K");
    let v = TypeVar("V");
    let r = BuiltinSignature {
            name: "dict",
            schemes: vec![
                TypeScheme {
                    params: vec![],
                    inputs: vec![],
                    output: PyType::Dict(Box::new(PyType::Any), Box::new(PyType::Any)),
                    constraints: vec![],
                },
                TypeScheme {
                    params: vec![k, v],
                    inputs: vec![PyType::Mapping(
                        Box::new(PyType::Var(k)),
                        Box::new(PyType::Var(v)),
                    )],
                    output: PyType::Dict(
                        Box::new(PyType::Var(k)),
                        Box::new(PyType::Var(v)),
                    ),
                    constraints: vec![Constraint::Mapping(k, v)],
                },
                TypeScheme {
                    params: vec![k, v],
                    inputs: vec![PyType::Iterable(Box::new(PyType::Tuple(vec![
                        PyType::Var(k),
                        PyType::Var(v),
                    ])))],
                    output: PyType::Dict(
                        Box::new(PyType::Var(k)),
                        Box::new(PyType::Var(v)),
                    ),
                    constraints: vec![Constraint::Iterable(k)],
                },
            ],
        };
    proof {
        reveal_with_fuel(pytype_models, 4);
        reveal_with_fuel(pytype_model, 4);
        assert(pytype_models(r.schemes@[2].inputs@[0]->Iterable_0->Tuple_0@) =~= seq![PyTypeModel::Var("K"@), PyTypeModel::Var("V"@)]);
        assert(r.deep_view() =~~= builtin_entry_9());
    }
    r
}

/// Entry 10 of the table.
pub open spec fn builtin_entry_10() -> BuiltinModel {
    let t = "T"@;
    let u = "U"@;
    let k = "K"@;
    let v = "V"@;
        BuiltinModel {
            name: "set"@,
            schemes: seq![
                SchemeModel {
                    params: seq![],
                    inputs: seq![],
                    output: PyTypeModel::SetOf(Box::new(PyTypeModel::Any)),
                    constraints: seq![],
                },
                SchemeModel {
                    params: seq![t],
                    inputs: seq![PyTypeModel::Iterable(Box::new(PyTypeModel::Var(t)))],
                    output: PyTypeModel::SetOf(Box::new(PyTypeModel::Var(t))),
                    constraints: seq![SigConstraintModel::Iterable(t)],
                },
            ],
        }
}

#[verifier::rlimit(50)]
fn builtin_signature_10() -> (r: BuiltinSignature)
    ensures
        r.deep_view() == builtin_entry_10(),
{
    let t = TypeVar("T");
    let u = TypeVar("U");
    let k = TypeVar("K");
    let v = TypeVar("V");
    let r = BuiltinSignature {
            name: "set",
            schemes: vec![
                TypeScheme {
                    params: vec![],
                    inputs: vec![],
                    output: PyType::SetOf(Box::new(PyType::Any)),
                    constraints: vec![],
                },
                TypeScheme {
                    params: vec![t],
                    inputs: vec![PyType::Iterable(Box::new(PyType::Var(t)))],
                    output: PyType::SetOf(Box::new(PyType::Var(t))),
                    constraints: vec![Constraint::Iterable(t)],
                },
            ],
        };
    proof {
        reveal_with_fuel(pytype_models, 4);
        reveal_with_fuel(pytype_model, 4);
        assert(r.deep_view() =~~= builtin_entry_10());
    }
    r
}

/// Entry 11 of the table.
pub open spec fn builtin_entry_11() -> BuiltinModel {
    let t = "T"@;
    let u = "U"@;
    let k = "K"@;
    let v = "V"@;
        BuiltinModel {
            name: "frozenset"@,
            schemes: seq![
                SchemeModel {
                    params: seq![],
                    inputs: seq![],
                    output: PyTypeModel::FrozenSet(Box::new(PyTypeModel::Any)),
                    constraints: seq![],
                },
                SchemeModel {
                    params: seq![t],
                    inputs: seq![PyTypeModel::Iterable(Box::new(PyTypeModel::Var(t)))],
                    output: PyTypeModel::FrozenSet(Box::new(PyTypeModel::Var(t))),
                    constraints: seq![SigConstraintModel::Iterable(t)],
                },
            ],
        }
}

#[verifier::rlimit(50)]
fn builtin_signature_11() -> (r: BuiltinSignature)
    ensures
        r.deep_view() == builtin_entry_11(),
{
    let t = TypeVar("T");
    let u = TypeVar("U");
    let k = TypeVar("K");
    let v = TypeVar("V");
    let r = BuiltinSignature {
            name: "frozenset",
            schemes: vec![
                TypeScheme {
                    params: vec![],
                    inputs: vec![],
                    output: PyType::FrozenSet(Box::new(PyType::Any)),
                    constraints: vec![],
                },
                TypeScheme {
                    params: vec![t],
                    inputs: vec![PyType::Iterable(Box::new(PyType::Var(t)))],
                    output: PyType::FrozenSet(Box::new(PyType::Var(t))),
                    constraints: vec![Constraint::Iterable(t)],
                },
            ],
        };
    proof {
        reveal_with_fuel(pytype_models, 4);
        reveal_with_fuel(pytype_model, 4);
        assert(r.deep_view() =~~= builtin_entry_11());
    }
    r
}

/// Entry 12 of the table.
pub open spec fn builtin_entry_12() -> BuiltinModel {
    let t = "T"@;
    let u = "U"@;
    let k = "K"@;
    let v = "V"@;
        BuiltinModel {
            name: "range"@,
            schemes: seq![
                SchemeModel {
                    params: seq![],
                    inputs: seq![PyTypeModel::Int],
                    output: PyTypeModel::Range,
                    constraints: seq![],
                },
                SchemeModel {
                    params: seq![],
                    inputs: seq![PyTypeModel::Int, PyTypeModel::Int],
                    output: PyTypeModel::Range,
                    constraints: seq![],
                },
                SchemeModel {
                    params: seq![],
                    inputs: seq![PyTypeModel::Int, PyTypeModel::Int, PyTypeModel::Int],
                    output: PyTypeModel::Range,
                    constraints: seq![],
                },
            ],
        }
}

#[verifier::rlimit(50)]
fn builtin_signature_12() -> (r: BuiltinSignature)
    ensures
        r.deep_view() == builtin_entry_12(),
{
    let t = TypeVar("T");
    let u = TypeVar("U");
    let k = TypeVar("K");
    let v = TypeVar("V");
    let r = BuiltinSignature {
            name: "range",
            schemes: vec![
                TypeScheme {
                    params: vec![],
                    inputs: vec![PyType::Int],
                    output: PyType::Range,
                    constraints: vec![],
                },
                TypeScheme {
                    params: vec![],
                    inputs: vec![PyType::Int, PyType::Int],
                    output: PyType::Range,
                    constraints: vec![],
                },
                TypeScheme {
                    params: vec![],
                    inputs: vec![PyType::Int, PyType::Int, PyType::Int],
                    output: PyType::Range,
                    constraints: vec![],
                },
            ],
        };
    proof {
        reveal_with_fuel(pytype_models, 4);
        reveal_with_fuel(pytype_model, 4);
        assert(r.deep_view() =~~= builtin_entry_12());
    }
    r
}

/// Entry 13 of the table.
pub open spec fn builtin_entry_13() -> BuiltinModel {
    let t = "T"@;
    let u = "U"@;
    let k = "K"@;
    let v = "V"@;
        BuiltinModel {
            name: "slice"@,
            schemes: seq![
                SchemeModel {
                    params: seq![],
                    inputs: seq![PyTypeModel::Int],
                    output: PyTypeModel::Slice,
                    constraints: seq![],
                },
                SchemeModel {
                    params: seq![],
                    inputs: seq![PyTypeModel::Int, PyTypeModel::Int],
                    output: PyTypeModel::Slice,
                    constraints: seq![],
                },
                SchemeModel {
                    params: seq![],
                    inputs: seq![PyTypeModel::Int, PyTypeModel::Int, PyTypeModel::Int],
                    output: PyTypeModel::Slice,
                    constraints: seq![],
                },
            ],
        }
}

#[verifier::rlimit(50)]
fn builtin_signature_13() -> (r: BuiltinSignature)
    ensures
        r.deep_view() == builtin_entry_13(),
{
    let t = TypeVar("T");
    let u = TypeVar("U");
    let k = TypeVar("K");
    let v = TypeVar("V");
    let r = BuiltinSignature {
            name: "slice",
            schemes: vec![
                TypeScheme {
                    params: vec![],
                    inputs: vec![PyType::Int],
                    output: PyType::Slice,
                    constraints: vec![],
                },
                TypeScheme {
                    params: vec![],
                    inputs: vec![PyType::Int, PyType::Int],
                    output: PyType::Slice,
                    constraints: vec![],
                },
                TypeScheme {
                    params: vec![],
                    inputs: vec![PyType::Int, PyType::Int, PyType::Int],
                    output: PyType::Slice,
                    constraints: vec![],
                },
            ],
        };
    proof {
        reveal_with_fuel(pytype_models, 4);
        reveal_with_fuel(pytype_model, 4);
        assert(r.deep_view() =~~= builtin_entry_13());
    }
    r
}

/// Entry 14 of the table.
pub open spec fn builtin_entry_14() -> BuiltinModel {
    let t = "T"@;
    let u = "U"@;
    let k = "K"@;
    let v = "V"@;
        BuiltinModel {
            name: "memoryview"@,
            schemes: seq![SchemeModel {
                params: seq![],
                inputs: seq![PyTypeModel::Any],
                output: PyTypeModel::MemoryView,
                constraints: seq![],
            }],
        }
}

#[verifier::rlimit(50)]
fn builtin_signature_14() -> (r: BuiltinSignature)
    ensures
        r.deep_view() == builtin_entry_14(),
{
    let t = TypeVar("T");
    let u = TypeVar("U");
    let k = TypeVar("K");
    let v = TypeVar("V");
    let r = BuiltinSignature {
            name: "memoryview",
            schemes: vec![TypeScheme {
                params: vec![],
                inputs: vec![PyType::Any],
                output: PyType::MemoryView,
                constraints: vec![],
            }],
        };
    proof {
        reveal_with_fuel(pytype_models, 4);
        reveal_with_fuel(pytype_model, 4);
        assert(r.deep_view() =~~= builtin_entry_14());
    }
    r
}

/// Entry 15 of the table.
pub open spec fn builtin_entry_15() -> BuiltinModel {
    let t = "T"@;
    let u = "U"@;
    let k = "K"@;
    let v = "V"@;
        BuiltinModel {
            name: "object"@,
            schemes: seq![SchemeModel {
                params: seq![],
                inputs: seq![],
                output: PyTypeModel::Object,
                constraints: seq![],
            }],
        }
}

#[verifier::rlimit(50)]
fn builtin_signature_15() -> (r: BuiltinSignature)
    ensures
        r.deep_view() == builtin_entry_15(),
{
    let t = TypeVar("T");
    let u = TypeVar("U");
    let k = TypeVar("K");
    let v = TypeVar("V");
    let r = BuiltinSignature {
            name: "object",
            schemes: vec![TypeScheme {
                params: vec![],
                inputs: vec![],
                output: PyType::Object,
                constraints: vec![],
            }],
        };
    proof {
        reveal_with_fuel(pytype_models, 4);
        reveal_with_fuel(pytype_model, 4);
        assert(r.deep_view() =~~= builtin_entry_15());
    }
    r
}

/// Entry 16 of the table.
pub open spec fn builtin_entry_16() -> BuiltinModel {
    let t = "T"@;
    let u = "U"@;
    let k = "K"@;
    let v = "V"@;
        BuiltinModel {
            name: "type"@,
            schemes: seq![
                SchemeModel {
                    params: seq![],
                    inputs: seq![PyTypeModel::Any],
                    output: PyTypeModel::Type,
                    constraints: seq![],
                },
                SchemeModel {
                    params: seq![],
                    inputs: seq![
                        PyTypeModel::Str,
                        PyTypeModel::TupleOf(Box::new(PyTypeModel::Type)),
                        PyTypeModel::Dict(Box::new(PyTypeModel::Str), Box::new(PyTypeModel::Any)),
                    ],
                    output: PyTypeModel::Type,
                    constraints: seq![],
                },
            ],
        }
}

#[verifier::rlimit(50)]
fn builtin_signature_16() -> (r: BuiltinSignature)
    ensures
        r.deep_view() == builtin_entry_16(),
{
    let t = TypeVar("T");
    let u = TypeVar("U");
    let k = TypeVar("K");
    let v = TypeVar("V");
    let r = BuiltinSignature {
            name: "type",
            schemes: vec![
                TypeScheme {
                    params: vec![],
                    inputs: vec![PyType::Any],
                    output: PyType::Type,
                    constraints: vec![],
                },
                TypeScheme {
                    params: vec![],
                    inputs: vec![
                        PyType::Str,
                        PyType::TupleOf(Box::new(PyType::Type)),
                        PyType::Dict(Box::new(PyType::Str), Box::new(PyType::Any)),
                    ],
                    output: PyType::Type,
                    constraints: vec![],
                },
            ],
        };
    proof {
        reveal_with_fuel(pytype_models, 4);
        reveal_with_fuel(pytype_model, 4);
        assert(r.deep_view() =~~= builtin_entry_16());
    }
    r
}

/// Entry 17 of the table.
pub open spec fn builtin_entry_17() -> BuiltinModel {
    let t = "T"@;
    let u = "U"@;
    let k = "K"@;
    let v = "V"@;
        BuiltinModel {
            name: "abs"@,
            schemes: seq![SchemeModel {
                params: seq![t],
                inputs: seq![PyTypeModel::Var(t)],
                output: PyTypeModel::Var(t),
                constraints: seq![SigConstraintModel::Numeric(t)],
            }],
        }
}

#[verifier::rlimit(50)]
fn builtin_signature_17() -> (r: BuiltinSignature)
    ensures
        r.deep_view() == builtin_entry_17(),
{
    let t = TypeVar("T");
    let u = TypeVar("U");
    let k = TypeVar("K");
    let v = TypeVar("V");
    let r = BuiltinSignature {
            name: "abs",
            schemes: vec![TypeScheme {
                params: vec![t],
                inputs: vec![PyType::Var(t)],
                output: PyType::Var(t),
                constraints: vec![Constraint::Numeric(t)],
            }],
        };
    proof {
        reveal_with_fuel(pytype_models, 4);
        reveal_with_fuel(pytype_model, 4);
        assert(r.deep_view() =~~= builtin_entry_17());
    }
    r
}

/// Entry 18 of the table.
pub open spec fn builtin_entry_18() -> BuiltinModel {
    let t = "T"@;
    let u = "U"@;
    let k = "K"@;
    let v = "V"@;
        BuiltinModel {
            name: "len"@,
            schemes: seq![SchemeModel {
                params: seq![t],
                inputs: seq![PyTypeModel::Sequence(Box::new(PyTypeModel::Var(t)))],
                output: PyTypeModel::Int,
                constraints: seq![SigConstraintModel::Sequence(t)],
            }],
        }
}

#[verifier::rlimit(50)]
fn builtin_signature_18() -> (r: BuiltinSignature)
    ensures
        r.deep_view() == builtin_entry_18(),
{
    let t = TypeVar("T");
    let u = TypeVar("U");
    let k = TypeVar("K");
    let v = TypeVar("V");
    let r = BuiltinSignature {
            name: "len",
            schemes: vec![TypeScheme {
                params: vec![t],
                inputs: vec![PyType::Sequence(Box::new(PyType::Var(t)))],
                output: PyType::Int,
                constraints: vec![Constraint::Sequence(t)],
            }],
        };
    proof {
        reveal_with_fuel(pytype_models, 4);
        reveal_with_fuel(pytype_model, 4);
        assert(r.deep_view() =~~= builtin_entry_18());
    }
    r
}

/// Entry 19 of the table.
pub open spec fn builtin_entry_19() -> BuiltinModel {
    let t = "T"@;
    let u = "U"@;
    let k = "K"@;
    let v = "V"@;
        BuiltinModel {
            name: "iter"@,
            schemes: seq![SchemeModel {
                params: seq![t],
                inputs: seq![PyTypeModel::Iterable(Box::new(PyTypeModel::Var(t)))],
                output: PyTypeModel::Iterable(Box::new(PyTypeModel::Var(t))),
                constraints: seq![SigConstraintModel::Iterable(t)],
            }],
        }
}

#[verifier::rlimit(50)]
fn builtin_signature_19() -> (r: BuiltinSignature)
    ensures
        r.deep_view() == builtin_entry_19(),
{
    let t = TypeVar("T");
    let u = TypeVar("U");
    let k = TypeVar("K");
    let v = TypeVar("V");
    let r = BuiltinSignature {
            name: "iter",
            schemes: vec![TypeScheme {
                params: vec![t],
                inputs: vec![PyType::Iterable(Box::new(PyType::Var(t)))],
                output: PyType::Iterable(Box::new(PyType::Var(t))),
                constraints: vec![Constraint::Iterable(t)],
            }],
        };
    proof {
        reveal_with_fuel(pytype_models, 4);
        reveal_with_fuel(pytype_model, 4);
        assert(r.deep_view() =~~= builtin_entry_19());
    }
    r
}

/// Entry 20 of the table.
pub open spec fn builtin_entry_20() -> BuiltinModel {
    let t = "T"@;
    let u = "U"@;
    let k = "K"@;
    let v = "V"@;
        BuiltinModel {
            name: "next"@,
            schemes: seq![SchemeModel {
                params: seq![t],
                inputs: seq![PyTypeModel::Iterable(Box::new(PyTypeModel::Var(t)))],
                output: PyTypeModel::Var(t),
                constraints: seq![SigConstraintModel::Iterable(t)],
            }],
        }
}

#[verifier::rlimit(50)]
fn builtin_signature_20() -> (r: BuiltinSignature)
    ensures
        r.deep_view() == builtin_entry_20(),
{
    let t = TypeVar("T");
    let u = TypeVar("U");
    let k = TypeVar("K");
    let v = TypeVar("V");
    let r = BuiltinSignature {
            name: "next",
            schemes: vec![TypeScheme {
                params: vec![t],
                inputs: vec![PyType::Iterable(Box::new(PyType::Var(t)))],
                output: PyType::Var(t),
                constraints: vec![Constraint::Iterable(t)],
            }],
        };
    proof {
        reveal_with_fuel(pytype_models, 4);
        reveal_with_fuel(pytype_model, 4);
        assert(r.deep_view() =~~= builtin_entry_20());
    }
    r
}

/// Entry 21 of the table.
pub open spec fn builtin_entry_21() -> BuiltinModel {
    let t = "T"@;
    let u = "U"@;
    let k = "K"@;
    let v = "V"@;
        BuiltinModel {
            name: "enumerate"@,
            schemes: seq![SchemeModel {
                params: seq![t],
                inputs: seq![PyTypeModel::Iterable(Box::new(PyTypeModel::Var(t)))],
                output: PyTypeModel::Iterable(Box::new(PyTypeModel::Tuple(seq![
                    PyTypeModel::Int,
                    PyTypeModel::Var(t),
                ]))),
                constraints: seq![SigConstraintModel::Iterable(t)],
            }],
        }
}

#[verifier::rlimit(50)]
fn builtin_signature_21() -> (r: BuiltinSignature)
    ensures
        r.deep_view() == builtin_entry_21(),
{
    let t = TypeVar("T");
    let u = TypeVar("U");
    let k = TypeVar("K");
    let v = TypeVar("V");
    let r = BuiltinSignature {
            name: "enumerate",
            schemes: vec![TypeScheme {
                params: vec![t],
                inputs: vec![PyType::Iterable(Box::new(PyType::Var(t)))],
                output: PyType::Iterable(Box::new(PyType::Tuple(vec![
                    PyType::Int,
                    PyType::Var(t),
                ]))),
                constraints: vec![Constraint::Iterable(t)],
            }],
        };
    proof {
        reveal_with_fuel(pytype_models, 4);
        reveal_with_fuel(pytype_model, 4);
        assert(pytype_models(r.schemes@[0].output->Iterable_0->Tuple_0@) =~= seq![PyTypeModel::Int, PyTypeModel::Var("T"@)]);
        assert(r.deep_view() =~~= builtin_entry_21());
    }
    r
}

/// Entry 22 of the table.
pub open spec fn builtin_entry_22() -> BuiltinModel {
    let t = "T"@;
    let u = "U"@;
    let k = "K"@;
    let v = "V"@;
        BuiltinModel {
            name: "zip"@,
            schemes: seq![SchemeModel {
                params: seq![t, u],
                inputs: seq![
                    PyTypeModel::Iterable(Box::new(PyTypeModel::Var(t))),
                    PyTypeModel::Iterable(Box::new(PyTypeModel::Var(u))),
                ],
                output: PyTypeModel::Iterable(Box::new(PyTypeModel::Tuple(seq![
                    PyTypeModel::Var(t),
                    PyTypeModel::Var(u),
                ]))),
                constraints: seq![
                    SigConstraintModel::Iterable(t),
                    SigConstraintModel::Iterable(u),
                ],
            }],
        }
}

#[verifier::rlimit(50)]
fn builtin_signature_22() -> (r: BuiltinSignature)
    ensures
        r.deep_view() == builtin_entry_22(),
{
    let t = TypeVar("T");
    let u = TypeVar("U");
    let k = TypeVar("K");
    let v = TypeVar("V");
    let r = BuiltinSignature {
            name: "zip",
            schemes: vec![TypeScheme {
                params: vec![t, u],
                inputs: vec![
                    PyType::Iterable(Box::new(PyType::Var(t))),
                    PyType::Iterable(Box::new(PyType::Var(u))),
                ],
                output: PyType::Iterable(Box::new(PyType::Tuple(vec![
                    PyType::Var(t),
                    PyType::Var(u),
                ]))),
                constraints: vec![
                    Constraint::Iterable(t),
                    Constraint::Iterable(u),
                ],
            }],
        };
    proof {
        reveal_with_fuel(pytype_models, 4);
        reveal_with_fuel(pytype_model, 4);
        assert(pytype_models(r.schemes@[0].output->Iterable_0->Tuple_0@) =~= seq![PyTypeModel::Var("T"@), PyTypeModel::Var("U"@)]);
        assert(r.deep_view() =~~= builtin_entry_22());
    }
    r
}

/// Entry 23 of the table.
pub open spec fn builtin_entry_23() -> BuiltinModel {
    let t = "T"@;
    let u = "U"@;
    let k = "K"@;
    let v = "V"@;
        BuiltinModel {
            name: "map"@,
            schemes: seq![SchemeModel {
                params: seq![t],
                inputs: seq![
                    PyTypeModel::Any,
                    PyTypeModel::Iterable(Box::new(PyTypeModel::Var(t))),
                ],
                output: PyTypeModel::Iterable(Box::new(PyTypeModel::Any)),
                constraints: seq![SigConstraintModel::Iterable(t)],
            }],
        }
}

#[verifier::rlimit(50)]
fn builtin_signature_23() -> (r: BuiltinSignature)
    ensures
        r.deep_view() == builtin_entry_23(),
{
    let t = TypeVar("T");
    let u = TypeVar("U");
    let k = TypeVar("K");
    let v = TypeVar("V");
    let r = BuiltinSignature {
            name: "map",
            schemes: vec![TypeScheme {
                params: vec![t],
                inputs: vec![
                    PyType::Any,
                    PyType::Iterable(Box::new(PyType::Var(t))),
                ],
                output: PyType::Iterable(Box::new(PyType::Any)),
                constraints: vec![Constraint::Iterable(t)],
            }],
        };
    proof {
        reveal_with_fuel(pytype_models, 4);
        reveal_with_fuel(pytype_model, 4);
        assert(r.deep_view() =~~= builtin_entry_23());
    }
    r
}

/// Entry 24 of the table.
pub open spec fn builtin_entry_24() -> BuiltinModel {
    let t = "T"@;
    let u = "U"@;
    let k = "K"@;
    let v = "V"@;
        BuiltinModel {
            name: "filter"@,
            schemes: seq![SchemeModel {
                params: seq![t],
                inputs: seq![
                    PyTypeModel::Any,
                    PyTypeModel::Iterable(Box::new(PyTypeModel::Var(t))),
                ],
                output: PyTypeModel::Iterable(Box::new(PyTypeModel::Var(t))),
                constraints: seq![SigConstraintModel::Iterable(t)],
            }],
        }
}

#[verifier::rlimit(50)]
fn builtin_signature_24() -> (r: BuiltinSignature)
    ensures
        r.deep_view() == builtin_entry_24(),
{
    let t = TypeVar("T");
    let u = TypeVar("U");
    let k = TypeVar("K");
    let v = TypeVar("V");
    let r = BuiltinSignature {
            name: "filter",
            schemes: vec![TypeScheme {
                params: vec![t],
                inputs: vec![
                    PyType::Any,
                    PyType::Iterable(Box::new(PyType::Var(t))),
                ],
                output: PyType::Iterable(Box::new(PyType::Var(t))),
                constraints: vec![Constraint::Iterable(t)],
            }],
        };
    proof {
        reveal_with_fuel(pytype_models, 4);
        reveal_with_fuel(pytype_model, 4);
        assert(r.deep_view() =~~= builtin_entry_24());
    }
    r
}

/// Entry 25 of the table.
pub open spec fn builtin_entry_25() -> BuiltinModel {
    let t = "T"@;
    let u = "U"@;
    let k = "K"@;
    let v = "V"@;
        BuiltinModel {
            name: "sum"@,
            schemes: seq![SchemeModel {
                params: seq![t],
                inputs: seq![PyTypeModel::Iterable(Box::new(PyTypeModel::Var(t)))],
                output: PyTypeModel::Var(t),
                constraints: seq![
                    SigConstraintModel::Numeric(t),
                    SigConstraintModel::Iterable(t),
                ],
            }],
        }
}

#[verifier::rlimit(50)]
fn builtin_signature_25() -> (r: BuiltinSignature)
    ensures
        r.deep_view() == builtin_entry_25(),
{
    let t = TypeVar("T");
    let u = TypeVar("U");
    let k = TypeVar("K");
    let v = TypeVar("V");
    let r = BuiltinSignature {
            name: "sum",
            schemes: vec![TypeScheme {
                params: vec![t],
                inputs: vec![PyType::Iterable(Box::new(PyType::Var(t)))],
                output: PyType::Var(t),
                constraints: vec![
                    Constraint::Numeric(t),
                    Constraint::Iterable(t),
                ],
            }],
        };
    proof {
        reveal_with_fuel(pytype_models, 4);
        reveal_with_fuel(pytype_model, 4);
        assert(r.deep_view() =~~= builtin_entry_25());
    }
    r
}

/// Entry 26 of the table.
pub open spec fn builtin_entry_26() -> BuiltinModel {
    let t = "T"@;
    let u = "U"@;
    let k = "K"@;
    let v = "V"@;
        BuiltinModel {
            name: "min"@,
            schemes: seq![
                SchemeModel {
                    params: seq![t],
                    inputs: seq![PyTypeModel::Var(t), PyTypeModel::Var(t)],
                    output: PyTypeModel::Var(t),
                    constraints: seq![],
                },
                SchemeModel {
                    params: seq![t],
                    inputs: seq![PyTypeModel::Iterable(Box::new(PyTypeModel::Var(t)))],
                    output: PyTypeModel::Var(t),
                    constraints: seq![SigConstraintModel::Iterable(t)],
                },
            ],
        }
}

#[verifier::rlimit(50)]
fn builtin_signature_26() -> (r: BuiltinSignature)
    ensures
        r.deep_view() == builtin_entry_26(),
{
    let t = TypeVar("T");
    let u = TypeVar("U");
    let k = TypeVar("K");
    let v = TypeVar("V");
    let r = BuiltinSignature {
            name: "min",
            schemes: vec![
                TypeScheme {
                    params: vec![t],
                    inputs: vec![PyType::Var(t), PyType::Var(t)],
                    output: PyType::Var(t),
                    constraints: vec![],
                },
                TypeScheme {
                    params: vec![t],
                    inputs: vec![PyType::Iterable(Box::new(PyType::Var(t)))],
                    output: PyType::Var(t),
                    constraints: vec![Constraint::Iterable(t)],
                },
            ],
        };
    proof {
        reveal_with_fuel(pytype_models, 4);
        reveal_with_fuel(pytype_model, 4);
        assert(r.deep_view() =~~= builtin_entry_26());
    }
    r
}

/// Entry 27 of the table.
pub open spec fn builtin_entry_27() -> BuiltinModel {
    let t = "T"@;
    let u = "U"@;
    let k = "K"@;
    let v = "V"@;
        BuiltinModel {
            name: "max"@,
            schemes: seq![
                SchemeModel {
                    params: seq![t],
                    inputs: seq![PyTypeModel::Var(t), PyTypeModel::Var(t)],
                    output: PyTypeModel::Var(t),
                    constraints: seq![],
                },
                SchemeModel {
                    params: seq![t],
                    inputs: seq![PyTypeModel::Iterable(Box::new(PyTypeModel::Var(t)))],
                    output: PyTypeModel::Var(t),
                    constraints: seq![SigConstraintModel::Iterable(t)],
                },
            ],
        }
}

#[verifier::rlimit(50)]
fn builtin_signature_27() -> (r: BuiltinSignature)
    ensures
        r.deep_view() == builtin_entry_27(),
{
    let t = TypeVar("T");
    let u = TypeVar("U");
    let k = TypeVar("K");
    let v = TypeVar("V");
    let r = BuiltinSignature {
            name: "max",
            schemes: vec![
                TypeScheme {
                    params: vec![t],
                    inputs: vec![PyType::Var(t), PyType::Var(t)],
                    output: PyType::Var(t),
                    constraints: vec![],
                },
                TypeScheme {
                    params: vec![t],
                    inputs: vec![PyType::Iterable(Box::new(PyType::Var(t)))],
                    output: PyType::Var(t),
                    constraints: vec![Constraint::Iterable(t)],
                },
            ],
        };
    proof {
        reveal_with_fuel(pytype_models, 4);
        reveal_with_fuel(pytype_model, 4);
        assert(r.deep_view() =~~= builtin_entry_27());
    }
    r
}

/// Entry 28 of the table.
pub open spec fn builtin_entry_28() -> BuiltinModel {
    let t = "T"@;
    let u = "U"@;
    let k = "K"@;
    let v = "V"@;
        BuiltinModel {
            name: "sorted"@,
            schemes: seq![SchemeModel {
                params: seq![t],
                inputs: seq![PyTypeModel::Iterable(Box::new(PyTypeModel::Var(t)))],
                output: PyTypeModel::List(Box::new(PyTypeModel::Var(t))),
                constraints: seq![SigConstraintModel::Iterable(t)],
            }],
        }
}

#[verifier::rlimit(50)]
fn builtin_signature_28() -> (r: BuiltinSignature)
    ensures
        r.deep_view() == builtin_entry_28(),
{
    let t = TypeVar("T");
    let u = TypeVar("U");
    let k = TypeVar("K");
    let v = TypeVar("V");
    let r = BuiltinSignature {
            name: "sorted",
            schemes: vec![TypeScheme {
                params: vec![t],
                inputs: vec![PyType::Iterable(Box::new(PyType::Var(t)))],
                output: PyType::List(Box::new(PyType::Var(t))),
                constraints: vec![Constraint::Iterable(t)],
            }],
        };
    proof {
        reveal_with_fuel(pytype_models, 4);
        reveal_with_fuel(pytype_model, 4);
        assert(r.deep_view() =~~= builtin_entry_28());
    }
    r
}

/// Entry 29 of the table.
pub open spec fn builtin_entry_29() -> BuiltinModel {
    let t = "T"@;
    let u = "U"@;
    let k = "K"@;
    let v = "V"@;
        BuiltinModel {
            name: "all"@,
            schemes: seq![SchemeModel {
                params: seq![],
                inputs: seq![PyTypeModel::Iterable(Box::new(PyTypeModel::Any))],
                output: PyTypeModel::Bool,
                constraints: seq![],
            }],
        }
}

#[verifier::rlimit(50)]
fn builtin_signature_29() -> (r: BuiltinSignature)
    ensures
        r.deep_view() == builtin_entry_29(),
{
    let t = TypeVar("T");
    let u = TypeVar("U");
    let k = TypeVar("K");
    let v = TypeVar("V");
    let r = BuiltinSignature {
            name: "all",
            schemes: vec![TypeScheme {
                params: vec![],
                inputs: vec![PyType::Iterable(Box::new(PyType::Any))],
                output: PyType::Bool,
                constraints: vec![],
            }],
        };
    proof {
        reveal_with_fuel(pytype_models, 4);
        reveal_with_fuel(pytype_model, 4);
        assert(r.deep_view() =~~= builtin_entry_29());
    }
    r
}

/// Entry 30 of the table.
pub open spec fn builtin_entry_30() -> BuiltinModel {
    let t = "T"@;
    let u = "U"@;
    let k = "K"@;
    let v = "V"@;
        BuiltinModel {
            name: "any"@,
            schemes: seq![SchemeModel {
                params: seq![],
                inputs: seq![PyTypeModel::Iterable(Box::new(PyTypeModel::Any))],
                output: PyTypeModel::Bool,
                constraints: seq![],
            }],
        }
}

#[verifier::rlimit(50)]
fn builtin_signature_30() -> (r: BuiltinSignature)
    ensures
        r.deep_view() == builtin_entry_30(),
{
    let t = TypeVar("T");
    let u = TypeVar("U");
    let k = TypeVar("K");
    let v = TypeVar("V");
    let r = BuiltinSignature {
            name: "any",
            schemes: vec![TypeScheme {
                params: vec![],
                inputs: vec![PyType::Iterable(Box::new(PyType::Any))],
                output: PyType::Bool,
                constraints: vec![],
            }],
        };
    proof {
        reveal_with_fuel(pytype_models, 4);
        reveal_with_fuel(pytype_model, 4);
        assert(r.deep_view() =~~= builtin_entry_30());
    }
    r
}

/// Entry 31 of the table.
pub open spec fn builtin_entry_31() -> BuiltinModel {
    let t = "T"@;
    let u = "U"@;
    let k = "K"@;
    let v = "V"@;
        BuiltinModel {
            name: "repr"@,
            schemes: seq![SchemeModel {
                params: seq![],
                inputs: seq![PyTypeModel::Any],
                output: PyTypeModel::Str,
                constraints: seq![],
            }],
        }
}

#[verifier::rlimit(50)]
fn builtin_signature_31() -> (r: BuiltinSignature)
    ensures
        r.deep_view() == builtin_entry_31(),
{
    let t = TypeVar("T");
    let u = TypeVar("U");
    let k = TypeVar("K");
    let v = TypeVar("V");
    let r = BuiltinSignature {
            name: "repr",
            schemes: vec![TypeScheme {
                params: vec![],
                inputs: vec![PyType::Any],
                output: PyType::Str,
                constraints: vec![],
            }],
        };
    proof {
        reveal_with_fuel(pytype_models, 4);
        reveal_with_fuel(pytype_model, 4);
        assert(r.deep_view() =~~= builtin_entry_31());
    }
    r
}

/// Entry 32 of the table.
pub open spec fn builtin_entry_32() -> BuiltinModel {
    let t = "T"@;
    let u = "U"@;
    let k = "K"@;
    let v = "V"@;
        BuiltinModel {
            name: "ascii"@,
            schemes: seq![SchemeModel {
                params: seq![],
                inputs: seq![PyTypeModel::Any],
                output: PyTypeModel::Str,
                constraints: seq![],
            }],
        }
}

#[verifier::rlimit(50)]
fn builtin_signature_32() -> (r: BuiltinSignature)
    ensures
        r.deep_view() == builtin_entry_32(),
{
    let t = TypeVar("T");
    let u = TypeVar("U");
    let k = TypeVar("K");
    let v = TypeVar("V");
    let r = BuiltinSignature {
            name: "ascii",
            schemes: vec![TypeScheme {
                params: vec![],
                inputs: vec![PyType::Any],
                output: PyType::Str,
                constraints: vec![],
            }],
        };
    proof {
        reveal_with_fuel(pytype_models, 4);
        reveal_with_fuel(pytype_model, 4);
        assert(r.deep_view() =~~= builtin_entry_32());
    }
    r
}

/// Entry 33 of the table.
pub open spec fn builtin_entry_33() -> BuiltinModel {
    let t = "T"@;
    let u = "U"@;
    let k = "K"@;
    let v = "V"@;
        BuiltinModel {
            name: "format"@,
            schemes: seq![
                SchemeModel {
                    params: seq![],
                    inputs: seq![PyTypeModel::Any],
                    output: PyTypeModel::Str,
                    constraints: seq![],
                },
                SchemeModel {
                    params: seq![],
                    inputs: seq![PyTypeModel::Any, PyTypeModel::Str],
                    output: PyTypeModel::Str,
                    constraints: seq![],
                },
            ],
        }
}

#[verifier::rlimit(50)]
fn builtin_signature_33() -> (r: BuiltinSignature)
    ensures
        r.deep_view() == builtin_entry_33(),
{
    let t = TypeVar("T");
    let u = TypeVar("U");
    let k = TypeVar("K");
    let v = TypeVar("V");
    let r = BuiltinSignature {
            name: "format",
            schemes: vec![
                TypeScheme {
                    params: vec![],
                    inputs: vec![PyType::Any],
                    output: PyType::Str,
                    constraints: vec![],
                },
                TypeScheme {
                    params: vec![],
                    inputs: vec![PyType::Any, PyType::Str],
                    output: PyType::Str,
                    constraints: vec![],
                },
            ],
        };
    proof {
        reveal_with_fuel(pytype_models, 4);
        reveal_with_fuel(pytype_model, 4);
        assert(r.deep_view() =~~= builtin_entry_33());
    }
    r
}

/// Entry 34 of the table.
pub open spec fn builtin_entry_34() -> BuiltinModel {
    let t = "T"@;
    let u = "U"@;
    let k = "K"@;
    let v = "V"@;
        BuiltinModel {
            name: "round"@,
            schemes: seq![
                SchemeModel {
                    params: seq![],
                    inputs: seq![PyTypeModel::Float],
                    output: PyTypeModel::Float,
                    constraints: seq![],
                },
                SchemeModel {
                    params: seq![],
                    inputs: seq![PyTypeModel::Float, PyTypeModel::Int],
                    output: PyTypeModel::Float,
                    constraints: seq![],
                },
            ],
        }
}

#[verifier::rlimit(50)]
fn builtin_signature_34() -> (r: BuiltinSignature)
    ensures
        r.deep_view() == builtin_entry_34(),
{
    let t = TypeVar("T");
    let u = TypeVar("U");
    let k = TypeVar("K");
    let v = TypeVar("V");
    let r = BuiltinSignature {
            name: "round",
            schemes: vec![
                TypeScheme {
                    params: vec![],
                    inputs: vec![PyType::Float],
                    output: PyType::Float,
                    constraints: vec![],
                },
                TypeScheme {
                    params: vec![],
                    inputs: vec![PyType::Float, PyType::Int],
                    output: PyType::Float,
                    constraints: vec![],
                },
            ],
        };
    proof {
        reveal_with_fuel(pytype_models, 4);
        reveal_with_fuel(pytype_model, 4);
        assert(r.deep_view() =~~= builtin_entry_34());
    }
    r
}

/// Entry 35 of the table.
pub open spec fn builtin_entry_35() -> BuiltinModel {
    let t = "T"@;
    let u = "U"@;
    let k = "K"@;
    let v = "V"@;
        BuiltinModel {
            name: "pow"@,
            schemes: seq![
                SchemeModel {
                    params: seq![],
                    inputs: seq![PyTypeModel::Int, PyTypeModel::Int],
                    output: PyTypeModel::Int,
                    constraints: seq![],
                },
                SchemeModel {
                    params: seq![],
                    inputs: seq![PyTypeModel::Float, PyTypeModel::Float],
                    output: PyTypeModel::Float,
                    constraints: seq![],
                },
                SchemeModel {
                    params: seq![],
                    inputs: seq![PyTypeModel::Complex, PyTypeModel::Complex],
                    output: PyTypeModel::Complex,
                    constraints: seq![],
                },
            ],
        }
}

#[verifier::rlimit(50)]
fn builtin_signature_35() -> (r: BuiltinSignature)
    ensures
        r.deep_view() == builtin_entry_35(),
{
    let t = TypeVar("T");
    let u = TypeVar("U");
    let k = TypeVar("K");
    let v = TypeVar("V");
    let r = BuiltinSignature {
            name: "pow",
            schemes: vec![
                TypeScheme {
                    params: vec![],
                    inputs: vec![PyType::Int, PyType::Int],
                    output: PyType::Int,
                    constraints: vec![],
                },
                TypeScheme {
                    params: vec![],
                    inputs: vec![PyType::Float, PyType::Float],
                    output: PyType::Float,
                    constraints: vec![],
                },
                TypeScheme {
                    params: vec![],
                    inputs: vec![PyType::Complex, PyType::Complex],
                    output: PyType::Complex,
                    constraints: vec![],
                },
            ],
        };
    proof {
        reveal_with_fuel(pytype_models, 4);
        reveal_with_fuel(pytype_model, 4);
        assert(r.deep_view() =~~= builtin_entry_35());
    }
    r
}

/// Entry 36 of the table.
pub open spec fn builtin_entry_36() -> BuiltinModel {
    let t = "T"@;
    let u = "U"@;
    let k = "K"@;
    let v = "V"@;
        BuiltinModel {
            name: "divmod"@,
            schemes: seq![
                SchemeModel {
                    params: seq![],
                    inputs: seq![PyTypeModel::Int, PyTypeModel::Int],
                    output: PyTypeModel::Tuple(seq![PyTypeModel::Int, PyTypeModel::Int]),
                    constraints: seq![],
                },
                SchemeModel {
                    params: seq![],
                    inputs: seq![PyTypeModel::Float, PyTypeModel::Float],
                    output: PyTypeModel::Tuple(seq![PyTypeModel::Float, PyTypeModel::Float]),
                    constraints: seq![],
                },
            ],
        }
}

#[verifier::rlimit(50)]
fn builtin_signature_36() -> (r: BuiltinSignature)
    ensures
        r.deep_view() == builtin_entry_36(),
{
    let t = TypeVar("T");
    let u = TypeVar("U");
    let k = TypeVar("K");
    let v = TypeVar("V");
    let r = BuiltinSignature {
            name: "divmod",
            schemes: vec![
                TypeScheme {
                    params: vec![],
                    inputs: vec![PyType::Int, PyType::Int],
                    output: PyType::Tuple(vec![PyType::Int, PyType::Int]),
                    constraints: vec![],
                },
                TypeScheme {
                    params: vec![],
                    inputs: vec![PyType::Float, PyType::Float],
                    output: PyType::Tuple(vec![PyType::Float, PyType::Float]),
                    constraints: vec![],
                },
            ],
        };
    proof {
        reveal_with_fuel(pytype_models, 4);
        reveal_with_fuel(pytype_model, 4);
        assert(pytype_models(r.schemes@[0].output->Tuple_0@) =~= seq![PyTypeModel::Int, PyTypeModel::Int]);
        assert(pytype_models(r.schemes@[1].output->Tuple_0@) =~= seq![PyTypeModel::Float, PyTypeModel::Float]);
        assert(r.deep_view() =~~= builtin_entry_36());
    }
    r
}

/// Entry 37 of the table.
pub open spec fn builtin_entry_37() -> BuiltinModel {
    let t = "T"@;
    let u = "U"@;
    let k = "K"@;
    let v = "V"@;
        BuiltinModel {
            name: "print"@,
            schemes: seq![
                SchemeModel {
                    params: seq![],
                    inputs: seq![],
                    output: PyTypeModel::NoneType,
                    constraints: seq![],
                },
                SchemeModel {
                    params: seq![],
                    inputs: seq![PyTypeModel::Any],
                    output: PyTypeModel::NoneType,
                    constraints: seq![],
                },
            ],
        }
}

#[verifier::rlimit(50)]
fn builtin_signature_37() -> (r: BuiltinSignature)
    ensures
        r.deep_view() == builtin_entry_37(),
{
    let t = TypeVar("T");
    let u = TypeVar("U");
    let k = TypeVar("K");
    let v = TypeVar("V");
    let r = BuiltinSignature {
            name: "print",
            schemes: vec![
                TypeScheme {
                    params: vec![],
                    inputs: vec![],
                    output: PyType::NoneType,
                    constraints: vec![],
                },
                TypeScheme {
                    params: vec![],
                    inputs: vec![PyType::Any],
                    output: PyType::NoneType,
                    constraints: vec![],
                },
            ],
        };
    proof {
        reveal_with_fuel(pytype_models, 4);
        reveal_with_fuel(pytype_model, 4);
        assert(r.deep_view() =~~= builtin_entry_37());
    }
    r
}

/// Entry 38 of the table.
pub open spec fn builtin_entry_38() -> BuiltinModel {
    let t = "T"@;
    let u = "U"@;
    let k = "K"@;
    let v = "V"@;
        BuiltinModel {
            name: "isinstance"@,
            schemes: seq![SchemeModel {
                params: seq![],
                inputs: seq![PyTypeModel::Any, PyTypeModel::Any],
                output: PyTypeModel::Bool,
                constraints: seq![],
            }],
        }
}

#[verifier::rlimit(50)]
fn builtin_signature_38() -> (r: BuiltinSignature)
    ensures
        r.deep_view() == builtin_entry_38(),
{
    let t = TypeVar("T");
    let u = TypeVar("U");
    let k = TypeVar("K");
    let v = TypeVar("V");
    let r = BuiltinSignature {
            name: "isinstance",
            schemes: vec![TypeScheme {
                params: vec![],
                inputs: vec![PyType::Any, PyType::Any],
                output: PyType::Bool,
                constraints: vec![],
            }],
        };
    proof {
        reveal_with_fuel(pytype_models, 4);
        reveal_with_fuel(pytype_model, 4);
        assert(r.deep_view() =~~= builtin_entry_38());
    }
    r
}

/// Entry 39 of the table.
pub open spec fn builtin_entry_39() -> BuiltinModel {
    let t = "T"@;
    let u = "U"@;
    let k = "K"@;
    let v = "V"@;
        BuiltinModel {
            name: "+"@,
            schemes: seq![
                SchemeModel {
                    params: seq![t],
                    inputs: seq![PyTypeModel::Var(t), PyTypeModel::Var(t)],
                    output: PyTypeModel::Var(t),
                    constraints: seq![SigConstraintModel::Numeric(t)],
                },
                SchemeModel {
                    params: seq![],
                    inputs: seq![PyTypeModel::Str, PyTypeModel::Str],
                    output: PyTypeModel::Str,
                    constraints: seq![],
                },
                SchemeModel {
                    params: seq![t],
                    inputs: seq![
                        PyTypeModel::List(Box::new(PyTypeModel::Var(t))),
                        PyTypeModel::List(Box::new(PyTypeModel::Var(t))),
                    ],
                    output: PyTypeModel::List(Box::new(PyTypeModel::Var(t))),
                    constraints: seq![],
                },
                SchemeModel {
                    params: seq![t],
                    inputs: seq![
                        PyTypeModel::TupleOf(Box::new(PyTypeModel::Var(t))),
                        PyTypeModel::TupleOf(Box::new(PyTypeModel::Var(t))),
                    ],
                    output: PyTypeModel::TupleOf(Box::new(PyTypeModel::Var(t))),
                    constraints: seq![],
                },
            ],
        }
}

#[verifier::rlimit(50)]
fn builtin_signature_39() -> (r: BuiltinSignature)
    ensures
        r.deep_view() == builtin_entry_39(),
{
    let t = TypeVar("T");
    let u = TypeVar("U");
    let k = TypeVar("K");
    let v = TypeVar("V");
    let r = BuiltinSignature {
            name: "+",
            schemes: vec![
                TypeScheme {
                    params: vec![t],
                    inputs: vec![PyType::Var(t), PyType::Var(t)],
                    output: PyType::Var(t),
                    constraints: vec![Constraint::Numeric(t)],
                },
                TypeScheme {
                    params: vec![],
                    inputs: vec![PyType::Str, PyType::Str],
                    output: PyType::Str,
                    constraints: vec![],
                },
                TypeScheme {
                    params: vec![t],
                    inputs: vec![
                        PyType::List(Box::new(PyType::Var(t))),
                        PyType::List(Box::new(PyType::Var(t))),
                    ],
                    output: PyType::List(Box::new(PyType::Var(t))),
                    constraints: vec![],
                },
                TypeScheme {
                    params: vec![t],
                    inputs: vec![
                        PyType::TupleOf(Box::new(PyType::Var(t))),
                        PyType::TupleOf(Box::new(PyType::Var(t))),
                    ],
                    output: PyType::TupleOf(Box::new(PyType::Var(t))),
                    constraints: vec![],
                },
            ],
        };
    proof {
        reveal_with_fuel(pytype_models, 4);
        reveal_with_fuel(pytype_model, 4);
        assert(r.deep_view() =~~= builtin_entry_39());
    }
    r
}

/// Entry 40 of the table.
pub open spec fn builtin_entry_40() -> BuiltinModel {
    let t = "T"@;
    let u = "U"@;
    let k = "K"@;
    let v = "V"@;
        BuiltinModel {
            name: "-"@,
            schemes: seq![SchemeModel {
                params: seq![t],
                inputs: seq![PyTypeModel::Var(t), PyTypeModel::Var(t)],
                output: PyTypeModel::Var(t),
                constraints: seq![SigConstraintModel::Numeric(t)],
            }],
        }
}

#[verifier::rlimit(50)]
fn builtin_signature_40() -> (r: BuiltinSignature)
    ensures
        r.deep_view() == builtin_entry_40(),
{
    let t = TypeVar("T");
    let u = TypeVar("U");
    let k = TypeVar("K");
    let v = TypeVar("V");
    let r = BuiltinSignature {
            name: "-",
            schemes: vec![TypeScheme {
                params: vec![t],
                inputs: vec![PyType::Var(t), PyType::Var(t)],
                output: PyType::Var(t),
                constraints: vec![Constraint::Numeric(t)],
            }],
        };
    proof {
        reveal_with_fuel(pytype_models, 4);
        reveal_with_fuel(pytype_model, 4);
        assert(r.deep_view() =~~= builtin_entry_40());
    }
    r
}

/// Entry 41 of the table.
pub open spec fn builtin_entry_41() -> BuiltinModel {
    let t = "T"@;
    let u = "U"@;
    let k = "K"@;
    let v = "V"@;
        BuiltinModel {
            name: "*"@,
            schemes: seq![
                SchemeModel {
                    params: seq![t],
                    inputs: seq![PyTypeModel::Var(t), PyTypeModel::Var(t)],
                    output: PyTypeModel::Var(t),
                    constraints: seq![SigConstraintModel::Numeric(t)],
                },
                SchemeModel {
                    params: seq![t],
                    inputs: seq![PyTypeModel::Str, PyTypeModel::Int],
                    output: PyTypeModel::Str,
                    constraints: seq![],
                },
                SchemeModel {
                    params: seq![t],
                    inputs: seq![PyTypeModel::Int, PyTypeModel::Str],
                    output: PyTypeModel::Str,
                    constraints: seq![],
                },
                SchemeModel {
                    params: seq![t],
                    inputs: seq![PyTypeModel::List(Box::new(PyTypeModel::Var(t))), PyTypeModel::Int],
                    output: PyTypeModel::List(Box::new(PyTypeModel::Var(t))),
                    constraints: seq![],
                },
                SchemeModel {
                    params: seq![t],
                    inputs: seq![PyTypeModel::Int, PyTypeModel::List(Box::new(PyTypeModel::Var(t)))],
                    output: PyTypeModel::List(Box::new(PyTypeModel::Var(t))),
                    constraints: seq![],
                },
            ],
        }
}

#[verifier::rlimit(50)]
fn builtin_signature_41() -> (r: BuiltinSignature)
    ensures
        r.deep_view() == builtin_entry_41(),
{
    let t = TypeVar("T");
    let u = TypeVar("U");
    let k = TypeVar("K");
    let v = TypeVar("V");
    let r = BuiltinSignature {
            name: "*",
            schemes: vec![
                TypeScheme {
                    params: vec![t],
                    inputs: vec![PyType::Var(t), PyType::Var(t)],
                    output: PyType::Var(t),
                    constraints: vec![Constraint::Numeric(t)],
                },
                TypeScheme {
                    params: vec![t],
                    inputs: vec![PyType::Str, PyType::Int],
                    output: PyType::Str,
                    constraints: vec![],
                },
                TypeScheme {
                    params: vec![t],
                    inputs: vec![PyType::Int, PyType::Str],
                    output: PyType::Str,
                    constraints: vec![],
                },
                TypeScheme {
                    params: vec![t],
                    inputs: vec![PyType::List(Box::new(PyType::Var(t))), PyType::Int],
                    output: PyType::List(Box::new(PyType::Var(t))),
                    constraints: vec![],
                },
                TypeScheme {
                    params: vec![t],
                    inputs: vec![PyType::Int, PyType::List(Box::new(PyType::Var(t)))],
                    output: PyType::List(Box::new(PyType::Var(t))),
                    constraints: vec![],
                },
            ],
        };
    proof {
        reveal_with_fuel(pytype_models, 4);
        reveal_with_fuel(pytype_model, 4);
        assert(r.deep_view() =~~= builtin_entry_41());
    }
    r
}

/// Entry 42 of the table.
pub open spec fn builtin_entry_42() -> BuiltinModel {
    let t = "T"@;
    let u = "U"@;
    let k = "K"@;
    let v = "V"@;
        BuiltinModel {
            name: "/"@,
            schemes: seq![
                SchemeModel {
                    params: seq![],
                    inputs: seq![PyTypeModel::Int, PyTypeModel::Int],
                    output: PyTypeModel::Float,
                    constraints: seq![],
                },
                SchemeModel {
                    params: seq![],
                    inputs: seq![PyTypeModel::Float, PyTypeModel::Float],
                    output: PyTypeModel::Float,
                    constraints: seq![],
                },
                SchemeModel {
                    params: seq![],
                    inputs: seq![PyTypeModel::Complex, PyTypeModel::Complex],
                    output: PyTypeModel::Complex,
                    constraints: seq![],
                },
            ],
        }
}

#[verifier::rlimit(50)]
fn builtin_signature_42() -> (r: BuiltinSignature)
    ensures
        r.deep_view() == builtin_entry_42(),
{
    let t = TypeVar("T");
    let u = TypeVar("U");
    let k = TypeVar("K");
    let v = TypeVar("V");
    let r = BuiltinSignature {
            name: "/",
            schemes: vec![
                TypeScheme {
                    params: vec![],
                    inputs: vec![PyType::Int, PyType::Int],
                    output: PyType::Float,
                    constraints: vec![],
                },
                TypeScheme {
                    params: vec![],
                    inputs: vec![PyType::Float, PyType::Float],
                    output: PyType::Float,
                    constraints: vec![],
                },
                TypeScheme {
                    params: vec![],
                    inputs: vec![PyType::Complex, PyType::Complex],
                    output: PyType::Complex,
                    constraints: vec![],
                },
            ],
        };
    proof {
        reveal_with_fuel(pytype_models, 4);
        reveal_with_fuel(pytype_model, 4);
        assert(r.deep_view() =~~= builtin_entry_42());
    }
    r
}

/// Entry 43 of the table.
pub open spec fn builtin_entry_43() -> BuiltinModel {
    let t = "T"@;
    let u = "U"@;
    let k = "K"@;
    let v = "V"@;
        BuiltinModel {
            name: "//"@,
            schemes: seq![
                SchemeModel {
                    params: seq![],
                    inputs: seq![PyTypeModel::Int, PyTypeModel::Int],
                    output: PyTypeModel::Int,
                    constraints: seq![],
                },
                SchemeModel {
                    params: seq![],
                    inputs: seq![PyTypeModel::Float, PyTypeModel::Float],
                    output: PyTypeModel::Float,
                    constraints: seq![],
                },
            ],
        }
}

#[verifier::rlimit(50)]
fn builtin_signature_43() -> (r: BuiltinSignature)
    ensures
        r.deep_view() == builtin_entry_43(),
{
    let t = TypeVar("T");
    let u = TypeVar("U");
    let k = TypeVar("K");
    let v = TypeVar("V");
    let r = BuiltinSignature {
            name: "//",
            schemes: vec![
                TypeScheme {
                    params: vec![],
                    inputs: vec![PyType::Int, PyType::Int],
                    output: PyType::Int,
                    constraints: vec![],
                },
                TypeScheme {
                    params: vec![],
                    inputs: vec![PyType::Float, PyType::Float],
                    output: PyType::Float,
                    constraints: vec![],
                },
            ],
        };
    proof {
        reveal_with_fuel(pytype_models, 4);
        reveal_with_fuel(pytype_model, 4);
        assert(r.deep_view() =~~= builtin_entry_43());
    }
    r
}

/// Entry 44 of the table.
pub open spec fn builtin_entry_44() -> BuiltinModel {
    let t = "T"@;
    let u = "U"@;
    let k = "K"@;
    let v = "V"@;
        BuiltinModel {
            name: "%"@,
            schemes: seq![
                SchemeModel {
                    params: seq![],
                    inputs: seq![PyTypeModel::Int, PyTypeModel::Int],
                    output: PyTypeModel::Int,
                    constraints: seq![],
                },
                SchemeModel {
                    params: seq![],
                    inputs: seq![PyTypeModel::Float, PyTypeModel::Float],
                    output: PyTypeModel::Float,
                    constraints: seq![],
                },
            ],
        }
}

#[verifier::rlimit(50)]
fn builtin_signature_44() -> (r: BuiltinSignature)
    ensures
        r.deep_view() == builtin_entry_44(),
{
    let t = TypeVar("T");
    let u = TypeVar("U");
    let k = TypeVar("K");
    let v = TypeVar("V");
    let r = BuiltinSignature {
            name: "%",
            schemes: vec![
                TypeScheme {
                    params: vec![],
                    inputs: vec![PyType::Int, PyType::Int],
                    output: PyType::Int,
                    constraints: vec![],
                },
                TypeScheme {
                    params: vec![],
                    inputs: vec![PyType::Float, PyType::Float],
                    output: PyType::Float,
                    constraints: vec![],
                },
            ],
        };
    proof {
        reveal_with_fuel(pytype_models, 4);
        reveal_with_fuel(pytype_model, 4);
        assert(r.deep_view() =~~= builtin_entry_44());
    }
    r
}

/// Entry 45 of the table.
pub open spec fn builtin_entry_45() -> BuiltinModel {
    let t = "T"@;
    let u = "U"@;
    let k = "K"@;
    let v = "V"@;
        BuiltinModel {
            name: "**"@,
            schemes: seq![
                SchemeModel {
                    params: seq![],
                    inputs: seq![PyTypeModel::Int, PyTypeModel::Int],
                    output: PyTypeModel::Int,
                    constraints: seq![],
                },
                SchemeModel {
                    params: seq![],
                    inputs: seq![PyTypeModel::Float, PyTypeModel::Float],
                    output: PyTypeModel::Float,
                    constraints: seq![],
                },
                SchemeModel {
                    params: seq![],
                    inputs: seq![PyTypeModel::Complex, PyTypeModel::Complex],
                    output: PyTypeModel::Complex,
                    constraints: seq![],
                },
            ],
        }
}

#[verifier::rlimit(50)]
fn builtin_signature_45() -> (r: BuiltinSignature)
    ensures
        r.deep_view() == builtin_entry_45(),
{
    let t = TypeVar("T");
    let u = TypeVar("U");
    let k = TypeVar("K");
    let v = TypeVar("V");
    let r = BuiltinSignature {
            name: "**",
            schemes: vec![
                TypeScheme {
                    params: vec![],
                    inputs: vec![PyType::Int, PyType::Int],
                    output: PyType::Int,
                    constraints: vec![],
                },
                TypeScheme {
                    params: vec![],
                    inputs: vec![PyType::Float, PyType::Float],
                    output: PyType::Float,
                    constraints: vec![],
                },
                TypeScheme {
                    params: vec![],
                    inputs: vec![PyType::Complex, PyType::Complex],
                    output: PyType::Complex,
                    constraints: vec![],
                },
            ],
        };
    proof {
        reveal_with_fuel(pytype_models, 4);
        reveal_with_fuel(pytype_model, 4);
        assert(r.deep_view() =~~= builtin_entry_45());
    }
    r
}

/// Entry 46 of the table.
pub open spec fn builtin_entry_46() -> BuiltinModel {
    let t = "T"@;
    let u = "U"@;
    let k = "K"@;
    let v = "V"@;
        BuiltinModel {
            name: "&"@,
            schemes: seq![SchemeModel {
                params: seq![],
                inputs: seq![PyTypeModel::Int, PyTypeModel::Int],
                output: PyTypeModel::Int,
                constraints: seq![],
            }],
        }
}

#[verifier::rlimit(50)]
fn builtin_signature_46() -> (r: BuiltinSignature)
    ensures
        r.deep_view() == builtin_entry_46(),
{
    let t = TypeVar("T");
    let u = TypeVar("U");
    let k = TypeVar("K");
    let v = TypeVar("V");
    let r = BuiltinSignature {
            name: "&",
            schemes: vec![TypeScheme {
                params: vec![],
                inputs: vec![PyType::Int, PyType::Int],
                output: PyType::Int,
                constraints: vec![],
            }],
        };
    proof {
        reveal_with_fuel(pytype_models, 4);
        reveal_with_fuel(pytype_model, 4);
        assert(r.deep_view() =~~= builtin_entry_46());
    }
    r
}

/// Entry 47 of the table.
pub open spec fn builtin_entry_47() -> BuiltinModel {
    let t = "T"@;
    let u = "U"@;
    let k = "K"@;
    let v = "V"@;
        BuiltinModel {
            name: "|"@,
            schemes: seq![SchemeModel {
                params: seq![],
                inputs: seq![PyTypeModel::Int, PyTypeModel::Int],
                output: PyTypeModel::Int,
                constraints: seq![],
            }],
        }
}

#[verifier::rlimit(50)]
fn builtin_signature_47() -> (r: BuiltinSignature)
    ensures
        r.deep_view() == builtin_entry_47(),
{
    let t = TypeVar("T");
    let u = TypeVar("U");
    let k = TypeVar("K");
    let v = TypeVar("V");
    let r = BuiltinSignature {
            name: "|",
            schemes: vec![TypeScheme {
                params: vec![],
                inputs: vec![PyType::Int, PyType::Int],
                output: PyType::Int,
                constraints: vec![],
            }],
        };
    proof {
        reveal_with_fuel(pytype_models, 4);
        reveal_with_fuel(pytype_model, 4);
        assert(r.deep_view() =~~= builtin_entry_47());
    }
    r
}

/// Entry 48 of the table.
pub open spec fn builtin_entry_48() -> BuiltinModel {
    let t = "T"@;
    let u = "U"@;
    let k = "K"@;
    let v = "V"@;
        BuiltinModel {
            name: "^"@,
            schemes: seq![SchemeModel {
                params: seq![],
                inputs: seq![PyTypeModel::Int, PyTypeModel::Int],
                output: PyTypeModel::Int,
                constraints: seq![],
            }],
        }
}

#[verifier::rlimit(50)]
fn builtin_signature_48() -> (r: BuiltinSignature)
    ensures
        r.deep_view() == builtin_entry_48(),
{
    let t = TypeVar("T");
    let u = TypeVar("U");
    let k = TypeVar("K");
    let v = TypeVar("V");
    let r = BuiltinSignature {
            name: "^",
            schemes: vec![TypeScheme {
                params: vec![],
                inputs: vec![PyType::Int, PyType::Int],
                output: PyType::Int,
                constraints: vec![],
            }],
        };
    proof {
        reveal_with_fuel(pytype_models, 4);
        reveal_with_fuel(pytype_model, 4);
        assert(r.deep_view() =~~= builtin_entry_48());
    }
    r
}

/// Entry 49 of the table.
pub open spec fn builtin_entry_49() -> BuiltinModel {
    let t = "T"@;
    let u = "U"@;
    let k = "K"@;
    let v = "V"@;
        BuiltinModel {
            name: "<<"@,
            schemes: seq![SchemeModel {
                params: seq![],
                inputs: seq![PyTypeModel::Int, PyTypeModel::Int],
                output: PyTypeModel::Int,
                constraints: seq![],
            }],
        }
}

#[verifier::rlimit(50)]
fn builtin_signature_49() -> (r: BuiltinSignature)
    ensures
        r.deep_view() == builtin_entry_49(),
{
    let t = TypeVar("T");
    let u = TypeVar("U");
    let k = TypeVar("K");
    let v = TypeVar("V");
    let r = BuiltinSignature {
            name: "<<",
            schemes: vec![TypeScheme {
                params: vec![],
                inputs: vec![PyType::Int, PyType::Int],
                output: PyType::Int,
                constraints: vec![],
            }],
        };
    proof {
        reveal_with_fuel(pytype_models, 4);
        reveal_with_fuel(pytype_model, 4);
        assert(r.deep_view() =~~= builtin_entry_49());
    }
    r
}

/// Entry 50 of the table.
pub open spec fn builtin_entry_50() -> BuiltinModel {
    let t = "T"@;
    let u = "U"@;
    let k = "K"@;
    let v = "V"@;
        BuiltinModel {
            name: ">>"@,
            schemes: seq![SchemeModel {
                params: seq![],
                inputs: seq![PyTypeModel::Int, PyTypeModel::Int],
                output: PyTypeModel::Int,
                constraints: seq![],
            }],
        }
}

#[verifier::rlimit(50)]
fn builtin_signature_50() -> (r: BuiltinSignature)
    ensures
        r.deep_view() == builtin_entry_50(),
{
    let t = TypeVar("T");
    let u = TypeVar("U");
    let k = TypeVar("K");
    let v = TypeVar("V");
    let r = BuiltinSignature {
            name: ">>",
            schemes: vec![TypeScheme {
                params: vec![],
                inputs: vec![PyType::Int, PyType::Int],
                output: PyType::Int,
                constraints: vec![],
            }],
        };
    proof {
        reveal_with_fuel(pytype_models, 4);
        reveal_with_fuel(pytype_model, 4);
        assert(r.deep_view() =~~= builtin_entry_50());
    }
    r
}

/// Entry 51 of the table.
pub open spec fn builtin_entry_51() -> BuiltinModel {
    let t = "T"@;
    let u = "U"@;
    let k = "K"@;
    let v = "V"@;
        BuiltinModel {
            name: "@"@,
            schemes: seq![SchemeModel {
                params: seq![],
                inputs: seq![PyTypeModel::Any, PyTypeModel::Any],
                output: PyTypeModel::Any,
                constraints: seq![],
            }],
        }
}

#[verifier::rlimit(50)]
fn builtin_signature_51() -> (r: BuiltinSignature)
    ensures
        r.deep_view() == builtin_entry_51(),
{
    let t = TypeVar("T");
    let u = TypeVar("U");
    let k = TypeVar("K");
    let v = TypeVar("V");
    let r = BuiltinSignature {
            name: "@",
            schemes: vec![TypeScheme {
                params: vec![],
                inputs: vec![PyType::Any, PyType::Any],
                output: PyType::Any,
                constraints: vec![],
            }],
        };
    proof {
        reveal_with_fuel(pytype_models, 4);
        reveal_with_fuel(pytype_model, 4);
        assert(r.deep_view() =~~= builtin_entry_51());
    }
    r
}

/// Entry 52 of the table.
pub open spec fn builtin_entry_52() -> BuiltinModel {
    let t = "T"@;
    let u = "U"@;
    let k = "K"@;
    let v = "V"@;
        BuiltinModel {
            name: "=="@,
            schemes: seq![SchemeModel {
                params: seq![],
                inputs: seq![PyTypeModel::Any, PyTypeModel::Any],
                output: PyTypeModel::Bool,
                constraints: seq![],
            }],
        }
}

#[verifier::rlimit(50)]
fn builtin_signature_52() -> (r: BuiltinSignature)
    ensures
        r.deep_view() == builtin_entry_52(),
{
    let t = TypeVar("T");
    let u = TypeVar("U");
    let k = TypeVar("K");
    let v = TypeVar("V");
    let r = BuiltinSignature {
            name: "==",
            schemes: vec![TypeScheme {
                params: vec![],
                inputs: vec![PyType::Any, PyType::Any],
                output: PyType::Bool,
                constraints: vec![],
            }],
        };
    proof {
        reveal_with_fuel(pytype_models, 4);
        reveal_with_fuel(pytype_model, 4);
        assert(r.deep_view() =~~= builtin_entry_52());
    }
    r
}

/// Entry 53 of the table.
pub open spec fn builtin_entry_53() -> BuiltinModel {
    let t = "T"@;
    let u = "U"@;
    let k = "K"@;
    let v = "V"@;
        BuiltinModel {
            name: "!="@,
            schemes: seq![SchemeModel {
                params: seq![],
                inputs: seq![PyTypeModel::Any, PyTypeModel::Any],
                output: PyTypeModel::Bool,
                constraints: seq![],
            }],
        }
}

#[verifier::rlimit(50)]
fn builtin_signature_53() -> (r: BuiltinSignature)
    ensures
        r.deep_view() == builtin_entry_53(),
{
    let t = TypeVar("T");
    let u = TypeVar("U");
    let k = TypeVar("K");
    let v = TypeVar("V");
    let r = BuiltinSignature {
            name: "!=",
            schemes: vec![TypeScheme {
                params: vec![],
                inputs: vec![PyType::Any, PyType::Any],
                output: PyType::Bool,
                constraints: vec![],
            }],
        };
    proof {
        reveal_with_fuel(pytype_models, 4);
        reveal_with_fuel(pytype_model, 4);
        assert(r.deep_view() =~~= builtin_entry_53());
    }
    r
}

/// Entry 54 of the table.
pub open spec fn builtin_entry_54() -> BuiltinModel {
    let t = "T"@;
    let u = "U"@;
    let k = "K"@;
    let v = "V"@;
        BuiltinModel {
            name: "<"@,
            schemes: seq![
                SchemeModel {
                    params: seq![t, u],
                    inputs: seq![PyTypeModel::Var(t), PyTypeModel::Var(u)],
                    output: PyTypeModel::Bool,
                    constraints: seq![SigConstraintModel::Numeric(t), SigConstraintModel::Numeric(u)],
                },
                SchemeModel {
                    params: seq![],
                    inputs: seq![PyTypeModel::Str, PyTypeModel::Str],
                    output: PyTypeModel::Bool,
                    constraints: seq![],
                },
            ],
        }
}

#[verifier::rlimit(50)]
fn builtin_signature_54() -> (r: BuiltinSignature)
    ensures
        r.deep_view() == builtin_entry_54(),
{
    let t = TypeVar("T");
    let u = TypeVar("U");
    let k = TypeVar("K");
    let v = TypeVar("V");
    let r = BuiltinSignature {
            name: "<",
            schemes: vec![
                TypeScheme {
                    params: vec![t, u],
                    inputs: vec![PyType::Var(t), PyType::Var(u)],
                    output: PyType::Bool,
                    constraints: vec![Constraint::Numeric(t), Constraint::Numeric(u)],
                },
                TypeScheme {
                    params: vec![],
                    inputs: vec![PyType::Str, PyType::Str],
                    output: PyType::Bool,
                    constraints: vec![],
                },
            ],
        };
    proof {
        reveal_with_fuel(pytype_models, 4);
        reveal_with_fuel(pytype_model, 4);
        assert(r.deep_view() =~~= builtin_entry_54());
    }
    r
}

/// Entry 55 of the table.
pub open spec fn builtin_entry_55() -> BuiltinModel {
    let t = "T"@;
    let u = "U"@;
    let k = "K"@;
    let v = "V"@;
        BuiltinModel {
            name: "<="@,
            schemes: seq![
                SchemeModel {
                    params: seq![t, u],
                    inputs: seq![PyTypeModel::Var(t), PyTypeModel::Var(u)],
                    output: PyTypeModel::Bool,
                    constraints: seq![SigConstraintModel::Numeric(t), SigConstraintModel::Numeric(u)],
                },
                SchemeModel {
                    params: seq![],
                    inputs: seq![PyTypeModel::Str, PyTypeModel::Str],
                    output: PyTypeModel::Bool,
                    constraints: seq![],
                },
            ],
        }
}

#[verifier::rlimit(50)]
fn builtin_signature_55() -> (r: BuiltinSignature)
    ensures
        r.deep_view() == builtin_entry_55(),
{
    let t = TypeVar("T");
    let u = TypeVar("U");
    let k = TypeVar("K");
    let v = TypeVar("V");
    let r = BuiltinSignature {
            name: "<=",
            schemes: vec![
                TypeScheme {
                    params: vec![t, u],
                    inputs: vec![PyType::Var(t), PyType::Var(u)],
                    output: PyType::Bool,
                    constraints: vec![Constraint::Numeric(t), Constraint::Numeric(u)],
                },
                TypeScheme {
                    params: vec![],
                    inputs: vec![PyType::Str, PyType::Str],
                    output: PyType::Bool,
                    constraints: vec![],
                },
            ],
        };
    proof {
        reveal_with_fuel(pytype_models, 4);
        reveal_with_fuel(pytype_model, 4);
        assert(r.deep_view() =~~= builtin_entry_55());
    }
    r
}

/// Entry 56 of the table.
pub open spec fn builtin_entry_56() -> BuiltinModel {
    let t = "T"@;
    let u = "U"@;
    let k = "K"@;
    let v = "V"@;
        BuiltinModel {
            name: ">"@,
            schemes: seq![
                SchemeModel {
                    params: seq![t, u],
                    inputs: seq![PyTypeModel::Var(t), PyTypeModel::Var(u)],
                    output: PyTypeModel::Bool,
                    constraints: seq![SigConstraintModel::Numeric(t), SigConstraintModel::Numeric(u)],
                },
                SchemeModel {
                    params: seq![],
                    inputs: seq![PyTypeModel::Str, PyTypeModel::Str],
                    output: PyTypeModel::Bool,
                    constraints: seq![],
                },
            ],
        }
}

#[verifier::rlimit(50)]
fn builtin_signature_56() -> (r: BuiltinSignature)
    ensures
        r.deep_view() == builtin_entry_56(),
{
    let t = TypeVar("T");
    let u = TypeVar("U");
    let k = TypeVar("K");
    let v = TypeVar("V");
    let r = BuiltinSignature {
            name: ">",
            schemes: vec![
                TypeScheme {
                    params: vec![t, u],
                    inputs: vec![PyType::Var(t), PyType::Var(u)],
                    output: PyType::Bool,
                    constraints: vec![Constraint::Numeric(t), Constraint::Numeric(u)],
                },
                TypeScheme {
                    params: vec![],
                    inputs: vec![PyType::Str, PyType::Str],
                    output: PyType::Bool,
                    constraints: vec![],
                },
            ],
        };
    proof {
        reveal_with_fuel(pytype_models, 4);
        reveal_with_fuel(pytype_model, 4);
        assert(r.deep_view() =~~= builtin_entry_56());
    }
    r
}

/// Entry 57 of the table.
pub open spec fn builtin_entry_57() -> BuiltinModel {
    let t = "T"@;
    let u = "U"@;
    let k = "K"@;
    let v = "V"@;
        BuiltinModel {
            name: ">="@,
            schemes: seq![
                SchemeModel {
                    params: seq![t, u],
                    inputs: seq![PyTypeModel::Var(t), PyTypeModel::Var(u)],
                    output: PyTypeModel::Bool,
                    constraints: seq![SigConstraintModel::Numeric(t), SigConstraintModel::Numeric(u)],
                },
                SchemeModel {
                    params: seq![],
                    inputs: seq![PyTypeModel::Str, PyTypeModel::Str],
                    output: PyTypeModel::Bool,
                    constraints: seq![],
                },
            ],
        }
}

#[verifier::rlimit(50)]
fn builtin_signature_57() -> (r: BuiltinSignature)
    ensures
        r.deep_view() == builtin_entry_57(),
{
    let t = TypeVar("T");
    let u = TypeVar("U");
    let k = TypeVar("K");
    let v = TypeVar("V");
    let r = BuiltinSignature {
            name: ">=",
            schemes: vec![
                TypeScheme {
                    params: vec![t, u],
                    inputs: vec![PyType::Var(t), PyType::Var(u)],
                    output: PyType::Bool,
                    constraints: vec![Constraint::Numeric(t), Constraint::Numeric(u)],
                },
                TypeScheme {
                    params: vec![],
                    inputs: vec![PyType::Str, PyType::Str],
                    output: PyType::Bool,
                    constraints: vec![],
                },
            ],
        };
    proof {
        reveal_with_fuel(pytype_models, 4);
        reveal_with_fuel(pytype_model, 4);
        assert(r.deep_view() =~~= builtin_entry_57());
    }
    r
}

/// Entry 58 of the table.
pub open spec fn builtin_entry_58() -> BuiltinModel {
    let t = "T"@;
    let u = "U"@;
    let k = "K"@;
    let v = "V"@;
        BuiltinModel {
            name: "and"@,
            schemes: seq![SchemeModel {
                params: seq![],
                inputs: seq![PyTypeModel::Bool, PyTypeModel::Bool],
                output: PyTypeModel::Bool,
                constraints: seq![],
            }],
        }
}

#[verifier::rlimit(50)]
fn builtin_signature_58() -> (r: BuiltinSignature)
    ensures
        r.deep_view() == builtin_entry_58(),
{
    let t = TypeVar("T");
    let u = TypeVar("U");
    let k = TypeVar("K");
    let v = TypeVar("V");
    let r = BuiltinSignature {
            name: "and",
            schemes: vec![TypeScheme {
                params: vec![],
                inputs: vec![PyType::Bool, PyType::Bool],
                output: PyType::Bool,
                constraints: vec![],
            }],
        };
    proof {
        reveal_with_fuel(pytype_models, 4);
        reveal_with_fuel(pytype_model, 4);
        assert(r.deep_view() =~~= builtin_entry_58());
    }
    r
}

/// Entry 59 of the table.
pub open spec fn builtin_entry_59() -> BuiltinModel {
    let t = "T"@;
    let u = "U"@;
    let k = "K"@;
    let v = "V"@;
        BuiltinModel {
            name: "or"@,
            schemes: seq![SchemeModel {
                params: seq![],
                inputs: seq![PyTypeModel::Bool, PyTypeModel::Bool],
                output: PyTypeModel::Bool,
                constraints: seq![],
            }],
        }
}

#[verifier::rlimit(50)]
fn builtin_signature_59() -> (r: BuiltinSignature)
    ensures
        r.deep_view() == builtin_entry_59(),
{
    let t = TypeVar("T");
    let u = TypeVar("U");
    let k = TypeVar("K");
    let v = TypeVar("V");
    let r = BuiltinSignature {
            name: "or",
            schemes: vec![TypeScheme {
                params: vec![],
                inputs: vec![PyType::Bool, PyType::Bool],
                output: PyType::Bool,
                constraints: vec![],
            }],
        };
    proof {
        reveal_with_fuel(pytype_models, 4);
        reveal_with_fuel(pytype_model, 4);
        assert(r.deep_view() =~~= builtin_entry_59());
    }
    r
}

/// Entry 60 of the table.
pub open spec fn builtin_entry_60() -> BuiltinModel {
    let t = "T"@;
    let u = "U"@;
    let k = "K"@;
    let v = "V"@;
        BuiltinModel {
            name: "not"@,
            schemes: seq![SchemeModel {
                params: seq![],
                inputs: seq![PyTypeModel::Bool],
                output: PyTypeModel::Bool,
                constraints: seq![],
            }],
        }
}

#[verifier::rlimit(50)]
fn builtin_signature_60() -> (r: BuiltinSignature)
    ensures
        r.deep_view() == builtin_entry_60(),
{
    let t = TypeVar("T");
    let u = TypeVar("U");
    let k = TypeVar("K");
    let v = TypeVar("V");
    let r = BuiltinSignature {
            name: "not",
            schemes: vec![TypeScheme {
                params: vec![],
                inputs: vec![PyType::Bool],
                output: PyType::Bool,
                constraints: vec![],
            }],
        };
    proof {
        reveal_with_fuel(pytype_models, 4);
        reveal_with_fuel(pytype_model, 4);
        assert(r.deep_view() =~~= builtin_entry_60());
    }
    r
}

/// Entry 61 of the table.
pub open spec fn builtin_entry_61() -> BuiltinModel {
    let t = "T"@;
    let u = "U"@;
    let k = "K"@;
    let v = "V"@;
        BuiltinModel {
            name: "in"@,
            schemes: seq![SchemeModel {
                params: seq![],
                inputs: seq![PyTypeModel::Any, PyTypeModel::Iterable(Box::new(PyTypeModel::Any))],
                output: PyTypeModel::Bool,
                constraints: seq![],
            }],
        }
}

#[verifier::rlimit(50)]
fn builtin_signature_61() -> (r: BuiltinSignature)
    ensures
        r.deep_view() == builtin_entry_61(),
{
    let t = TypeVar("T");
    let u = TypeVar("U");
    let k = TypeVar("K");
    let v = TypeVar("V");
    let r = BuiltinSignature {
            name: "in",
            schemes: vec![TypeScheme {
                params: vec![],
                inputs: vec![PyType::Any, PyType::Iterable(Box::new(PyType::Any))],
                output: PyType::Bool,
                constraints: vec![],
            }],
        };
    proof {
        reveal_with_fuel(pytype_models, 4);
        reveal_with_fuel(pytype_model, 4);
        assert(r.deep_view() =~~= builtin_entry_61());
    }
    r
}

/// The signatures of the Python builtins and operators that expressions may
/// use, in lookup order.
pub fn builtin_type_signatures() -> (r: Vec<BuiltinSignature>)
    ensures
        r@.len() == 62,
        r.deep_view() == builtin_table(),
{
    let r = vec![
        builtin_signature_0(),
        builtin_signature_1(),
        builtin_signature_2(),
        builtin_signature_3(),
        builtin_signature_4(),
        builtin_signature_5(),
        builtin_signature_6(),
        builtin_signature_7(),
        builtin_signature_8(),
        builtin_signature_9(),
        builtin_signature_10(),
        builtin_signature_11(),
        builtin_signature_12(),
        builtin_signature_13(),
        builtin_signature_14(),
        builtin_signature_15(),
        builtin_signature_16(),
        builtin_signature_17(),
        builtin_signature_18(),
        builtin_signature_19(),
        builtin_signature_20(),
        builtin_signature_21(),
        builtin_signature_22(),
        builtin_signature_23(),
        builtin_signature_24(),
        builtin_signature_25(),
        builtin_signature_26(),
        builtin_signature_27(),
        builtin_signature_28(),
        builtin_signature_29(),
        builtin_signature_30(),
        builtin_signature_31(),
        builtin_signature_32(),
        builtin_signature_33(),
        builtin_signature_34(),
        builtin_signature_35(),
        builtin_signature_36(),
        builtin_signature_37(),
        builtin_signature_38(),
        builtin_signature_39(),
        builtin_signature_40(),
        builtin_signature_41(),
        builtin_signature_42(),
        builtin_signature_43(),
        builtin_signature_44(),
        builtin_signature_45(),
        builtin_signature_46(),
        builtin_signature_47(),
        builtin_signature_48(),
        builtin_signature_49(),
        builtin_signature_50(),
        builtin_signature_51(),
        builtin_signature_52(),
        builtin_signature_53(),
        builtin_signature_54(),
        builtin_signature_55(),
        builtin_signature_56(),
        builtin_signature_57(),
        builtin_signature_58(),
        builtin_signature_59(),
        builtin_signature_60(),
        builtin_signature_61()
    ];
    proof {
        assert(r.deep_view() =~= builtin_table());
    }
    r
}

} // verus!

//! Checking that a tape is well typed: every sequential composition joins
//! equal interfaces, every trace goes around the first term of its inner
//! tape, and every embedded circuit has known sorts.

use vstd::prelude::*;
use vstd::string::*;

use super::circuit::circuit_io;
use super::tape::{monomials_eq, monomials_equal, tape_io, Tape};
use super::text::{format_tape_tree, tape_tree_text, Text};
use super::{monomial_equals, monomial_view, monomial_views, GeneratorTypes, Monomial};
use crate::label::Label;
use crate::typing::indent_text;

verus! {

/// Where and why a tape failed to type check: the path of constructors
/// from the root; at a sequential composition, the interfaces that did not
/// meet (at a trace, the inputs and outputs of its inner tape); the tree
/// texts of the parts involved and of the failing tape.
#[derive(Debug)]
pub struct TapeValidationError<S> {
    pub path: Vec<String>,
    pub left_out: Option<Vec<Monomial<S>>>,
    pub right_in: Option<Vec<Monomial<S>>>,
    pub left_tape: Option<String>,
    pub right_tape: Option<String>,
    pub full_tape: String,
}

/// A failure of validation, by model.
pub struct TapeFailure<V> {
    pub path: Seq<Seq<char>>,
    pub left_out: Option<Seq<Monomial<V>>>,
    pub right_in: Option<Seq<Monomial<V>>>,
    pub left_tape: Option<Seq<char>>,
    pub right_tape: Option<Seq<char>>,
    pub full_tape: Seq<char>,
}

/// The texts of a list of strings.
pub open spec fn texts_of(ss: Seq<String>) -> Seq<Seq<char>> {
    ss.map_values(|s: String| s@)
}

/// The model of a validation error.
pub open spec fn failure_view<S: DeepView>(e: TapeValidationError<S>) -> TapeFailure<S::V> {
    TapeFailure {
        path: texts_of(e.path@),
        left_out: match e.left_out {
            Some(v) => Some(monomial_views(v@)),
            None => None,
        },
        right_in: match e.right_in {
            Some(v) => Some(monomial_views(v@)),
            None => None,
        },
        left_tape: match e.left_tape {
            Some(t) => Some(t@),
            None => None,
        },
        right_tape: match e.right_tape {
            Some(t) => Some(t@),
            None => None,
        },
        full_tape: e.full_tape@,
    }
}

/// The failure `f` with `prefix` put before its path.
pub open spec fn failure_below<V>(prefix: Seq<Seq<char>>, f: TapeFailure<V>) -> TapeFailure<V> {
    TapeFailure {
        path: prefix + f.path,
        left_out: f.left_out,
        right_in: f.right_in,
        left_tape: f.left_tape,
        right_tape: f.right_tape,
        full_tape: f.full_tape,
    }
}

/// A failure found at the tape itself.
pub open spec fn failure_here<V>(
    left_out: Option<Seq<Monomial<V>>>,
    right_in: Option<Seq<Monomial<V>>>,
    left_tape: Option<Seq<char>>,
    right_tape: Option<Seq<char>>,
    full_tape: Seq<char>,
) -> TapeFailure<V> {
    TapeFailure { path: Seq::empty(), left_out, right_in, left_tape, right_tape, full_tape }
}

/// The tree text of a tape, not indented.
#[verifier::opaque]
pub open spec fn tree_of<S: Text, G: Text + GeneratorTypes<S>>(t: Tape<S, G>) -> Seq<char> {
    tape_tree_text(t, indent_text(0))
}

/// The first failure of validation, looking at the parts of a tape left to
/// right and below before the tape itself; none when the tape type checks.
pub open spec fn validation_failure<S: Text + Label, G: Text + GeneratorTypes<S>>(t: Tape<S, G>) -> Option<
    TapeFailure<S::V>,
>
    decreases t,
{
    match t {
        Tape::Sequence(l, r) => match validation_failure(*l) {
            Some(f) => Some(failure_below(seq!["Seq.left"@], f)),
            None => match validation_failure(*r) {
                Some(f) => Some(failure_below(seq!["Seq.right"@], f)),
                None => match tape_io(*l) {
                    None => Some(failure_here(None, None, Some(tree_of(*l)), None, tree_of(t))),
                    Some((_, lo)) => match tape_io(*r) {
                        None => Some(failure_here(None, None, None, Some(tree_of(*r)), tree_of(t))),
                        Some((ri, _)) => if monomials_eq(lo, ri) {
                            None
                        } else {
                            Some(failure_here(Some(lo), Some(ri), Some(tree_of(*l)), Some(tree_of(*r)), tree_of(t)))
                        },
                    },
                },
            },
        },
        Tape::Sum(l, r) => match validation_failure(*l) {
            Some(f) => Some(failure_below(seq!["Sum.left"@], f)),
            None => match validation_failure(*r) {
                Some(f) => Some(failure_below(seq!["Sum.right"@], f)),
                None => None,
            },
        },
        Tape::Product(l, r) => match validation_failure(*l) {
            Some(f) => Some(failure_below(seq!["Product.left"@], f)),
            None => match validation_failure(*r) {
                Some(f) => Some(failure_below(seq!["Product.right"@], f)),
                None => None,
            },
        },
        Tape::Trace { around, tape: inner } => match validation_failure(*inner) {
            Some(f) => Some(failure_below(seq!["Trace"@], f)),
            None => match tape_io(*inner) {
                None => Some(failure_here(None, None, Some(tree_of(*inner)), None, tree_of(t))),
                Some((i, o)) => if i.len() > 0 && o.len() > 0 && i[0].sorts() == monomial_view(around).sorts()
                    && o[0].sorts() == monomial_view(around).sorts() {
                    None
                } else {
                    Some(failure_here(Some(i), Some(o), Some(tree_of(*inner)), None, tree_of(t)))
                },
            },
        },
        Tape::EmbedCircuit(c) => if circuit_io(*c) is None {
            Some(failure_here(None, None, None, None, tree_of(t)))
        } else {
            None
        },
        _ => None,
    }
}

/// An error at the given path with the given contents.
fn fail_at<S>(
    path: &Vec<String>,
    left_out: Option<Vec<Monomial<S>>>,
    right_in: Option<Vec<Monomial<S>>>,
    left_tape: Option<String>,
    right_tape: Option<String>,
    full_tape: String,
) -> (r: TapeValidationError<S>)
    ensures
        r.path@ == path@,
        r.left_out == left_out,
        r.right_in == right_in,
        r.left_tape == left_tape,
        r.right_tape == right_tape,
        r.full_tape == full_tape,
{
    let mut copy: Vec<String> = Vec::new();
    let mut i: usize = 0;
    while i < path.len()
        invariant
            i <= path@.len(),
            copy@ == path@.subrange(0, i as int),
        decreases path@.len() - i,
    {
        copy.push(path[i].clone());
        i = i + 1;
        proof {
            assert(copy@ =~= path@.subrange(0, i as int));
        }
    }
    proof {
        assert(path@.subrange(0, path@.len() as int) =~= path@);
    }
    TapeValidationError { path: copy, left_out, right_in, left_tape, right_tape, full_tape }
}

/// Putting a step below a path and then the failure below it is putting
/// the failure, with the step before its path, below the path.
proof fn lemma_failure_step<V>(path: Seq<String>, step: String, f: TapeFailure<V>)
    ensures
        failure_below(texts_of(path.push(step)), f) == failure_below(
            texts_of(path),
            failure_below(seq![step@], f),
        ),
{
    assert(texts_of(path.push(step)) =~= texts_of(path).push(step@));
    assert(texts_of(path.push(step)) + f.path =~= texts_of(path) + (seq![step@] + f.path));
}

/// The tree text of a tape, not indented.
fn tree_text<S: Label + Text, G: GeneratorTypes<S> + Text>(tape: &Tape<S, G>) -> (r: String)
    ensures
        r@ == tree_of(*tape),
{
    proof {
        reveal(tree_of);
    }
    format_tape_tree(tape, 0)
}

/// The check of a sequential composition whose parts type check.
fn check_sequence<S: Label + Text, G: GeneratorTypes<S> + Text>(
    tape: &Tape<S, G>,
    left: &Tape<S, G>,
    right: &Tape<S, G>,
    path: &Vec<String>,
) -> (r: Result<(), TapeValidationError<S>>)
    requires
        *tape == Tape::Sequence(Box::new(*left), Box::new(*right)),
        validation_failure(*left) is None,
        validation_failure(*right) is None,
    ensures
        r is Ok <==> validation_failure(*tape) is None,
        r matches Err(e) ==> failure_view(e) == failure_below(texts_of(path@), validation_failure(*tape)->0),
{
    let ghost f = validation_failure(*tape);
    match left.io_types() {
        None => {
            let e = fail_at(path, None, None, Some(tree_text(left)), None, tree_text(tape));
            proof {
                assert(failure_view(e) == failure_below(texts_of(path@), f->0));
            }
            Err(e)
        },
        Some((_left_in, left_out)) => match right.io_types() {
            None => {
                let e = fail_at(path, None, None, None, Some(tree_text(right)), tree_text(tape));
                proof {
                    assert(failure_view(e) == failure_below(texts_of(path@), f->0));
                }
                Err(e)
            },
            Some((right_in, _right_out)) => {
                if !monomials_equal(&left_out, &right_in) {
                    let lt = tree_text(left);
                    let rt = tree_text(right);
                    let ft = tree_text(tape);
                    let e = fail_at(path, Some(left_out), Some(right_in), Some(lt), Some(rt), ft);
                    proof {
                        assert(failure_view(e).path =~= failure_below(texts_of(path@), f->0).path);
                    }
                    return Err(e);
                }
                Ok(())
            },
        },
    }
}

/// The check of a trace whose inner tape type checks.
fn check_trace<S: Label + Text, G: GeneratorTypes<S> + Text>(
    tape: &Tape<S, G>,
    around: &Monomial<S>,
    inner: &Tape<S, G>,
    path: &Vec<String>,
) -> (r: Result<(), TapeValidationError<S>>)
    requires
        *tape == (Tape::Trace { around: *around, tape: Box::new(*inner) }),
        validation_failure(*inner) is None,
    ensures
        r is Ok <==> validation_failure(*tape) is None,
        r matches Err(e) ==> failure_view(e) == failure_below(texts_of(path@), validation_failure(*tape)->0),
{
    let ghost f = validation_failure(*tape);
    match inner.io_types() {
        None => {
            let e = fail_at(path, None, None, Some(tree_text(inner)), None, tree_text(tape));
            proof {
                assert(failure_view(e).path =~= failure_below(texts_of(path@), f->0).path);
            }
            Err(e)
        },
        Some((inputs, outputs)) => {
            if inputs.len() == 0 || outputs.len() == 0 || !monomial_equals(&inputs[0], around) || !monomial_equals(
                &outputs[0],
                around,
            ) {
                let it = tree_text(inner);
                let ft = tree_text(tape);
                let e = fail_at(path, Some(inputs), Some(outputs), Some(it), None, ft);
                proof {
                    assert(failure_view(e).path =~= failure_below(texts_of(path@), f->0).path);
                }
                return Err(e);
            }
            Ok(())
        },
    }
}

/// Checks the tape below the given path.
fn validate_tape<S: Label + Text, G: GeneratorTypes<S> + Text>(tape: &Tape<S, G>, path: &mut Vec<String>) -> (r: Result<
    (),
    TapeValidationError<S>,
>)
    ensures
        r is Ok <==> tape_io(*tape) is Some,
        r is Ok <==> validation_failure(*tape) is None,
        r is Ok ==> final(path)@ == old(path)@,
        r matches Err(e) ==> failure_view(e) == failure_below(texts_of(old(path)@), validation_failure(*tape)->0),
    decreases tape,
{
    let ghost start = path@;
    proof {
        lemma_failure_io(*tape);
    }
    match tape {
        Tape::Sequence(left, right) => {
            let step = String::from_str("Seq.left");
            let ghost stepg: String = step;
            path.push(step);
            let l = validate_tape(left, path);
            if l.is_err() {
                proof {
                    lemma_failure_step(start, stepg, validation_failure(**left)->0);
                }
                return l;
            }
            path.pop();
            proof {
                assert(path@ =~= start);
            }
            let step = String::from_str("Seq.right");
            let ghost stepg: String = step;
            path.push(step);
            let r = validate_tape(right, path);
            if r.is_err() {
                proof {
                    lemma_failure_step(start, stepg, validation_failure(**right)->0);
                }
                return r;
            }
            path.pop();
            proof {
                assert(path@ =~= start);
            }
            check_sequence(tape, left, right, path)
        },
        Tape::Sum(left, right) => {
            let step = String::from_str("Sum.left");
            let ghost stepg: String = step;
            path.push(step);
            let l = validate_tape(left, path);
            if l.is_err() {
                proof {
                    lemma_failure_step(start, stepg, validation_failure(**left)->0);
                }
                return l;
            }
            path.pop();
            proof {
                assert(path@ =~= start);
            }
            let step = String::from_str("Sum.right");
            let ghost stepg: String = step;
            path.push(step);
            let r = validate_tape(right, path);
            if r.is_err() {
                proof {
                    lemma_failure_step(start, stepg, validation_failure(**right)->0);
                }
                return r;
            }
            path.pop();
            Ok(())
        },
        Tape::Product(left, right) => {
            let step = String::from_str("Product.left");
            let ghost stepg: String = step;
            path.push(step);
            let l = validate_tape(left, path);
            if l.is_err() {
                proof {
                    lemma_failure_step(start, stepg, validation_failure(**left)->0);
                }
                return l;
            }
            path.pop();
            proof {
                assert(path@ =~= start);
            }
            let step = String::from_str("Product.right");
            let ghost stepg: String = step;
            path.push(step);
            let r = validate_tape(right, path);
            if r.is_err() {
                proof {
                    lemma_failure_step(start, stepg, validation_failure(**right)->0);
                }
                return r;
            }
            path.pop();
            Ok(())
        },
        Tape::Trace { around, tape: inner } => {
            let step = String::from_str("Trace");
            let ghost stepg: String = step;
            path.push(step);
            let t = validate_tape(inner, path);
            if t.is_err() {
                proof {
                    lemma_failure_step(start, stepg, validation_failure(**inner)->0);
                }
                return t;
            }
            path.pop();
            proof {
                assert(path@ =~= start);
            }
            check_trace(tape, around, inner, path)
        },
        Tape::EmbedCircuit(circuit) => {
            if circuit.io_types().is_none() {
                let e = fail_at(path, None, None, None, None, tree_text(tape));
                proof {
                    assert(failure_view(e).path =~= failure_below(texts_of(start), validation_failure(*tape)->0).path);
                }
                return Err(e);
            }
            Ok(())
        },
        _ => Ok(()),
    }
}

/// A tape fails validation exactly when its interfaces are undefined.
proof fn lemma_failure_io<S: Text + Label, G: Text + GeneratorTypes<S>>(t: Tape<S, G>)
    ensures
        validation_failure(t) is None <==> tape_io(t) is Some,
    decreases t,
{
    match t {
        Tape::Sequence(l, r) => {
            lemma_failure_io(*l);
            lemma_failure_io(*r);
        },
        Tape::Sum(l, r) => {
            lemma_failure_io(*l);
            lemma_failure_io(*r);
        },
        Tape::Product(l, r) => {
            lemma_failure_io(*l);
            lemma_failure_io(*r);
        },
        Tape::Trace { around, tape: inner } => {
            lemma_failure_io(*inner);
        },
        _ => {},
    }
}

impl<S: Label + Text, G: GeneratorTypes<S> + Text> Tape<S, G> {
    /// Checks that the tape is well typed: it succeeds exactly when the
    /// interfaces of the tape are defined, and otherwise reports the first
    /// failure (see `validation_failure`).
    pub fn validate(&self) -> (r: Result<(), TapeValidationError<S>>)
        ensures
            r is Ok <==> tape_io(*self) is Some,
            r is Ok <==> validation_failure(*self) is None,
            r matches Err(e) ==> validation_failure(*self) == Some(failure_view(e)),
    {
        let mut path: Vec<String> = Vec::new();
        let r = validate_tape(self, &mut path);
        proof {
            if r is Err {
                let f = validation_failure(*self)->0;
                assert(texts_of(Seq::<String>::empty()) + f.path =~= f.path);
            }
        }
        r
    }
}

} // verus!

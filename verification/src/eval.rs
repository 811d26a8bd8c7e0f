//! The value of a flag: its expression evaluated over the other fields of
//! the same flags.

use vstd::prelude::*;
use vstd::string::StringExecFns;
use crate::ast::{views, Expr, ExprView, FlagField, FlagFieldView, Op};

verus! {

/// Why a flag has no value.
#[derive(Debug, PartialEq)]
pub enum EvalError {
    /// The expression names a field that the flags do not declare.
    NotFound(String),
    /// The field of this name was reached a second time in one evaluation.
    Recursive(String),
}

/// What an [`EvalError`] stands for.
pub enum EvalErrorView {
    NotFound(Seq<char>),
    Recursive(Seq<char>),
}

impl View for EvalError {
    type V = EvalErrorView;

    open spec fn view(&self) -> EvalErrorView {
        match self {
            EvalError::NotFound(n) => EvalErrorView::NotFound(n@),
            EvalError::Recursive(n) => EvalErrorView::Recursive(n@),
        }
    }
}

impl Clone for EvalError {
    fn clone(&self) -> (res: Self)
        ensures
            res@ == self@,
    {
        match self {
            EvalError::NotFound(n) => EvalError::NotFound(n.clone()),
            EvalError::Recursive(n) => EvalError::Recursive(n.clone()),
        }
    }
}

impl EvalErrorView {
    /// The error in words, with the name of the field.
    pub open spec fn text(self) -> Seq<char> {
        match self {
            EvalErrorView::NotFound(n) => "No definition found for "@ + n,
            EvalErrorView::Recursive(n) => "Recursive definition for "@ + n,
        }
    }
}

impl EvalError {
    /// The error in words, with the name of the field.
    pub fn to_string(&self) -> (s: String)
        ensures
            s@ == self@.text(),
    {
        match self {
            EvalError::NotFound(n) => {
                let mut s = "No definition found for ".to_owned();
                s.append(n.as_str());
                s
            },
            EvalError::Recursive(n) => {
                let mut s = "Recursive definition for ".to_owned();
                s.append(n.as_str());
                s
            },
        }
    }
}

/// The model of a result of evaluation.
pub open spec fn result_view(r: Result<u64, EvalError>) -> Result<u64, EvalErrorView> {
    match r {
        Ok(v) => Ok(v),
        Err(e) => Err(e@),
    }
}

/// The operator applied to two values of 64 bits. A shift moves all 64
/// bits: by 64 places or more it leaves none.
pub open spec fn op_value(op: Op, l: u64, r: u64) -> u64 {
    match op {
        Op::LShift => l << r,
        Op::RShift => l >> r,
        Op::BAnd => l & r,
        Op::BOr => l | r,
        Op::BXor => l ^ r,
        Op::BClear => l & !r,
    }
}

/// Applies the operator.
pub fn apply_op(op: Op, l: u64, r: u64) -> (v: u64)
    ensures
        v == op_value(op, l, r),
{
    match op {
        Op::LShift => {
            if r < 64 {
                l << r
            } else {
                assert(r >= 64 ==> l << r == 0) by (bit_vector);
                0
            }
        },
        Op::RShift => {
            if r < 64 {
                l >> r
            } else {
                assert(r >= 64 ==> l >> r == 0) by (bit_vector);
                0
            }
        },
        Op::BAnd => l & r,
        Op::BOr => l | r,
        Op::BXor => l ^ r,
        Op::BClear => l & !r,
    }
}

/// The first of the fields that has the given name.
pub open spec fn lookup_field(name: Seq<char>, fs: Seq<FlagFieldView>) -> Option<FlagFieldView>
    decreases fs.len(),
{
    if fs.len() == 0 {
        None
    } else if fs[0].name == name {
        Some(fs[0])
    } else {
        lookup_field(name, fs.drop_first())
    }
}

/// The number of fields whose name is not among `seen`.
pub open spec fn unseen(fs: Seq<FlagFieldView>, seen: Set<Seq<char>>) -> nat
    decreases fs.len(),
{
    if fs.len() == 0 {
        0
    } else {
        unseen(fs.drop_first(), seen) + if seen.contains(fs[0].name) {
            0nat
        } else {
            1nat
        }
    }
}

/// Names that are added to `seen` leave no more fields unseen.
pub proof fn lemma_unseen_union(fs: Seq<FlagFieldView>, seen: Set<Seq<char>>, more: Set<Seq<char>>)
    ensures
        unseen(fs, seen.union(more)) <= unseen(fs, seen),
    decreases fs.len(),
{
    if fs.len() > 0 {
        lemma_unseen_union(fs.drop_first(), seen, more);
    }
}

/// The name of a declared field that was not seen leaves fewer fields
/// unseen once it is.
pub proof fn lemma_unseen_insert(fs: Seq<FlagFieldView>, seen: Set<Seq<char>>, name: Seq<char>)
    requires
        lookup_field(name, fs) is Some,
        !seen.contains(name),
    ensures
        unseen(fs, seen.insert(name)) < unseen(fs, seen),
    decreases fs.len(),
{
    if fs[0].name == name {
        assert(seen.insert(name) =~= seen.union(set![name]));
        lemma_unseen_union(fs.drop_first(), seen, set![name]);
    } else {
        lemma_unseen_insert(fs.drop_first(), seen, name);
    }
}

/// Where an evaluation stands: the names of the fields that it has entered,
/// and its value or the error that ended it.
pub struct Outcome {
    pub seen: Set<Seq<char>>,
    pub result: Result<u64, EvalErrorView>,
}

/// The evaluation of `expr` over the fields `fs`, after the fields named in
/// `seen` were entered.
///
/// A number is its value. An operator takes its left operand first and then,
/// with the names seen by then, its right operand; the first error ends the
/// evaluation. A name stands for the first field of that name: without one
/// the name is not found; if the name was seen already, whether that field is
/// still being evaluated or has been, the definition counts as recursive;
/// else the name is seen from here on and the field's expression is
/// evaluated. So no field is entered twice, and every evaluation ends.
///
/// The names seen only grow ([`lemma_eval_keeps_seen`]), so the union that
/// the right operand is given is what the left operand has seen.
pub open spec fn eval_expr(expr: ExprView, fs: Seq<FlagFieldView>, seen: Set<Seq<char>>) -> Outcome
    decreases unseen(fs, seen), expr,
{
    match expr {
        ExprView::Num(n) => Outcome { seen, result: Ok(n) },
        ExprView::BNum(n) => Outcome { seen, result: Ok(n) },
        ExprView::BinOp(l, op, r) => {
            let left = eval_expr(*l, fs, seen);
            match left.result {
                Err(_) => left,
                Ok(a) => {
                    proof {
                        lemma_unseen_union(fs, seen, left.seen);
                    }
                    let right = eval_expr(*r, fs, seen.union(left.seen));
                    match right.result {
                        Err(_) => right,
                        Ok(b) => Outcome { seen: right.seen, result: Ok(op_value(op, a, b)) },
                    }
                },
            }
        },
        ExprView::Ident(name) => match lookup_field(name, fs) {
            None => Outcome { seen, result: Err(EvalErrorView::NotFound(name)) },
            Some(f) => if seen.contains(name) {
                Outcome { seen, result: Err(EvalErrorView::Recursive(name)) }
            } else {
                proof {
                    lemma_unseen_insert(fs, seen, name);
                }
                eval_expr(f.expr, fs, seen.insert(name))
            },
        },
    }
}

/// The value of the field `e` among the fields `fs` of its flags: its
/// expression evaluated with the field's own name seen.
pub open spec fn eval_field(e: FlagFieldView, fs: Seq<FlagFieldView>) -> Result<u64, EvalErrorView> {
    eval_expr(e.expr, fs, set![e.name]).result
}

/// An evaluation forgets no name.
pub proof fn lemma_eval_keeps_seen(expr: ExprView, fs: Seq<FlagFieldView>, seen: Set<Seq<char>>)
    ensures
        seen.subset_of(eval_expr(expr, fs, seen).seen),
    decreases unseen(fs, seen), expr,
{
    match expr {
        ExprView::Num(_) => {},
        ExprView::BNum(_) => {},
        ExprView::BinOp(l, op, r) => {
            lemma_eval_keeps_seen(*l, fs, seen);
            let left = eval_expr(*l, fs, seen);
            if left.result is Ok {
                lemma_unseen_union(fs, seen, left.seen);
                lemma_eval_keeps_seen(*r, fs, seen.union(left.seen));
            }
        },
        ExprView::Ident(name) => {
            if lookup_field(name, fs) is Some && !seen.contains(name) {
                lemma_unseen_insert(fs, seen, name);
                lemma_eval_keeps_seen(lookup_field(name, fs).unwrap().expr, fs, seen.insert(name));
            }
        },
    }
}

/// What the errors say: a name that is not found is the name of no field,
/// and a name that counts as recursive is the name of a field and was seen.
pub proof fn lemma_eval_error_names(expr: ExprView, fs: Seq<FlagFieldView>, seen: Set<Seq<char>>)
    ensures
        match eval_expr(expr, fs, seen).result {
            Ok(_) => true,
            Err(EvalErrorView::NotFound(n)) => lookup_field(n, fs) is None,
            Err(EvalErrorView::Recursive(n)) => lookup_field(n, fs) is Some && eval_expr(
                expr,
                fs,
                seen,
            ).seen.contains(n),
        },
    decreases unseen(fs, seen), expr,
{
    match expr {
        ExprView::Num(_) => {},
        ExprView::BNum(_) => {},
        ExprView::BinOp(l, op, r) => {
            lemma_eval_error_names(*l, fs, seen);
            let left = eval_expr(*l, fs, seen);
            if left.result is Ok {
                lemma_unseen_union(fs, seen, left.seen);
                lemma_eval_error_names(*r, fs, seen.union(left.seen));
            }
        },
        ExprView::Ident(name) => {
            if lookup_field(name, fs) is Some && !seen.contains(name) {
                lemma_unseen_insert(fs, seen, name);
                lemma_eval_error_names(
                    lookup_field(name, fs).unwrap().expr,
                    fs,
                    seen.insert(name),
                );
            }
        },
    }
}

/// The names that a list holds.
pub open spec fn names(list: Seq<String>) -> Set<Seq<char>> {
    Set::new(|n: Seq<char>| exists|i: int| 0 <= i < list.len() && (#[trigger] list[i])@ == n)
}

/// Whether the list holds the name.
fn is_seen(seen: &Vec<String>, name: &String) -> (b: bool)
    ensures
        b == names(seen@).contains(name@),
{
    let mut i: usize = 0;
    while i < seen.len()
        invariant
            i <= seen.len(),
            forall|j: int| 0 <= j < i ==> (#[trigger] seen[j])@ != name@,
        decreases seen.len() - i,
    {
        if seen[i] == *name {
            return true;
        }
        i += 1;
    }
    false
}

/// Adds the name to the list.
fn mark_seen(seen: &mut Vec<String>, name: &String)
    ensures
        names(final(seen)@) == names(old(seen)@).insert(name@),
{
    seen.push(name.clone());
    proof {
        let before = old(seen)@;
        let after = seen@;
        assert forall|n: Seq<char>| names(after).contains(n) <==> names(before).insert(
            name@,
        ).contains(n) by {
            if names(after).contains(n) {
                let i = choose|i: int| 0 <= i < after.len() && (#[trigger] after[i])@ == n;
                if i < before.len() {
                    assert(before[i]@ == n);
                }
            }
            if names(before).contains(n) {
                let i = choose|i: int| 0 <= i < before.len() && (#[trigger] before[i])@ == n;
                assert(after[i]@ == n);
            }
            if n == name@ {
                assert(after[before.len() as int]@ == n);
            }
        }
        assert(names(after) =~= names(before).insert(name@));
    }
}

/// The first of the fields that has the given name, or that the name is
/// not found.
fn lookup<'a>(name: &String, fs: &'a [FlagField]) -> (r: Result<&'a FlagField, EvalError>)
    ensures
        match lookup_field(name@, views(fs@)) {
            Some(f) => r is Ok && r->Ok_0@ == f && f.name == name@,
            None => r is Err && r->Err_0@ == EvalErrorView::NotFound(name@),
        },
{
    let ghost all = views(fs@);
    let mut i: usize = 0;
    proof {
        assert(all.skip(0) =~= all);
    }
    while i < fs.len()
        invariant
            i <= fs.len(),
            all == views(fs@),
            lookup_field(name@, all) == lookup_field(name@, all.skip(i as int)),
        decreases fs.len() - i,
    {
        proof {
            let rest = all.skip(i as int);
            assert(rest[0] == fs[i as int]@);
            assert(rest.drop_first() =~= all.skip(i + 1));
        }
        if fs[i].name == *name {
            return Ok(&fs[i]);
        }
        i += 1;
    }
    Err(EvalError::NotFound(name.clone()))
}

/// Enters a declared field: its name must not have been seen, and is seen
/// from here on.
fn eval_with(e: &FlagField, fs: &[FlagField], seen: &mut Vec<String>) -> (r: Result<u64, EvalError>)
    requires
        lookup_field(e@.name, views(fs@)) == Some(e@),
    ensures
        ({
            let out = eval_expr(ExprView::Ident(e@.name), views(fs@), names(old(seen)@));
            &&& result_view(r) == out.result
            &&& names(final(seen)@) == out.seen
        }),
    decreases unseen(views(fs@), names(old(seen)@)), 0nat, e.expr,
{
    if is_seen(seen, &e.name) {
        return Err(EvalError::Recursive(e.name.clone()));
    }
    proof {
        lemma_unseen_insert(views(fs@), names(seen@), e@.name);
    }
    mark_seen(seen, &e.name);
    eval_exp_with(&e.expr, fs, seen)
}

/// Evaluates an expression after the listed names were seen, and lists
/// the names that it sees.
fn eval_exp_with(expr: &Expr, fs: &[FlagField], seen: &mut Vec<String>) -> (r: Result<
    u64,
    EvalError,
>)
    ensures
        ({
            let out = eval_expr(expr@, views(fs@), names(old(seen)@));
            &&& result_view(r) == out.result
            &&& names(final(seen)@) == out.seen
        }),
    decreases unseen(views(fs@), names(old(seen)@)), 1nat, expr,
{
    match expr {
        Expr::Num(n) => Ok(*n),
        Expr::BNum(n) => Ok(*n),
        Expr::BinOp(l, o, r) => {
            let ghost before = names(seen@);
            let a = match eval_exp_with(l, fs, seen) {
                Ok(a) => a,
                Err(e) => {
                    return Err(e);
                },
            };
            proof {
                lemma_eval_keeps_seen(l@, views(fs@), before);
                assert(before.union(names(seen@)) =~= names(seen@));
                lemma_unseen_union(views(fs@), before, names(seen@));
            }
            let b = match eval_exp_with(r, fs, seen) {
                Ok(b) => b,
                Err(e) => {
                    return Err(e);
                },
            };
            Ok(apply_op(*o, a, b))
        },
        Expr::Ident(name) => {
            let f = match lookup(name, fs) {
                Ok(f) => f,
                Err(e) => {
                    return Err(e);
                },
            };
            eval_with(f, fs, seen)
        },
    }
}

/// The value of the field `e`, where `fs` are all the fields of its
/// flags, in any order.
///
/// A name in an expression stands for the first field of that name in `fs`.
/// The evaluation enters no field twice: the name of a field that it reaches
/// again, `e` itself included, is reported as [`EvalError::Recursive`], and a
/// name that `fs` does not declare as [`EvalError::NotFound`]. Nothing is
/// kept between two calls.
pub fn eval(e: &FlagField, fs: &[FlagField]) -> (r: Result<u64, EvalError>)
    ensures
        result_view(r) == eval_field(e@, views(fs@)),
{
    let mut seen: Vec<String> = Vec::new();
    mark_seen(&mut seen, &e.name);
    proof {
        assert(names(Seq::<String>::empty()) =~= Set::<Seq<char>>::empty());
        assert(names(seen@) =~= set![e@.name]);
    }
    eval_exp_with(&e.expr, fs, &mut seen)
}

} // verus!

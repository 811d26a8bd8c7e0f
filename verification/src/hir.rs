//! Lowering: from the tree that the parser yields to the tree that pages
//! and other output are written from.
//!
//! A lowered tree has the types of the tree it came from. What sets it apart:
//! - every field of an enum has its number, and no two fields of one enum
//!   have the same;
//! - every field of a set of flags has the value of its expression;
//! - the implicit interface of an extension stands first among its
//!   interfaces, and every interface of an extension has a version;
//! - every documentation comment is the text that a page shows.

use vstd::prelude::*;
use vstd::string::StringExecFns;
use std::collections::BTreeSet;
use crate::ast::{
    views, Enum, EnumField, EnumFieldView, EnumView, Extension, ExtensionInterface,
    ExtensionInterfaceView, ExtensionView, FlagField, FlagFieldView, Flags, FlagsView, Func,
    FuncView, ImplicitInterface, ImplicitInterfaceView, Interface, InterfaceView, Namespace,
    NamespaceView, TypeDef, TypeDefView, TypeKind, TypeKindView, Version,
};
use crate::docs::normalize;
use crate::eval::{eval, eval_field, EvalError, EvalErrorView};
use crate::text::{signed_decimal, signed_decimal_string};

verus! {

/// Why a tree cannot be lowered. Lowering stops at the first error.
#[derive(Debug, PartialEq)]
pub enum LowerError {
    /// The named field of an enum has the number of a field before it.
    DuplicateEnumValue { name: String, value: i128 },
    /// The named field of an enum follows the greatest number there is and
    /// gives none itself.
    EnumValueOutOfRange { name: String },
    /// A flag has no value.
    Flag(EvalError),
}

/// What a [`LowerError`] stands for.
pub enum LowerErrorView {
    DuplicateEnumValue { name: Seq<char>, value: i128 },
    EnumValueOutOfRange { name: Seq<char> },
    Flag(EvalErrorView),
}

impl View for LowerError {
    type V = LowerErrorView;

    open spec fn view(&self) -> LowerErrorView {
        match self {
            LowerError::DuplicateEnumValue { name, value } => LowerErrorView::DuplicateEnumValue {
                name: name@,
                value: *value,
            },
            LowerError::EnumValueOutOfRange { name } => LowerErrorView::EnumValueOutOfRange {
                name: name@,
            },
            LowerError::Flag(e) => LowerErrorView::Flag(e@),
        }
    }
}

impl Clone for LowerError {
    fn clone(&self) -> (res: Self)
        ensures
            res@ == self@,
    {
        match self {
            LowerError::DuplicateEnumValue { name, value } => LowerError::DuplicateEnumValue {
                name: name.clone(),
                value: *value,
            },
            LowerError::EnumValueOutOfRange { name } => LowerError::EnumValueOutOfRange {
                name: name.clone(),
            },
            LowerError::Flag(e) => LowerError::Flag(e.clone()),
        }
    }
}

impl LowerErrorView {
    /// The error in words, with the name of the field.
    pub open spec fn text(self) -> Seq<char> {
        match self {
            LowerErrorView::DuplicateEnumValue { name, value } => "Enum "@ + name
                + " has duplicate value "@ + signed_decimal(value as int),
            LowerErrorView::EnumValueOutOfRange { name } => "Enum "@ + name
                + " has a value out of range"@,
            LowerErrorView::Flag(e) => e.text(),
        }
    }
}

impl LowerError {
    /// The error in words, with the name of the field.
    pub fn to_string(&self) -> (s: String)
        ensures
            s@ == self@.text(),
    {
        match self {
            LowerError::DuplicateEnumValue { name, value } => {
                let mut s = "Enum ".to_owned();
                s.append(name.as_str());
                s.append(" has duplicate value ");
                let number = signed_decimal_string(*value);
                s.append(number.as_str());
                s
            },
            LowerError::EnumValueOutOfRange { name } => {
                let mut s = "Enum ".to_owned();
                s.append(name.as_str());
                s.append(" has a value out of range");
                s
            },
            LowerError::Flag(e) => e.to_string(),
        }
    }
}

/// The model of a result of lowering.
pub open spec fn lower_result<T: View>(r: Result<T, LowerError>) -> Result<T::V, LowerErrorView> {
    match r {
        Ok(t) => Ok(t@),
        Err(e) => Err(e@),
    }
}

/// All the values in order, or the first of the errors.
pub open spec fn collect<T>(results: Seq<Result<T, LowerErrorView>>) -> Result<
    Seq<T>,
    LowerErrorView,
>
    decreases results.len(),
{
    if results.len() == 0 {
        Ok(Seq::empty())
    } else {
        match collect(results.drop_last()) {
            Err(e) => Err(e),
            Ok(before) => match results.last() {
                Err(e) => Err(e),
                Ok(v) => Ok(before.push(v)),
            },
        }
    }
}

/// An error after values only is the error of the whole, whatever follows.
pub proof fn lemma_collect_error<T>(results: Seq<Result<T, LowerErrorView>>, i: int, upto: int)
    requires
        0 <= i < upto <= results.len(),
        collect(results.take(i)) is Ok,
        results[i] is Err,
    ensures
        collect(results.take(upto)) == Err::<Seq<T>, LowerErrorView>(results[i]->Err_0),
    decreases upto,
{
    let part = results.take(upto);
    assert(part.drop_last() =~= results.take(upto - 1));
    if upto == i + 1 {
        assert(part.last() == results[i]);
    } else {
        lemma_collect_error(results, i, upto - 1);
    }
}

/// Where all are values, the whole has them all, in order.
pub proof fn lemma_collect_values<T>(results: Seq<Result<T, LowerErrorView>>, values: Seq<T>)
    requires
        values.len() == results.len(),
        forall|i: int| 0 <= i < results.len() ==> results[i] == Ok::<T, LowerErrorView>(values[i]),
    ensures
        collect(results) == Ok::<Seq<T>, LowerErrorView>(values),
    decreases results.len(),
{
    if results.len() == 0 {
        assert(values =~= Seq::empty());
    } else {
        lemma_collect_values(results.drop_last(), values.drop_last());
        assert(values.drop_last().push(values.last()) =~= values);
    }
}

/// Where the whole has values, all are values, in the same order.
pub proof fn lemma_collect_ok<T>(results: Seq<Result<T, LowerErrorView>>)
    requires
        collect(results) is Ok,
    ensures
        collect(results)->Ok_0.len() == results.len(),
        forall|i: int|
            0 <= i < results.len() ==> #[trigger] results[i] == Ok::<T, LowerErrorView>(
                collect(results)->Ok_0[i],
            ),
    decreases results.len(),
{
    if results.len() > 0 {
        let before = results.drop_last();
        lemma_collect_ok(before);
        let values = collect(results)->Ok_0;
        assert forall|i: int| 0 <= i < results.len() implies #[trigger] results[i] == Ok::<
            T,
            LowerErrorView,
        >(values[i]) by {
            if i < before.len() {
                assert(before[i] == results[i]);
            }
        }
    }
}

/// Where the whole is an error, it is the first of the errors.
pub proof fn lemma_collect_err<T>(results: Seq<Result<T, LowerErrorView>>) -> (i: int)
    requires
        collect(results) is Err,
    ensures
        0 <= i < results.len(),
        results[i] == Err::<T, LowerErrorView>(collect(results)->Err_0),
        forall|j: int| 0 <= j < i ==> (#[trigger] results[j]) is Ok,
    decreases results.len(),
{
    let before = results.drop_last();
    if collect(before) is Err {
        let i = lemma_collect_err(before);
        assert(before[i] == results[i]);
        assert forall|j: int| 0 <= j < i implies (#[trigger] results[j]) is Ok by {
            assert(before[j] == results[j]);
        }
        i
    } else {
        lemma_collect_ok(before);
        assert forall|j: int| 0 <= j < results.len() - 1 implies (#[trigger] results[j]) is Ok by {
            assert(before[j] == results[j]);
        }
        results.len() - 1
    }
}

/// The number of the field at `i`: the one it gives, else one more than
/// the number of the field before it, and 0 for the first field.
pub open spec fn enum_number(fields: Seq<EnumFieldView>, i: int) -> int
    decreases i,
{
    match fields[i].value {
        Some(v) => v as int,
        None => if i <= 0 {
            0
        } else {
            enum_number(fields, i - 1) + 1
        },
    }
}

/// Whether a field before `i` has the number of the field at `i`.
pub open spec fn enum_number_taken(fields: Seq<EnumFieldView>, i: int) -> bool {
    exists|j: int| 0 <= j < i && enum_number(fields, j) == enum_number(fields, i)
}

/// The field at `i` with its number, or why it has none. A number that
/// was given cannot be out of range, so a number out of range is never a
/// duplicate.
pub open spec fn numbered_field(fields: Seq<EnumFieldView>, i: int) -> Result<
    EnumFieldView,
    LowerErrorView,
> {
    let n = enum_number(fields, i);
    if n > i128::MAX {
        Err(LowerErrorView::EnumValueOutOfRange { name: fields[i].name })
    } else if enum_number_taken(fields, i) {
        Err(LowerErrorView::DuplicateEnumValue { name: fields[i].name, value: n as i128 })
    } else {
        Ok(EnumFieldView { name: fields[i].name, value: Some(n as i128) })
    }
}

/// The enum with every field numbered, or the error of the first field
/// that cannot be.
pub open spec fn lowered_enum(e: EnumView) -> Result<EnumView, LowerErrorView> {
    match collect(Seq::new(e.fields.len(), |i: int| numbered_field(e.fields, i))) {
        Ok(fields) => Ok(EnumView { backing: e.backing, fields }),
        Err(err) => Err(err),
    }
}

/// Gives every field of the enum its number, in the order of declaration.
///
/// A field that gives a number has it. A field that gives none has one more
/// than the field before it, and the first field has 0. The first field
/// whose number a field before it has ends the lowering with
/// [`LowerError::DuplicateEnumValue`]; so does, with
/// [`LowerError::EnumValueOutOfRange`], a field that gives no number after a
/// field with the greatest `i128`. Whether the numbers fit the type that
/// carries the enum is not looked at.
pub fn lower_enum(e: Enum) -> (r: Result<Enum, LowerError>)
    ensures
        lower_result(r) == lowered_enum(e@),
        r matches Ok(out) ==> enum_is_numbered(out@),
{
    proof {
        if lowered_enum(e@) is Ok {
            lemma_lowered_enum_ok(e@);
        }
    }
    let Enum { backing, fields } = e;
    let ghost olds = views(fields@);
    let ghost results = Seq::new(olds.len(), |i: int| numbered_field(olds, i));
    let mut pos: Option<i128> = Some(0);
    let mut seen: BTreeSet<i128> = BTreeSet::new();
    let mut new_fields: Vec<EnumField> = Vec::new();
    proof {
        assert(results.take(0) =~= Seq::empty());
        assert(views(new_fields@) =~= Seq::empty());
    }
    for field in it: fields
        invariant
            it.seq() == fields@,
            e@.fields == olds,
            olds == views(fields@),
            results == Seq::new(olds.len(), |i: int| numbered_field(olds, i)),
            new_fields.len() == it.index(),
            collect(results.take(it.index() as int)) == Ok::<_, LowerErrorView>(views(new_fields@)),
            forall|j: int|
                0 <= j < it.index() ==> i128::MIN <= #[trigger] enum_number(olds, j) <= i128::MAX,
            forall|v: i128|
                seen@.contains(v) <==> exists|j: int|
                    0 <= j < it.index() && #[trigger] enum_number(olds, j) == v,
            it.index() == 0 ==> pos == Some(0i128),
            it.index() > 0 ==> pos == if enum_number(olds, it.index() - 1) + 1 > i128::MAX {
                None
            } else {
                Some((enum_number(olds, it.index() - 1) + 1) as i128)
            },
    {
        let ghost i = it.index() as int;
        let EnumField { name, value } = field;
        assert(olds[i] == fields@[i]@);
        proof {
            assert(results.take(i + 1).drop_last() =~= results.take(i));
            assert(results.take(i + 1).last() == numbered_field(olds, i));
        }
        let value = match value {
            Some(v) => v,
            None => match pos {
                Some(p) => p,
                None => {
                    proof {
                        lemma_collect_error(results, i, results.len() as int);
                        assert(results.take(results.len() as int) =~= results);
                    }
                    return Err(LowerError::EnumValueOutOfRange { name });
                },
            },
        };
        assert(value == enum_number(olds, i));
        if seen.contains(&value) {
            proof {
                lemma_collect_error(results, i, results.len() as int);
                assert(results.take(results.len() as int) =~= results);
            }
            return Err(LowerError::DuplicateEnumValue { name, value });
        }
        pos = value.checked_add(1);
        seen.insert(value);
        let ghost before = views(new_fields@);
        new_fields.push(EnumField { name, value: Some(value) });
        proof {
            assert(views(new_fields@) =~= before.push(
                EnumFieldView { name: olds[i].name, value: Some(value) },
            ));
        }
    }
    proof {
        assert(results.take(results.len() as int) =~= results);
    }
    Ok(Enum { backing, fields: new_fields })
}

/// No number is below the least `i128`.
pub proof fn lemma_enum_number_bounds(fields: Seq<EnumFieldView>, i: int)
    requires
        0 <= i < fields.len(),
    ensures
        i128::MIN <= enum_number(fields, i),
        fields[i].value is Some ==> enum_number(fields, i) <= i128::MAX,
    decreases i,
{
    if i > 0 {
        lemma_enum_number_bounds(fields, i - 1);
    }
}

/// What a numbered enum looks like: it has the type and the names that it
/// had, every field has its number, and no two fields have the same.
pub proof fn lemma_lowered_enum_ok(e: EnumView)
    requires
        lowered_enum(e) is Ok,
    ensures
        ({
            let out = lowered_enum(e)->Ok_0;
            &&& out.backing == e.backing
            &&& out.fields.len() == e.fields.len()
            &&& forall|i: int|
                0 <= i < e.fields.len() ==> {
                    &&& (#[trigger] out.fields[i]).name == e.fields[i].name
                    &&& out.fields[i].value == Some(enum_number(e.fields, i) as i128)
                    &&& i128::MIN <= enum_number(e.fields, i) <= i128::MAX
                }
            &&& forall|i: int, j: int|
                0 <= i < j < e.fields.len() ==> (#[trigger] out.fields[i]).value != (
                #[trigger] out.fields[j]).value
        }),
{
    let results = Seq::new(e.fields.len(), |i: int| numbered_field(e.fields, i));
    lemma_collect_ok(results);
    let out = lowered_enum(e)->Ok_0;
    assert forall|i: int| 0 <= i < e.fields.len() implies {
        &&& (#[trigger] out.fields[i]).name == e.fields[i].name
        &&& out.fields[i].value == Some(enum_number(e.fields, i) as i128)
        &&& i128::MIN <= enum_number(e.fields, i) <= i128::MAX
    } by {
        assert(results[i] == numbered_field(e.fields, i));
        lemma_enum_number_bounds(e.fields, i);
    }
    assert forall|i: int, j: int| 0 <= i < j < e.fields.len() implies (#[trigger] out.fields[i]).value
        != (#[trigger] out.fields[j]).value by {
        assert(results[j] == numbered_field(e.fields, j));
        assert(!enum_number_taken(e.fields, j));
    }
}

/// An enum is numbered whenever its numbers are in range and no two are
/// the same.
pub proof fn lemma_lowered_enum_succeeds(e: EnumView)
    requires
        forall|i: int| 0 <= i < e.fields.len() ==> enum_number(e.fields, i) <= i128::MAX,
        forall|i: int, j: int|
            0 <= i < j < e.fields.len() ==> enum_number(e.fields, i) != enum_number(e.fields, j),
    ensures
        lowered_enum(e) is Ok,
{
    let results = Seq::new(e.fields.len(), |i: int| numbered_field(e.fields, i));
    if collect(results) is Err {
        let i = lemma_collect_err(results);
        assert(results[i] == numbered_field(e.fields, i));
    }
}

/// Two fields with one number fail the lowering. Where the numbers up to
/// the second of the two are in range, the error is
/// [`LowerErrorView::DuplicateEnumValue`], and it names a field that has the
/// number of a field before it, with that number.
pub proof fn lemma_duplicate_enum_value_fails(e: EnumView, i: int, j: int)
    requires
        0 <= i < j < e.fields.len(),
        enum_number(e.fields, i) == enum_number(e.fields, j),
        forall|k: int| 0 <= k <= j ==> enum_number(e.fields, k) <= i128::MAX,
    ensures
        lowered_enum(e) matches Err(LowerErrorView::DuplicateEnumValue { name, value }) && exists|
            q: int,
        |
            0 <= q < e.fields.len() && name == e.fields[q].name && value == enum_number(
                e.fields,
                q,
            ) && enum_number_taken(e.fields, q),
{
    let results = Seq::new(e.fields.len(), |k: int| numbered_field(e.fields, k));
    assert(results[j] == numbered_field(e.fields, j));
    assert(enum_number_taken(e.fields, j));
    if collect(results) is Ok {
        lemma_collect_ok(results);
    } else {
        let q = lemma_collect_err(results);
        assert(results[q] == numbered_field(e.fields, q));
        assert(q <= j) by {
            if q > j {
                assert(results[j] is Ok);
            }
        }
        lemma_enum_number_bounds(e.fields, q);
        assert(0 <= q < e.fields.len() && enum_number(e.fields, q) as i128 == enum_number(
            e.fields,
            q,
        ) && enum_number_taken(e.fields, q));
    }
}

/// A numbered enum is numbered as it is: to lower it again changes
/// nothing.
pub proof fn lemma_lowered_enum_settled(e: EnumView)
    requires
        lowered_enum(e) is Ok,
    ensures
        lowered_enum(lowered_enum(e)->Ok_0) == lowered_enum(e),
{
    let out = lowered_enum(e)->Ok_0;
    lemma_lowered_enum_ok(e);
    let results = Seq::new(out.fields.len(), |i: int| numbered_field(out.fields, i));
    assert forall|i: int| 0 <= i < results.len() implies results[i] == Ok::<
        EnumFieldView,
        LowerErrorView,
    >(out.fields[i]) by {
        assert(out.fields[i].value == Some(enum_number(e.fields, i) as i128));
        if enum_number_taken(out.fields, i) {
            let j = choose|j: int|
                0 <= j < i && enum_number(out.fields, j) == enum_number(out.fields, i);
            assert(out.fields[j].value != out.fields[i].value);
        }
    }
    lemma_collect_values(results, out.fields);
}

/// To lower an enum is a function of what the enum stands for: two results
/// for enums that stand for the same are the same, in numbers and in errors.
pub proof fn lemma_lower_enum_deterministic(
    a: Enum,
    b: Enum,
    ra: Result<Enum, LowerError>,
    rb: Result<Enum, LowerError>,
)
    requires
        a@ == b@,
        lower_result(ra) == lowered_enum(a@),
        lower_result(rb) == lowered_enum(b@),
    ensures
        lower_result(ra) == lower_result(rb),
{
}

/// The field at `i` with the value of its expression among the fields
/// `fields`, or why it has none.
pub open spec fn valued_field(fields: Seq<FlagFieldView>, i: int) -> Result<
    FlagFieldView,
    LowerErrorView,
> {
    match eval_field(fields[i], fields) {
        Ok(v) => Ok(FlagFieldView { name: fields[i].name, expr: fields[i].expr, value: Some(v) }),
        Err(e) => Err(LowerErrorView::Flag(e)),
    }
}

/// The flags with the value of every field, or the error of the first
/// field that has none. The expressions stay, for the pages that show them.
pub open spec fn lowered_flags(f: FlagsView) -> Result<FlagsView, LowerErrorView> {
    match collect(Seq::new(f.fields.len(), |i: int| valued_field(f.fields, i))) {
        Ok(fields) => Ok(FlagsView { backing: f.backing, fields }),
        Err(err) => Err(err),
    }
}

/// Gives every field of the flags the value of its expression, in the
/// order of declaration. The first field without a value ends the lowering
/// with [`LowerError::Flag`]. Whether the values fit the type that carries
/// the flags is not looked at.
pub fn lower_flags(f: Flags) -> (r: Result<Flags, LowerError>)
    ensures
        lower_result(r) == lowered_flags(f@),
        r matches Ok(out) ==> flags_are_valued(out@),
{
    proof {
        if lowered_flags(f@) is Ok {
            lemma_lowered_flags_ok(f@);
        }
    }
    let Flags { backing, fields } = f;
    let ghost olds = views(fields@);
    let ghost results = Seq::new(olds.len(), |i: int| valued_field(olds, i));
    let mut values: Vec<u64> = Vec::new();
    let mut i: usize = 0;
    proof {
        assert(results.take(0) =~= Seq::empty());
    }
    while i < fields.len()
        invariant
            i <= fields.len(),
            values.len() == i,
            f@.fields == olds,
            olds == views(fields@),
            results == Seq::new(olds.len(), |i: int| valued_field(olds, i)),
            collect(results.take(i as int)) is Ok,
            forall|j: int| 0 <= j < i ==> eval_field(olds[j], olds) == Ok::<u64, EvalErrorView>(#[trigger] values[j]),
        decreases fields.len() - i,
    {
        proof {
            assert(results.take(i + 1).drop_last() =~= results.take(i as int));
            assert(results.take(i + 1).last() == valued_field(olds, i as int));
            assert(olds[i as int] == fields[i as int]@);
        }
        match eval(&fields[i], fields.as_slice()) {
            Ok(v) => {
                values.push(v);
            },
            Err(e) => {
                proof {
                    lemma_collect_error(results, i as int, results.len() as int);
                    assert(results.take(results.len() as int) =~= results);
                }
                return Err(LowerError::Flag(e));
            },
        }
        i += 1;
    }
    let mut new_fields: Vec<FlagField> = Vec::new();
    let mut k: usize = 0;
    proof {
        assert(views(new_fields@) =~= Seq::empty());
    }
    for field in it: fields
        invariant
            it.seq() == fields@,
            olds == views(fields@),
            results == Seq::new(olds.len(), |i: int| valued_field(olds, i)),
            values.len() == fields.len(),
            forall|j: int| 0 <= j < values.len() ==> eval_field(olds[j], olds) == Ok::<u64, EvalErrorView>(#[trigger] values[j]),
            k == it.index(),
            new_fields.len() == k,
            collect(results.take(k as int)) == Ok::<_, LowerErrorView>(views(new_fields@)),
    {
        let FlagField { name, expr, value: _ } = field;
        let ghost before = views(new_fields@);
        proof {
            assert(results.take(k + 1).drop_last() =~= results.take(k as int));
            assert(results.take(k + 1).last() == valued_field(olds, k as int));
            assert(olds[k as int] == fields[k as int]@);
        }
        new_fields.push(FlagField { name, expr, value: Some(values[k]) });
        proof {
            assert(views(new_fields@) =~= before.push(
                FlagFieldView {
                    name: olds[k as int].name,
                    expr: olds[k as int].expr,
                    value: Some(values[k as int]),
                },
            ));
        }
        k += 1;
    }
    proof {
        assert(results.take(results.len() as int) =~= results);
    }
    Ok(Flags { backing, fields: new_fields })
}

/// The method or event with the text of its comment.
pub open spec fn lowered_func(f: FuncView) -> FuncView {
    FuncView { name: f.name, docs: normalize(f.docs), args: f.args, ret: f.ret }
}

/// Lowers a method or an event: only its comment changes.
pub fn lower_func(m: Func) -> (r: Func)
    ensures
        r@ == lowered_func(m@),
{
    let Func { name, docs, args, ret } = m;
    Func { name, docs: crate::docs::lower(docs.as_str()), args, ret }
}

/// Applies `f` to every item, in order.
pub fn vmap<T, U, F: Fn(T) -> U>(v: Vec<T>, f: F) -> (r: Vec<U>)
    requires
        forall|i: int| 0 <= i < v.len() ==> call_requires(f, (#[trigger] v[i],)),
    ensures
        r.len() == v.len(),
        forall|i: int| 0 <= i < v.len() ==> call_ensures(f, (v[i],), #[trigger] r[i]),
{
    let mut r: Vec<U> = Vec::new();
    for x in it: v
        invariant
            it.seq() == v@,
            forall|i: int| 0 <= i < v.len() ==> call_requires(f, (#[trigger] v[i],)),
            r.len() == it.index(),
            forall|i: int| 0 <= i < it.index() ==> call_ensures(f, (v[i],), #[trigger] r[i]),
    {
        r.push(f(x));
    }
    r
}

/// The methods or events, each with the text of its comment.
pub open spec fn lowered_funcs(fs: Seq<FuncView>) -> Seq<FuncView> {
    fs.map_values(|f: FuncView| lowered_func(f))
}

/// Lowers every method or event of a list.
fn lower_funcs(fs: Vec<Func>) -> (r: Vec<Func>)
    ensures
        views(r@) == lowered_funcs(views(fs@)),
{
    let r = vmap(fs, lower_func);
    proof {
        assert(views(r@) =~= lowered_funcs(views(fs@)));
    }
    r
}

/// The interface with the texts of its comments.
pub open spec fn lowered_interface(i: InterfaceView) -> InterfaceView {
    InterfaceView {
        name: i.name,
        docs: normalize(i.docs),
        version: i.version,
        methods: lowered_funcs(i.methods),
        events: lowered_funcs(i.events),
    }
}

/// Lowers an interface of the namespace: its comment and those of its
/// methods and events change, nothing else.
pub fn lower_interface(i: Interface) -> (r: Interface)
    ensures
        r@ == lowered_interface(i@),
{
    let Interface { name, docs, version, methods, events } = i;
    Interface {
        docs: crate::docs::lower(docs.as_str()),
        name,
        version,
        methods: lower_funcs(methods),
        events: lower_funcs(events),
    }
}

/// The implicit interface of an extension as one of its interfaces: under
/// the name of the extension, with its version.
pub open spec fn promoted_interface(
    i: ImplicitInterfaceView,
    name: Seq<char>,
    version: Version,
) -> ExtensionInterfaceView {
    ExtensionInterfaceView {
        name,
        docs: normalize(i.docs),
        version: Some(version),
        methods: lowered_funcs(i.methods),
        events: lowered_funcs(i.events),
    }
}

/// Lowers the implicit interface of the extension of the given name and
/// version.
pub fn lower_implicit_interface(i: ImplicitInterface, name: &str, version: Version) -> (r:
    ExtensionInterface)
    ensures
        r@ == promoted_interface(i@, name@, version),
{
    let ImplicitInterface { docs, methods, events } = i;
    ExtensionInterface {
        name: name.to_owned(),
        docs: crate::docs::lower(docs.as_str()),
        version: Some(version),
        methods: lower_funcs(methods),
        events: lower_funcs(events),
    }
}

/// The interface of an extension of the given version: with its own
/// version where it gives one, else with that of the extension.
pub open spec fn lowered_extension_interface(
    i: ExtensionInterfaceView,
    version: Version,
) -> ExtensionInterfaceView {
    ExtensionInterfaceView {
        name: i.name,
        docs: normalize(i.docs),
        version: Some(
            match i.version {
                Some(own) => own,
                None => version,
            },
        ),
        methods: lowered_funcs(i.methods),
        events: lowered_funcs(i.events),
    }
}

/// Lowers an interface of an extension of the given version.
pub fn lower_extension_interface(i: ExtensionInterface, version: Version) -> (r:
    ExtensionInterface)
    ensures
        r@ == lowered_extension_interface(i@, version),
{
    let ExtensionInterface { name, docs, version: own, methods, events } = i;
    let version = match own {
        Some(v) => v,
        None => version,
    };
    ExtensionInterface {
        name,
        docs: crate::docs::lower(docs.as_str()),
        version: Some(version),
        methods: lower_funcs(methods),
        events: lower_funcs(events),
    }
}

/// The declared type with the text of its comment; an enum numbered, flags
/// valued, a struct as it was. Or the error of its enum or flags.
pub open spec fn lowered_type_def(t: TypeDefView) -> Result<TypeDefView, LowerErrorView> {
    let kind = match t.kind {
        TypeKindView::Struct(s) => Ok(TypeKindView::Struct(s)),
        TypeKindView::Enum(e) => match lowered_enum(e) {
            Ok(e) => Ok(TypeKindView::Enum(e)),
            Err(err) => Err(err),
        },
        TypeKindView::Flags(f) => match lowered_flags(f) {
            Ok(f) => Ok(TypeKindView::Flags(f)),
            Err(err) => Err(err),
        },
    };
    match kind {
        Ok(kind) => Ok(TypeDefView { name: t.name, docs: normalize(t.docs), kind }),
        Err(err) => Err(err),
    }
}

/// Lowers a declared type.
pub fn lower_type_def(t: TypeDef) -> (r: Result<TypeDef, LowerError>)
    ensures
        lower_result(r) == lowered_type_def(t@),
        r matches Ok(out) ==> type_def_is_lowered(out@),
{
    proof {
        if lowered_type_def(t@) is Ok {
            lemma_lowered_type_def_is_lowered(t@);
        }
    }
    let TypeDef { name, docs, kind } = t;
    let kind = match kind {
        TypeKind::Struct(s) => TypeKind::Struct(s),
        TypeKind::Enum(e) => match lower_enum(e) {
            Ok(e) => TypeKind::Enum(e),
            Err(err) => {
                return Err(err);
            },
        },
        TypeKind::Flags(f) => match lower_flags(f) {
            Ok(f) => TypeKind::Flags(f),
            Err(err) => {
                return Err(err);
            },
        },
    };
    Ok(TypeDef { name, docs: crate::docs::lower(docs.as_str()), kind })
}

/// The declared types lowered in order, or the first of their errors.
pub open spec fn lowered_type_defs(ts: Seq<TypeDefView>) -> Result<Seq<TypeDefView>, LowerErrorView> {
    collect(ts.map_values(|t: TypeDefView| lowered_type_def(t)))
}

/// The model of a list that lowering returns.
pub open spec fn lower_results<T: View>(r: Result<Vec<T>, LowerError>) -> Result<
    Seq<T::V>,
    LowerErrorView,
> {
    match r {
        Ok(v) => Ok(views(v@)),
        Err(e) => Err(e@),
    }
}

/// Lowers every declared type of a list, up to the first error.
fn lower_type_defs(ts: Vec<TypeDef>) -> (r: Result<Vec<TypeDef>, LowerError>)
    ensures
        lower_results(r) == lowered_type_defs(views(ts@)),
{
    let ghost results = views(ts@).map_values(|t: TypeDefView| lowered_type_def(t));
    let mut out: Vec<TypeDef> = Vec::new();
    proof {
        assert(results.take(0) =~= Seq::empty());
        assert(views(out@) =~= Seq::empty());
    }
    for t in it: ts
        invariant
            it.seq() == ts@,
            results == views(ts@).map_values(|t: TypeDefView| lowered_type_def(t)),
            out.len() == it.index(),
            collect(results.take(it.index() as int)) == Ok::<_, LowerErrorView>(views(out@)),
    {
        let ghost i = it.index() as int;
        let ghost before = views(out@);
        proof {
            assert(results.take(i + 1).drop_last() =~= results.take(i));
            assert(results.take(i + 1).last() == lowered_type_def(ts@[i]@));
        }
        match lower_type_def(t) {
            Ok(t) => {
                out.push(t);
                proof {
                    assert(views(out@) =~= before.push(t@));
                }
            },
            Err(err) => {
                proof {
                    lemma_collect_error(results, i, results.len() as int);
                    assert(results.take(results.len() as int) =~= results);
                }
                return Err(err);
            },
        }
    }
    proof {
        assert(results.take(results.len() as int) =~= results);
    }
    Ok(out)
}

/// The interfaces of a lowered extension: the implicit one, if there is
/// one, and then the listed ones in their order.
pub open spec fn lowered_extension_interfaces(e: ExtensionView) -> Seq<ExtensionInterfaceView> {
    let first = match e.interface {
        Some(i) => seq![promoted_interface(i, e.name, e.version)],
        None => Seq::empty(),
    };
    first + e.interfaces.map_values(
        |i: ExtensionInterfaceView| lowered_extension_interface(i, e.version),
    )
}

/// The extension with the text of its comment, its interfaces as
/// [`lowered_extension_interfaces`] gives them, no implicit interface, and
/// its types lowered. Or the first error of its types.
pub open spec fn lowered_extension(e: ExtensionView) -> Result<ExtensionView, LowerErrorView> {
    match lowered_type_defs(e.types) {
        Ok(types) => Ok(
            ExtensionView {
                name: e.name,
                version: e.version,
                docs: normalize(e.docs),
                interface: None,
                interfaces: lowered_extension_interfaces(e),
                types,
            },
        ),
        Err(err) => Err(err),
    }
}

/// Lowers an extension.
pub fn lower_extension(e: Extension) -> (r: Result<Extension, LowerError>)
    ensures
        lower_result(r) == lowered_extension(e@),
        r matches Ok(out) ==> extension_is_lowered(out@),
{
    proof {
        if lowered_extension(e@) is Ok {
            lemma_lowered_extension_is_lowered(e@);
        }
    }
    let Extension { name, version, docs, interface, interfaces, types } = e;
    let mut new_interfaces: Vec<ExtensionInterface> = Vec::new();
    match interface {
        Some(i) => {
            new_interfaces.push(lower_implicit_interface(i, name.as_str(), version));
        },
        None => {},
    }
    let ghost first = views(new_interfaces@);
    let lower_one = |i: ExtensionInterface| -> (r: ExtensionInterface)
        ensures
            r@ == lowered_extension_interface(i@, version),
        { lower_extension_interface(i, version) };
    let mut listed = vmap(interfaces, lower_one);
    let ghost rest = views(listed@);
    new_interfaces.append(&mut listed);
    proof {
        assert(views(new_interfaces@) =~= first + rest);
        assert(rest =~= e@.interfaces.map_values(
            |i: ExtensionInterfaceView| lowered_extension_interface(i, e@.version),
        ));
        assert(views(new_interfaces@) =~= lowered_extension_interfaces(e@));
    }
    let types = match lower_type_defs(types) {
        Ok(types) => types,
        Err(err) => {
            return Err(err);
        },
    };
    Ok(
        Extension {
            name,
            version,
            docs: crate::docs::lower(docs.as_str()),
            interface: None,
            interfaces: new_interfaces,
            types,
        },
    )
}

/// The extensions lowered in order, or the first of their errors.
pub open spec fn lowered_extensions(es: Seq<ExtensionView>) -> Result<
    Seq<ExtensionView>,
    LowerErrorView,
> {
    collect(es.map_values(|e: ExtensionView| lowered_extension(e)))
}

/// Lowers every extension of a list, up to the first error.
fn lower_extensions(es: Vec<Extension>) -> (r: Result<Vec<Extension>, LowerError>)
    ensures
        lower_results(r) == lowered_extensions(views(es@)),
{
    let ghost results = views(es@).map_values(|e: ExtensionView| lowered_extension(e));
    let mut out: Vec<Extension> = Vec::new();
    proof {
        assert(results.take(0) =~= Seq::empty());
        assert(views(out@) =~= Seq::empty());
    }
    for e in it: es
        invariant
            it.seq() == es@,
            results == views(es@).map_values(|e: ExtensionView| lowered_extension(e)),
            out.len() == it.index(),
            collect(results.take(it.index() as int)) == Ok::<_, LowerErrorView>(views(out@)),
    {
        let ghost i = it.index() as int;
        let ghost before = views(out@);
        proof {
            assert(results.take(i + 1).drop_last() =~= results.take(i));
            assert(results.take(i + 1).last() == lowered_extension(es@[i]@));
        }
        match lower_extension(e) {
            Ok(e) => {
                out.push(e);
                proof {
                    assert(views(out@) =~= before.push(e@));
                }
            },
            Err(err) => {
                proof {
                    lemma_collect_error(results, i, results.len() as int);
                    assert(results.take(results.len() as int) =~= results);
                }
                return Err(err);
            },
        }
    }
    proof {
        assert(results.take(results.len() as int) =~= results);
    }
    Ok(out)
}

/// The namespace lowered: its interfaces, then its types, then its
/// extensions, or the first error on that way.
pub open spec fn lowered_namespace(ns: NamespaceView) -> Result<NamespaceView, LowerErrorView> {
    match lowered_type_defs(ns.types) {
        Err(err) => Err(err),
        Ok(types) => match lowered_extensions(ns.extensions) {
            Err(err) => Err(err),
            Ok(extensions) => Ok(
                NamespaceView {
                    name: ns.name,
                    interfaces: ns.interfaces.map_values(|i: InterfaceView| lowered_interface(i)),
                    types,
                    extensions,
                },
            ),
        },
    }
}

/// Lowers a tree.
///
/// Names, versions, types of fields and arguments and the order of all
/// items stay. Every comment becomes the text that a page shows; every enum
/// is numbered and every set of flags valued, those of extensions too; every
/// extension gets its implicit interface as the first of its interfaces, and
/// each of its interfaces a version. The first enum or flags that cannot be
/// lowered ends the lowering with its error: there is no tree lowered in
/// part.
pub fn lower_namespace(ns: Namespace) -> (r: Result<Namespace, LowerError>)
    ensures
        lower_result(r) == lowered_namespace(ns@),
        r matches Ok(out) ==> namespace_is_lowered(out@),
{
    proof {
        if lowered_namespace(ns@) is Ok {
            lemma_lowered_namespace_is_lowered(ns@);
        }
    }
    let Namespace { name, interfaces, types, extensions } = ns;
    let interfaces = vmap(interfaces, lower_interface);
    proof {
        assert(views(interfaces@) =~= ns@.interfaces.map_values(
            |i: InterfaceView| lowered_interface(i),
        ));
    }
    let types = match lower_type_defs(types) {
        Ok(types) => types,
        Err(err) => {
            return Err(err);
        },
    };
    let extensions = match lower_extensions(extensions) {
        Ok(extensions) => extensions,
        Err(err) => {
            return Err(err);
        },
    };
    Ok(Namespace { name, interfaces, types, extensions })
}

/// Whether every field of the enum has its number.
pub open spec fn enum_is_numbered(e: EnumView) -> bool {
    forall|i: int| 0 <= i < e.fields.len() ==> (#[trigger] e.fields[i]).value is Some
}

/// Whether every field of the flags has its value.
pub open spec fn flags_are_valued(f: FlagsView) -> bool {
    forall|i: int| 0 <= i < f.fields.len() ==> (#[trigger] f.fields[i]).value is Some
}

/// Whether the declared type is one of a lowered tree.
pub open spec fn type_def_is_lowered(t: TypeDefView) -> bool {
    match t.kind {
        TypeKindView::Struct(_) => true,
        TypeKindView::Enum(e) => enum_is_numbered(e),
        TypeKindView::Flags(f) => flags_are_valued(f),
    }
}

/// Whether the extension is one of a lowered tree: it has no implicit
/// interface, each of its interfaces has a version, and its types are
/// lowered.
pub open spec fn extension_is_lowered(e: ExtensionView) -> bool {
    &&& e.interface is None
    &&& forall|i: int| 0 <= i < e.interfaces.len() ==> (#[trigger] e.interfaces[i]).version is Some
    &&& forall|i: int| 0 <= i < e.types.len() ==> type_def_is_lowered(#[trigger] e.types[i])
}

/// Whether the tree is a lowered one, as far as its shape shows it.
pub open spec fn namespace_is_lowered(ns: NamespaceView) -> bool {
    &&& forall|i: int| 0 <= i < ns.types.len() ==> type_def_is_lowered(#[trigger] ns.types[i])
    &&& forall|i: int|
        0 <= i < ns.extensions.len() ==> extension_is_lowered(#[trigger] ns.extensions[i])
}

/// Whether every field of the enum has its number.
pub fn enum_numbered(e: &Enum) -> (b: bool)
    ensures
        b == enum_is_numbered(e@),
{
    let mut i: usize = 0;
    while i < e.fields.len()
        invariant
            i <= e.fields.len(),
            forall|j: int| 0 <= j < i ==> (#[trigger] e@.fields[j]).value is Some,
        decreases e.fields.len() - i,
    {
        assert(e@.fields[i as int] == e.fields[i as int]@);
        if e.fields[i].value.is_none() {
            assert(e@.fields[i as int].value is None);
            return false;
        }
        i += 1;
    }
    true
}

/// Whether every field of the flags has its value.
pub fn flags_valued(f: &Flags) -> (b: bool)
    ensures
        b == flags_are_valued(f@),
{
    let mut i: usize = 0;
    while i < f.fields.len()
        invariant
            i <= f.fields.len(),
            forall|j: int| 0 <= j < i ==> (#[trigger] f@.fields[j]).value is Some,
        decreases f.fields.len() - i,
    {
        assert(f@.fields[i as int] == f.fields[i as int]@);
        if f.fields[i].value.is_none() {
            assert(f@.fields[i as int].value is None);
            return false;
        }
        i += 1;
    }
    true
}

/// Whether the declared type is one of a lowered tree.
pub fn type_def_lowered(t: &TypeDef) -> (b: bool)
    ensures
        b == type_def_is_lowered(t@),
{
    match &t.kind {
        TypeKind::Struct(_) => true,
        TypeKind::Enum(e) => enum_numbered(e),
        TypeKind::Flags(f) => flags_valued(f),
    }
}

/// Whether all the declared types are those of a lowered tree.
fn type_defs_lowered(ts: &Vec<TypeDef>) -> (b: bool)
    ensures
        b == forall|i: int| 0 <= i < ts.len() ==> type_def_is_lowered(#[trigger] views(ts@)[i]),
{
    let mut i: usize = 0;
    while i < ts.len()
        invariant
            i <= ts.len(),
            forall|j: int| 0 <= j < i ==> type_def_is_lowered(#[trigger] views(ts@)[j]),
        decreases ts.len() - i,
    {
        assert(views(ts@)[i as int] == ts[i as int]@);
        if !type_def_lowered(&ts[i]) {
            return false;
        }
        i += 1;
    }
    true
}

/// Whether the extension is one of a lowered tree.
pub fn extension_lowered(e: &Extension) -> (b: bool)
    ensures
        b == extension_is_lowered(e@),
{
    if e.interface.is_some() {
        return false;
    }
    let mut i: usize = 0;
    while i < e.interfaces.len()
        invariant
            i <= e.interfaces.len(),
            forall|j: int| 0 <= j < i ==> (#[trigger] e@.interfaces[j]).version is Some,
        decreases e.interfaces.len() - i,
    {
        assert(e@.interfaces[i as int] == e.interfaces[i as int]@);
        if e.interfaces[i].version.is_none() {
            assert(e@.interfaces[i as int].version is None);
            return false;
        }
        i += 1;
    }
    assert(e@.types == views(e.types@));
    type_defs_lowered(&e.types)
}

/// Whether the tree is a lowered one, as far as its shape shows it.
pub fn is_lowered(ns: &Namespace) -> (b: bool)
    ensures
        b == namespace_is_lowered(ns@),
{
    assert(ns@.types == views(ns.types@));
    if !type_defs_lowered(&ns.types) {
        return false;
    }
    let mut i: usize = 0;
    while i < ns.extensions.len()
        invariant
            i <= ns.extensions.len(),
            forall|j: int| 0 <= j < i ==> extension_is_lowered(#[trigger] ns@.extensions[j]),
        decreases ns.extensions.len() - i,
    {
        assert(ns@.extensions[i as int] == ns.extensions[i as int]@);
        if !extension_lowered(&ns.extensions[i]) {
            assert(!extension_is_lowered(ns@.extensions[i as int]));
            return false;
        }
        i += 1;
    }
    true
}

/// What valued flags look like: they have the type, the names and the
/// expressions that they had, and every field has the value of its
/// expression among the fields as they were.
pub proof fn lemma_lowered_flags_ok(f: FlagsView)
    requires
        lowered_flags(f) is Ok,
    ensures
        ({
            let out = lowered_flags(f)->Ok_0;
            &&& out.backing == f.backing
            &&& out.fields.len() == f.fields.len()
            &&& forall|i: int|
                0 <= i < f.fields.len() ==> {
                    &&& (#[trigger] out.fields[i]).name == f.fields[i].name
                    &&& out.fields[i].expr == f.fields[i].expr
                    &&& eval_field(f.fields[i], f.fields) == Ok::<u64, EvalErrorView>(
                        out.fields[i].value->Some_0,
                    )
                    &&& out.fields[i].value is Some
                }
        }),
{
    let results = Seq::new(f.fields.len(), |i: int| valued_field(f.fields, i));
    lemma_collect_ok(results);
    let out = lowered_flags(f)->Ok_0;
    assert forall|i: int| 0 <= i < f.fields.len() implies {
        &&& (#[trigger] out.fields[i]).name == f.fields[i].name
        &&& out.fields[i].expr == f.fields[i].expr
        &&& eval_field(f.fields[i], f.fields) == Ok::<u64, EvalErrorView>(
            out.fields[i].value->Some_0,
        )
        &&& out.fields[i].value is Some
    } by {
        assert(results[i] == valued_field(f.fields, i));
    }
}

/// A declared type that was lowered is a lowered one.
pub proof fn lemma_lowered_type_def_is_lowered(t: TypeDefView)
    requires
        lowered_type_def(t) is Ok,
    ensures
        type_def_is_lowered(lowered_type_def(t)->Ok_0),
{
    match t.kind {
        TypeKindView::Struct(_) => {},
        TypeKindView::Enum(e) => {
            lemma_lowered_enum_ok(e);
        },
        TypeKindView::Flags(f) => {
            lemma_lowered_flags_ok(f);
        },
    }
}

/// Declared types that were lowered are lowered ones, and as many as
/// before.
pub proof fn lemma_lowered_type_defs_are_lowered(ts: Seq<TypeDefView>)
    requires
        lowered_type_defs(ts) is Ok,
    ensures
        lowered_type_defs(ts)->Ok_0.len() == ts.len(),
        forall|i: int|
            0 <= i < ts.len() ==> type_def_is_lowered(#[trigger] lowered_type_defs(ts)->Ok_0[i]),
{
    let results = ts.map_values(|t: TypeDefView| lowered_type_def(t));
    lemma_collect_ok(results);
    let out = lowered_type_defs(ts)->Ok_0;
    assert forall|i: int| 0 <= i < ts.len() implies type_def_is_lowered(#[trigger] out[i]) by {
        assert(results[i] == lowered_type_def(ts[i]));
        lemma_lowered_type_def_is_lowered(ts[i]);
    }
}

/// Where an extension has an implicit interface and lists none, the
/// lowered extension has exactly one interface: it has the name of the
/// extension and its version, and the implicit interface is gone.
pub proof fn lemma_implicit_interface_promoted(e: ExtensionView)
    requires
        e.interface is Some,
        e.interfaces.len() == 0,
        lowered_extension(e) is Ok,
    ensures
        ({
            let out = lowered_extension(e)->Ok_0;
            &&& out.interface is None
            &&& out.interfaces.len() == 1
            &&& out.interfaces[0].name == e.name
            &&& out.interfaces[0].version == Some(e.version)
            &&& out.name == e.name
            &&& out.version == e.version
        }),
{
}

/// The interfaces of a lowered extension, one by one: with an implicit
/// interface it comes first, under the name and the version of the extension;
/// the listed ones follow in their order, each under its own name, with the
/// version it gave, whatever the extension's is, or else with that of the
/// extension.
pub proof fn lemma_extension_interface_versions(e: ExtensionView)
    ensures
        ({
            let out = lowered_extension_interfaces(e);
            let shift: int = if e.interface is Some {
                1
            } else {
                0
            };
            &&& out.len() == e.interfaces.len() + shift
            &&& e.interface is Some ==> out[0].name == e.name && out[0].version == Some(e.version)
            &&& forall|k: int|
                0 <= k < e.interfaces.len() ==> {
                    &&& (#[trigger] out[k + shift]).name == e.interfaces[k].name
                    &&& e.interfaces[k].version is Some ==> out[k + shift].version
                        == e.interfaces[k].version
                    &&& e.interfaces[k].version is None ==> out[k + shift].version == Some(
                        e.version,
                    )
                }
        }),
{
}

/// An extension that was lowered is a lowered one.
pub proof fn lemma_lowered_extension_is_lowered(e: ExtensionView)
    requires
        lowered_extension(e) is Ok,
    ensures
        extension_is_lowered(lowered_extension(e)->Ok_0),
{
    lemma_lowered_type_defs_are_lowered(e.types);
    lemma_extension_interface_versions(e);
    let out = lowered_extension(e)->Ok_0;
    let shift: int = if e.interface is Some {
        1
    } else {
        0
    };
    assert forall|i: int| 0 <= i < out.interfaces.len() implies (
    #[trigger] out.interfaces[i]).version is Some by {
        if i >= shift {
            assert(out.interfaces[(i - shift) + shift].version is Some);
        }
    }
}

/// A tree that was lowered is a lowered one, with the name and as many
/// interfaces, types and extensions as before.
pub proof fn lemma_lowered_namespace_is_lowered(ns: NamespaceView)
    requires
        lowered_namespace(ns) is Ok,
    ensures
        namespace_is_lowered(lowered_namespace(ns)->Ok_0),
        lowered_namespace(ns)->Ok_0.name == ns.name,
        lowered_namespace(ns)->Ok_0.interfaces.len() == ns.interfaces.len(),
        lowered_namespace(ns)->Ok_0.types.len() == ns.types.len(),
        lowered_namespace(ns)->Ok_0.extensions.len() == ns.extensions.len(),
{
    lemma_lowered_type_defs_are_lowered(ns.types);
    let results = ns.extensions.map_values(|e: ExtensionView| lowered_extension(e));
    lemma_collect_ok(results);
    let out = lowered_namespace(ns)->Ok_0;
    assert forall|i: int| 0 <= i < out.extensions.len() implies extension_is_lowered(
        #[trigger] out.extensions[i],
    ) by {
        assert(results[i] == lowered_extension(ns.extensions[i]));
        lemma_lowered_extension_is_lowered(ns.extensions[i]);
    }
}

} // verus!

//! Taking special forms apart: the executable counterparts of the
//! functions of [`crate::semantics`] that read names, bindings, annotations
//! and columns out of a form.

use vstd::prelude::*;
use vstd::string::StringExecFns;
use vstd::string::StrSliceExecFns;
use crate::annotation::Annotation;
use crate::continuation::TestCase;
use crate::env::{Env, distinct_keys, insert};
use crate::expr::{Expr, ExprV, clone_exprs, lemma_compound_view};
use crate::host::{Error, ErrorKind};
use crate::semantics::{
    annotation_of,
    annotations_of,
    attrs_upto,
    bind_all,
    bind_upto,
    cases_of,
    columns_of,
    lesser,
    let_plan,
    numbers_only,
    row_of,
    shortest,
    symbols_of,
};
use crate::value::{Value, lemma_array_view};

verus! {

/// Whether the expression is the symbol spelled `text`.
pub fn is_symbol(e: &Expr, text: &str) -> (r: bool)
    ensures
        r == (e@ == ExprV::Symbol(text@)),
{
    match e {
        Expr::Symbol(s) => *s == String::from_str(text),
        _ => false,
    }
}

/// Whether the name starts with a colon.
pub fn is_keyword(name: &String) -> (r: bool)
    ensures
        r == (name@.len() > 0 && name@[0] == ':'),
{
    let text = name.as_str();
    text.unicode_len() > 0 && text.get_char(0) == ':'
}

/// The lesser of two lengths.
pub fn least(a: usize, b: usize) -> (r: usize)
    ensures
        r == lesser(a as nat, b as nat),
{
    if a <= b {
        a
    } else {
        b
    }
}

/// A copy of the expressions from position `from` on.
pub(crate) fn tail(items: &Vec<Expr>, from: usize) -> (r: Vec<Expr>)
    requires
        from <= items.len(),
    ensures
        r.deep_view() == items.deep_view().skip(from as int),
{
    let mut out: Vec<Expr> = Vec::new();
    let mut i: usize = from;
    while i < items.len()
        invariant
            from <= i <= items.len(),
            out.len() == i - from,
            forall|k: int| 0 <= k < out.len() ==> out[k]@ == items[from + k]@,
        decreases items.len() - i,
    {
        out.push(items[i].clone());
        i += 1;
    }
    assert(out.deep_view() =~= items.deep_view().skip(from as int));
    out
}

/// A copy of the first `n` expressions.
pub(crate) fn prefix(items: &Vec<Expr>, n: usize) -> (r: Vec<Expr>)
    requires
        n <= items.len(),
    ensures
        r.deep_view() == items.deep_view().take(n as int),
{
    let mut out: Vec<Expr> = Vec::new();
    let mut i: usize = 0;
    while i < n
        invariant
            i <= n <= items.len(),
            out.len() == i,
            forall|k: int| 0 <= k < out.len() ==> out[k]@ == items[k]@,
        decreases n - i,
    {
        out.push(items[i].clone());
        i += 1;
    }
    assert(out.deep_view() =~= items.deep_view().take(n as int));
    out
}

/// The names among the expressions: every symbol, in order.
pub fn symbols(items: &Vec<Expr>) -> (r: Vec<String>)
    ensures
        r.deep_view() == symbols_of(items.deep_view()),
{
    let ghost all = items.deep_view();
    let mut out: Vec<String> = Vec::new();
    let mut i: usize = 0;
    while i < items.len()
        invariant
            i <= items.len(),
            all == items.deep_view(),
            out.deep_view() == symbols_of(all.take(i as int)),
        decreases items.len() - i,
    {
        proof {
            assert(all.take(i + 1).drop_last() =~= all.take(i as int));
            assert(all.take(i + 1).last() == items[i as int]@);
        }
        let ghost before = out.deep_view();
        match &items[i] {
            Expr::Symbol(name) => {
                out.push(name.clone());
                assert(out.deep_view() =~= before.push(name@));
            },
            _ => {},
        }
        i += 1;
    }
    assert(all.take(items.len() as int) =~= all);
    out
}

/// Binds names to values by position in `frame`.
pub fn bind_each(env: &mut Env, frame: usize, names: &Vec<String>, values: &Vec<Value>)
    ensures
        final(env)@ == bind_all(old(env)@, frame as int, names.deep_view(), values.deep_view()),
        old(env)@.distinct() ==> final(env)@.distinct(),
{
    let n = least(names.len(), values.len());
    let mut i: usize = 0;
    while i < n
        invariant
            i <= n,
            n == lesser(names.len() as nat, values.len() as nat),
            env@ == bind_upto(
                old(env)@,
                frame as int,
                names.deep_view(),
                values.deep_view(),
                i as nat,
            ),
            old(env)@.distinct() ==> env@.distinct(),
        decreases n - i,
    {
        env.bind(frame, names[i].as_str(), values[i].clone());
        i += 1;
    }
}

/// The fields of a new object: field names set to values by position.
pub fn zip_attrs(fields: &Vec<String>, values: &Vec<Value>) -> (r: Vec<(String, Value)>)
    ensures
        r.deep_view() == attrs_upto(
            fields.deep_view(),
            values.deep_view(),
            lesser(fields.len() as nat, values.len() as nat),
        ),
        distinct_keys(r.deep_view()),
{
    let n = least(fields.len(), values.len());
    let mut out: Vec<(String, Value)> = Vec::new();
    assert(out.deep_view() =~= Seq::empty());
    let mut i: usize = 0;
    while i < n
        invariant
            i <= n,
            n == lesser(fields.len() as nat, values.len() as nat),
            out.deep_view() == attrs_upto(fields.deep_view(), values.deep_view(), i as nat),
            distinct_keys(out.deep_view()),
        decreases n - i,
    {
        insert(&mut out, &fields[i], values[i].clone());
        i += 1;
    }
    out
}

/// The numbers among the values, in order.
pub fn only_numbers(items: &Vec<Value>) -> (r: Vec<u32>)
    ensures
        r@ == numbers_only(items.deep_view()),
{
    let ghost all = items.deep_view();
    let mut out: Vec<u32> = Vec::new();
    let mut i: usize = 0;
    while i < items.len()
        invariant
            i <= items.len(),
            all == items.deep_view(),
            out@ == numbers_only(all.take(i as int)),
        decreases items.len() - i,
    {
        proof {
            assert(all.take(i + 1).drop_last() =~= all.take(i as int));
            assert(all.take(i + 1).last() == items[i as int]@);
        }
        match &items[i] {
            Value::Number(n) => {
                out.push(*n);
            },
            _ => {},
        }
        i += 1;
    }
    assert(all.take(items.len() as int) =~= all);
    out
}

/// The columns of a `for`: the numbers of each range that is an array.
pub fn columns(ranges: &Vec<Value>) -> (r: Vec<Vec<u32>>)
    ensures
        r.deep_view() == columns_of(ranges.deep_view()),
{
    let ghost all = ranges.deep_view();
    let mut out: Vec<Vec<u32>> = Vec::new();
    assert(out.deep_view() =~= Seq::empty());
    let mut i: usize = 0;
    while i < ranges.len()
        invariant
            i <= ranges.len(),
            all == ranges.deep_view(),
            out.deep_view() == columns_of(all.take(i as int)),
        decreases ranges.len() - i,
    {
        proof {
            assert(all.take(i + 1).drop_last() =~= all.take(i as int));
            assert(all.take(i + 1).last() == ranges[i as int]@);
        }
        let ghost before = out.deep_view();
        match &ranges[i] {
            Value::Array(items) => {
                proof {
                    lemma_array_view(*items);
                }
                let column = only_numbers(items);
                assert(column.deep_view() =~= column@);
                out.push(column);
                assert(out.deep_view() =~= before.push(numbers_only(items.deep_view())));
            },
            _ => {},
        }
        i += 1;
    }
    assert(all.take(ranges.len() as int) =~= all);
    out
}

/// The length of the shortest column; 0 where there is none.
pub fn shortest_column(columns: &Vec<Vec<u32>>) -> (r: usize)
    ensures
        r == shortest(columns.deep_view(), columns.len() as nat),
{
    if columns.len() == 0 {
        return 0;
    }
    let mut least_len: usize = columns[0].len();
    let mut i: usize = 1;
    while i < columns.len()
        invariant
            1 <= i <= columns.len(),
            least_len == shortest(columns.deep_view(), i as nat),
        decreases columns.len() - i,
    {
        least_len = least(least_len, columns[i].len());
        i += 1;
    }
    least_len
}

/// Row `index` of the first `n` columns, if each of them has such a row.
pub fn row(columns: &Vec<Vec<u32>>, index: usize, n: usize) -> (r: Option<Vec<u32>>)
    ensures
        r.deep_view() == row_of(columns.deep_view(), index as int, n as nat),
{
    let mut out: Vec<u32> = Vec::new();
    let mut j: usize = 0;
    while j < n
        invariant
            j <= n,
            row_of(columns.deep_view(), index as int, j as nat) == Some(out@),
        decreases n - j,
    {
        if j < columns.len() && index < columns[j].len() {
            out.push(columns[j][index]);
            j += 1;
        } else {
            proof {
                lemma_row_fails(columns.deep_view(), index as int, (j + 1) as nat, n as nat);
            }
            return None;
        }
    }
    Some(out)
}

/// Once a column lacks the row, no longer run of columns has it.
pub proof fn lemma_row_fails(columns: Seq<Seq<u32>>, index: int, k: nat, n: nat)
    requires
        row_of(columns, index, k) is None,
        k <= n,
    ensures
        row_of(columns, index, n) is None,
    decreases n,
{
    if k < n {
        lemma_row_fails(columns, index, k, (n - 1) as nat);
    }
}

/// The plan for the bindings of a `let`: the names, the expressions of
/// their values, and whether a malformed binding ends the list.
pub fn plan_let(bindings: &Vec<Expr>) -> (r: (Vec<String>, Vec<Expr>, bool))
    ensures
        r.0.deep_view() == let_plan(bindings.deep_view()).names,
        r.1.deep_view() == let_plan(bindings.deep_view()).values,
        r.2 == let_plan(bindings.deep_view()).failed,
{
    let ghost all = bindings.deep_view();
    let mut names: Vec<String> = Vec::new();
    let mut values: Vec<Expr> = Vec::new();
    assert(names.deep_view() =~= Seq::empty());
    assert(values.deep_view() =~= Seq::empty());
    let mut i: usize = 0;
    while i < bindings.len()
        invariant
            i <= bindings.len(),
            all == bindings.deep_view(),
            names.deep_view() == let_plan(all.take(i as int)).names,
            values.deep_view() == let_plan(all.take(i as int)).values,
            !let_plan(all.take(i as int)).failed,
        decreases bindings.len() - i,
    {
        proof {
            assert(all.take(i + 1).drop_last() =~= all.take(i as int));
            assert(all.take(i + 1).last() == bindings[i as int]@);
        }
        let ghost names_before = names.deep_view();
        let ghost values_before = values.deep_view();
        match &bindings[i] {
            Expr::List(pair) => {
                proof {
                    lemma_compound_view(*pair);
                }
                if pair.len() != 2 {
                    proof {
                        lemma_plan_fails(all, (i + 1) as nat, bindings.len() as nat);
                        assert(all.take(bindings.len() as int) =~= all);
                    }
                    return (names, values, true);
                }
                match &pair[0] {
                    Expr::Symbol(name) => {
                        names.push(name.clone());
                        values.push(pair[1].clone());
                        assert(names.deep_view() =~= names_before.push(name@));
                        assert(values.deep_view() =~= values_before.push(pair[1]@));
                    },
                    _ => {},
                }
            },
            _ => {},
        }
        i += 1;
    }
    assert(all.take(bindings.len() as int) =~= all);
    (names, values, false)
}

/// A plan that has failed stays as it is, whatever follows.
pub proof fn lemma_plan_fails(bindings: Seq<ExprV>, k: nat, n: nat)
    requires
        k <= n <= bindings.len(),
        let_plan(bindings.take(k as int)).failed,
    ensures
        let_plan(bindings.take(n as int)) == let_plan(bindings.take(k as int)),
    decreases n,
{
    if k < n {
        lemma_plan_fails(bindings, k, (n - 1) as nat);
        assert(bindings.take(n as int).drop_last() =~= bindings.take(n - 1));
    }
}

/// A syntax error about nothing in particular.
pub fn syntax_error() -> (r: Error)
    ensures
        r@.kind == ErrorKind::Syntax,
        r@.subject == Seq::<char>::empty(),
{
    Error { kind: ErrorKind::Syntax, subject: String::new() }
}

/// The annotation that one trailing form of a `fn` declares, if any, or the
/// error in it.
pub fn annotation(form: &Expr) -> (r: Result<Option<Annotation>, Error>)
    ensures
        r is Ok <==> annotation_of(form@) is Ok,
        r is Ok ==> r->Ok_0.deep_view() == annotation_of(form@)->Ok_0,
        r is Err ==> r->Err_0@ == annotation_of(form@)->Err_0,
{
    match form {
        Expr::List(dir) => {
            proof {
                lemma_compound_view(*dir);
            }
            if dir.len() == 0 {
                return Err(syntax_error());
            }
            match &dir[0] {
                Expr::Symbol(name) => {
                    if is_keyword(name) {
                        if *name == String::from_str(":require") {
                            if dir.len() > 1 {
                                Ok(Some(Annotation::Require(dir[1].clone())))
                            } else {
                                Err(syntax_error())
                            }
                        } else if *name == String::from_str(":test") {
                            if dir.len() > 1 {
                                match &dir[1] {
                                    Expr::List(args) => {
                                        proof {
                                            lemma_compound_view(*args);
                                        }
                                        if dir.len() > 2 {
                                            Ok(
                                                Some(
                                                    Annotation::Test {
                                                        args: clone_exprs(args),
                                                        expected: dir[2].clone(),
                                                    },
                                                ),
                                            )
                                        } else {
                                            Err(syntax_error())
                                        }
                                    },
                                    _ => Ok(None),
                                }
                            } else {
                                Err(syntax_error())
                            }
                        } else {
                            Err(
                                Error {
                                    kind: ErrorKind::UnknownAnnotation,
                                    subject: name.clone(),
                                },
                            )
                        }
                    } else {
                        Ok(None)
                    }
                },
                _ => Ok(None),
            }
        },
        _ => Ok(None),
    }
}

/// The annotations that the forms from position `from` on declare, in
/// order, or the first error among them.
pub fn annotations(forms: &Vec<Expr>, from: usize) -> (r: Result<Vec<Annotation>, Error>)
    requires
        from <= forms.len(),
    ensures
        r is Ok <==> annotations_of(forms.deep_view().skip(from as int)) is Ok,
        r is Ok ==> r->Ok_0.deep_view() == annotations_of(
            forms.deep_view().skip(from as int),
        )->Ok_0,
        r is Err ==> r->Err_0@ == annotations_of(forms.deep_view().skip(from as int))->Err_0,
{
    let ghost all = forms.deep_view().skip(from as int);
    let mut out: Vec<Annotation> = Vec::new();
    assert(out.deep_view() =~= Seq::empty());
    let mut i: usize = from;
    while i < forms.len()
        invariant
            from <= i <= forms.len(),
            all == forms.deep_view().skip(from as int),
            annotations_of(all.take(i - from)) is Ok,
            annotations_of(all.take(i - from))->Ok_0 == out.deep_view(),
        decreases forms.len() - i,
    {
        proof {
            assert(all.take(i - from + 1).drop_last() =~= all.take(i - from));
            assert(all.take(i - from + 1).last() == forms[i as int]@);
        }
        let ghost before = out.deep_view();
        match annotation(&forms[i]) {
            Ok(Some(a)) => {
                out.push(a);
                assert(out.deep_view() =~= before.push(a@));
            },
            Ok(None) => {},
            Err(e) => {
                proof {
                    lemma_annotations_fail(all, (i - from + 1) as nat, (forms.len() - from) as nat);
                    assert(all.take(forms.len() - from) =~= all);
                }
                return Err(e);
            },
        }
        i += 1;
    }
    assert(all.take(forms.len() - from) =~= all);
    Ok(out)
}

/// An error among the annotations stays the result, whatever follows.
pub proof fn lemma_annotations_fail(forms: Seq<ExprV>, k: nat, n: nat)
    requires
        k <= n <= forms.len(),
        annotations_of(forms.take(k as int)) is Err,
    ensures
        annotations_of(forms.take(n as int)) == annotations_of(forms.take(k as int)),
    decreases n,
{
    if k < n {
        lemma_annotations_fail(forms, k, (n - 1) as nat);
        assert(forms.take(n as int).drop_last() =~= forms.take(n - 1));
    }
}

/// The inline tests among the annotations, in order.
pub fn cases(annotations: &Vec<Annotation>) -> (r: Vec<TestCase>)
    ensures
        r.deep_view() == cases_of(annotations.deep_view()),
{
    let ghost all = annotations.deep_view();
    let mut out: Vec<TestCase> = Vec::new();
    assert(out.deep_view() =~= Seq::empty());
    let mut i: usize = 0;
    while i < annotations.len()
        invariant
            i <= annotations.len(),
            all == annotations.deep_view(),
            out.deep_view() == cases_of(all.take(i as int)),
        decreases annotations.len() - i,
    {
        proof {
            assert(all.take(i + 1).drop_last() =~= all.take(i as int));
            assert(all.take(i + 1).last() == annotations[i as int]@);
        }
        let ghost before = out.deep_view();
        match &annotations[i] {
            Annotation::Test { args, expected } => {
                let case = TestCase { args: clone_exprs(args), expected: expected.clone() };
                out.push(case);
                assert(out.deep_view() =~= before.push(case.deep_view()));
            },
            _ => {},
        }
        i += 1;
    }
    assert(all.take(annotations.len() as int) =~= all);
    out
}

} // verus!

//! Runtime values and their printed form.

use vstd::prelude::*;
use vstd::string::StringExecFns;
use crate::annotation::{Annotation, AnnotationV, clone_annotations};
use crate::expr::{Expr, ExprV};
use crate::stdlib::NativeFunction;

verus! {

/// The mathematical form of a runtime value.
pub enum ValueV {
    Nil,
    Str(Seq<char>),
    /// A number, as the bit pattern of a 32-bit binary floating value.
    Number(u32),
    Bool(bool),
    Array(Seq<ValueV>),
    Function { params: Seq<Seq<char>>, body: ExprV, func_env: usize, annotations: Seq<AnnotationV> },
    /// A record: the structure's name and the fields in the order in which
    /// they were first set.
    Object { class: Seq<char>, attrs: Seq<(Seq<char>, ValueV)> },
    NativeFunction(NativeFunction),
}

/// A runtime value.
///
/// A `Number` holds the bit pattern of a 32-bit binary floating value; this
/// library moves such patterns around and never computes with them.
/// A `Function` refers to the frame it was defined in by that frame's handle.
#[derive(Debug, PartialEq)]
pub enum Value {
    Nil,
    String(String),
    Number(u32),
    Bool(bool),
    Array(Vec<Value>),
    Function { params: Vec<String>, body: Box<Expr>, func_env: usize, annotations: Vec<Annotation> },
    Object { class: String, attrs: Vec<(String, Value)> },
    NativeFunction(NativeFunction),
}

/// The model of one value.
pub open spec fn value_view(v: Value) -> ValueV
    decreases v,
{
    match v {
        Value::Nil => ValueV::Nil,
        Value::String(s) => ValueV::Str(s@),
        Value::Number(n) => ValueV::Number(n),
        Value::Bool(b) => ValueV::Bool(b),
        Value::Array(items) => ValueV::Array(
            Seq::new(
                items@.len(),
                |i: int|
                    if 0 <= i < items@.len() {
                        value_view(items@[i])
                    } else {
                        arbitrary()
                    },
            ),
        ),
        Value::Function { params, body, func_env, annotations } => ValueV::Function {
            params: params.deep_view(),
            body: body@,
            func_env,
            annotations: annotations.deep_view(),
        },
        Value::Object { class, attrs } => ValueV::Object {
            class: class@,
            attrs: Seq::new(
                attrs@.len(),
                |i: int|
                    if 0 <= i < attrs@.len() {
                        (attrs@[i].0@, value_view(attrs@[i].1))
                    } else {
                        arbitrary()
                    },
            ),
        },
        Value::NativeFunction(f) => ValueV::NativeFunction(f),
    }
}

impl DeepView for Value {
    type V = ValueV;

    open spec fn deep_view(&self) -> ValueV {
        value_view(*self)
    }
}

impl View for Value {
    type V = ValueV;

    open spec fn view(&self) -> ValueV {
        value_view(*self)
    }
}

/// The model of an array is the sequence of its items' models.
pub proof fn lemma_array_view(items: Vec<Value>)
    ensures
        Value::Array(items)@ == ValueV::Array(items.deep_view()),
{
    assert(Value::Array(items)@->Array_0 =~= items.deep_view());
}

/// The model of an object lists the models of its fields.
pub proof fn lemma_object_view(class: String, attrs: Vec<(String, Value)>)
    ensures
        (Value::Object { class, attrs })@ == (ValueV::Object {
            class: class@,
            attrs: attrs.deep_view(),
        }),
{
    assert((Value::Object { class, attrs })@->attrs =~= attrs.deep_view());
}

/// Copies a list of names.
pub fn clone_names(items: &Vec<String>) -> (r: Vec<String>)
    ensures
        r.deep_view() == items.deep_view(),
{
    let mut out: Vec<String> = Vec::new();
    let mut i: usize = 0;
    while i < items.len()
        invariant
            i <= items.len(),
            out.len() == i,
            forall|k: int| 0 <= k < i ==> out[k]@ == items[k]@,
        decreases items.len() - i,
    {
        let s = items[i].clone();
        out.push(s);
        i += 1;
    }
    assert(out.deep_view() =~= items.deep_view());
    out
}

impl Clone for Value {
    fn clone(&self) -> (r: Value)
        ensures
            r@ == self@,
        decreases self,
    {
        match self {
            Value::Nil => Value::Nil,
            Value::String(s) => Value::String(s.clone()),
            Value::Number(n) => Value::Number(*n),
            Value::Bool(b) => Value::Bool(*b),
            Value::Array(items) => {
                let copy = clone_values(items);
                proof {
                    lemma_array_view(*items);
                    lemma_array_view(copy);
                }
                Value::Array(copy)
            },
            Value::Function { params, body, func_env, annotations } => Value::Function {
                params: clone_names(params),
                body: Box::new((**body).clone()),
                func_env: *func_env,
                annotations: clone_annotations(annotations),
            },
            Value::Object { class, attrs } => {
                let copy = clone_attrs(attrs);
                let name = class.clone();
                proof {
                    lemma_object_view(*class, *attrs);
                    lemma_object_view(name, copy);
                }
                Value::Object { class: name, attrs: copy }
            },
            Value::NativeFunction(f) => Value::NativeFunction(*f),
        }
    }
}

/// Copies a sequence of values.
pub fn clone_values(items: &Vec<Value>) -> (r: Vec<Value>)
    ensures
        r.deep_view() == items.deep_view(),
    decreases items,
{
    let mut out: Vec<Value> = Vec::new();
    let mut i: usize = 0;
    while i < items.len()
        invariant
            i <= items.len(),
            out.len() == i,
            forall|k: int| 0 <= k < i ==> out[k]@ == items[k]@,
        decreases items.len() - i,
    {
        let v = items[i].clone();
        out.push(v);
        i += 1;
    }
    assert(out.deep_view() =~= items.deep_view());
    out
}

/// Copies the fields of an object.
pub fn clone_attrs(items: &Vec<(String, Value)>) -> (r: Vec<(String, Value)>)
    ensures
        r.deep_view() == items.deep_view(),
    decreases items,
{
    let mut out: Vec<(String, Value)> = Vec::new();
    let mut i: usize = 0;
    while i < items.len()
        invariant
            i <= items.len(),
            out.len() == i,
            forall|k: int| 0 <= k < i ==> out[k].deep_view() == items[k].deep_view(),
        decreases items.len() - i,
    {
        let name = items[i].0.clone();
        let v = items[i].1.clone();
        out.push((name, v));
        i += 1;
    }
    assert(out.deep_view() =~= items.deep_view());
    out
}

/// The numbers that printing `v` shows, in the order in which they appear.
pub open spec fn numbers_of(v: ValueV) -> Seq<u32>
    decreases v,
{
    match v {
        ValueV::Number(n) => seq![n],
        ValueV::Array(items) => numbers_in(items),
        ValueV::Object { class, attrs } => numbers_in_attrs(attrs),
        _ => Seq::empty(),
    }
}

/// The numbers that printing each of `items` in turn shows.
pub open spec fn numbers_in(items: Seq<ValueV>) -> Seq<u32>
    decreases items,
{
    if items.len() == 0 {
        Seq::empty()
    } else {
        numbers_in(items.drop_last()) + numbers_of(items.last())
    }
}

/// The numbers that printing the fields of an object shows.
pub open spec fn numbers_in_attrs(attrs: Seq<(Seq<char>, ValueV)>) -> Seq<u32>
    decreases attrs,
{
    if attrs.len() == 0 {
        Seq::empty()
    } else {
        numbers_in_attrs(attrs.drop_last()) + numbers_of(attrs.last().1)
    }
}

/// The printed form of `v` and the cursor after it.
///
/// A number is printed as the text that stands at the cursor in `texts`, and
/// moves the cursor on by one. With the decimal forms of `numbers_of(v)` as
/// `texts` and the cursor at 0, every number is shown by its own text (see
/// `law_render_cursor`); that there is a text for each number is what the
/// functions that print ask for or test. (Past the end of the texts a
/// number would come to nothing.)
/// An array is `[v0 v1 ... vN]`, an object `Class -> field=value | ... | `,
/// a string its raw contents, nil `nil`; a function prints as nothing.
pub open spec fn render(v: ValueV, texts: Seq<Seq<char>>, at: nat) -> (Seq<char>, nat)
    decreases v,
{
    match v {
        ValueV::Nil => ("nil"@, at),
        ValueV::Str(s) => (s, at),
        ValueV::Number(_) => if at < texts.len() {
            (texts[at as int], at + 1)
        } else {
            (Seq::empty(), at)
        },
        ValueV::Bool(b) => (
            if b {
                "true"@
            } else {
                "false"@
            },
            at,
        ),
        ValueV::Array(items) => {
            let inner = render_list(items, " "@, texts, at);
            ("["@ + inner.0 + "]"@, inner.1)
        },
        ValueV::Object { class, attrs } => {
            let inner = render_attrs(attrs, texts, at);
            (class + " -> "@ + inner.0, inner.1)
        },
        _ => (Seq::empty(), at),
    }
}

/// The printed forms of `items` with `sep` between them, and the cursor
/// after them.
pub open spec fn render_list(items: Seq<ValueV>, sep: Seq<char>, texts: Seq<Seq<char>>, at: nat) -> (
    Seq<char>,
    nat,
)
    decreases items,
{
    if items.len() == 0 {
        (Seq::empty(), at)
    } else {
        let head = render_list(items.drop_last(), sep, texts, at);
        let tail = render(items.last(), texts, head.1);
        if items.len() == 1 {
            tail
        } else {
            (head.0 + sep + tail.0, tail.1)
        }
    }
}

/// The printed fields of an object, each as `name=value | `, and the cursor
/// after them.
pub open spec fn render_attrs(attrs: Seq<(Seq<char>, ValueV)>, texts: Seq<Seq<char>>, at: nat) -> (
    Seq<char>,
    nat,
)
    decreases attrs,
{
    if attrs.len() == 0 {
        (Seq::empty(), at)
    } else {
        let head = render_attrs(attrs.drop_last(), texts, at);
        let tail = render(attrs.last().1, texts, head.1);
        (head.0 + attrs.last().0 + "="@ + tail.0 + " | "@, tail.1)
    }
}

/// Printing a value uses up one text for each of its numbers, in order:
/// where the texts from the cursor on suffice for the numbers of the value,
/// the cursor ends that many texts further on.
pub proof fn law_render_cursor(v: ValueV, texts: Seq<Seq<char>>, at: nat)
    requires
        at + numbers_of(v).len() <= texts.len(),
    ensures
        render(v, texts, at).1 == at + numbers_of(v).len(),
    decreases v,
{
    match v {
        ValueV::Array(items) => {
            law_render_list_cursor(items, " "@, texts, at);
        },
        ValueV::Object { class, attrs } => {
            law_render_attrs_cursor(attrs, texts, at);
        },
        _ => {},
    }
}

/// Printing a list of values uses up one text for each of their numbers.
pub proof fn law_render_list_cursor(
    items: Seq<ValueV>,
    sep: Seq<char>,
    texts: Seq<Seq<char>>,
    at: nat,
)
    requires
        at + numbers_in(items).len() <= texts.len(),
    ensures
        render_list(items, sep, texts, at).1 == at + numbers_in(items).len(),
    decreases items,
{
    if items.len() > 0 {
        law_render_list_cursor(items.drop_last(), sep, texts, at);
        law_render_cursor(items.last(), texts, at + numbers_in(items.drop_last()).len());
    }
}

/// Printing the fields of an object uses up one text for each of their
/// numbers.
pub proof fn law_render_attrs_cursor(
    attrs: Seq<(Seq<char>, ValueV)>,
    texts: Seq<Seq<char>>,
    at: nat,
)
    requires
        at + numbers_in_attrs(attrs).len() <= texts.len(),
    ensures
        render_attrs(attrs, texts, at).1 == at + numbers_in_attrs(attrs).len(),
    decreases attrs,
{
    if attrs.len() > 0 {
        law_render_attrs_cursor(attrs.drop_last(), texts, at);
        law_render_cursor(attrs.last().1, texts, at + numbers_in_attrs(attrs.drop_last()).len());
    }
}

/// Appends to `out` the numbers that printing each of `items` shows.
pub fn collect_numbers(items: &Vec<Value>, out: &mut Vec<u32>)
    ensures
        final(out)@ == old(out)@ + numbers_in(items.deep_view()),
    decreases items,
{
    let ghost all = items.deep_view();
    let mut i: usize = 0;
    while i < items.len()
        invariant
            i <= items.len(),
            all == items.deep_view(),
            out@ == old(out)@ + numbers_in(all.take(i as int)),
        decreases items.len() - i,
    {
        let ghost before = out@;
        items[i].collect(out);
        proof {
            assert(all.take(i + 1).drop_last() =~= all.take(i as int));
            assert(all.take(i + 1).last() == items[i as int]@);
            assert(out@ =~= old(out)@ + numbers_in(all.take(i + 1)));
        }
        i += 1;
    }
    assert(all.take(items.len() as int) =~= all);
}

/// Appends to `out` the numbers that printing the fields of an object shows.
pub fn collect_attr_numbers(attrs: &Vec<(String, Value)>, out: &mut Vec<u32>)
    ensures
        final(out)@ == old(out)@ + numbers_in_attrs(attrs.deep_view()),
    decreases attrs,
{
    let ghost all = attrs.deep_view();
    let mut i: usize = 0;
    while i < attrs.len()
        invariant
            i <= attrs.len(),
            all == attrs.deep_view(),
            out@ == old(out)@ + numbers_in_attrs(all.take(i as int)),
        decreases attrs.len() - i,
    {
        attrs[i].1.collect(out);
        proof {
            assert(all.take(i + 1).drop_last() =~= all.take(i as int));
            assert(all.take(i + 1).last().1 == attrs[i as int].1@);
            assert(out@ =~= old(out)@ + numbers_in_attrs(all.take(i + 1)));
        }
        i += 1;
    }
    assert(all.take(attrs.len() as int) =~= all);
}

/// Appends to `out` the printed forms of `items` with `sep` between them,
/// reading the numbers' texts from the cursor `at` on. Returns the cursor
/// after them.
pub(crate) fn write_list(items: &Vec<Value>, sep: &str, texts: &Vec<String>, at: usize, out: &mut String) -> (next:
    usize)
    requires
        at <= texts.len(),
    ensures
        next <= texts.len(),
        next as nat == render_list(items.deep_view(), sep@, texts.deep_view(), at as nat).1,
        final(out)@ == old(out)@ + render_list(
            items.deep_view(),
            sep@,
            texts.deep_view(),
            at as nat,
        ).0,
    decreases items,
{
    let ghost all = items.deep_view();
    let ghost tx = texts.deep_view();
    let mut cursor: usize = at;
    let mut i: usize = 0;
    while i < items.len()
        invariant
            i <= items.len(),
            all == items.deep_view(),
            tx == texts.deep_view(),
            cursor <= texts.len(),
            cursor as nat == render_list(all.take(i as int), sep@, tx, at as nat).1,
            out@ == old(out)@ + render_list(all.take(i as int), sep@, tx, at as nat).0,
        decreases items.len() - i,
    {
        if i > 0 {
            out.append(sep);
        }
        cursor = items[i].write(texts, cursor, out);
        proof {
            assert(all.take(i + 1).drop_last() =~= all.take(i as int));
            assert(all.take(i + 1).last() == items[i as int]@);
            assert(out@ =~= old(out)@ + render_list(all.take(i + 1), sep@, tx, at as nat).0);
        }
        i += 1;
    }
    assert(all.take(items.len() as int) =~= all);
    cursor
}

/// Appends to `out` the printed fields of an object. Returns the cursor
/// after them.
pub(crate) fn write_attrs(attrs: &Vec<(String, Value)>, texts: &Vec<String>, at: usize, out: &mut String) -> (next:
    usize)
    requires
        at <= texts.len(),
    ensures
        next <= texts.len(),
        next as nat == render_attrs(attrs.deep_view(), texts.deep_view(), at as nat).1,
        final(out)@ == old(out)@ + render_attrs(attrs.deep_view(), texts.deep_view(), at as nat).0,
    decreases attrs,
{
    let ghost all = attrs.deep_view();
    let ghost tx = texts.deep_view();
    let mut cursor: usize = at;
    let mut i: usize = 0;
    while i < attrs.len()
        invariant
            i <= attrs.len(),
            all == attrs.deep_view(),
            tx == texts.deep_view(),
            cursor <= texts.len(),
            cursor as nat == render_attrs(all.take(i as int), tx, at as nat).1,
            out@ == old(out)@ + render_attrs(all.take(i as int), tx, at as nat).0,
        decreases attrs.len() - i,
    {
        out.append(attrs[i].0.as_str());
        out.append("=");
        cursor = attrs[i].1.write(texts, cursor, out);
        out.append(" | ");
        proof {
            assert(all.take(i + 1).drop_last() =~= all.take(i as int));
            assert(all.take(i + 1).last().1 == attrs[i as int].1@);
            assert(all.take(i + 1).last().0 == attrs[i as int].0@);
            assert(out@ =~= old(out)@ + render_attrs(all.take(i + 1), tx, at as nat).0);
        }
        i += 1;
    }
    assert(all.take(attrs.len() as int) =~= all);
    cursor
}

impl Value {
    /// Appends to `out` the numbers that printing this value shows.
    pub fn collect(&self, out: &mut Vec<u32>)
        ensures
            final(out)@ == old(out)@ + numbers_of(self@),
        decreases self,
    {
        match self {
            Value::Number(n) => {
                out.push(*n);
                assert(out@ =~= old(out)@ + numbers_of(self@));
            },
            Value::Array(items) => {
                proof {
                    lemma_array_view(*items);
                }
                collect_numbers(items, out);
            },
            Value::Object { class, attrs } => {
                proof {
                    lemma_object_view(*class, *attrs);
                }
                collect_attr_numbers(attrs, out);
            },
            _ => {
                assert(out@ =~= old(out)@ + numbers_of(self@));
            },
        }
    }

    /// The numbers that printing this value shows, in order. Their decimal
    /// forms, in the same order, are what `to_string` takes.
    pub fn numbers(&self) -> (r: Vec<u32>)
        ensures
            r@ == numbers_of(self@),
    {
        let mut out: Vec<u32> = Vec::new();
        self.collect(&mut out);
        assert(out@ =~= numbers_of(self@));
        out
    }

    /// Appends the printed form to `out`, reading the numbers' texts from
    /// the cursor `at` on. Returns the cursor after it.
    pub(crate) fn write(&self, texts: &Vec<String>, at: usize, out: &mut String) -> (next: usize)
        requires
            at <= texts.len(),
        ensures
            next <= texts.len(),
            next as nat == render(self@, texts.deep_view(), at as nat).1,
            final(out)@ == old(out)@ + render(self@, texts.deep_view(), at as nat).0,
        decreases self,
    {
        match self {
            Value::Nil => {
                out.append("nil");
                at
            },
            Value::String(s) => {
                out.append(s.as_str());
                at
            },
            Value::Number(_) => {
                if at < texts.len() {
                    out.append(texts[at].as_str());
                    at + 1
                } else {
                    assert(out@ =~= old(out)@ + Seq::<char>::empty());
                    at
                }
            },
            Value::Bool(b) => {
                if *b {
                    out.append("true");
                } else {
                    out.append("false");
                }
                at
            },
            Value::Array(items) => {
                proof {
                    lemma_array_view(*items);
                }
                out.append("[");
                let next = write_list(items, " ", texts, at, out);
                out.append("]");
                assert(out@ =~= old(out)@ + render(self@, texts.deep_view(), at as nat).0);
                next
            },
            Value::Object { class, attrs } => {
                proof {
                    lemma_object_view(*class, *attrs);
                }
                out.append(class.as_str());
                out.append(" -> ");
                let next = write_attrs(attrs, texts, at, out);
                assert(out@ =~= old(out)@ + render(self@, texts.deep_view(), at as nat).0);
                next
            },
            _ => {
                assert(out@ =~= old(out)@ + Seq::<char>::empty());
                at
            },
        }
    }

    /// The printed form of the value. `texts` holds the decimal forms of the
    /// numbers that `numbers` lists, in that order: one for each number at
    /// least, so that every number is printed by its own text.
    pub fn to_string(&self, texts: &Vec<String>) -> (r: String)
        requires
            texts.len() >= numbers_of(self@).len(),
        ensures
            r@ == render(self@, texts.deep_view(), 0).0,
            render(self@, texts.deep_view(), 0).1 == numbers_of(self@).len(),
    {
        proof {
            law_render_cursor(self@, texts.deep_view(), 0);
        }
        let mut out = String::new();
        let _ = self.write(texts, 0, &mut out);
        assert(out@ =~= render(self@, texts.deep_view(), 0).0);
        out
    }

    /// The bit pattern of a number value.
    pub fn as_number(&self) -> (n: u32)
        requires
            self is Number,
        ensures
            self@ == ValueV::Number(n),
    {
        match self {
            Value::Number(n) => *n,
            _ => 0,
        }
    }
}

} // verus!

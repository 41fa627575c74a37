//! The environment chain.
//!
//! Frames are kept in one growing list and named by their position in it,
//! their handle. A frame knows its parent by handle. A frame that `child`
//! makes has a greater handle than its parent, and a lookup follows a parent
//! only if that is so: it walks to lesser handles and comes to an end.
//! Within a frame, bindings are entries of a list that is searched from the
//! front; `put` keeps the keys of such a list distinct.

use vstd::prelude::*;
use vstd::string::StringExecFns;
use crate::value::{Value, ValueV, clone_names};

verus! {

/// The position of the first entry stored under `key`, searching from
/// position `from` on.
pub open spec fn first_match<W>(entries: Seq<(Seq<char>, W)>, key: Seq<char>, from: int) -> Option<
    int,
>
    decreases entries.len() - from,
{
    if from < 0 || from >= entries.len() {
        None
    } else if entries[from].0 == key {
        Some(from)
    } else {
        first_match(entries, key, from + 1)
    }
}

/// What the entries hold under `key`.
pub open spec fn find<W>(entries: Seq<(Seq<char>, W)>, key: Seq<char>) -> Option<W> {
    match first_match(entries, key, 0) {
        Some(i) => Some(entries[i].1),
        None => None,
    }
}

/// The entries with `key` set to `w`: an entry under that key is replaced
/// where it stands, a new key goes to the end.
pub open spec fn put<W>(entries: Seq<(Seq<char>, W)>, key: Seq<char>, w: W) -> Seq<
    (Seq<char>, W),
> {
    match first_match(entries, key, 0) {
        Some(i) => entries.update(i, (key, w)),
        None => entries.push((key, w)),
    }
}

/// A match is a position at or after the start that holds the key, and no
/// earlier position from the start on does.
pub proof fn lemma_first_match<W>(entries: Seq<(Seq<char>, W)>, key: Seq<char>, from: int)
    requires
        0 <= from,
    ensures
        match first_match(entries, key, from) {
            Some(i) => from <= i < entries.len() && entries[i].0 == key && forall|j: int|
                from <= j < i ==> entries[j].0 != key,
            None => forall|j: int| from <= j < entries.len() ==> entries[j].0 != key,
        },
    decreases entries.len() - from,
{
    if from < entries.len() && entries[from].0 != key {
        lemma_first_match(entries, key, from + 1);
    }
}

/// A position that holds the key, with none before it, is the match.
pub proof fn lemma_first_match_is<W>(entries: Seq<(Seq<char>, W)>, key: Seq<char>, from: int, i: int)
    requires
        0 <= from <= i < entries.len(),
        entries[i].0 == key,
        forall|j: int| from <= j < i ==> entries[j].0 != key,
    ensures
        first_match(entries, key, from) == Some(i),
    decreases i - from,
{
    if from < i {
        lemma_first_match_is(entries, key, from + 1, i);
    }
}

/// No position holds the key: there is no match.
pub proof fn lemma_first_match_none<W>(entries: Seq<(Seq<char>, W)>, key: Seq<char>, from: int)
    requires
        0 <= from,
        forall|j: int| from <= j < entries.len() ==> entries[j].0 != key,
    ensures
        first_match(entries, key, from) is None,
    decreases entries.len() - from,
{
    if from < entries.len() {
        lemma_first_match_none(entries, key, from + 1);
    }
}

/// After `put`, the key holds the new value and every other key holds what
/// it held before.
pub proof fn lemma_put_find<W>(entries: Seq<(Seq<char>, W)>, key: Seq<char>, w: W, other: Seq<char>)
    ensures
        find(put(entries, key, w), key) == Some(w),
        other != key ==> find(put(entries, key, w), other) == find(entries, other),
{
    let after = put(entries, key, w);
    lemma_first_match(entries, key, 0);
    lemma_first_match(entries, other, 0);
    match first_match(entries, key, 0) {
        Some(i) => {
            lemma_first_match_is(after, key, 0, i);
            if other != key {
                match first_match(entries, other, 0) {
                    Some(j) => {
                        lemma_first_match_is(after, other, 0, j);
                    },
                    None => {
                        lemma_first_match_none(after, other, 0);
                    },
                }
            }
        },
        None => {
            lemma_first_match_is(after, key, 0, entries.len() as int);
            if other != key {
                match first_match(entries, other, 0) {
                    Some(j) => {
                        lemma_first_match_is(after, other, 0, j);
                    },
                    None => {
                        lemma_first_match_none(after, other, 0);
                    },
                }
            }
        },
    }
}

/// Whether no key stands at two positions of the entries.
pub open spec fn distinct_keys<W>(entries: Seq<(Seq<char>, W)>) -> bool {
    forall|i: int, j: int| 0 <= i < j < entries.len() ==> entries[i].0 != entries[j].0
}

/// Entries that are built by `put` alone hold every key once: `put` keeps
/// the keys distinct.
pub proof fn law_keys_stay_distinct<W>(entries: Seq<(Seq<char>, W)>, key: Seq<char>, w: W)
    requires
        distinct_keys(entries),
    ensures
        distinct_keys(put(entries, key, w)),
{
    lemma_first_match(entries, key, 0);
}

/// Finds the first entry stored under `key`.
pub fn position<V: DeepView>(entries: &Vec<(String, V)>, key: &String) -> (r: Option<usize>)
    ensures
        match r {
            Some(i) => i < entries.len() && first_match(entries.deep_view(), key@, 0) == Some(
                i as int,
            ),
            None => first_match(entries.deep_view(), key@, 0) is None,
        },
{
    let mut i: usize = 0;
    while i < entries.len()
        invariant
            i <= entries.len(),
            first_match(entries.deep_view(), key@, 0) == first_match(
                entries.deep_view(),
                key@,
                i as int,
            ),
        decreases entries.len() - i,
    {
        assert(entries.deep_view()[i as int].0 == entries[i as int].0@);
        if entries[i].0 == *key {
            return Some(i);
        }
        i += 1;
    }
    None
}

/// Sets `key` to `value`: replaces the entry under that key where it stands,
/// or adds one at the end.
pub fn insert<V: DeepView>(entries: &mut Vec<(String, V)>, key: &String, value: V)
    ensures
        final(entries).deep_view() == put(old(entries).deep_view(), key@, value.deep_view()),
        distinct_keys(old(entries).deep_view()) ==> distinct_keys(final(entries).deep_view()),
{
    proof {
        if distinct_keys(entries.deep_view()) {
            law_keys_stay_distinct(entries.deep_view(), key@, value.deep_view());
        }
    }
    match position(entries, key) {
        Some(i) => {
            proof {
                lemma_first_match(entries.deep_view(), key@, 0);
            }
            entries[i].1 = value;
            assert(entries.deep_view() =~= put(old(entries).deep_view(), key@, value.deep_view()));
        },
        None => {
            entries.push((key.clone(), value));
            assert(entries.deep_view() =~= put(old(entries).deep_view(), key@, value.deep_view()));
        },
    }
}

/// The mathematical form of a frame.
pub struct FrameV {
    pub variables: Seq<(Seq<char>, ValueV)>,
    pub classes: Seq<(Seq<char>, Seq<Seq<char>>)>,
    pub parent: Option<usize>,
}

/// One link of the environment chain: the variables and the structure
/// declarations of a scope, and the handle of the enclosing scope.
#[derive(Debug, PartialEq)]
pub struct Frame {
    pub variables: Vec<(String, Value)>,
    pub classes: Vec<(String, Vec<String>)>,
    pub parent: Option<usize>,
}

impl DeepView for Frame {
    type V = FrameV;

    open spec fn deep_view(&self) -> FrameV {
        FrameV {
            variables: self.variables.deep_view(),
            classes: self.classes.deep_view(),
            parent: self.parent,
        }
    }
}

impl Frame {
    /// A frame without bindings under `parent`.
    pub fn empty(parent: Option<usize>) -> (r: Frame)
        ensures
            r.deep_view() == (FrameV { variables: Seq::empty(), classes: Seq::empty(), parent }),
    {
        let r = Frame { variables: Vec::new(), classes: Vec::new(), parent };
        assert(r.deep_view().variables =~= Seq::empty());
        assert(r.deep_view().classes =~= Seq::empty());
        r
    }
}

/// The mathematical form of the environment: its frames by handle.
pub struct EnvV {
    pub frames: Seq<FrameV>,
}

impl EnvV {
    /// The frame in which `key` is bound for code that stands in `frame`: the
    /// first one on the way from `frame` up through the parents.
    pub open spec fn holder(self, frame: int, key: Seq<char>) -> Option<int>
        decreases frame,
    {
        if 0 <= frame < self.frames.len() {
            if first_match(self.frames[frame].variables, key, 0) is Some {
                Some(frame)
            } else {
                match self.frames[frame].parent {
                    Some(p) => if p < frame {
                        self.holder(p as int, key)
                    } else {
                        None
                    },
                    None => None,
                }
            }
        } else {
            None
        }
    }

    /// The value that `key` resolves to from `frame`.
    pub open spec fn lookup(self, frame: int, key: Seq<char>) -> Option<ValueV> {
        match self.holder(frame, key) {
            Some(h) => find(self.frames[h].variables, key),
            None => None,
        }
    }

    /// The frame that declares the structure `name`, seen from `frame`.
    pub open spec fn struct_holder(self, frame: int, name: Seq<char>) -> Option<int>
        decreases frame,
    {
        if 0 <= frame < self.frames.len() {
            if first_match(self.frames[frame].classes, name, 0) is Some {
                Some(frame)
            } else {
                match self.frames[frame].parent {
                    Some(p) => if p < frame {
                        self.struct_holder(p as int, name)
                    } else {
                        None
                    },
                    None => None,
                }
            }
        } else {
            None
        }
    }

    /// The field names of the structure `name`, seen from `frame`.
    pub open spec fn find_struct(self, frame: int, name: Seq<char>) -> Option<Seq<Seq<char>>> {
        match self.struct_holder(frame, name) {
            Some(h) => find(self.frames[h].classes, name),
            None => None,
        }
    }

    /// Whether `frame` itself binds `key`.
    pub open spec fn declared(self, frame: int, key: Seq<char>) -> bool {
        0 <= frame < self.frames.len() && first_match(self.frames[frame].variables, key, 0) is Some
    }

    /// The environment with `key` bound to `v` in `frame` itself.
    pub open spec fn bind(self, frame: int, key: Seq<char>, v: ValueV) -> EnvV {
        if 0 <= frame < self.frames.len() {
            EnvV {
                frames: self.frames.update(
                    frame,
                    FrameV {
                        variables: put(self.frames[frame].variables, key, v),
                        ..self.frames[frame]
                    },
                ),
            }
        } else {
            self
        }
    }

    /// The environment after assigning `v` to the binding that `key`
    /// resolves to from `frame`, if there is one.
    pub open spec fn assign(self, frame: int, key: Seq<char>, v: ValueV) -> Option<EnvV> {
        match self.holder(frame, key) {
            Some(h) => Some(self.bind(h, key, v)),
            None => None,
        }
    }

    /// The environment with the structure `name` declared in `frame`.
    pub open spec fn declare_struct(self, frame: int, name: Seq<char>, fields: Seq<Seq<char>>) -> EnvV {
        if 0 <= frame < self.frames.len() {
            EnvV {
                frames: self.frames.update(
                    frame,
                    FrameV {
                        classes: put(self.frames[frame].classes, name, fields),
                        ..self.frames[frame]
                    },
                ),
            }
        } else {
            self
        }
    }

    /// Whether no frame binds a name twice or declares a structure twice.
    pub open spec fn distinct(self) -> bool {
        forall|i: int|
            0 <= i < self.frames.len() ==> distinct_keys((#[trigger] self.frames[i]).variables)
                && distinct_keys(self.frames[i].classes)
    }

    /// The environment with one more, empty frame under `parent`. Its handle
    /// is the number of frames before.
    pub open spec fn extend(self, parent: Option<usize>) -> EnvV {
        EnvV {
            frames: self.frames.push(
                FrameV { variables: Seq::empty(), classes: Seq::empty(), parent },
            ),
        }
    }
}

/// Binding a name leaves every name bound once.
pub proof fn lemma_bind_distinct(env: EnvV, frame: int, key: Seq<char>, v: ValueV)
    requires
        env.distinct(),
    ensures
        env.bind(frame, key, v).distinct(),
{
    let after = env.bind(frame, key, v);
    assert forall|i: int| 0 <= i < after.frames.len() implies distinct_keys(
        (#[trigger] after.frames[i]).variables,
    ) && distinct_keys(after.frames[i].classes) by {
        assert(distinct_keys(env.frames[i].variables) && distinct_keys(env.frames[i].classes));
        if i == frame {
            law_keys_stay_distinct(env.frames[i].variables, key, v);
        }
    }
}

/// Declaring a structure leaves every structure declared once.
pub proof fn lemma_declare_struct_distinct(
    env: EnvV,
    frame: int,
    name: Seq<char>,
    fields: Seq<Seq<char>>,
)
    requires
        env.distinct(),
    ensures
        env.declare_struct(frame, name, fields).distinct(),
{
    let after = env.declare_struct(frame, name, fields);
    assert forall|i: int| 0 <= i < after.frames.len() implies distinct_keys(
        (#[trigger] after.frames[i]).variables,
    ) && distinct_keys(after.frames[i].classes) by {
        assert(distinct_keys(env.frames[i].variables) && distinct_keys(env.frames[i].classes));
        if i == frame {
            law_keys_stay_distinct(env.frames[i].classes, name, fields);
        }
    }
}

/// A new, empty frame leaves every name bound once.
pub proof fn lemma_extend_distinct(env: EnvV, parent: Option<usize>)
    requires
        env.distinct(),
    ensures
        env.extend(parent).distinct(),
{
    let after = env.extend(parent);
    assert forall|i: int| 0 <= i < after.frames.len() implies distinct_keys(
        (#[trigger] after.frames[i]).variables,
    ) && distinct_keys(after.frames[i].classes) by {
        if i < env.frames.len() {
            assert(distinct_keys(env.frames[i].variables) && distinct_keys(env.frames[i].classes));
        }
    }
}

/// The environment chain: every frame that was ever made, found by its
/// handle. Frames are never removed, so a function value can refer to the
/// frame it was defined in for as long as it lives.
#[derive(Debug, PartialEq)]
pub struct Env {
    pub frames: Vec<Frame>,
}

impl DeepView for Env {
    type V = EnvV;

    open spec fn deep_view(&self) -> EnvV {
        EnvV { frames: self.frames.deep_view() }
    }
}

impl View for Env {
    type V = EnvV;

    open spec fn view(&self) -> EnvV {
        self.deep_view()
    }
}

impl Env {
    /// An environment that holds the root frame alone, under handle 0.
    pub fn new() -> (r: Env)
        ensures
            r@ == (EnvV { frames: Seq::empty() }).extend(None),
            r@.distinct(),
    {
        proof {
            lemma_extend_distinct(EnvV { frames: Seq::empty() }, None);
        }
        let mut frames: Vec<Frame> = Vec::new();
        frames.push(Frame::empty(None));
        let r = Env { frames };
        assert(r@.frames =~= (EnvV { frames: Seq::empty() }).extend(None).frames);
        r
    }

    /// Adds an empty frame under `parent` and returns its handle.
    pub fn child(&mut self, parent: usize) -> (r: usize)
        ensures
            r == old(self)@.frames.len(),
            final(self)@ == old(self)@.extend(Some(parent)),
            old(self)@.distinct() ==> final(self)@.distinct(),
    {
        proof {
            if self@.distinct() {
                lemma_extend_distinct(self@, Some(parent));
            }
        }
        let r = self.frames.len();
        self.frames.push(Frame::empty(Some(parent)));
        assert(self@.frames =~= old(self)@.extend(Some(parent)).frames);
        r
    }

    /// The frame and the position in it at which `key` is bound, seen from
    /// `frame`.
    fn locate(&self, frame: usize, key: &String) -> (r: Option<(usize, usize)>)
        ensures
            match r {
                Some((h, i)) => self@.holder(frame as int, key@) == Some(h as int) && h
                    < self.frames.len() && i < self.frames[h as int].variables.len()
                    && first_match(self@.frames[h as int].variables, key@, 0) == Some(i as int),
                None => self@.holder(frame as int, key@) is None,
            },
    {
        let mut f: usize = frame;
        loop
            invariant
                self@.holder(frame as int, key@) == self@.holder(f as int, key@),
            decreases f,
        {
            if f >= self.frames.len() {
                return None;
            }
            match position(&self.frames[f].variables, key) {
                Some(i) => {
                    return Some((f, i));
                },
                None => {},
            }
            match self.frames[f].parent {
                Some(p) => {
                    if p < f {
                        f = p;
                    } else {
                        return None;
                    }
                },
                None => {
                    return None;
                },
            }
        }
    }

    /// Looks `key` up from `frame`: the first binding on the way up through
    /// the parents, or none.
    pub fn get(&self, frame: usize, key: &str) -> (r: Option<Value>)
        ensures
            r.deep_view() == self@.lookup(frame as int, key@),
    {
        let k = String::from_str(key);
        match self.locate(frame, &k) {
            Some((h, i)) => {
                assert(self@.frames[h as int].variables[i as int].1
                    == self.frames[h as int].variables[i as int].1@);
                Some(self.frames[h].variables[i].1.clone())
            },
            None => None,
        }
    }

    /// Assigns to the binding that `key` resolves to from `frame`. Returns
    /// whether there was one; if not, nothing changes.
    pub fn set(&mut self, frame: usize, key: &str, value: Value) -> (r: bool)
        ensures
            r == old(self)@.assign(frame as int, key@, value@) is Some,
            r ==> final(self)@ == old(self)@.assign(frame as int, key@, value@)->0,
            !r ==> final(self)@ == old(self)@,
            old(self)@.distinct() ==> final(self)@.distinct(),
    {
        let k = String::from_str(key);
        match self.locate(frame, &k) {
            Some((h, i)) => {
                self.bind(h, key, value);
                true
            },
            None => false,
        }
    }

    /// Whether `frame` itself binds `key`.
    pub fn declared(&self, frame: usize, key: &str) -> (r: bool)
        ensures
            r == self@.declared(frame as int, key@),
    {
        let k = String::from_str(key);
        if frame < self.frames.len() {
            position(&self.frames[frame].variables, &k).is_some()
        } else {
            false
        }
    }

    /// Binds `key` to `value` in `frame` itself, over a binding of that name
    /// if the frame has one. An unknown handle changes nothing.
    pub fn bind(&mut self, frame: usize, key: &str, value: Value)
        ensures
            final(self)@ == old(self)@.bind(frame as int, key@, value@),
            old(self)@.distinct() ==> final(self)@.distinct(),
    {
        proof {
            if self@.distinct() {
                lemma_bind_distinct(self@, frame as int, key@, value@);
            }
        }
        let k = String::from_str(key);
        if frame < self.frames.len() {
            insert(&mut self.frames[frame].variables, &k, value);
            assert(self@.frames =~= old(self)@.bind(frame as int, key@, value@).frames);
        }
    }

    /// Introduces `key` in `frame`. Fails, and changes nothing, if the frame
    /// binds that name already.
    pub fn declare(&mut self, frame: usize, key: &str, value: Value) -> (r: bool)
        ensures
            r == !old(self)@.declared(frame as int, key@),
            r ==> final(self)@ == old(self)@.bind(frame as int, key@, value@),
            !r ==> final(self)@ == old(self)@,
            old(self)@.distinct() ==> final(self)@.distinct(),
    {
        if self.declared(frame, key) {
            false
        } else {
            self.bind(frame, key, value);
            true
        }
    }

    /// Declares the structure `name` with its field names in `frame`.
    pub fn declare_struct(&mut self, frame: usize, name: &str, fields: Vec<String>)
        ensures
            final(self)@ == old(self)@.declare_struct(frame as int, name@, fields.deep_view()),
            old(self)@.distinct() ==> final(self)@.distinct(),
    {
        proof {
            if self@.distinct() {
                lemma_declare_struct_distinct(self@, frame as int, name@, fields.deep_view());
            }
        }
        let k = String::from_str(name);
        if frame < self.frames.len() {
            insert(&mut self.frames[frame].classes, &k, fields);
            assert(self@.frames =~= old(self)@.declare_struct(
                frame as int,
                name@,
                fields.deep_view(),
            ).frames);
        }
    }

    /// The field names of the structure `name`, looked up from `frame`
    /// through the parents, or none.
    pub fn class_exists(&self, frame: usize, name: &str) -> (r: Option<Vec<String>>)
        ensures
            r.deep_view() == self@.find_struct(frame as int, name@),
    {
        let k = String::from_str(name);
        let mut f: usize = frame;
        loop
            invariant
                self@.struct_holder(frame as int, name@) == self@.struct_holder(f as int, name@),
                k@ == name@,
            decreases f,
        {
            if f >= self.frames.len() {
                return None;
            }
            match position(&self.frames[f].classes, &k) {
                Some(i) => {
                    assert(self@.frames[f as int].classes[i as int].1
                        == self.frames[f as int].classes[i as int].1.deep_view());
                    return Some(clone_names(&self.frames[f].classes[i].1));
                },
                None => {},
            }
            match self.frames[f].parent {
                Some(p) => {
                    if p < f {
                        f = p;
                    } else {
                        return None;
                    }
                },
                None => {
                    return None;
                },
            }
        }
    }
}

} // verus!

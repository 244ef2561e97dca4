//! The boundary value model.
//!
//! A value crossing into or out of the exclusive execution context is one of
//! a small recursive shape: absent, boolean, integer, float, text, an ordered
//! list of values, a mapping from text keys to values, or an error marker.
//! [`PythonTaskContext`] carries inputs in, [`PythonTaskResult`] carries
//! results out; both denote a [`ValueModel`], the mathematical form that all
//! contracts are stated over.

use vstd::prelude::*;

verus! {

/// An error reported for one task.
#[derive(Clone, Debug)]
pub enum PythonTaskError {
    /// The exclusive context itself reported a failure executing user logic.
    PythonError(String),
    /// An unsupported number type was encountered at the boundary.
    UnsupportedNumberType,
    /// An unsupported value type was encountered at the boundary.
    UnsupportedValueType,
    /// An infrastructure failure, such as a result that could not be
    /// delivered.
    OtherError(String),
}

/// The mathematical form of a [`PythonTaskError`].
pub enum ErrorModel {
    PythonError(Seq<char>),
    UnsupportedNumberType,
    UnsupportedValueType,
    OtherError(Seq<char>),
}

impl View for PythonTaskError {
    type V = ErrorModel;

    open spec fn view(&self) -> ErrorModel {
        match self {
            PythonTaskError::PythonError(m) => ErrorModel::PythonError(m@),
            PythonTaskError::UnsupportedNumberType => ErrorModel::UnsupportedNumberType,
            PythonTaskError::UnsupportedValueType => ErrorModel::UnsupportedValueType,
            PythonTaskError::OtherError(m) => ErrorModel::OtherError(m@),
        }
    }
}

/// The result type every task yields: a value or a task error.
pub type MyResult<T> = Result<T, PythonTaskError>;

/// The mathematical form of a boundary value. Dictionaries are carried as
/// their entry sequences in insertion order; the key order never matters to
/// a consumer, but keeping it makes rendering deterministic.
pub enum ValueModel {
    Dict(Seq<(Seq<char>, ValueModel)>),
    List(Seq<ValueModel>),
    Str(Seq<char>),
    Int(int),
    /// The IEEE 754 bit pattern of a double-precision float.
    Float(u64),
    Bool(bool),
    Nothing,
    Error(Seq<char>),
}

/// A structured input handed to a task when it runs.
///
/// A dictionary is a vector of key/value entries whose keys are meant to be
/// unique; [`well_formed`](Self::well_formed) says so. A float is carried by
/// its IEEE 754 bit pattern, since the verified core never computes with it;
/// the embedding application converts at the boundary.
#[derive(Debug)]
pub enum PythonTaskContext {
    Dict(Vec<(String, PythonTaskContext)>),
    List(Vec<PythonTaskContext>),
    Str(String),
    Int(i32),
    Float(u64),
    Bool(bool),
    Nothing,
    Error(String),
}

/// A value returned by a task, of the same recursive shape as
/// [`PythonTaskContext`].
#[derive(Debug)]
pub enum PythonTaskResult {
    Dict(Vec<(String, PythonTaskResult)>),
    List(Vec<PythonTaskResult>),
    Str(String),
    Int(i32),
    Float(u64),
    Bool(bool),
    Nothing,
    Error(String),
}

pub open spec fn context_model(v: PythonTaskContext) -> ValueModel
    decreases v,
{
    match v {
        PythonTaskContext::Dict(entries) => ValueModel::Dict(context_entries_model(entries@)),
        PythonTaskContext::List(items) => ValueModel::List(context_items_model(items@)),
        PythonTaskContext::Str(s) => ValueModel::Str(s@),
        PythonTaskContext::Int(i) => ValueModel::Int(i as int),
        PythonTaskContext::Float(bits) => ValueModel::Float(bits),
        PythonTaskContext::Bool(b) => ValueModel::Bool(b),
        PythonTaskContext::Nothing => ValueModel::Nothing,
        PythonTaskContext::Error(m) => ValueModel::Error(m@),
    }
}

pub open spec fn context_entries_model(s: Seq<(String, PythonTaskContext)>) -> Seq<
    (Seq<char>, ValueModel),
>
    decreases s,
{
    if s.len() == 0 {
        Seq::empty()
    } else {
        context_entries_model(s.drop_last()).push((s.last().0@, context_model(s.last().1)))
    }
}

pub open spec fn context_items_model(s: Seq<PythonTaskContext>) -> Seq<ValueModel>
    decreases s,
{
    if s.len() == 0 {
        Seq::empty()
    } else {
        context_items_model(s.drop_last()).push(context_model(s.last()))
    }
}

impl View for PythonTaskContext {
    type V = ValueModel;

    open spec fn view(&self) -> ValueModel {
        context_model(*self)
    }
}

pub open spec fn result_model(v: PythonTaskResult) -> ValueModel
    decreases v,
{
    match v {
        PythonTaskResult::Dict(entries) => ValueModel::Dict(result_entries_model(entries@)),
        PythonTaskResult::List(items) => ValueModel::List(result_items_model(items@)),
        PythonTaskResult::Str(s) => ValueModel::Str(s@),
        PythonTaskResult::Int(i) => ValueModel::Int(i as int),
        PythonTaskResult::Float(bits) => ValueModel::Float(bits),
        PythonTaskResult::Bool(b) => ValueModel::Bool(b),
        PythonTaskResult::Nothing => ValueModel::Nothing,
        PythonTaskResult::Error(m) => ValueModel::Error(m@),
    }
}

pub open spec fn result_entries_model(s: Seq<(String, PythonTaskResult)>) -> Seq<
    (Seq<char>, ValueModel),
>
    decreases s,
{
    if s.len() == 0 {
        Seq::empty()
    } else {
        result_entries_model(s.drop_last()).push((s.last().0@, result_model(s.last().1)))
    }
}

pub open spec fn result_items_model(s: Seq<PythonTaskResult>) -> Seq<ValueModel>
    decreases s,
{
    if s.len() == 0 {
        Seq::empty()
    } else {
        result_items_model(s.drop_last()).push(result_model(s.last()))
    }
}

impl View for PythonTaskResult {
    type V = ValueModel;

    open spec fn view(&self) -> ValueModel {
        result_model(*self)
    }
}

/// No two entries carry the same key.
pub open spec fn distinct_keys(s: Seq<(Seq<char>, ValueModel)>) -> bool {
    forall|p: int, q: int| 0 <= p < q < s.len() ==> s[p].0 != s[q].0
}

/// Every entry's value is well-formed.
pub open spec fn entries_wf(s: Seq<(Seq<char>, ValueModel)>) -> bool
    decreases s, 1int,
{
    if s.len() == 0 {
        true
    } else {
        entries_wf(s.drop_last()) && value_wf(s.last().1)
    }
}

/// Every item is well-formed.
pub open spec fn items_wf(s: Seq<ValueModel>) -> bool
    decreases s, 1int,
{
    if s.len() == 0 {
        true
    } else {
        items_wf(s.drop_last()) && value_wf(s.last())
    }
}

/// The value invariant: every mapping anywhere in the value has pairwise
/// distinct keys.
pub open spec fn value_wf(m: ValueModel) -> bool
    decreases m, 0int,
{
    match m {
        ValueModel::Dict(entries) => distinct_keys(entries) && entries_wf(entries),
        ValueModel::List(items) => items_wf(items),
        _ => true,
    }
}

/// Entry well-formedness is well-formedness of each entry's value.
pub proof fn lemma_entries_wf_pointwise(s: Seq<(Seq<char>, ValueModel)>)
    ensures
        entries_wf(s) <==> (forall|i: int| 0 <= i < s.len() ==> value_wf(#[trigger] s[i].1)),
    decreases s,
{
    if s.len() > 0 {
        lemma_entries_wf_pointwise(s.drop_last());
        if entries_wf(s) {
            assert forall|i: int| 0 <= i < s.len() implies value_wf(#[trigger] s[i].1) by {
                if i < s.len() - 1 {
                    assert(s.drop_last()[i] == s[i]);
                }
            }
        }
        if forall|i: int| 0 <= i < s.len() ==> value_wf(#[trigger] s[i].1) {
            assert forall|i: int| 0 <= i < s.drop_last().len() implies value_wf(
                #[trigger] s.drop_last()[i].1,
            ) by {
                assert(s.drop_last()[i] == s[i]);
            }
        }
    }
}

/// Item well-formedness is well-formedness of each item.
pub proof fn lemma_items_wf_pointwise(s: Seq<ValueModel>)
    ensures
        items_wf(s) <==> (forall|i: int| 0 <= i < s.len() ==> value_wf(#[trigger] s[i])),
    decreases s,
{
    if s.len() > 0 {
        lemma_items_wf_pointwise(s.drop_last());
        if items_wf(s) {
            assert forall|i: int| 0 <= i < s.len() implies value_wf(#[trigger] s[i]) by {
                if i < s.len() - 1 {
                    assert(s.drop_last()[i] == s[i]);
                }
            }
        }
        if forall|i: int| 0 <= i < s.len() ==> value_wf(#[trigger] s[i]) {
            assert forall|i: int| 0 <= i < s.drop_last().len() implies value_wf(
                #[trigger] s.drop_last()[i],
            ) by {
                assert(s.drop_last()[i] == s[i]);
            }
        }
    }
}

/// The value under `key`, first match from the front, when the entries hold
/// it.
pub open spec fn entries_lookup(s: Seq<(Seq<char>, ValueModel)>, key: Seq<char>) -> Option<
    ValueModel,
>
    decreases s,
{
    if s.len() == 0 {
        None
    } else if s[0].0 == key {
        Some(s[0].1)
    } else {
        entries_lookup(s.drop_first(), key)
    }
}

/// Entries already scanned without a match do not change what a lookup
/// finds.
proof fn lemma_entries_lookup_skip(s: Seq<(Seq<char>, ValueModel)>, key: Seq<char>, i: int)
    requires
        0 <= i <= s.len(),
        forall|j: int| 0 <= j < i ==> s[j].0 != key,
    ensures
        entries_lookup(s, key) == entries_lookup(s.skip(i), key),
    decreases i,
{
    if i > 0 {
        assert(s[0].0 != key);
        assert forall|j: int| 0 <= j < i - 1 implies s.drop_first()[j].0 != key by {
            assert(s.drop_first()[j] == s[j + 1]);
        }
        lemma_entries_lookup_skip(s.drop_first(), key, i - 1);
        assert(s.drop_first().skip(i - 1) =~= s.skip(i));
        assert(entries_lookup(s, key) == entries_lookup(s.drop_first(), key));
    } else {
        assert(s.skip(0) =~= s);
    }
}

impl PythonTaskResult {
    /// A structurally fresh copy denoting the same value.
    #[verifier::loop_isolation(false)]
    pub fn duplicate(&self) -> (r: Self)
        ensures
            r@ == self@,
        decreases *self,
    {
        match self {
            PythonTaskResult::Dict(entries) => {
                let mut copied: Vec<(String, PythonTaskResult)> = Vec::new();
                let n = entries.len();
                let mut i: usize = 0;
                while i < n
                    invariant
                        i <= n,
                        copied@.len() == i,
                        forall|k: int|
                            0 <= k < i ==> copied@[k].0@ == entries@[k].0@ && result_model(
                                copied@[k].1,
                            ) == result_model(entries@[k].1),
                    decreases n - i,
                {
                    let key = entries[i].0.clone();
                    proof {
                        assert(decreases_to!(*self => self->Dict_0));
                        assert(decreases_to!(self->Dict_0 => entries@));
                        assert(decreases_to!(entries@ => entries@[i as int]));
                        assert(decreases_to!(entries@[i as int] => entries@[i as int].1));
                    }
                    let value = entries[i].1.duplicate();
                    copied.push((key, value));
                    i += 1;
                }
                proof {
                    lemma_result_entries_model(copied@);
                    lemma_result_entries_model(entries@);
                    assert(result_entries_model(copied@) =~= result_entries_model(entries@));
                }
                PythonTaskResult::Dict(copied)
            },
            PythonTaskResult::List(items) => {
                let mut copied: Vec<PythonTaskResult> = Vec::new();
                let n = items.len();
                let mut i: usize = 0;
                while i < n
                    invariant
                        i <= n,
                        copied@.len() == i,
                        forall|k: int|
                            0 <= k < i ==> result_model(copied@[k]) == result_model(items@[k]),
                    decreases n - i,
                {
                    proof {
                        assert(decreases_to!(*self => self->List_0));
                        assert(decreases_to!(self->List_0 => items@));
                        assert(decreases_to!(items@ => items@[i as int]));
                    }
                    let value = items[i].duplicate();
                    copied.push(value);
                    i += 1;
                }
                proof {
                    lemma_result_items_model(copied@);
                    lemma_result_items_model(items@);
                    assert(result_items_model(copied@) =~= result_items_model(items@));
                }
                PythonTaskResult::List(copied)
            },
            PythonTaskResult::Str(s) => PythonTaskResult::Str(s.clone()),
            PythonTaskResult::Int(i) => PythonTaskResult::Int(*i),
            PythonTaskResult::Float(bits) => PythonTaskResult::Float(*bits),
            PythonTaskResult::Bool(b) => PythonTaskResult::Bool(*b),
            PythonTaskResult::Nothing => PythonTaskResult::Nothing,
            PythonTaskResult::Error(m) => PythonTaskResult::Error(m.clone()),
        }
    }
}

impl PythonTaskContext {
    /// A structurally fresh copy denoting the same value.
    #[verifier::loop_isolation(false)]
    pub fn duplicate(&self) -> (r: Self)
        ensures
            r@ == self@,
        decreases *self,
    {
        match self {
            PythonTaskContext::Dict(entries) => {
                let mut copied: Vec<(String, PythonTaskContext)> = Vec::new();
                let n = entries.len();
                let mut i: usize = 0;
                while i < n
                    invariant
                        i <= n,
                        copied@.len() == i,
                        forall|k: int|
                            0 <= k < i ==> copied@[k].0@ == entries@[k].0@ && context_model(
                                copied@[k].1,
                            ) == context_model(entries@[k].1),
                    decreases n - i,
                {
                    let key = entries[i].0.clone();
                    proof {
                        assert(decreases_to!(*self => self->Dict_0));
                        assert(decreases_to!(self->Dict_0 => entries@));
                        assert(decreases_to!(entries@ => entries@[i as int]));
                        assert(decreases_to!(entries@[i as int] => entries@[i as int].1));
                    }
                    let value = entries[i].1.duplicate();
                    copied.push((key, value));
                    i += 1;
                }
                proof {
                    lemma_context_entries_model(copied@);
                    lemma_context_entries_model(entries@);
                    assert(context_entries_model(copied@) =~= context_entries_model(entries@));
                }
                PythonTaskContext::Dict(copied)
            },
            PythonTaskContext::List(items) => {
                let mut copied: Vec<PythonTaskContext> = Vec::new();
                let n = items.len();
                let mut i: usize = 0;
                while i < n
                    invariant
                        i <= n,
                        copied@.len() == i,
                        forall|k: int|
                            0 <= k < i ==> context_model(copied@[k]) == context_model(items@[k]),
                    decreases n - i,
                {
                    proof {
                        assert(decreases_to!(*self => self->List_0));
                        assert(decreases_to!(self->List_0 => items@));
                        assert(decreases_to!(items@ => items@[i as int]));
                    }
                    let value = items[i].duplicate();
                    copied.push(value);
                    i += 1;
                }
                proof {
                    lemma_context_items_model(copied@);
                    lemma_context_items_model(items@);
                    assert(context_items_model(copied@) =~= context_items_model(items@));
                }
                PythonTaskContext::List(copied)
            },
            PythonTaskContext::Str(s) => PythonTaskContext::Str(s.clone()),
            PythonTaskContext::Int(i) => PythonTaskContext::Int(*i),
            PythonTaskContext::Float(bits) => PythonTaskContext::Float(*bits),
            PythonTaskContext::Bool(b) => PythonTaskContext::Bool(*b),
            PythonTaskContext::Nothing => PythonTaskContext::Nothing,
            PythonTaskContext::Error(m) => PythonTaskContext::Error(m.clone()),
        }
    }

    /// Whether every mapping anywhere in this value has pairwise distinct
    /// keys, as [`value_wf`] demands of an input context.
    #[verifier::loop_isolation(false)]
    pub fn well_formed(&self) -> (ok: bool)
        ensures
            ok == value_wf(self@),
        decreases *self,
    {
        match self {
            PythonTaskContext::Dict(entries) => {
                proof {
                    lemma_context_entries_model(entries@);
                }
                let ghost em = context_entries_model(entries@);
                let n = entries.len();
                let mut p: usize = 0;
                while p < n
                    invariant
                        p <= n,
                        forall|a: int, b: int| 0 <= a < b < n && a < p ==> em[a].0 != em[b].0,
                    decreases n - p,
                {
                    let mut q: usize = p + 1;
                    while q < n
                        invariant
                            p < q <= n,
                            forall|b: int| p < b < q ==> em[p as int].0 != em[b].0,
                        decreases n - q,
                    {
                        if entries[p].0 == entries[q].0 {
                            proof {
                                assert(em[p as int].0 == em[q as int].0);
                                assert(!distinct_keys(em));
                                assert(self@ == ValueModel::Dict(em));
                                assert(!value_wf(self@));
                            }
                            return false;
                        }
                        q += 1;
                    }
                    p += 1;
                }
                let mut i: usize = 0;
                while i < n
                    invariant
                        i <= n,
                        forall|k: int| 0 <= k < i ==> value_wf(#[trigger] em[k].1),
                    decreases n - i,
                {
                    proof {
                        assert(decreases_to!(*self => self->Dict_0));
                        assert(decreases_to!(self->Dict_0 => entries@));
                        assert(decreases_to!(entries@ => entries@[i as int]));
                        assert(decreases_to!(entries@[i as int] => entries@[i as int].1));
                    }
                    if !entries[i].1.well_formed() {
                        proof {
                            assert(em[i as int].1 == context_model(entries@[i as int].1));
                            assert(!value_wf(em[i as int].1));
                            lemma_entries_wf_pointwise(em);
                            assert(!entries_wf(em));
                            assert(self@ == ValueModel::Dict(em));
                            assert(!value_wf(self@));
                        }
                        return false;
                    }
                    i += 1;
                }
                proof {
                    lemma_entries_wf_pointwise(em);
                }
                true
            },
            PythonTaskContext::List(items) => {
                proof {
                    lemma_context_items_model(items@);
                }
                let ghost im = context_items_model(items@);
                let n = items.len();
                let mut i: usize = 0;
                while i < n
                    invariant
                        i <= n,
                        forall|k: int| 0 <= k < i ==> value_wf(#[trigger] im[k]),
                    decreases n - i,
                {
                    proof {
                        assert(decreases_to!(*self => self->List_0));
                        assert(decreases_to!(self->List_0 => items@));
                        assert(decreases_to!(items@ => items@[i as int]));
                    }
                    if !items[i].well_formed() {
                        proof {
                            assert(im[i as int] == context_model(items@[i as int]));
                            assert(!value_wf(im[i as int]));
                            lemma_items_wf_pointwise(im);
                            assert(!items_wf(im));
                            assert(self@ == ValueModel::List(im));
                        }
                        return false;
                    }
                    i += 1;
                }
                proof {
                    lemma_items_wf_pointwise(im);
                }
                true
            },
            _ => true,
        }
    }

    /// Finds the entry under `key` when this value is a mapping, first match
    /// from the front; fails closed — finds nothing — on any other shape.
    #[verifier::loop_isolation(false)]
    pub fn lookup(&self, key: &str) -> (found: Option<&PythonTaskContext>)
        ensures
            match *self {
                PythonTaskContext::Dict(entries) => {
                    match found {
                        Some(value) => entries_lookup(context_entries_model(entries@), key@)
                            == Some(value@),
                        None => entries_lookup(context_entries_model(entries@), key@) is None,
                    }
                },
                _ => found is None,
            },
    {
        match self {
            PythonTaskContext::Dict(entries) => {
                proof {
                    lemma_context_entries_model(entries@);
                }
                let ghost em = context_entries_model(entries@);
                let wanted = String::from_str(key);
                let n = entries.len();
                let mut i: usize = 0;
                while i < n
                    invariant
                        i <= n,
                        wanted@ == key@,
                        forall|j: int| 0 <= j < i ==> em[j].0 != key@,
                    decreases n - i,
                {
                    if entries[i].0 == wanted {
                        proof {
                            lemma_entries_lookup_skip(em, key@, i as int);
                            assert(em.skip(i as int)[0] == em[i as int]);
                        }
                        return Some(&entries[i].1);
                    }
                    i += 1;
                }
                proof {
                    lemma_entries_lookup_skip(em, key@, n as int);
                    assert(em.skip(n as int).len() == 0);
                }
                None
            },
            _ => None,
        }
    }
}

impl PythonTaskError {
    /// A structurally fresh copy denoting the same error.
    pub fn duplicate(&self) -> (r: Self)
        ensures
            r@ == self@,
    {
        match self {
            PythonTaskError::PythonError(m) => PythonTaskError::PythonError(m.clone()),
            PythonTaskError::UnsupportedNumberType => PythonTaskError::UnsupportedNumberType,
            PythonTaskError::UnsupportedValueType => PythonTaskError::UnsupportedValueType,
            PythonTaskError::OtherError(m) => PythonTaskError::OtherError(m.clone()),
        }
    }
}

/// A structurally fresh copy of a task outcome, denoting the same value or
/// the same error.
pub fn duplicate_outcome(outcome: &MyResult<PythonTaskResult>) -> (r: MyResult<PythonTaskResult>)
    ensures
        (outcome is Ok && r is Ok && r->Ok_0@ == outcome->Ok_0@) || (outcome is Err && r is Err
            && r->Err_0@ == outcome->Err_0@),
{
    match outcome {
        Ok(v) => Ok(v.duplicate()),
        Err(e) => Err(e.duplicate()),
    }
}

/// A list denotes its items pointwise.
pub proof fn lemma_context_items_model(s: Seq<PythonTaskContext>)
    ensures
        context_items_model(s).len() == s.len(),
        forall|i: int| 0 <= i < s.len() ==> context_items_model(s)[i] == context_model(s[i]),
    decreases s,
{
    if s.len() > 0 {
        lemma_context_items_model(s.drop_last());
        assert forall|i: int| 0 <= i < s.len() implies context_items_model(s)[i] == context_model(
            s[i],
        ) by {
            if i < s.len() - 1 {
                assert(s.drop_last()[i] == s[i]);
            }
        }
    }
}

/// A mapping denotes its entries pointwise.
pub proof fn lemma_context_entries_model(s: Seq<(String, PythonTaskContext)>)
    ensures
        context_entries_model(s).len() == s.len(),
        forall|i: int|
            0 <= i < s.len() ==> context_entries_model(s)[i] == (s[i].0@, context_model(s[i].1)),
    decreases s,
{
    if s.len() > 0 {
        lemma_context_entries_model(s.drop_last());
        assert forall|i: int| 0 <= i < s.len() implies context_entries_model(s)[i] == (
            s[i].0@,
            context_model(s[i].1),
        ) by {
            if i < s.len() - 1 {
                assert(s.drop_last()[i] == s[i]);
            }
        }
    }
}

/// A list denotes its items pointwise.
pub proof fn lemma_result_items_model(s: Seq<PythonTaskResult>)
    ensures
        result_items_model(s).len() == s.len(),
        forall|i: int| 0 <= i < s.len() ==> result_items_model(s)[i] == result_model(s[i]),
    decreases s,
{
    if s.len() > 0 {
        lemma_result_items_model(s.drop_last());
        assert forall|i: int| 0 <= i < s.len() implies result_items_model(s)[i] == result_model(
            s[i],
        ) by {
            if i < s.len() - 1 {
                assert(s.drop_last()[i] == s[i]);
            }
        }
    }
}

/// A mapping denotes its entries pointwise.
pub proof fn lemma_result_entries_model(s: Seq<(String, PythonTaskResult)>)
    ensures
        result_entries_model(s).len() == s.len(),
        forall|i: int|
            0 <= i < s.len() ==> result_entries_model(s)[i] == (s[i].0@, result_model(s[i].1)),
    decreases s,
{
    if s.len() > 0 {
        lemma_result_entries_model(s.drop_last());
        assert forall|i: int| 0 <= i < s.len() implies result_entries_model(s)[i] == (
            s[i].0@,
            result_model(s[i].1),
        ) by {
            if i < s.len() - 1 {
                assert(s.drop_last()[i] == s[i]);
            }
        }
    }
}

} // verus!

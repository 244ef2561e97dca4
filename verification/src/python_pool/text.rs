//! Rendering boundary values as human-readable text.
//!
//! This is the display form the original pool prints for results and
//! contexts: `None`, quoted strings, decimal integers, `true`/`false`,
//! bracketed lists, and braced key/value mappings. The rendering of every
//! value is pinned down by [`rendered`]. A float is carried — and therefore
//! shown — as its IEEE 754 bit pattern, `float_bits(N)`; producing its
//! decimal form takes floating-point arithmetic, which stays outside the
//! verified core, and the embedding application formats it at the boundary.

use vstd::prelude::*;
use vstd::string::StringExecFns;

use crate::python_pool::values::PythonTaskContext;
use crate::python_pool::values::PythonTaskResult;
use crate::python_pool::values::ValueModel;
use crate::python_pool::values::context_entries_model;
use crate::python_pool::values::context_items_model;
use crate::python_pool::values::context_model;
use crate::python_pool::values::lemma_context_entries_model;
use crate::python_pool::values::lemma_context_items_model;
use crate::python_pool::values::lemma_result_entries_model;
use crate::python_pool::values::lemma_result_items_model;
use crate::python_pool::values::result_entries_model;
use crate::python_pool::values::result_items_model;
use crate::python_pool::values::result_model;

verus! {

/// The decimal digit character for `d`.
pub open spec fn digit_char(d: nat) -> char {
    if d == 0 {
        '0'
    } else if d == 1 {
        '1'
    } else if d == 2 {
        '2'
    } else if d == 3 {
        '3'
    } else if d == 4 {
        '4'
    } else if d == 5 {
        '5'
    } else if d == 6 {
        '6'
    } else if d == 7 {
        '7'
    } else if d == 8 {
        '8'
    } else {
        '9'
    }
}

/// The decimal digits of `n`, most significant first, without a sign and
/// without leading zeroes (save for `n == 0` itself).
pub closed spec fn decimal_digits(n: nat) -> Seq<char>
    decreases n,
{
    if n < 10 {
        seq![digit_char(n)]
    } else {
        decimal_digits(n / 10).push(digit_char(n % 10))
    }
}

/// The decimal text of an integer, a `-` sign in front of a negative one.
pub open spec fn int_text(i: int) -> Seq<char> {
    if i < 0 {
        seq!['-'] + decimal_digits((-i) as nat)
    } else {
        decimal_digits(i as nat)
    }
}

/// The display text of a float carried by its IEEE 754 bit pattern.
pub open spec fn float_text(bits: u64) -> Seq<char> {
    "float_bits("@ + decimal_digits(bits as nat) + ")"@
}

/// The display text of a value: `None` for the absent value, text in double
/// quotes, decimal integers, `true`/`false`, `[a, b]` for lists,
/// `{"k": v}` for mappings, and `Error: m` for error markers.
pub closed spec fn rendered(m: ValueModel) -> Seq<char>
    decreases m, 0int,
{
    match m {
        ValueModel::Dict(entries) => seq!['{'] + rendered_entries(entries) + seq!['}'],
        ValueModel::List(items) => seq!['['] + rendered_items(items) + seq![']'],
        ValueModel::Str(s) => seq!['"'] + s + seq!['"'],
        ValueModel::Int(i) => int_text(i),
        ValueModel::Float(bits) => float_text(bits),
        ValueModel::Bool(b) => if b {
            "true"@
        } else {
            "false"@
        },
        ValueModel::Nothing => "None"@,
        ValueModel::Error(m) => "Error: "@ + m,
    }
}

/// List items rendered in order, separated by `, `.
pub closed spec fn rendered_items(s: Seq<ValueModel>) -> Seq<char>
    decreases s, 1int,
{
    if s.len() == 0 {
        Seq::empty()
    } else if s.len() == 1 {
        rendered(s.last())
    } else {
        rendered_items(s.drop_last()) + ", "@ + rendered(s.last())
    }
}

/// Mapping entries rendered in order as `"key": value`, separated by `, `.
pub closed spec fn rendered_entries(s: Seq<(Seq<char>, ValueModel)>) -> Seq<char>
    decreases s, 1int,
{
    if s.len() == 0 {
        Seq::empty()
    } else if s.len() == 1 {
        rendered_entry(s.last())
    } else {
        rendered_entries(s.drop_last()) + ", "@ + rendered_entry(s.last())
    }
}

/// One mapping entry rendered as `"key": value`.
pub closed spec fn rendered_entry(e: (Seq<char>, ValueModel)) -> Seq<char>
    decreases e.1, 1int,
{
    seq!['"'] + e.0 + seq!['"'] + ": "@ + rendered(e.1)
}

/// The string slice holding the single decimal digit `d`.
fn digit_str(d: u64) -> (s: &'static str)
    requires
        d < 10,
    ensures
        s@ =~= seq![digit_char(d as nat)],
{
    proof {
        reveal_strlit("0");
        reveal_strlit("1");
        reveal_strlit("2");
        reveal_strlit("3");
        reveal_strlit("4");
        reveal_strlit("5");
        reveal_strlit("6");
        reveal_strlit("7");
        reveal_strlit("8");
        reveal_strlit("9");
    }
    match d {
        0 => "0",
        1 => "1",
        2 => "2",
        3 => "3",
        4 => "4",
        5 => "5",
        6 => "6",
        7 => "7",
        8 => "8",
        _ => "9",
    }
}

/// Appends the decimal digits of `n` to `out`.
fn push_decimal(out: &mut String, n: u64)
    ensures
        final(out)@ == old(out)@ + decimal_digits(n as nat),
    decreases n,
{
    if n < 10 {
        out.append(digit_str(n));
    } else {
        push_decimal(out, n / 10);
        out.append(digit_str(n % 10));
    }
}

/// Appends the decimal text of `x` to `out`, with a `-` sign if negative.
fn push_int(out: &mut String, x: i32)
    ensures
        final(out)@ == old(out)@ + int_text(x as int),
{
    if x < 0 {
        proof {
            reveal_strlit("-");
        }
        out.append("-");
        let magnitude: u64 = (-(x as i64)) as u64;
        push_decimal(out, magnitude);
    } else {
        push_decimal(out, x as u64);
    }
}

/// Extending a rendered item prefix by one item appends the separator (after
/// the first item) and the item's own text.
proof fn lemma_rendered_items_step(t: Seq<ValueModel>, i: int)
    requires
        0 <= i < t.len(),
    ensures
        rendered_items(t.subrange(0, i + 1)) == if i == 0 {
            rendered(t[0])
        } else {
            rendered_items(t.subrange(0, i)) + ", "@ + rendered(t[i])
        },
{
    let p = t.subrange(0, i + 1);
    assert(p.last() == t[i]);
    assert(p.drop_last() =~= t.subrange(0, i));
}

/// Extending a rendered entry prefix by one entry appends the separator
/// (after the first entry) and the entry's own text.
proof fn lemma_rendered_entries_step(t: Seq<(Seq<char>, ValueModel)>, i: int)
    requires
        0 <= i < t.len(),
    ensures
        rendered_entries(t.subrange(0, i + 1)) == if i == 0 {
            rendered_entry(t[0])
        } else {
            rendered_entries(t.subrange(0, i)) + ", "@ + rendered_entry(t[i])
        },
{
    let p = t.subrange(0, i + 1);
    assert(p.last() == t[i]);
    assert(p.drop_last() =~= t.subrange(0, i));
}

/// Appends the display text of a float's bit pattern to `out`.
fn push_float_bits(out: &mut String, bits: u64)
    ensures
        final(out)@ == old(out)@ + float_text(bits),
{
    proof {
        reveal_strlit("float_bits(");
        reveal_strlit(")");
    }
    out.append("float_bits(");
    push_decimal(out, bits);
    out.append(")");
}

/// Appends the display text of a result value to `out`.
#[verifier::loop_isolation(false)]
fn push_result_text(out: &mut String, v: &PythonTaskResult)
    ensures
        final(out)@ == old(out)@ + rendered(result_model(*v)),
    decreases *v,
{
    proof {
        reveal_strlit("{");
        reveal_strlit("}");
        reveal_strlit("[");
        reveal_strlit("]");
        reveal_strlit(", ");
        reveal_strlit("\"");
        reveal_strlit(": ");
        reveal_strlit("true");
        reveal_strlit("false");
        reveal_strlit("None");
        reveal_strlit("Error: ");
    }
    match v {
        PythonTaskResult::Dict(entries) => {
            proof {
                lemma_result_entries_model(entries@);
            }
            out.append("{");
            let ghost em = result_entries_model(entries@);
            let ghost base = out@;
            let n = entries.len();
            let mut i: usize = 0;
            while i < n
                invariant
                    i <= n,
                    out@ == base + rendered_entries(em.subrange(0, i as int)),
                decreases n - i,
            {
                if i > 0 {
                    out.append(", ");
                }
                out.append("\"");
                out.append(entries[i].0.as_str());
                out.append("\"");
                out.append(": ");
                proof {
                    assert(decreases_to!(*v => v->Dict_0));
                    assert(decreases_to!(v->Dict_0 => entries@));
                    assert(decreases_to!(entries@ => entries@[i as int]));
                    assert(decreases_to!(entries@[i as int] => entries@[i as int].1));
                }
                push_result_text(out, &entries[i].1);
                proof {
                    lemma_rendered_entries_step(em, i as int);
                    assert(out@ =~= base + rendered_entries(em.subrange(0, i + 1)));
                }
                i += 1;
            }
            proof {
                assert(em.subrange(0, n as int) =~= em);
            }
            out.append("}");
            proof {
                assert(out@ =~= old(out)@ + rendered(result_model(*v)));
            }
        },
        PythonTaskResult::List(items) => {
            proof {
                lemma_result_items_model(items@);
            }
            out.append("[");
            let ghost im = result_items_model(items@);
            let ghost base = out@;
            let n = items.len();
            let mut i: usize = 0;
            while i < n
                invariant
                    i <= n,
                    out@ == base + rendered_items(im.subrange(0, i as int)),
                decreases n - i,
            {
                if i > 0 {
                    out.append(", ");
                }
                proof {
                    assert(decreases_to!(*v => v->List_0));
                    assert(decreases_to!(v->List_0 => items@));
                    assert(decreases_to!(items@ => items@[i as int]));
                }
                push_result_text(out, &items[i]);
                proof {
                    lemma_rendered_items_step(im, i as int);
                    assert(out@ =~= base + rendered_items(im.subrange(0, i + 1)));
                }
                i += 1;
            }
            proof {
                assert(im.subrange(0, n as int) =~= im);
            }
            out.append("]");
            proof {
                assert(out@ =~= old(out)@ + rendered(result_model(*v)));
            }
        },
        PythonTaskResult::Str(s) => {
            out.append("\"");
            out.append(s.as_str());
            out.append("\"");
            proof {
                assert(out@ =~= old(out)@ + rendered(result_model(*v)));
            }
        },
        PythonTaskResult::Int(i) => {
            push_int(out, *i);
        },
        PythonTaskResult::Float(bits) => {
            push_float_bits(out, *bits);
        },
        PythonTaskResult::Bool(b) => {
            if *b {
                out.append("true");
            } else {
                out.append("false");
            }
        },
        PythonTaskResult::Nothing => {
            out.append("None");
        },
        PythonTaskResult::Error(m) => {
            out.append("Error: ");
            out.append(m.as_str());
            proof {
                assert(out@ =~= old(out)@ + rendered(result_model(*v)));
            }
        },
    }
}

/// Appends the display text of a context value to `out`.
#[verifier::loop_isolation(false)]
fn push_context_text(out: &mut String, v: &PythonTaskContext)
    ensures
        final(out)@ == old(out)@ + rendered(context_model(*v)),
    decreases *v,
{
    proof {
        reveal_strlit("{");
        reveal_strlit("}");
        reveal_strlit("[");
        reveal_strlit("]");
        reveal_strlit(", ");
        reveal_strlit("\"");
        reveal_strlit(": ");
        reveal_strlit("true");
        reveal_strlit("false");
        reveal_strlit("None");
        reveal_strlit("Error: ");
    }
    match v {
        PythonTaskContext::Dict(entries) => {
            proof {
                lemma_context_entries_model(entries@);
            }
            out.append("{");
            let ghost em = context_entries_model(entries@);
            let ghost base = out@;
            let n = entries.len();
            let mut i: usize = 0;
            while i < n
                invariant
                    i <= n,
                    out@ == base + rendered_entries(em.subrange(0, i as int)),
                decreases n - i,
            {
                if i > 0 {
                    out.append(", ");
                }
                out.append("\"");
                out.append(entries[i].0.as_str());
                out.append("\"");
                out.append(": ");
                proof {
                    assert(decreases_to!(*v => v->Dict_0));
                    assert(decreases_to!(v->Dict_0 => entries@));
                    assert(decreases_to!(entries@ => entries@[i as int]));
                    assert(decreases_to!(entries@[i as int] => entries@[i as int].1));
                }
                push_context_text(out, &entries[i].1);
                proof {
                    lemma_rendered_entries_step(em, i as int);
                    assert(out@ =~= base + rendered_entries(em.subrange(0, i + 1)));
                }
                i += 1;
            }
            proof {
                assert(em.subrange(0, n as int) =~= em);
            }
            out.append("}");
            proof {
                assert(out@ =~= old(out)@ + rendered(context_model(*v)));
            }
        },
        PythonTaskContext::List(items) => {
            proof {
                lemma_context_items_model(items@);
            }
            out.append("[");
            let ghost im = context_items_model(items@);
            let ghost base = out@;
            let n = items.len();
            let mut i: usize = 0;
            while i < n
                invariant
                    i <= n,
                    out@ == base + rendered_items(im.subrange(0, i as int)),
                decreases n - i,
            {
                if i > 0 {
                    out.append(", ");
                }
                proof {
                    assert(decreases_to!(*v => v->List_0));
                    assert(decreases_to!(v->List_0 => items@));
                    assert(decreases_to!(items@ => items@[i as int]));
                }
                push_context_text(out, &items[i]);
                proof {
                    lemma_rendered_items_step(im, i as int);
                    assert(out@ =~= base + rendered_items(im.subrange(0, i + 1)));
                }
                i += 1;
            }
            proof {
                assert(im.subrange(0, n as int) =~= im);
            }
            out.append("]");
            proof {
                assert(out@ =~= old(out)@ + rendered(context_model(*v)));
            }
        },
        PythonTaskContext::Str(s) => {
            out.append("\"");
            out.append(s.as_str());
            out.append("\"");
            proof {
                assert(out@ =~= old(out)@ + rendered(context_model(*v)));
            }
        },
        PythonTaskContext::Int(i) => {
            push_int(out, *i);
        },
        PythonTaskContext::Float(bits) => {
            push_float_bits(out, *bits);
        },
        PythonTaskContext::Bool(b) => {
            if *b {
                out.append("true");
            } else {
                out.append("false");
            }
        },
        PythonTaskContext::Nothing => {
            out.append("None");
        },
        PythonTaskContext::Error(m) => {
            out.append("Error: ");
            out.append(m.as_str());
            proof {
                assert(out@ =~= old(out)@ + rendered(context_model(*v)));
            }
        },
    }
}

impl PythonTaskResult {
    /// The display text of this value; [`rendered`] pins it down.
    pub fn to_display_string(&self) -> (s: String)
        ensures
            s@ == rendered(self@),
    {
        let mut out = String::new();
        push_result_text(&mut out, self);
        out
    }
}

impl PythonTaskContext {
    /// The display text of this value; [`rendered`] pins it down.
    pub fn to_display_string(&self) -> (s: String)
        ensures
            s@ == rendered(self@),
    {
        let mut out = String::new();
        push_context_text(&mut out, self);
        out
    }
}

} // verus!

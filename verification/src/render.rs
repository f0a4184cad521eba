//! How values are written as text: `Display` for `to_string`, `Debug` for the
//! items inside collections.
use vstd::prelude::*;
use std::sync::Arc;
use crate::text::{int_text, push_int};
use crate::value::{PythonValue, ValueModel, Dict, models, lemma_models};

verus! {

/// The text that `<str as Debug>` writes for a string: the string quoted and
/// escaped. It depends on the string alone.
pub uninterp spec fn str_debug_text(s: Seq<char>) -> Seq<char>;

/// Writes `s` as `Debug` does (`format!("{:?}", s)`); the result is
/// `str_debug_text(s)`, a function of `s` alone.
#[verifier::external_body]
fn str_debug(s: &str) -> (r: String)
    ensures r@ == str_debug_text(s@),
{
    format!("{:?}", s)
}

/// "true" or "false".
pub open spec fn bool_text(b: bool) -> Seq<char> {
    if b { "true"@ } else { "false"@ }
}

/// `Debug` text of a value, as the derived `Debug` of the value type writes it.
pub open spec fn debug_text(m: ValueModel) -> Seq<char>
    decreases m, 0nat,
{
    match m {
        ValueModel::NoneValue => "None"@,
        ValueModel::Boolean(b) => "Boolean("@ + bool_text(b) + ")"@,
        ValueModel::Integer(i) => "Integer("@ + int_text(i as int) + ")"@,
        ValueModel::Float(_, _, r) => "Float("@ + r + ")"@,
        ValueModel::Str(s) => "String("@ + str_debug_text(s) + ")"@,
        ValueModel::List(items) => "List(["@ + items_text(items, items.len()) + "])"@,
        ValueModel::Tuple(items) => "Tuple(["@ + items_text(items, items.len()) + "])"@,
        ValueModel::Dict(es) => "Dict({"@ + entries_text(es, es.len()) + "})"@,
        ValueModel::Object(n, es) => "Object("@ + str_debug_text(n) + ", {"@ + entries_text(es, es.len()) + "})"@,
        ValueModel::Function(n) => "Function("@ + str_debug_text(n) + ")"@,
    }
}

/// `Debug` texts of the first `n` items, separated by ", ".
pub open spec fn items_text(items: Seq<ValueModel>, n: nat) -> Seq<char>
    decreases items, n,
{
    if n == 0 || n > items.len() {
        Seq::empty()
    } else if n == 1 {
        debug_text(items[0])
    } else {
        items_text(items, (n - 1) as nat) + ", "@ + debug_text(items[n - 1])
    }
}

/// `Debug` texts of the first `n` entries, as `"key": value`, separated by ", ".
pub open spec fn entries_text(es: Seq<(Seq<char>, ValueModel)>, n: nat) -> Seq<char>
    decreases es, n,
{
    if n == 0 || n > es.len() {
        Seq::empty()
    } else if n == 1 {
        str_debug_text(es[0].0) + ": "@ + debug_text(es[0].1)
    } else {
        entries_text(es, (n - 1) as nat) + ", "@ + str_debug_text(es[n - 1].0) + ": "@ + debug_text(es[n - 1].1)
    }
}

/// The text `to_string` gives a value.
pub open spec fn display_text(m: ValueModel) -> Seq<char> {
    match m {
        ValueModel::Str(s) => s,
        ValueModel::Integer(i) => int_text(i as int),
        ValueModel::Float(_, t, _) => t,
        ValueModel::Boolean(b) => bool_text(b),
        ValueModel::NoneValue => "None"@,
        ValueModel::List(items) => "["@ + items_text(items, items.len()) + "]"@,
        ValueModel::Tuple(items) => "["@ + items_text(items, items.len()) + "]"@,
        ValueModel::Dict(es) => "{"@ + entries_text(es, es.len()) + "}"@,
        ValueModel::Object(n, _) => "<"@ + n + " object>"@,
        ValueModel::Function(n) => "<function "@ + n + ">"@,
    }
}

fn push_str(out: &mut String, s: &str)
    ensures final(out)@ == old(out)@ + s@,
{
    out.append(s);
}

/// Appends the `Debug` text of `v`.
pub fn push_debug(out: &mut String, v: &PythonValue)
    ensures final(out)@ == old(out)@ + debug_text(v@),
    decreases v, 1nat,
{
    match v {
        PythonValue::NoneValue => push_str(out, "None"),
        PythonValue::Boolean(b) => {
            push_str(out, "Boolean(");
            push_str(out, if *b { "true" } else { "false" });
            push_str(out, ")");
            assert(out@ == old(out)@ + debug_text(v@));
        },
        PythonValue::Integer(i) => {
            push_str(out, "Integer(");
            push_int(out, *i);
            push_str(out, ")");
            assert(out@ == old(out)@ + debug_text(v@));
        },
        PythonValue::Float(f) => {
            push_str(out, "Float(");
            push_str(out, f.repr.as_str());
            push_str(out, ")");
            assert(out@ == old(out)@ + debug_text(v@));
        },
        PythonValue::String(s) => {
            push_str(out, "String(");
            let q = str_debug(s.as_str());
            push_str(out, q.as_str());
            push_str(out, ")");
            assert(out@ == old(out)@ + debug_text(v@));
        },
        PythonValue::List(l) => {
            let ghost start = out@;
            push_str(out, "List([");
            push_items(out, l);
            push_str(out, "])");
            proof {
                lemma_models(l@, l@.len());
                let it = items_text(models(l@, l@.len()), l@.len());
                assert(out@ == start + "List(["@ + it + "])"@);
                assert(debug_text(v@) == "List(["@ + it + "])"@);
                assert(out@ == start + debug_text(v@));
            }
        },
        PythonValue::Tuple(l) => {
            let ghost start = out@;
            push_str(out, "Tuple([");
            push_items(out, l);
            push_str(out, "])");
            proof {
                lemma_models(l@, l@.len());
                let it = items_text(models(l@, l@.len()), l@.len());
                assert(out@ == start + "Tuple(["@ + it + "])"@);
                assert(debug_text(v@) == "Tuple(["@ + it + "])"@);
                assert(out@ == start + debug_text(v@));
            }
        },
        PythonValue::Dict(d) => {
            push_str(out, "Dict({");
            push_entries(out, d);
            push_str(out, "})");
            assert(out@ == old(out)@ + debug_text(v@));
        },
        PythonValue::Object(n, d) => {
            push_str(out, "Object(");
            let q = str_debug(n.as_str());
            push_str(out, q.as_str());
            push_str(out, ", {");
            push_entries(out, d);
            push_str(out, "})");
            assert(out@ == old(out)@ + debug_text(v@));
        },
        PythonValue::Function(n) => {
            push_str(out, "Function(");
            let q = str_debug(n.as_str());
            push_str(out, q.as_str());
            push_str(out, ")");
            assert(out@ == old(out)@ + debug_text(v@));
        },
    }
}

/// Appends the `Debug` texts of the items, separated by ", ".
pub fn push_items(out: &mut String, l: &Vec<Arc<PythonValue>>)
    ensures final(out)@ == old(out)@ + items_text(models(l@, l@.len()), l@.len()),
    decreases l, 0nat,
{
    let ghost ms = models(l@, l@.len());
    proof { lemma_models(l@, l@.len()); }
    let mut i: usize = 0;
    while i < l.len()
        invariant
            i <= l@.len(),
            ms == models(l@, l@.len()),
            ms.len() == l@.len(),
            forall|j: int| 0 <= j < l@.len() ==> #[trigger] ms[j] == (*l@[j])@,
            out@ == old(out)@ + items_text(ms, i as nat),
        decreases l@.len() - i,
    {
        let ghost before = out@;
        if i > 0 {
            push_str(out, ", ");
        }
        push_debug(out, &*l[i]);
        assert(ms[i as int] == (*l@[i as int])@);
        if i == 0 {
            assert(items_text(ms, 1) == debug_text(ms[0]));
            assert(items_text(ms, 0) == Seq::<char>::empty());
        } else {
            assert(items_text(ms, (i + 1) as nat) == items_text(ms, i as nat) + ", "@ + debug_text(ms[i as int]));
        }
        i = i + 1;
    }
}

/// Appends the `Debug` texts of the entries, separated by ", ".
pub fn push_entries(out: &mut String, d: &Dict)
    ensures final(out)@ == old(out)@ + entries_text(d.entries_model(), d.entries_model().len()),
    decreases d, 0nat,
{
    let ghost es = d.entries_model();
    proof { d.lemma_entries_model(); }
    let n = d.len();
    let mut i: usize = 0;
    while i < n
        invariant
            n == d.size(),
            i <= n,
            es == d.entries_model(),
            es.len() == n,
            forall|j: int| 0 <= j < n ==> #[trigger] es[j] == (d.key_at(j), d.value_at(j)@),
            out@ == old(out)@ + entries_text(es, i as nat),
        decreases n - i,
    {
        if i > 0 {
            push_str(out, ", ");
        }
        let k = d.key(i);
        let q = str_debug(k.as_str());
        push_str(out, q.as_str());
        push_str(out, ": ");
        let val = d.value(i);
        proof { d.lemma_value_decreases(i as int); }
        push_debug(out, &**val);
        assert(es[i as int] == (d.key_at(i as int), d.value_at(i as int)@));
        if i == 0 {
            assert(entries_text(es, 1) == str_debug_text(es[0].0) + ": "@ + debug_text(es[0].1));
            assert(entries_text(es, 0) == Seq::<char>::empty());
        } else {
            assert(entries_text(es, (i + 1) as nat) == entries_text(es, i as nat) + ", "@
                + str_debug_text(es[i as int].0) + ": "@ + debug_text(es[i as int].1));
        }
        i = i + 1;
    }
}

} // verus!

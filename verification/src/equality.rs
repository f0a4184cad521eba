//! Structural equality of values, as the derived `PartialEq` of the value
//! type decides it: same variant, equal fields, floats by IEEE-754 equality,
//! dictionaries as maps.
use vstd::prelude::*;
use std::sync::Arc;
use crate::float::{float_eq, bits_eq};
use crate::value::{PythonValue, ValueModel, Dict, model_has_key, model_lookup, seq_models, lemma_seq_models, entry_keys_distinct};

verus! {

/// Structural equality of two value models.
pub open spec fn struct_eq(a: ValueModel, b: ValueModel) -> bool
    decreases a,
{
    match (a, b) {
        (ValueModel::NoneValue, ValueModel::NoneValue) => true,
        (ValueModel::Boolean(x), ValueModel::Boolean(y)) => x == y,
        (ValueModel::Integer(x), ValueModel::Integer(y)) => x == y,
        (ValueModel::Float(x, _, _), ValueModel::Float(y, _, _)) => float_eq(x, y),
        (ValueModel::Str(x), ValueModel::Str(y)) => x == y,
        (ValueModel::List(x), ValueModel::List(y)) =>
            x.len() == y.len() && forall|i: int| 0 <= i < x.len() ==> struct_eq(x[i], y[i]),
        (ValueModel::Tuple(x), ValueModel::Tuple(y)) =>
            x.len() == y.len() && forall|i: int| 0 <= i < x.len() ==> struct_eq(x[i], y[i]),
        (ValueModel::Dict(x), ValueModel::Dict(y)) =>
            x.len() == y.len() && forall|i: int| 0 <= i < x.len() ==>
                model_has_key(y, x[i].0) && struct_eq(x[i].1, model_lookup(y, x[i].0)),
        (ValueModel::Object(n, x), ValueModel::Object(m, y)) =>
            n == m && x.len() == y.len() && forall|i: int| 0 <= i < x.len() ==>
                model_has_key(y, x[i].0) && struct_eq(x[i].1, model_lookup(y, x[i].0)),
        (ValueModel::Function(x), ValueModel::Function(y)) => x == y,
        _ => false,
    }
}

/// Structural equality of two dictionaries' entries.
pub open spec fn entries_eq(x: Seq<(Seq<char>, ValueModel)>, y: Seq<(Seq<char>, ValueModel)>) -> bool {
    x.len() == y.len() && forall|i: int| 0 <= i < x.len() ==>
        model_has_key(y, x[i].0) && struct_eq(x[i].1, model_lookup(y, x[i].0))
}

/// Structural equality of two item sequences.
pub open spec fn items_eq(x: Seq<ValueModel>, y: Seq<ValueModel>) -> bool {
    x.len() == y.len() && forall|i: int| 0 <= i < x.len() ==> struct_eq(x[i], y[i])
}

/// Structural equality of two values.
pub fn values_equal(a: &PythonValue, b: &PythonValue) -> (r: bool)
    ensures r == struct_eq(a@, b@), r == struct_eq(b@, a@),
    decreases a, 1nat,
{
    match (a, b) {
        (PythonValue::NoneValue, PythonValue::NoneValue) => true,
        (PythonValue::Boolean(x), PythonValue::Boolean(y)) => *x == *y,
        (PythonValue::Integer(x), PythonValue::Integer(y)) => *x == *y,
        (PythonValue::Float(x), PythonValue::Float(y)) => bits_eq(x.bits, y.bits),
        (PythonValue::String(x), PythonValue::String(y)) => crate::value::str_equal(x.as_str(), y.as_str()),
        (PythonValue::List(x), PythonValue::List(y)) => {
            let r = vectors_equal(x, y);
            assert(r == items_eq(seq_models(x@), seq_models(y@)));
            assert(r == items_eq(seq_models(y@), seq_models(x@)));
            r
        },
        (PythonValue::Tuple(x), PythonValue::Tuple(y)) => {
            let r = vectors_equal(x, y);
            assert(r == items_eq(seq_models(x@), seq_models(y@)));
            assert(r == items_eq(seq_models(y@), seq_models(x@)));
            r
        },
        (PythonValue::Dict(x), PythonValue::Dict(y)) => dicts_equal(x, y),
        (PythonValue::Object(n, x), PythonValue::Object(m, y)) => {
            if !crate::value::str_equal(n.as_str(), m.as_str()) {
                false
            } else {
                dicts_equal(x, y)
            }
        },
        (PythonValue::Function(x), PythonValue::Function(y)) => crate::value::str_equal(x.as_str(), y.as_str()),
        _ => false,
    }
}

/// Structural equality of two item vectors, item by item.
pub fn vectors_equal(x: &Vec<Arc<PythonValue>>, y: &Vec<Arc<PythonValue>>) -> (r: bool)
    ensures
        r == items_eq(seq_models(x@), seq_models(y@)),
        r == items_eq(seq_models(y@), seq_models(x@)),
    decreases x, 0nat,
{
    proof {
        lemma_seq_models(x@);
        lemma_seq_models(y@);
    }
    if x.len() != y.len() {
        return false;
    }
    let mut i: usize = 0;
    while i < x.len()
        invariant
            x@.len() == y@.len(),
            i <= x@.len(),
            seq_models(x@).len() == x@.len(),
            seq_models(y@).len() == y@.len(),
            forall|j: int| 0 <= j < x@.len() ==> #[trigger] seq_models(x@)[j] == (*x@[j])@,
            forall|j: int| 0 <= j < y@.len() ==> #[trigger] seq_models(y@)[j] == (*y@[j])@,
            forall|j: int| 0 <= j < i ==> struct_eq(#[trigger] seq_models(x@)[j], seq_models(y@)[j]),
            forall|j: int| 0 <= j < i ==> struct_eq(#[trigger] seq_models(y@)[j], seq_models(x@)[j]),
        decreases x@.len() - i,
    {
        assert(decreases_to!(x => x@));
        if !values_equal(&*x[i], &*y[i]) {
            assert(!struct_eq(seq_models(x@)[i as int], seq_models(y@)[i as int]));
            assert(!struct_eq(seq_models(y@)[i as int], seq_models(x@)[i as int]));
            return false;
        }
        i = i + 1;
    }
    true
}

/// Structural equality of two dictionaries: same size, and every entry of
/// the first has an equal value under its key in the second.
pub fn dicts_equal(x: &Dict, y: &Dict) -> (r: bool)
    ensures
        r == entries_eq(x.entries_model(), y.entries_model()),
        r == entries_eq(y.entries_model(), x.entries_model()),
    decreases x, 0nat,
{
    proof {
        x.lemma_entries_model();
        y.lemma_entries_model();
    }
    let ghost xs = x.entries_model();
    let ghost ys = y.entries_model();
    let nx = x.len();
    let ny = y.len();
    if nx != ny {
        return false;
    }
    let n = nx;
    let mut i: usize = 0;
    while i < n
        invariant
            n == x.size(),
            xs == x.entries_model(),
            ys == y.entries_model(),
            entry_keys_distinct(xs),
            entry_keys_distinct(ys),
            xs.len() == n,
            ys.len() == n,
            i <= n,
            forall|j: int| 0 <= j < n ==> #[trigger] xs[j] == (x.key_at(j), x.value_at(j)@),
            forall|j: int| 0 <= j < i ==>
                model_has_key(ys, #[trigger] xs[j].0) && struct_eq(xs[j].1, model_lookup(ys, xs[j].0))
                && struct_eq(model_lookup(ys, xs[j].0), xs[j].1),
        decreases n - i,
    {
        let k = x.key(i);
        match y.get(k.as_str()) {
            Some(v) => {
                proof { x.lemma_value_decreases(i as int); }
                if !values_equal(&**x.value(i), &**v) {
                    assert(!struct_eq(xs[i as int].1, model_lookup(ys, xs[i as int].0)));
                    proof {
                        let ki = xs[i as int].0;
                        let j = choose|j: int| 0 <= j < ys.len() && #[trigger] ys[j].0 == ki;
                        lemma_lookup_at(ys, j);
                        lemma_lookup_at(xs, i as int);
                        assert(!struct_eq(ys[j].1, model_lookup(xs, ys[j].0)));
                    }
                    return false;
                }
            },
            None => {
                assert(!model_has_key(ys, xs[i as int].0));
                proof {
                    if entries_eq(ys, xs) {
                        assert forall|j: int| 0 <= j < ys.len() implies model_has_key(xs, #[trigger] ys[j].0) by {}
                        lemma_keys_cover(ys, xs);
                        assert(model_has_key(ys, xs[i as int].0));
                    }
                }
                return false;
            },
        }
        i = i + 1;
    }
    proof {
        assert forall|j: int| 0 <= j < n implies model_has_key(ys, #[trigger] xs[j].0) by {}
        lemma_keys_cover(xs, ys);
        assert forall|j: int| 0 <= j < ys.len() implies
            model_has_key(xs, ys[j].0) && struct_eq(ys[j].1, model_lookup(xs, ys[j].0)) by {
            assert(model_has_key(xs, ys[j].0));
            let c = choose|c: int| 0 <= c < xs.len() && #[trigger] xs[c].0 == ys[j].0;
            lemma_lookup_at(xs, c);
            lemma_lookup_at(ys, j);
            assert(struct_eq(model_lookup(ys, xs[c].0), xs[c].1));
        }
    }
    true
}

} // verus!

verus! {

/// No dictionary or object inside the value has two entries with the same
/// key, as in every value the library builds.
pub open spec fn keys_distinct_deep(m: ValueModel) -> bool
    decreases m,
{
    match m {
        ValueModel::List(items) => forall|i: int| 0 <= i < items.len() ==> keys_distinct_deep(#[trigger] items[i]),
        ValueModel::Tuple(items) => forall|i: int| 0 <= i < items.len() ==> keys_distinct_deep(#[trigger] items[i]),
        ValueModel::Dict(es) => entry_keys_distinct(es)
            && forall|i: int| 0 <= i < es.len() ==> keys_distinct_deep(#[trigger] es[i].1),
        ValueModel::Object(_, es) => entry_keys_distinct(es)
            && forall|i: int| 0 <= i < es.len() ==> keys_distinct_deep(#[trigger] es[i].1),
        _ => true,
    }
}

/// With distinct keys, the value looked up under an entry's key is that
/// entry's value.
proof fn lemma_lookup_at(es: Seq<(Seq<char>, ValueModel)>, j: int)
    requires entry_keys_distinct(es), 0 <= j < es.len(),
    ensures model_has_key(es, es[j].0), model_lookup(es, es[j].0) == es[j].1,
{
    assert(es[j].0 == es[j].0);
    let c = choose|i: int| 0 <= i < es.len() && #[trigger] es[i].0 == es[j].0;
    assert(c == j);
}

/// Two entry lists of one length with distinct keys, the first's keys all
/// among the second's: the second's keys are all among the first's.
proof fn lemma_keys_cover(x: Seq<(Seq<char>, ValueModel)>, y: Seq<(Seq<char>, ValueModel)>)
    requires
        entry_keys_distinct(x),
        entry_keys_distinct(y),
        x.len() == y.len(),
        forall|i: int| 0 <= i < x.len() ==> model_has_key(y, #[trigger] x[i].0),
    ensures
        forall|j: int| 0 <= j < y.len() ==> model_has_key(x, #[trigger] y[j].0),
{
    broadcast use vstd::seq_lib::group_seq_properties, vstd::set::group_set_axioms;
    let kx = x.map_values(|e: (Seq<char>, ValueModel)| e.0);
    let ky = y.map_values(|e: (Seq<char>, ValueModel)| e.0);
    assert(kx.no_duplicates()) by {
        assert forall|i: int, j: int| 0 <= i < kx.len() && 0 <= j < kx.len() && i != j implies kx[i] != kx[j] by {
            assert(x[i].0 != x[j].0);
        }
    }
    assert(ky.no_duplicates()) by {
        assert forall|i: int, j: int| 0 <= i < ky.len() && 0 <= j < ky.len() && i != j implies ky[i] != ky[j] by {
            assert(y[i].0 != y[j].0);
        }
    }
    kx.unique_seq_to_set();
    ky.unique_seq_to_set();
    assert(kx.to_set().subset_of(ky.to_set())) by {
        assert forall|a: Seq<char>| kx.to_set().contains(a) implies ky.to_set().contains(a) by {
            assert(kx.contains(a));
            let i = choose|i: int| 0 <= i < kx.len() && kx[i] == a;
            assert(x[i].0 == a);
            assert(model_has_key(y, x[i].0));
            let j = choose|j: int| 0 <= j < y.len() && #[trigger] y[j].0 == a;
            assert(ky[j] == a);
            assert(ky.contains(a));
        }
    }
    vstd::set_lib::lemma_subset_equality(kx.to_set(), ky.to_set());
    assert forall|j: int| 0 <= j < y.len() implies model_has_key(x, #[trigger] y[j].0) by {
        assert(ky[j] == y[j].0);
        assert(ky.contains(y[j].0));
        assert(ky.to_set().contains(y[j].0));
        assert(kx.to_set().contains(y[j].0));
        assert(kx.contains(y[j].0));
        let i = choose|i: int| 0 <= i < kx.len() && kx[i] == y[j].0;
        assert(x[i].0 == y[j].0);
    }
}

/// Entry lists equal one way are equal the other way.
proof fn lemma_entries_eq_sym(x: Seq<(Seq<char>, ValueModel)>, y: Seq<(Seq<char>, ValueModel)>, a: ValueModel)
    requires
        entry_keys_distinct(x),
        entry_keys_distinct(y),
        forall|i: int| 0 <= i < x.len() ==> keys_distinct_deep(#[trigger] x[i].1),
        forall|i: int| 0 <= i < y.len() ==> keys_distinct_deep(#[trigger] y[i].1),
        x.len() == y.len(),
        forall|i: int| 0 <= i < x.len() ==>
            model_has_key(y, x[i].0) && struct_eq(x[i].1, model_lookup(y, x[i].0)),
        forall|i: int| 0 <= i < x.len() ==> decreases_to!(a => #[trigger] x[i].1),
    ensures
        forall|j: int| 0 <= j < y.len() ==>
            model_has_key(x, y[j].0) && struct_eq(y[j].1, model_lookup(x, y[j].0)),
    decreases a, 0nat,
{
    assert forall|i: int| 0 <= i < x.len() implies model_has_key(y, #[trigger] x[i].0) by {}
    lemma_keys_cover(x, y);
    assert forall|j: int| 0 <= j < y.len() implies
        model_has_key(x, y[j].0) && struct_eq(y[j].1, model_lookup(x, y[j].0)) by {
        assert(model_has_key(x, y[j].0));
        let i = choose|i: int| 0 <= i < x.len() && #[trigger] x[i].0 == y[j].0;
        lemma_lookup_at(x, i);
        lemma_lookup_at(y, j);
        assert(struct_eq(x[i].1, model_lookup(y, x[i].0)));
        lemma_struct_eq_sym(x[i].1, y[j].1);
    }
}

proof fn lemma_struct_eq_sym(a: ValueModel, b: ValueModel)
    requires keys_distinct_deep(a), keys_distinct_deep(b), struct_eq(a, b),
    ensures struct_eq(b, a),
    decreases a, 1nat,
{
    match (a, b) {
        (ValueModel::List(x), ValueModel::List(y)) => {
            assert forall|i: int| 0 <= i < y.len() implies struct_eq(#[trigger] y[i], x[i]) by {
                assert(keys_distinct_deep(x[i]));
                assert(keys_distinct_deep(y[i]));
                lemma_struct_eq_sym(x[i], y[i]);
            }
        },
        (ValueModel::Tuple(x), ValueModel::Tuple(y)) => {
            assert forall|i: int| 0 <= i < y.len() implies struct_eq(#[trigger] y[i], x[i]) by {
                assert(keys_distinct_deep(x[i]));
                assert(keys_distinct_deep(y[i]));
                lemma_struct_eq_sym(x[i], y[i]);
            }
        },
        (ValueModel::Dict(x), ValueModel::Dict(y)) => {
            assert forall|i: int| 0 <= i < x.len() implies decreases_to!(a => #[trigger] x[i].1) by {
                assert(decreases_to!(a => x));
                assert(decreases_to!(x => x[i]));
                assert(decreases_to!(x[i] => x[i].1));
            }
            lemma_entries_eq_sym(x, y, a);
        },
        (ValueModel::Object(n, x), ValueModel::Object(m, y)) => {
            assert forall|i: int| 0 <= i < x.len() implies decreases_to!(a => #[trigger] x[i].1) by {
                assert(decreases_to!(a => x));
                assert(decreases_to!(x => x[i]));
                assert(decreases_to!(x[i] => x[i].1));
            }
            lemma_entries_eq_sym(x, y, a);
        },
        _ => {},
    }
}

/// Structural equality is symmetric: `a` equals `b` exactly when `b`
/// equals `a`.
pub proof fn law_equality_symmetric(a: ValueModel, b: ValueModel)
    requires keys_distinct_deep(a), keys_distinct_deep(b),
    ensures struct_eq(a, b) == struct_eq(b, a),
{
    if struct_eq(a, b) {
        lemma_struct_eq_sym(a, b);
    }
    if struct_eq(b, a) {
        lemma_struct_eq_sym(b, a);
    }
}

} // verus!

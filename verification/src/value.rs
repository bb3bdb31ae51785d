//! The JSON value tree handed to the aggregator, and its serialized-size model.

use vstd::prelude::*;
use vstd::utf8::encode_utf8;

verus! {

/// One parsed JSON value.
///
/// A number carries its canonical decimal rendering, so that size accounting
/// does not depend on any particular numeric representation.  An object is an
/// ordered list of (name, value) pairs; names may repeat.
pub enum JsonValue {
    Null,
    Bool(bool),
    Number(String),
    Text(String),
    Array(Vec<JsonValue>),
    Object(Vec<(String, JsonValue)>),
}

/// The mathematical shape of a [`JsonValue`]: strings become sequences of
/// characters, vectors become sequences.
pub enum ValueView {
    Null,
    Bool(bool),
    Number(Seq<char>),
    Text(Seq<char>),
    Array(Seq<ValueView>),
    Object(Seq<(Seq<char>, ValueView)>),
}

/// Byte length of the UTF-8 encoding of a character sequence.
pub open spec fn utf8_len(s: Seq<char>) -> nat {
    encode_utf8(s).len()
}

/// The view of a value, taken member by member.  The bounds tests keep the
/// recursion provably inside the vectors; `Seq::new` never applies its
/// function out of range, so the fallback arms describe no value.
pub open spec fn value_view(v: JsonValue) -> ValueView
    decreases v,
{
    match v {
        JsonValue::Null => ValueView::Null,
        JsonValue::Bool(b) => ValueView::Bool(b),
        JsonValue::Number(s) => ValueView::Number(s@),
        JsonValue::Text(s) => ValueView::Text(s@),
        JsonValue::Array(es) => ValueView::Array(
            Seq::new(
                es@.len(),
                |i: int|
                    if 0 <= i < es@.len() {
                        value_view(es@[i])
                    } else {
                        ValueView::Null
                    },
            ),
        ),
        JsonValue::Object(ps) => ValueView::Object(
            Seq::new(
                ps@.len(),
                |i: int|
                    if 0 <= i < ps@.len() {
                        (ps@[i].0@, value_view(ps@[i].1))
                    } else {
                        (Seq::empty(), ValueView::Null)
                    },
            ),
        ),
    }
}

impl View for JsonValue {
    type V = ValueView;

    open spec fn view(&self) -> ValueView {
        value_view(*self)
    }
}

/// The number of bytes `v` occupies as compact JSON text, under the
/// aggregator's accounting rules: 4 for `null`, 4 or 5 for a boolean, the
/// rendering's byte length for a number, content bytes plus two quotes for a
/// string, member sizes plus separators and delimiters for objects, and for
/// arrays the element sizes plus commas and brackets — except that an empty
/// array counts as 0 bytes rather than the 2 bytes of its brackets, a quirk
/// of the accounting rules that is part of this library's contract.
pub open spec fn value_size(v: ValueView) -> nat
    decreases v, 0int,
{
    match v {
        ValueView::Null => 4,
        ValueView::Bool(b) => if b {
            4
        } else {
            5
        },
        ValueView::Number(s) => utf8_len(s),
        ValueView::Text(s) => utf8_len(s) + 2,
        ValueView::Array(es) => if es.len() == 0 {
            0
        } else {
            elems_size_sum(es, es.len() as int) + ((es.len() - 1) as nat) + 2
        },
        ValueView::Object(ps) => members_size_sum(ps, ps.len() as int) + 2,
    }
}

/// Sum of the serialized sizes of the first `n` elements of an array.
pub open spec fn elems_size_sum(es: Seq<ValueView>, n: int) -> nat
    decreases es, n,
{
    if n <= 0 || n > es.len() {
        0
    } else {
        elems_size_sum(es, n - 1) + value_size(es[n - 1])
    }
}

/// Sum of the serialized sizes of the first `n` members of an object, each
/// counted as its value's size plus two quotes, the name's bytes and a colon.
pub open spec fn members_size_sum(ps: Seq<(Seq<char>, ValueView)>, n: int) -> nat
    decreases ps, n,
{
    if n <= 0 || n > ps.len() {
        0
    } else {
        members_size_sum(ps, n - 1) + value_size(ps[n - 1].1) + utf8_len(ps[n - 1].0) + 3
    }
}

/// A longer prefix of an array never sums to less than a shorter one.
pub proof fn lemma_elems_size_sum_mono(es: Seq<ValueView>, i: int, j: int)
    requires
        0 <= i <= j <= es.len(),
    ensures
        elems_size_sum(es, i) <= elems_size_sum(es, j),
    decreases j,
{
    if i < j {
        lemma_elems_size_sum_mono(es, i, j - 1);
    }
}

/// Each array element's size is bounded by the sum over the whole array.
pub proof fn lemma_elem_size_le_sum(es: Seq<ValueView>, i: int)
    requires
        0 <= i < es.len(),
    ensures
        value_size(es[i]) <= elems_size_sum(es, es.len() as int),
{
    assert(value_size(es[i]) <= elems_size_sum(es, i + 1));
    lemma_elems_size_sum_mono(es, i + 1, es.len() as int);
}

/// A longer prefix of an object never sums to less than a shorter one.
pub proof fn lemma_members_size_sum_mono(ps: Seq<(Seq<char>, ValueView)>, i: int, j: int)
    requires
        0 <= i <= j <= ps.len(),
    ensures
        members_size_sum(ps, i) <= members_size_sum(ps, j),
    decreases j,
{
    if i < j {
        lemma_members_size_sum_mono(ps, i, j - 1);
    }
}

/// Each member value's size is bounded by the sum over the whole object.
pub proof fn lemma_member_size_le_sum(ps: Seq<(Seq<char>, ValueView)>, i: int)
    requires
        0 <= i < ps.len(),
    ensures
        value_size(ps[i].1) <= members_size_sum(ps, ps.len() as int),
{
    assert(value_size(ps[i].1) <= members_size_sum(ps, i + 1));
    lemma_members_size_sum_mono(ps, i + 1, ps.len() as int);
}

/// Relies on `str::len`: it returns the byte length of the string's UTF-8
/// text, and by Rust's allocation guarantee (no object exceeds `isize::MAX`
/// bytes) that length always fits in `usize`.
#[verifier::external_body]
pub(crate) fn str_byte_len(s: &str) -> (r: usize)
    ensures
        r == utf8_len(s@),
{
    s.len()
}

/// The serialized byte size of `v`, or `None` when that size does not fit in
/// a machine word.
pub fn try_value_size(v: &JsonValue) -> (r: Option<usize>)
    ensures
        match r {
            Some(n) => n == value_size(v@),
            None => value_size(v@) > usize::MAX,
        },
    decreases *v,
{
    match v {
        JsonValue::Null => Some(4),
        JsonValue::Bool(b) => Some(if *b { 4 } else { 5 }),
        JsonValue::Number(s) => Some(str_byte_len(s.as_str())),
        JsonValue::Text(s) => str_byte_len(s.as_str()).checked_add(2),
        JsonValue::Array(es) => {
            let ghost vs = match v@ {
                ValueView::Array(vs) => vs,
                _ => Seq::empty(),
            };
            let n: usize = es.len();
            if n == 0 {
                return Some(0);
            }
            let mut i: usize = 0;
            let mut sum: usize = 0;
            while i < n
                invariant
                    0 < n == es@.len(),
                    0 <= i <= n,
                    *v == JsonValue::Array(*es),
                    v@ == ValueView::Array(vs),
                    vs.len() == n,
                    forall|k: int| 0 <= k < n ==> vs[k] == value_view(es@[k]),
                    sum == elems_size_sum(vs, i as int),
                decreases n - i,
            {
                let elem_size = match try_value_size(&es[i]) {
                    Some(sz) => sz,
                    None => {
                        proof {
                            lemma_elem_size_le_sum(vs, i as int);
                        }
                        return None;
                    },
                };
                sum = match sum.checked_add(elem_size) {
                    Some(s2) => s2,
                    None => {
                        proof {
                            lemma_elems_size_sum_mono(vs, i + 1, vs.len() as int);
                        }
                        return None;
                    },
                };
                i = i + 1;
            }
            let with_commas = match sum.checked_add(n - 1) {
                Some(s2) => s2,
                None => {
                    return None;
                },
            };
            with_commas.checked_add(2)
        },
        JsonValue::Object(ps) => {
            let ghost ms = match v@ {
                ValueView::Object(ms) => ms,
                _ => Seq::empty(),
            };
            let n: usize = ps.len();
            let mut i: usize = 0;
            let mut sum: usize = 0;
            while i < n
                invariant
                    n == ps@.len(),
                    0 <= i <= n,
                    *v == JsonValue::Object(*ps),
                    v@ == ValueView::Object(ms),
                    ms.len() == n,
                    forall|k: int|
                        0 <= k < n ==> ms[k] == (ps@[k].0@, value_view(ps@[k].1)),
                    sum == members_size_sum(ms, i as int),
                decreases n - i,
            {
                let val_size = match try_value_size(&ps[i].1) {
                    Some(sz) => sz,
                    None => {
                        proof {
                            lemma_member_size_le_sum(ms, i as int);
                        }
                        return None;
                    },
                };
                let name_len = str_byte_len(ps[i].0.as_str());
                let entry = match val_size.checked_add(name_len) {
                    Some(s2) => s2.checked_add(3),
                    None => None,
                };
                let entry_size = match entry {
                    Some(s2) => s2,
                    None => {
                        proof {
                            lemma_members_size_sum_mono(ms, i + 1, ms.len() as int);
                        }
                        return None;
                    },
                };
                sum = match sum.checked_add(entry_size) {
                    Some(s2) => s2,
                    None => {
                        proof {
                            lemma_members_size_sum_mono(ms, i + 1, ms.len() as int);
                        }
                        return None;
                    },
                };
                i = i + 1;
            }
            sum.checked_add(2)
        },
    }
}

} // verus!

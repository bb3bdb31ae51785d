//! Laws of the aggregation: properties that hold of every statistics node
//! the aggregator produces.

use vstd::prelude::*;

use crate::aggregate::{
    array_stat, collected_attrs, elem_attrs, elems_max_size, elems_min_size, group_absorb,
    group_index_from, group_index_of, group_of, group_result, grouped, member_attr, merged_attrs,
    obj_attrs, obj_stat, spec_extract, AttrGroup,
};
use crate::stats::{AttrStatView, StatView, ValStatView};
use crate::value::{members_size_sum, utf8_len, value_size, ValueView};

verus! {

/// A scalar's statistics have no spread: its size, greatest size and least
/// size are one and the same number.
pub proof fn lemma_scalar_no_spread(v: ValueView)
    requires
        !(v is Array),
        !(v is Object),
    ensures
        spec_extract(v) matches StatView::ValStat(st) && st.size == st.max_size && st.max_size
            == st.min_size && st.size == value_size(v),
{
}

/// A string's statistics report the UTF-8 byte length of its content plus
/// the two surrounding quotes.
pub proof fn lemma_string_size(s: Seq<char>)
    ensures
        spec_extract(ValueView::Text(s)) == StatView::ValStat(
            (ValStatView { size: utf8_len(s) + 2, max_size: utf8_len(s) + 2, min_size: utf8_len(s) + 2 }),
        ),
{
}

/// The aggregator is deterministic: two runs over the same value yield
/// structurally equal statistics.
pub proof fn lemma_extract_deterministic(v: ValueView, r1: StatView, r2: StatView)
    requires
        r1 == spec_extract(v),
        r2 == spec_extract(v),
    ensures
        r1 == r2,
{
}

/// Among the first `n` elements of a non-empty prefix, the recorded extremes
/// bound every element's size and are themselves attained element sizes.
proof fn lemma_elems_extremes(es: Seq<ValueView>, n: int)
    requires
        1 <= n <= es.len(),
    ensures
        forall|k: int|
            0 <= k < n ==> elems_min_size(es, n) <= value_size(#[trigger] es[k])
                <= elems_max_size(es, n),
        exists|k: int| 0 <= k < n && value_size(#[trigger] es[k]) == elems_min_size(es, n),
        exists|k: int| 0 <= k < n && value_size(#[trigger] es[k]) == elems_max_size(es, n),
    decreases n,
{
    if n > 1 {
        lemma_elems_extremes(es, n - 1);
        if value_size(es[n - 1]) < elems_min_size(es, n - 1) {
            assert(value_size(es[n - 1]) == elems_min_size(es, n));
        } else {
            let k0 = choose|k: int|
                0 <= k < n - 1 && value_size(#[trigger] es[k]) == elems_min_size(es, n - 1);
            assert(value_size(es[k0]) == elems_min_size(es, n));
        }
        if value_size(es[n - 1]) > elems_max_size(es, n - 1) {
            assert(value_size(es[n - 1]) == elems_max_size(es, n));
        } else {
            let k0 = choose|k: int|
                0 <= k < n - 1 && value_size(#[trigger] es[k]) == elems_max_size(es, n - 1);
            assert(value_size(es[k0]) == elems_max_size(es, n));
        }
    }
}

/// A non-empty array's statistics record as spread the least and greatest
/// serialized element size, each attained by some element.
pub proof fn lemma_array_spread(es: Seq<ValueView>)
    requires
        es.len() >= 1,
    ensures
        forall|k: int|
            0 <= k < es.len() ==> array_stat(es).min_size <= value_size(#[trigger] es[k])
                <= array_stat(es).max_size,
        exists|k: int|
            0 <= k < es.len() && value_size(#[trigger] es[k]) == array_stat(es).min_size,
        exists|k: int|
            0 <= k < es.len() && value_size(#[trigger] es[k]) == array_stat(es).max_size,
{
    lemma_elems_extremes(es, es.len() as int);
}

/// Bytes the first `n` attribute entries claim inside an object's braces:
/// each entry's size plus two quotes, its name's bytes and a colon.
pub open spec fn attr_entries_footprint(attrs: Seq<AttrStatView>, n: int) -> nat
    decreases n,
{
    if n <= 0 || n > attrs.len() {
        0
    } else {
        attr_entries_footprint(attrs, n - 1) + attrs[n - 1].size + utf8_len(attrs[n - 1].name) + 3
    }
}

/// The entries of an object's attribute list claim exactly what its members
/// weigh.
proof fn lemma_obj_attrs_footprint(ps: Seq<(Seq<char>, ValueView)>, n: int)
    requires
        0 <= n <= ps.len(),
    ensures
        attr_entries_footprint(obj_attrs(ps), n) == members_size_sum(ps, n),
    decreases n,
{
    if n > 0 {
        lemma_obj_attrs_footprint(ps, n - 1);
        assert(obj_attrs(ps)[n - 1] == member_attr(ps[n - 1]));
    }
}

/// An object's recorded size is the footprint of its attribute entries plus
/// the two braces.
pub proof fn lemma_object_size_formula(ps: Seq<(Seq<char>, ValueView)>)
    ensures
        obj_stat(ps).size == attr_entries_footprint(
            obj_stat(ps).attributes,
            obj_stat(ps).attributes.len() as int,
        ) + 2,
{
    lemma_obj_attrs_footprint(ps, ps.len() as int);
}

/// Whether an object value carries no member name twice; any other value
/// holds this vacuously.
pub open spec fn object_member_names_distinct(v: ValueView) -> bool {
    match v {
        ValueView::Object(ps) => forall|j1: int, j2: int|
            0 <= j1 < j2 < ps.len() ==> (#[trigger] ps[j1]).0 != (#[trigger] ps[j2]).0,
        _ => true,
    }
}

/// Whether a value is an object with a member of the given name.
pub open spec fn object_has_name(v: ValueView, name: Seq<char>) -> bool {
    match v {
        ValueView::Object(ps) => exists|j: int| 0 <= j < ps.len() && (#[trigger] ps[j]).0 == name,
        _ => false,
    }
}

/// How many of the first `n` elements are objects containing `name`.
pub open spec fn count_elems_with_name(es: Seq<ValueView>, name: Seq<char>, n: int) -> nat
    decreases n,
{
    if n <= 0 || n > es.len() {
        0
    } else {
        count_elems_with_name(es, name, n - 1) + if object_has_name(es[n - 1], name) {
            1nat
        } else {
            0nat
        }
    }
}

/// Sum of the counts of the entries named `name` among the first `n`.
pub open spec fn name_count_sum(attrs: Seq<AttrStatView>, name: Seq<char>, n: int) -> nat
    decreases n,
{
    if n <= 0 || n > attrs.len() {
        0
    } else {
        name_count_sum(attrs, name, n - 1) + if attrs[n - 1].name == name {
            attrs[n - 1].count
        } else {
            0nat
        }
    }
}

/// Entries of other names contribute nothing to a name's count.
proof fn lemma_name_count_sum_absent(attrs: Seq<AttrStatView>, name: Seq<char>, n: int)
    requires
        0 <= n <= attrs.len(),
        forall|k: int| 0 <= k < n ==> (#[trigger] attrs[k]).name != name,
    ensures
        name_count_sum(attrs, name, n) == 0,
    decreases n,
{
    if n > 0 {
        lemma_name_count_sum_absent(attrs, name, n - 1);
    }
}

/// Two sequences that agree on their first `n` entries count a name alike.
proof fn lemma_name_count_sum_agree(
    s1: Seq<AttrStatView>,
    s2: Seq<AttrStatView>,
    name: Seq<char>,
    n: int,
)
    requires
        n <= s1.len(),
        n <= s2.len(),
        forall|k: int| 0 <= k < n ==> s1[k] == s2[k],
    ensures
        name_count_sum(s1, name, n) == name_count_sum(s2, name, n),
    decreases n,
{
    if n > 0 {
        lemma_name_count_sum_agree(s1, s2, name, n - 1);
    }
}

/// Counting a name over a concatenation splits into the parts' counts.
proof fn lemma_name_count_sum_concat(
    x: Seq<AttrStatView>,
    y: Seq<AttrStatView>,
    name: Seq<char>,
    m: int,
)
    requires
        0 <= m <= y.len(),
    ensures
        name_count_sum(x + y, name, x.len() + m) == name_count_sum(x, name, x.len() as int)
            + name_count_sum(y, name, m),
    decreases m,
{
    if m == 0 {
        lemma_name_count_sum_agree(x + y, x, name, x.len() as int);
    } else {
        lemma_name_count_sum_concat(x, y, name, m - 1);
        assert((x + y)[x.len() + m - 1] == y[m - 1]);
    }
}

/// What a linear search result means: -1 means the name is absent from the
/// searched suffix, a non-negative result points at a group of that name.
proof fn lemma_group_index_props(gs: Seq<AttrGroup>, name: Seq<char>, i: int)
    requires
        0 <= i <= gs.len(),
    ensures
        group_index_from(gs, name, i) == -1 ==> forall|m: int|
            i <= m < gs.len() ==> (#[trigger] gs[m]).name != name,
        group_index_from(gs, name, i) != -1 ==> i <= group_index_from(gs, name, i) < gs.len()
            && gs[group_index_from(gs, name, i)].name == name,
    decreases gs.len() - i,
{
    if i < gs.len() && gs[i].name != name {
        lemma_group_index_props(gs, name, i + 1);
    }
}

/// The groups of the first `n` entries carry pairwise distinct names; a name
/// is grouped if and only if some entry carries it, and its group's count is
/// the sum of the counts of its entries.
proof fn lemma_grouped_name_count(attrs: Seq<AttrStatView>, name: Seq<char>, n: int)
    requires
        0 <= n <= attrs.len(),
    ensures
        (exists|t: int|
            0 <= t < grouped(attrs, n).len() && (#[trigger] grouped(attrs, n)[t]).name == name)
            <==> (exists|k: int| 0 <= k < n && (#[trigger] attrs[k]).name == name),
        forall|t: int|
            0 <= t < grouped(attrs, n).len() && (#[trigger] grouped(attrs, n)[t]).name == name
                ==> grouped(attrs, n)[t].count == name_count_sum(attrs, name, n),
        forall|t1: int, t2: int|
            0 <= t1 < t2 < grouped(attrs, n).len() ==> (#[trigger] grouped(attrs, n)[t1]).name
                != (#[trigger] grouped(attrs, n)[t2]).name,
    decreases n,
{
    if n > 0 {
        let gs0 = grouped(attrs, n - 1);
        let gs = grouped(attrs, n);
        let a = attrs[n - 1];
        lemma_grouped_name_count(attrs, name, n - 1);
        lemma_grouped_name_count(attrs, a.name, n - 1);
        lemma_group_index_props(gs0, a.name, 0);
        let idx = group_index_of(gs0, a.name);
        if idx < 0 {
            assert(gs == gs0.push(group_of(a)));
            assert(gs[gs0.len() as int] == group_of(a));
            assert(forall|t: int| 0 <= t < gs0.len() ==> gs[t] == gs0[t]);
            if a.name == name {
                assert(forall|k: int| 0 <= k < n - 1 ==> (#[trigger] attrs[k]).name != name);
                lemma_name_count_sum_absent(attrs, name, n - 1);
            }
        } else {
            assert(gs == gs0.update(idx, group_absorb(gs0[idx], a)));
            assert(gs[idx].name == gs0[idx].name);
            assert(forall|t: int| 0 <= t < gs0.len() && t != idx ==> gs[t] == gs0[t]);
            assert(forall|t: int|
                0 <= t < gs0.len() ==> (#[trigger] gs[t]).name == gs0[t].name);
            if a.name == name {
                assert(forall|t: int|
                    0 <= t < gs.len() && t != idx ==> (#[trigger] gs[t]).name != name);
                assert(gs[idx].count == name_count_sum(attrs, name, n));
            }
        }
    }
}

/// In an object whose member names are distinct, a name's entries count to
/// one when it occurs and to zero when it does not.
proof fn lemma_obj_attrs_name_count(ps: Seq<(Seq<char>, ValueView)>, name: Seq<char>, m: int)
    requires
        0 <= m <= ps.len(),
        forall|j1: int, j2: int|
            0 <= j1 < j2 < ps.len() ==> (#[trigger] ps[j1]).0 != (#[trigger] ps[j2]).0,
    ensures
        name_count_sum(obj_attrs(ps), name, m) == if exists|j: int|
            0 <= j < m && (#[trigger] ps[j]).0 == name {
            1nat
        } else {
            0nat
        },
    decreases m,
{
    if m > 0 {
        lemma_obj_attrs_name_count(ps, name, m - 1);
        assert(obj_attrs(ps)[m - 1] == member_attr(ps[m - 1]));
        if ps[m - 1].0 == name {
            assert forall|j: int| 0 <= j < m - 1 implies (#[trigger] ps[j]).0 != name by {
                assert(ps[j].0 != ps[m - 1].0);
            }
            lemma_name_count_sum_absent(obj_attrs(ps), name, m - 1);
        }
    }
}

/// Across the first `n` elements, a name's collected entries count exactly
/// the elements that are objects containing it, and a name is collected if
/// and only if such an element exists.
proof fn lemma_collected_name_count(es: Seq<ValueView>, name: Seq<char>, n: int)
    requires
        0 <= n <= es.len(),
        forall|k: int| 0 <= k < es.len() ==> object_member_names_distinct(#[trigger] es[k]),
    ensures
        (exists|t: int|
            0 <= t < collected_attrs(es, n).len() && (#[trigger] collected_attrs(es, n)[t]).name
                == name) <==> (exists|k: int|
            0 <= k < n && object_has_name(#[trigger] es[k], name)),
        name_count_sum(collected_attrs(es, n), name, collected_attrs(es, n).len() as int)
            == count_elems_with_name(es, name, n),
    decreases n,
{
    if n > 0 {
        lemma_collected_name_count(es, name, n - 1);
        let x = collected_attrs(es, n - 1);
        let y = elem_attrs(es[n - 1]);
        let c = collected_attrs(es, n);
        assert(c == x + y);
        lemma_name_count_sum_concat(x, y, name, y.len() as int);
        match es[n - 1] {
            ValueView::Object(ps) => {
                assert(y == obj_attrs(ps));
                lemma_obj_attrs_name_count(ps, name, ps.len() as int);
                assert forall|j: int| 0 <= j < ps.len() implies (#[trigger] y[j]).name == ps[j].0
                    by {
                    assert(y[j] == member_attr(ps[j]));
                }
                if object_has_name(es[n - 1], name) {
                    let j = choose|j: int| 0 <= j < ps.len() && (#[trigger] ps[j]).0 == name;
                    assert(y[j].name == name);
                    assert(c[x.len() + j] == y[j]);
                }
            },
            _ => {
                assert(y.len() == 0);
            },
        }
        assert forall|t: int|
            0 <= t < c.len() && (#[trigger] c[t]).name == name implies (exists|k: int|
            0 <= k < n && object_has_name(#[trigger] es[k], name)) by {
            if t < x.len() {
                assert(x[t] == c[t]);
            } else {
                let j = t - x.len();
                assert(y[j] == c[t]);
                match es[n - 1] {
                    ValueView::Object(ps) => {
                        assert(y[j] == member_attr(ps[j]));
                        assert(object_has_name(es[n - 1], name));
                    },
                    _ => {},
                }
            }
        }
        assert forall|k: int|
            0 <= k < n && object_has_name(#[trigger] es[k], name) implies (exists|t: int|
            0 <= t < c.len() && (#[trigger] c[t]).name == name) by {
            if k < n - 1 {
                let t = choose|t: int| 0 <= t < x.len() && (#[trigger] x[t]).name == name;
                assert(c[t] == x[t]);
            } else {
                match es[n - 1] {
                    ValueView::Object(ps) => {
                        let j = choose|j: int|
                            0 <= j < ps.len() && (#[trigger] ps[j]).0 == name;
                        assert(y[j] == member_attr(ps[j]));
                        assert(c[x.len() + j].name == name);
                    },
                    _ => {},
                }
            }
        }
    }
}

/// In an array whose object elements repeat no member name internally, the
/// merged attribute list names each attribute at most once; a name appears
/// exactly when some object element contains it, and its entry counts one
/// occurrence per element containing it.
pub proof fn lemma_array_attributes_by_name(es: Seq<ValueView>, name: Seq<char>)
    requires
        forall|k: int| 0 <= k < es.len() ==> object_member_names_distinct(#[trigger] es[k]),
    ensures
        forall|t1: int, t2: int|
            0 <= t1 < t2 < array_stat(es).attributes.len() ==> (#[trigger] array_stat(
                es,
            ).attributes[t1]).name != (#[trigger] array_stat(es).attributes[t2]).name,
        (exists|t: int|
            0 <= t < array_stat(es).attributes.len() && (#[trigger] array_stat(
                es,
            ).attributes[t]).name == name) <==> (exists|k: int|
            0 <= k < es.len() && object_has_name(#[trigger] es[k], name)),
        forall|t: int|
            0 <= t < array_stat(es).attributes.len() && (#[trigger] array_stat(
                es,
            ).attributes[t]).name == name ==> array_stat(es).attributes[t].count
                == count_elems_with_name(es, name, es.len() as int),
{
    let coll = collected_attrs(es, es.len() as int);
    let gs = grouped(coll, coll.len() as int);
    assert(array_stat(es).attributes == merged_attrs(coll));
    lemma_collected_name_count(es, name, es.len() as int);
    lemma_grouped_name_count(coll, name, coll.len() as int);
    assert(array_stat(es).attributes.len() == gs.len());
    assert forall|t: int| 0 <= t < gs.len() implies (#[trigger] array_stat(es).attributes[t]).name
        == gs[t].name && array_stat(es).attributes[t].count == gs[t].count by {
        assert(array_stat(es).attributes[t] == group_result(gs[t]));
    }
    assert forall|t1: int, t2: int|
        0 <= t1 < t2 < array_stat(es).attributes.len() implies (#[trigger] array_stat(
        es,
    ).attributes[t1]).name != (#[trigger] array_stat(es).attributes[t2]).name by {
        assert(gs[t1].name != gs[t2].name);
    }
    if exists|t: int|
        0 <= t < array_stat(es).attributes.len() && (#[trigger] array_stat(es).attributes[t]).name
            == name {
        let t = choose|t: int|
            0 <= t < array_stat(es).attributes.len() && (#[trigger] array_stat(
                es,
            ).attributes[t]).name == name;
        assert(gs[t].name == name);
        assert(exists|t2: int| 0 <= t2 < gs.len() && (#[trigger] gs[t2]).name == name);
    }
    if exists|k: int| 0 <= k < es.len() && object_has_name(#[trigger] es[k], name) {
        assert(exists|t: int| 0 <= t < gs.len() && (#[trigger] gs[t]).name == name);
        let t = choose|t: int| 0 <= t < gs.len() && (#[trigger] gs[t]).name == name;
        assert(array_stat(es).attributes[t].name == name);
    }
}

} // verus!

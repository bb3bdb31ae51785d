//! The aggregation algorithm: from one JSON value to its statistics node.

use vstd::prelude::*;

use crate::stats::{
    ArrayStatView, AttrStatView, JsonArrayStat, JsonAttrStat, JsonObjStat, JsonStat, JsonValStat,
    ObjStatView, StatView, ValStatView,
};
use crate::value::{
    elems_size_sum, lemma_elem_size_le_sum, lemma_elems_size_sum_mono, lemma_member_size_le_sum,
    lemma_members_size_sum_mono, members_size_sum, str_byte_len, try_value_size, value_size,
    value_view, JsonValue, ValueView,
};

verus! {

/// The attribute entry one object member contributes: the member value's
/// whole serialized size, counted once.
pub open spec fn member_attr(p: (Seq<char>, ValueView)) -> AttrStatView {
    AttrStatView {
        name: p.0,
        size: value_size(p.1),
        count: 1,
        max_size: value_size(p.1),
        min_size: value_size(p.1),
    }
}

/// One attribute entry per member of an object, in member order.
pub open spec fn obj_attrs(ps: Seq<(Seq<char>, ValueView)>) -> Seq<AttrStatView> {
    ps.map_values(|p: (Seq<char>, ValueView)| member_attr(p))
}

/// The statistics of a single object: one occurrence, no spread, one
/// attribute entry per member.
pub open spec fn obj_stat(ps: Seq<(Seq<char>, ValueView)>) -> ObjStatView {
    let size = members_size_sum(ps, ps.len() as int) + 2;
    ObjStatView {
        size,
        count: 1,
        max_size: size,
        min_size: size,
        attributes: obj_attrs(ps),
    }
}

/// The least serialized size among the first `n` elements.
pub open spec fn elems_min_size(es: Seq<ValueView>, n: int) -> nat
    decreases n,
{
    if n <= 0 || n > es.len() {
        0
    } else if n == 1 {
        value_size(es[0])
    } else {
        let rest = elems_min_size(es, n - 1);
        let last = value_size(es[n - 1]);
        if last < rest {
            last
        } else {
            rest
        }
    }
}

/// The greatest serialized size among the first `n` elements.
pub open spec fn elems_max_size(es: Seq<ValueView>, n: int) -> nat
    decreases n,
{
    if n <= 0 || n > es.len() {
        0
    } else if n == 1 {
        value_size(es[0])
    } else {
        let rest = elems_max_size(es, n - 1);
        let last = value_size(es[n - 1]);
        if last > rest {
            last
        } else {
            rest
        }
    }
}

/// The attribute entries an array element contributes: its member entries if
/// it is an object, nothing otherwise.
pub open spec fn elem_attrs(v: ValueView) -> Seq<AttrStatView> {
    match v {
        ValueView::Object(ps) => obj_attrs(ps),
        _ => Seq::empty(),
    }
}

/// All attribute entries contributed by the first `n` elements of an array,
/// in element order.
pub open spec fn collected_attrs(es: Seq<ValueView>, n: int) -> Seq<AttrStatView>
    decreases n,
{
    if n <= 0 || n > es.len() {
        Seq::empty()
    } else {
        collected_attrs(es, n - 1) + elem_attrs(es[n - 1])
    }
}

/// A running aggregate over the attribute entries of one name: the sizes
/// summed, the counts summed, the running extremes, and how many entries
/// contributed.
pub struct AttrGroup {
    pub name: Seq<char>,
    pub size_sum: nat,
    pub count: nat,
    pub max_size: nat,
    pub min_size: nat,
    pub entries: nat,
}

/// Index of the first group named `name` at or after position `i`, or -1.
pub open spec fn group_index_from(gs: Seq<AttrGroup>, name: Seq<char>, i: int) -> int
    decreases gs.len() - i,
{
    if i < 0 || i >= gs.len() {
        -1
    } else if gs[i].name == name {
        i
    } else {
        group_index_from(gs, name, i + 1)
    }
}

/// Index of the first group named `name`, or -1 when there is none.
pub open spec fn group_index_of(gs: Seq<AttrGroup>, name: Seq<char>) -> int {
    group_index_from(gs, name, 0)
}

/// One attribute entry folded into the group of its name.
pub open spec fn group_absorb(g: AttrGroup, a: AttrStatView) -> AttrGroup {
    AttrGroup {
        name: g.name,
        size_sum: g.size_sum + a.size,
        count: g.count + a.count,
        max_size: if a.max_size > g.max_size {
            a.max_size
        } else {
            g.max_size
        },
        min_size: if a.min_size < g.min_size {
            a.min_size
        } else {
            g.min_size
        },
        entries: g.entries + 1,
    }
}

/// The group a single attribute entry opens.
pub open spec fn group_of(a: AttrStatView) -> AttrGroup {
    AttrGroup {
        name: a.name,
        size_sum: a.size,
        count: a.count,
        max_size: a.max_size,
        min_size: a.min_size,
        entries: 1,
    }
}

/// One step of the grouping pass: the entry joins the group of its name, or
/// opens a new group at the end.
pub open spec fn group_step(gs: Seq<AttrGroup>, a: AttrStatView) -> Seq<AttrGroup> {
    let idx = group_index_of(gs, a.name);
    if idx < 0 {
        gs.push(group_of(a))
    } else {
        gs.update(idx, group_absorb(gs[idx], a))
    }
}

/// The groups formed by the first `n` attribute entries, in order of each
/// name's first occurrence.
pub open spec fn grouped(attrs: Seq<AttrStatView>, n: int) -> Seq<AttrGroup>
    decreases n,
{
    if n <= 0 || n > attrs.len() {
        Seq::empty()
    } else {
        group_step(grouped(attrs, n - 1), attrs[n - 1])
    }
}

/// The merged attribute entry a finished group yields; its size is the
/// truncated mean of the contributed sizes.
pub open spec fn group_result(g: AttrGroup) -> AttrStatView
    recommends
        g.entries > 0,
{
    AttrStatView {
        name: g.name,
        size: g.size_sum / g.entries,
        count: g.count,
        max_size: g.max_size,
        min_size: g.min_size,
    }
}

/// The merged attribute statistics of a sequence of attribute entries.
pub open spec fn merged_attrs(attrs: Seq<AttrStatView>) -> Seq<AttrStatView> {
    grouped(attrs, attrs.len() as int).map_values(|g: AttrGroup| group_result(g))
}

/// The statistics of one array: total size with separators (an empty array
/// counting as 0), element count, the spread of element sizes, and the object
/// elements' attribute entries merged by name.
pub open spec fn array_stat(es: Seq<ValueView>) -> ArrayStatView {
    ArrayStatView {
        size: value_size(ValueView::Array(es)),
        count: es.len(),
        max_size: elems_max_size(es, es.len() as int),
        min_size: elems_min_size(es, es.len() as int),
        attributes: merged_attrs(collected_attrs(es, es.len() as int)),
    }
}

/// A linear search that finds `name` at `j`, having missed everywhere before,
/// has found the first occurrence.
proof fn lemma_group_index_found(gs: Seq<AttrGroup>, name: Seq<char>, i: int, j: int)
    requires
        0 <= i <= j < gs.len(),
        gs[j].name == name,
        forall|m: int| i <= m < j ==> gs[m].name != name,
    ensures
        group_index_from(gs, name, i) == j,
    decreases j - i,
{
    if i < j {
        lemma_group_index_found(gs, name, i + 1, j);
    }
}

/// A linear search that missed everywhere found nothing.
proof fn lemma_group_index_none(gs: Seq<AttrGroup>, name: Seq<char>, i: int)
    requires
        0 <= i,
        forall|m: int| i <= m < gs.len() ==> gs[m].name != name,
    ensures
        group_index_from(gs, name, i) == -1,
    decreases gs.len() - i,
{
    if i < gs.len() {
        lemma_group_index_none(gs, name, i + 1);
    }
}

/// Sum of the sizes of the first `n` attribute entries.
pub open spec fn attr_sizes_sum(attrs: Seq<AttrStatView>, n: int) -> nat
    decreases n,
{
    if n <= 0 || n > attrs.len() {
        0
    } else {
        attr_sizes_sum(attrs, n - 1) + attrs[n - 1].size
    }
}

/// A longer prefix of attribute entries never sums to less than a shorter
/// one.
proof fn lemma_attr_sizes_sum_mono(attrs: Seq<AttrStatView>, i: int, j: int)
    requires
        0 <= i <= j <= attrs.len(),
    ensures
        attr_sizes_sum(attrs, i) <= attr_sizes_sum(attrs, j),
    decreases j,
{
    if i < j {
        lemma_attr_sizes_sum_mono(attrs, i, j - 1);
    }
}

/// Sum of the occurrence counts of the first `n` attribute entries.
pub open spec fn attr_counts_sum(attrs: Seq<AttrStatView>, n: int) -> nat
    decreases n,
{
    if n <= 0 || n > attrs.len() {
        0
    } else {
        attr_counts_sum(attrs, n - 1) + attrs[n - 1].count
    }
}

/// A longer prefix of attribute entries never counts less than a shorter
/// one.
proof fn lemma_attr_counts_sum_mono(attrs: Seq<AttrStatView>, i: int, j: int)
    requires
        0 <= i <= j <= attrs.len(),
    ensures
        attr_counts_sum(attrs, i) <= attr_counts_sum(attrs, j),
    decreases j,
{
    if i < j {
        lemma_attr_counts_sum_mono(attrs, i, j - 1);
    }
}

/// When every entry counts one occurrence, the counts sum to the length.
proof fn lemma_attr_counts_sum_ones(attrs: Seq<AttrStatView>, n: int)
    requires
        0 <= n <= attrs.len(),
        forall|k: int| 0 <= k < attrs.len() ==> (#[trigger] attrs[k]).count == 1,
    ensures
        attr_counts_sum(attrs, n) == n,
    decreases n,
{
    if n > 0 {
        lemma_attr_counts_sum_ones(attrs, n - 1);
    }
}

/// Two sequences that agree on their first `n` entries sum those entries
/// alike.
proof fn lemma_attr_sizes_sum_agree(s1: Seq<AttrStatView>, s2: Seq<AttrStatView>, n: int)
    requires
        n <= s1.len(),
        n <= s2.len(),
        forall|k: int| 0 <= k < n ==> s1[k] == s2[k],
    ensures
        attr_sizes_sum(s1, n) == attr_sizes_sum(s2, n),
    decreases n,
{
    if n > 0 {
        lemma_attr_sizes_sum_agree(s1, s2, n - 1);
    }
}

/// Summing a concatenation splits into the two parts' sums.
proof fn lemma_attr_sizes_sum_concat(a: Seq<AttrStatView>, b: Seq<AttrStatView>, m: int)
    requires
        0 <= m <= b.len(),
    ensures
        attr_sizes_sum(a + b, a.len() + m) == attr_sizes_sum(a, a.len() as int) + attr_sizes_sum(
            b,
            m,
        ),
    decreases m,
{
    if m == 0 {
        lemma_attr_sizes_sum_agree(a + b, a, a.len() as int);
    } else {
        lemma_attr_sizes_sum_concat(a, b, m - 1);
        assert((a + b)[a.len() + m - 1] == b[m - 1]);
    }
}

/// An object's attribute entries together weigh no more than its members.
proof fn lemma_obj_attrs_sizes(ps: Seq<(Seq<char>, ValueView)>, n: int)
    requires
        0 <= n <= ps.len(),
    ensures
        attr_sizes_sum(obj_attrs(ps), n) <= members_size_sum(ps, n),
    decreases n,
{
    if n > 0 {
        lemma_obj_attrs_sizes(ps, n - 1);
    }
}

/// One element's attribute entries together weigh no more than the element.
proof fn lemma_elem_attrs_sizes(v: ValueView)
    ensures
        attr_sizes_sum(elem_attrs(v), elem_attrs(v).len() as int) <= value_size(v),
{
    match v {
        ValueView::Object(ps) => {
            lemma_obj_attrs_sizes(ps, ps.len() as int);
        },
        _ => {},
    }
}

/// The attribute entries collected from the first `n` elements together weigh
/// no more than those elements.
proof fn lemma_collected_attrs_sizes(es: Seq<ValueView>, n: int)
    requires
        0 <= n <= es.len(),
    ensures
        attr_sizes_sum(collected_attrs(es, n), collected_attrs(es, n).len() as int)
            <= elems_size_sum(es, n),
    decreases n,
{
    if n > 0 {
        lemma_collected_attrs_sizes(es, n - 1);
        lemma_elem_attrs_sizes(es[n - 1]);
        lemma_attr_sizes_sum_concat(
            collected_attrs(es, n - 1),
            elem_attrs(es[n - 1]),
            elem_attrs(es[n - 1]).len() as int,
        );
    }
}

/// The statistics node the aggregator owes for `v`: a scalar's size with no
/// spread, an object's member entries, or an array's merged element
/// statistics.
pub open spec fn spec_extract(v: ValueView) -> StatView {
    match v {
        ValueView::Object(ps) => StatView::ObjStat(obj_stat(ps)),
        ValueView::Array(es) => StatView::ArrayStat(array_stat(es)),
        _ => StatView::ValStat(
            ValStatView {
                size: value_size(v),
                max_size: value_size(v),
                min_size: value_size(v),
            },
        ),
    }
}

/// The views of a vector of attribute statistics.
pub open spec fn attr_views(s: Seq<JsonAttrStat>) -> Seq<AttrStatView> {
    s.map_values(|a: JsonAttrStat| a@)
}

/// Appending an attribute statistic appends its view.
proof fn lemma_attr_views_push(s: Seq<JsonAttrStat>, a: JsonAttrStat)
    ensures
        attr_views(s.push(a)) == attr_views(s).push(a@),
{
    assert(attr_views(s.push(a)) =~= attr_views(s).push(a@));
}

/// Pushing the next entry of `y` extends a concatenation's taken prefix.
proof fn lemma_concat_take_push(x: Seq<AttrStatView>, y: Seq<AttrStatView>, j: int)
    requires
        0 <= j < y.len(),
    ensures
        (x + y.take(j)).push(y[j]) == x + y.take(j + 1),
{
    assert((x + y.take(j)).push(y[j]) =~= x + y.take(j + 1));
}

/// A group of attribute entries being accumulated, one per distinct name.
struct GroupBuild {
    name: String,
    size_sum: usize,
    count: usize,
    max_size: usize,
    min_size: usize,
    entries: usize,
}

impl View for GroupBuild {
    type V = AttrGroup;

    closed spec fn view(&self) -> AttrGroup {
        AttrGroup {
            name: self.name@,
            size_sum: self.size_sum as nat,
            count: self.count as nat,
            max_size: self.max_size as nat,
            min_size: self.min_size as nat,
            entries: self.entries as nat,
        }
    }
}

/// Merges collected attribute entries by name, in order of first occurrence,
/// summing counts, averaging sizes and keeping the extremes.
fn merge_collected(collected: &Vec<JsonAttrStat>) -> (r: Vec<JsonAttrStat>)
    requires
        attr_sizes_sum(attr_views(collected@), collected@.len() as int) <= usize::MAX,
        attr_counts_sum(attr_views(collected@), collected@.len() as int) <= usize::MAX,
    ensures
        r@.map_values(|a: JsonAttrStat| a@) == merged_attrs(attr_views(collected@)),
{
    let ghost avs = attr_views(collected@);
    let cn: usize = collected.len();
    let mut groups: Vec<GroupBuild> = Vec::new();
    let mut k: usize = 0;
    while k < cn
        invariant
            cn == collected@.len(),
            0 <= k <= cn,
            avs == attr_views(collected@),
            attr_sizes_sum(avs, cn as int) <= usize::MAX,
            attr_counts_sum(avs, cn as int) <= usize::MAX,
            groups@.map_values(|g: GroupBuild| g@) == grouped(avs, k as int),
            forall|j: int|
                0 <= j < groups@.len() ==> (#[trigger] groups@[j])@.size_sum <= attr_sizes_sum(
                    avs,
                    k as int,
                ),
            forall|j: int|
                0 <= j < groups@.len() ==> (#[trigger] groups@[j])@.count <= attr_counts_sum(
                    avs,
                    k as int,
                ),
            forall|j: int|
                0 <= j < groups@.len() ==> 1 <= (#[trigger] groups@[j])@.entries <= k,
        decreases cn - k,
    {
        let a = &collected[k];
        let gn: usize = groups.len();
        let mut idx: usize = gn;
        let mut j: usize = 0;
        while j < gn
            invariant
                0 <= j <= gn,
                gn == groups@.len(),
                a@ == avs[k as int],
                avs == attr_views(collected@),
                0 <= k < cn == collected@.len(),
                a == &collected@[k as int],
                idx == gn || idx < j,
                idx == gn ==> forall|m: int|
                    0 <= m < j ==> (#[trigger] groups@[m])@.name != a@.name,
                idx < gn ==> groups@[idx as int]@.name == a@.name && forall|m: int|
                    0 <= m < idx ==> (#[trigger] groups@[m])@.name != a@.name,
            decreases gn - j,
        {
            if idx == gn {
                if groups[j].name == a.name {
                    idx = j;
                }
            }
            j = j + 1;
        }
        let ghost old_groups = groups@.map_values(|g: GroupBuild| g@);
        if idx == gn {
            proof {
                lemma_group_index_none(old_groups, a@.name, 0);
            }
            groups.push(
                GroupBuild {
                    name: a.name.clone(),
                    size_sum: a.size,
                    count: a.count,
                    max_size: a.max_size,
                    min_size: a.min_size,
                    entries: 1,
                },
            );
            proof {
                lemma_attr_sizes_sum_mono(avs, k as int, k + 1);
                assert(groups@.map_values(|g: GroupBuild| g@) =~= old_groups.push(
                    group_of(avs[k as int]),
                ));
                assert(groups@.map_values(|g: GroupBuild| g@) == grouped(avs, k + 1));
            }
        } else {
            proof {
                lemma_group_index_found(old_groups, a@.name, 0, idx as int);
                lemma_attr_sizes_sum_mono(avs, k + 1, cn as int);
                lemma_attr_counts_sum_mono(avs, k + 1, cn as int);
            }
            let merged_group = GroupBuild {
                name: groups[idx].name.clone(),
                size_sum: groups[idx].size_sum + a.size,
                count: groups[idx].count + a.count,
                max_size: if a.max_size > groups[idx].max_size {
                    a.max_size
                } else {
                    groups[idx].max_size
                },
                min_size: if a.min_size < groups[idx].min_size {
                    a.min_size
                } else {
                    groups[idx].min_size
                },
                entries: groups[idx].entries + 1,
            };
            groups[idx] = merged_group;
            proof {
                assert(groups@.map_values(|g: GroupBuild| g@) =~= old_groups.update(
                    idx as int,
                    group_absorb(old_groups[idx as int], avs[k as int]),
                ));
                assert(groups@.map_values(|g: GroupBuild| g@) == grouped(avs, k + 1));
            }
        }
        k = k + 1;
    }
    let gn: usize = groups.len();
    let mut merged: Vec<JsonAttrStat> = Vec::new();
    let mut t: usize = 0;
    while t < gn
        invariant
            0 <= t <= gn,
            gn == groups@.len(),
            groups@.map_values(|g: GroupBuild| g@) == grouped(avs, cn as int),
            avs == attr_views(collected@),
            cn == collected@.len(),
            forall|j: int| 0 <= j < groups@.len() ==> (#[trigger] groups@[j])@.entries >= 1,
            merged@.len() == t,
            forall|m: int|
                0 <= m < t ==> (#[trigger] merged@[m])@ == group_result(groups@[m]@),
        decreases gn - t,
    {
        let g = &groups[t];
        merged.push(
            JsonAttrStat {
                name: g.name.clone(),
                size: g.size_sum / g.entries,
                count: g.count,
                max_size: g.max_size,
                min_size: g.min_size,
            },
        );
        t = t + 1;
    }
    proof {
        assert(merged@.map_values(|a: JsonAttrStat| a@) =~= merged_attrs(avs));
    }
    merged
}

/// The aggregator: the statistics node for one parsed JSON value.
pub fn extract_stat_from_json_iter(v: &JsonValue) -> (r: JsonStat)
    requires
        value_size(v@) <= usize::MAX,
    ensures
        r@ == spec_extract(v@),
{
    match v {
        JsonValue::Null => JsonStat::ValStat(JsonValStat { size: 4, max_size: 4, min_size: 4 }),
        JsonValue::Bool(b) => {
            let sz: usize = if *b {
                4
            } else {
                5
            };
            JsonStat::ValStat(JsonValStat { size: sz, max_size: sz, min_size: sz })
        },
        JsonValue::Number(s) => {
            let sz = str_byte_len(s.as_str());
            JsonStat::ValStat(JsonValStat { size: sz, max_size: sz, min_size: sz })
        },
        JsonValue::Text(s) => {
            let sz = str_byte_len(s.as_str()) + 2;
            JsonStat::ValStat(JsonValStat { size: sz, max_size: sz, min_size: sz })
        },
        JsonValue::Object(ps) => {
            let ghost ms = match v@ {
                ValueView::Object(m) => m,
                _ => Seq::empty(),
            };
            let n: usize = ps.len();
            let mut attrs: Vec<JsonAttrStat> = Vec::new();
            let mut total: usize = 0;
            let mut i: usize = 0;
            while i < n
                invariant
                    n == ps@.len(),
                    0 <= i <= n,
                    *v == JsonValue::Object(*ps),
                    v@ == ValueView::Object(ms),
                    value_size(v@) <= usize::MAX,
                    ms.len() == n,
                    forall|k: int| 0 <= k < n ==> ms[k] == (ps@[k].0@, value_view(ps@[k].1)),
                    total == members_size_sum(ms, i as int),
                    attrs@.len() == i,
                    forall|k: int| 0 <= k < i ==> (#[trigger] attrs@[k])@ == member_attr(ms[k]),
                decreases n - i,
            {
                let opt = try_value_size(&ps[i].1);
                proof {
                    lemma_member_size_le_sum(ms, i as int);
                }
                let val_size = opt.unwrap();
                let name_len = str_byte_len(ps[i].0.as_str());
                proof {
                    lemma_members_size_sum_mono(ms, i + 1, n as int);
                }
                attrs.push(
                    JsonAttrStat {
                        name: ps[i].0.clone(),
                        size: val_size,
                        count: 1,
                        max_size: val_size,
                        min_size: val_size,
                    },
                );
                total = total + val_size;
                total = total + name_len;
                total = total + 3;
                i = i + 1;
            }
            let total = total + 2;
            let os = JsonObjStat {
                size: total,
                count: 1,
                max_size: total,
                min_size: total,
                attributes: attrs,
            };
            proof {
                assert(os@.attributes =~= obj_attrs(ms));
                assert(os@ == obj_stat(ms));
            }
            JsonStat::ObjStat(os)
        },
        JsonValue::Array(es) => {
            let ghost vs = match v@ {
                ValueView::Array(x) => x,
                _ => Seq::empty(),
            };
            let n: usize = es.len();
            if n == 0 {
                let ars = JsonArrayStat {
                    size: 0,
                    count: 0,
                    max_size: 0,
                    min_size: 0,
                    attributes: Vec::new(),
                };
                proof {
                    assert(ars@.attributes =~= merged_attrs(collected_attrs(vs, 0)));
                    assert(ars@ == array_stat(vs));
                }
                return JsonStat::ArrayStat(ars);
            }
            let mut sum: usize = 0;
            let mut min_size: usize = 0;
            let mut max_size: usize = 0;
            let mut i: usize = 0;
            while i < n
                invariant
                    0 < n == es@.len(),
                    0 <= i <= n,
                    *v == JsonValue::Array(*es),
                    v@ == ValueView::Array(vs),
                    value_size(v@) <= usize::MAX,
                    vs.len() == n,
                    forall|k: int| 0 <= k < n ==> vs[k] == value_view(es@[k]),
                    sum == elems_size_sum(vs, i as int),
                    i > 0 ==> min_size == elems_min_size(vs, i as int) && max_size
                        == elems_max_size(vs, i as int),
                decreases n - i,
            {
                let opt = try_value_size(&es[i]);
                proof {
                    lemma_elem_size_le_sum(vs, i as int);
                    lemma_elems_size_sum_mono(vs, i + 1, n as int);
                }
                let sz = opt.unwrap();
                if i == 0 {
                    min_size = sz;
                    max_size = sz;
                } else {
                    if sz < min_size {
                        min_size = sz;
                    }
                    if sz > max_size {
                        max_size = sz;
                    }
                }
                sum = sum + sz;
                i = i + 1;
            }
            let total_size = sum + (n - 1) + 2;
            let mut collected: Vec<JsonAttrStat> = Vec::new();
            let mut i: usize = 0;
            while i < n
                invariant
                    0 < n == es@.len(),
                    0 <= i <= n,
                    *v == JsonValue::Array(*es),
                    v@ == ValueView::Array(vs),
                    value_size(v@) <= usize::MAX,
                    vs.len() == n,
                    forall|k: int| 0 <= k < n ==> vs[k] == value_view(es@[k]),
                    attr_views(collected@) == collected_attrs(vs, i as int),
                    forall|k: int|
                        0 <= k < collected@.len() ==> (#[trigger] collected@[k])@.count == 1,
                decreases n - i,
            {
                match &es[i] {
                    JsonValue::Object(ops) => {
                        let ghost msi = match vs[i as int] {
                            ValueView::Object(m) => m,
                            _ => Seq::empty(),
                        };
                        let m: usize = ops.len();
                        proof {
                            assert(attr_views(collected@) =~= collected_attrs(vs, i as int)
                                + obj_attrs(msi).take(0));
                        }
                        let mut jj: usize = 0;
                        while jj < m
                            invariant
                                0 <= jj <= m,
                                m == ops@.len(),
                                0 <= i < n == es@.len(),
                                es@[i as int] == JsonValue::Object(*ops),
                                v@ == ValueView::Array(vs),
                                value_size(v@) <= usize::MAX,
                                vs.len() == n,
                                vs[i as int] == ValueView::Object(msi),
                                msi.len() == m,
                                forall|k: int|
                                    0 <= k < m ==> msi[k] == (ops@[k].0@, value_view(ops@[k].1)),
                                attr_views(collected@) == collected_attrs(vs, i as int)
                                    + obj_attrs(msi).take(jj as int),
                                forall|k: int|
                                    0 <= k < collected@.len() ==> (#[trigger] collected@[k])@.count
                                        == 1,
                            decreases m - jj,
                        {
                            let opt = try_value_size(&ops[jj].1);
                            proof {
                                lemma_member_size_le_sum(msi, jj as int);
                                lemma_elem_size_le_sum(vs, i as int);
                            }
                            let val_size = opt.unwrap();
                            let entry = JsonAttrStat {
                                name: ops[jj].0.clone(),
                                size: val_size,
                                count: 1,
                                max_size: val_size,
                                min_size: val_size,
                            };
                            let ghost pre = collected@;
                            let ghost ev = entry;
                            collected.push(entry);
                            proof {
                                assert(obj_attrs(msi)[jj as int] == member_attr(msi[jj as int]));
                                assert(ev@ == member_attr(msi[jj as int]));
                                lemma_attr_views_push(pre, ev);
                                lemma_concat_take_push(
                                    collected_attrs(vs, i as int),
                                    obj_attrs(msi),
                                    jj as int,
                                );
                                assert(attr_views(collected@) == collected_attrs(vs, i as int)
                                    + obj_attrs(msi).take(jj + 1));
                            }
                            jj = jj + 1;
                        }
                        proof {
                            assert(obj_attrs(msi).take(m as int) =~= obj_attrs(msi));
                            assert(attr_views(collected@) =~= collected_attrs(vs, i + 1));
                        }
                    },
                    _ => {
                        proof {
                            assert(elem_attrs(vs[i as int]) =~= Seq::<AttrStatView>::empty());
                            assert(attr_views(collected@) =~= collected_attrs(vs, i + 1));
                        }
                    },
                }
                i = i + 1;
            }
            proof {
                assert forall|k: int|
                    0 <= k < attr_views(collected@).len() implies (#[trigger] attr_views(
                    collected@,
                )[k]).count == 1 by {
                    assert(attr_views(collected@)[k] == collected@[k]@);
                }
                lemma_collected_attrs_sizes(vs, n as int);
                lemma_attr_counts_sum_ones(attr_views(collected@), collected@.len() as int);
                assert(value_size(v@) == elems_size_sum(vs, n as int) + ((n - 1) as nat) + 2);
                assert(attr_sizes_sum(attr_views(collected@), collected@.len() as int)
                    <= usize::MAX);
                assert(attr_counts_sum(attr_views(collected@), collected@.len() as int)
                    <= usize::MAX);
            }
            let merged = merge_collected(&collected);
            let ars = JsonArrayStat {
                size: total_size,
                count: n,
                max_size,
                min_size,
                attributes: merged,
            };
            proof {
                assert(ars@.attributes =~= merged_attrs(collected_attrs(vs, n as int)));
                assert(ars@ == array_stat(vs));
            }
            JsonStat::ArrayStat(ars)
        },
    }
}

/// The statistics for `v`, or `None` when its serialized size cannot be
/// represented in a machine word.
pub fn extract_stat_checked(v: &JsonValue) -> (r: Option<JsonStat>)
    ensures
        match r {
            Some(st) => value_size(v@) <= usize::MAX && st@ == spec_extract(v@),
            None => value_size(v@) > usize::MAX,
        },
{
    match try_value_size(v) {
        Some(_) => Some(extract_stat_from_json_iter(v)),
        None => None,
    }
}

} // verus!

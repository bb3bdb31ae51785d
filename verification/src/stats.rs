//! The statistics a run of the aggregator produces, and their mathematical
//! views.

use vstd::prelude::*;

verus! {

/// Aggregated statistics for one attribute name.
///
/// Attached to an object's statistics it describes that object's single
/// occurrence of the name (`count` is 1 and the three sizes agree); attached
/// to an array's statistics it merges every occurrence of the name across the
/// array's object elements.
#[derive(Debug, Clone, PartialEq, Eq)]
pub struct JsonAttrStat {
    pub name: String,
    pub size: usize,
    pub count: usize,
    pub max_size: usize,
    pub min_size: usize,
}

/// Statistics for a single scalar value: its serialized byte size, with no
/// spread between minimum and maximum.
#[derive(Debug, Clone, PartialEq, Eq)]
pub struct JsonValStat {
    pub size: usize,
    pub max_size: usize,
    pub min_size: usize,
}

/// Statistics for one object: its whole serialized size and one attribute
/// entry per member, in member order.
#[derive(Debug, Clone, PartialEq, Eq)]
pub struct JsonObjStat {
    pub size: usize,
    pub count: usize,
    pub max_size: usize,
    pub min_size: usize,
    pub attributes: Vec<JsonAttrStat>,
}

/// Statistics for one array: the serialized size over all elements, the
/// element count, the least and greatest element size, and the attribute
/// statistics of the object elements merged by name.
#[derive(Debug, Clone, PartialEq, Eq)]
pub struct JsonArrayStat {
    pub size: usize,
    pub count: usize,
    pub max_size: usize,
    pub min_size: usize,
    pub attributes: Vec<JsonAttrStat>,
}

/// The statistics node returned for one JSON value.
#[derive(Debug, Clone, PartialEq, Eq)]
pub enum JsonStat {
    ValStat(JsonValStat),
    ObjStat(JsonObjStat),
    ArrayStat(JsonArrayStat),
}

/// Mathematical view of a [`JsonAttrStat`].
pub struct AttrStatView {
    pub name: Seq<char>,
    pub size: nat,
    pub count: nat,
    pub max_size: nat,
    pub min_size: nat,
}

/// Mathematical view of a [`JsonValStat`].
pub struct ValStatView {
    pub size: nat,
    pub max_size: nat,
    pub min_size: nat,
}

/// Mathematical view of a [`JsonObjStat`].
pub struct ObjStatView {
    pub size: nat,
    pub count: nat,
    pub max_size: nat,
    pub min_size: nat,
    pub attributes: Seq<AttrStatView>,
}

/// Mathematical view of a [`JsonArrayStat`].
pub struct ArrayStatView {
    pub size: nat,
    pub count: nat,
    pub max_size: nat,
    pub min_size: nat,
    pub attributes: Seq<AttrStatView>,
}

/// Mathematical view of a [`JsonStat`].
pub enum StatView {
    ValStat(ValStatView),
    ObjStat(ObjStatView),
    ArrayStat(ArrayStatView),
}

impl View for JsonAttrStat {
    type V = AttrStatView;

    open spec fn view(&self) -> AttrStatView {
        AttrStatView {
            name: self.name@,
            size: self.size as nat,
            count: self.count as nat,
            max_size: self.max_size as nat,
            min_size: self.min_size as nat,
        }
    }
}

impl View for JsonValStat {
    type V = ValStatView;

    open spec fn view(&self) -> ValStatView {
        ValStatView {
            size: self.size as nat,
            max_size: self.max_size as nat,
            min_size: self.min_size as nat,
        }
    }
}

impl View for JsonObjStat {
    type V = ObjStatView;

    open spec fn view(&self) -> ObjStatView {
        ObjStatView {
            size: self.size as nat,
            count: self.count as nat,
            max_size: self.max_size as nat,
            min_size: self.min_size as nat,
            attributes: self.attributes@.map_values(|a: JsonAttrStat| a@),
        }
    }
}

impl View for JsonArrayStat {
    type V = ArrayStatView;

    open spec fn view(&self) -> ArrayStatView {
        ArrayStatView {
            size: self.size as nat,
            count: self.count as nat,
            max_size: self.max_size as nat,
            min_size: self.min_size as nat,
            attributes: self.attributes@.map_values(|a: JsonAttrStat| a@),
        }
    }
}

impl View for JsonStat {
    type V = StatView;

    open spec fn view(&self) -> StatView {
        match *self {
            JsonStat::ValStat(vs) => StatView::ValStat(vs@),
            JsonStat::ObjStat(os) => StatView::ObjStat(os@),
            JsonStat::ArrayStat(ars) => StatView::ArrayStat(ars@),
        }
    }
}

/// The total serialized size a statistics node reports.
pub open spec fn stat_size(s: StatView) -> nat {
    match s {
        StatView::ValStat(vs) => vs.size,
        StatView::ObjStat(os) => os.size,
        StatView::ArrayStat(ars) => ars.size,
    }
}

/// The serialized byte size recorded in a statistics node, whichever variant
/// it is.
pub fn json_stat_size(json_stat: &JsonStat) -> (r: usize)
    ensures
        r == stat_size(json_stat@),
{
    match json_stat {
        JsonStat::ValStat(vs) => vs.size,
        JsonStat::ObjStat(os) => os.size,
        JsonStat::ArrayStat(ars) => ars.size,
    }
}

} // verus!

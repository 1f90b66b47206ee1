//! The scene node's segmentation of one frozen frame: model layers, each replacing the
//! earlier layer of the same source, and user-drawn manual regions; what a removal
//! request does to them; and how they are combined into one list of instances and a
//! sorted list of placement labels.
use vstd::prelude::*;
use crate::keyed_list::KeyedList;
use crate::realsense::{trim, trim_spec};
use crate::text::{owned, seq_lt, str_eq};

verus! {

/// The instances one segmentation source found on the frame.
#[derive(Debug)]
pub struct SegmentationLayer {
    pub source: String,
    pub instance_ids: Vec<String>,
    pub placement_labels: Vec<String>,
}

/// A user-drawn region: its id, its label, and whether its box lies inside the image
/// with a positive width and height.
#[derive(Debug)]
pub struct ManualRegion {
    pub id: String,
    pub label: String,
    pub box_in_image: bool,
}

/// Why a segmentation edit is refused.
#[derive(PartialEq, Eq, Structural, Clone, Copy, Debug)]
pub enum SegmentationError {
    DuplicateRegion,
    BlankRegion,
    RegionOutsideImage,
    MissingInstance,
}

pub open spec fn segmentation_error_text(e: SegmentationError) -> Seq<char> {
    match e {
        SegmentationError::DuplicateRegion => "标注编号重复"@,
        SegmentationError::BlankRegion => "标注编号和名称不能为空"@,
        SegmentationError::RegionOutsideImage => "标注框必须在当前图像范围内，并具有正宽高"@,
        SegmentationError::MissingInstance => "待移除实例已不存在"@,
    }
}

impl SegmentationError {
    /// The message reported for the refusal.
    pub fn message(&self) -> (res: String)
        ensures
            res@ == segmentation_error_text(*self),
    {
        match self {
            SegmentationError::DuplicateRegion => owned("标注编号重复"),
            SegmentationError::BlankRegion => owned("标注编号和名称不能为空"),
            SegmentationError::RegionOutsideImage => owned("标注框必须在当前图像范围内，并具有正宽高"),
            SegmentationError::MissingInstance => owned("待移除实例已不存在"),
        }
    }
}

// ---------------------------------------------------------------------------------------
// Views
// ---------------------------------------------------------------------------------------

pub open spec fn texts(v: Seq<String>) -> Seq<Seq<char>> {
    v.map_values(|s: String| s@)
}

/// A layer as plain values: source, instance ids, placement labels.
pub type LayerView = (Seq<char>, Seq<Seq<char>>, Seq<Seq<char>>);

pub open spec fn layer_view(l: SegmentationLayer) -> LayerView {
    (l.source@, texts(l.instance_ids@), texts(l.placement_labels@))
}

pub open spec fn layers_view(ls: Seq<SegmentationLayer>) -> Seq<LayerView> {
    ls.map_values(|l: SegmentationLayer| layer_view(l))
}

/// A region as plain values: id, label, whether its box is usable.
pub type RegionView = (Seq<char>, Seq<char>, bool);

pub open spec fn region_view(r: ManualRegion) -> RegionView {
    (r.id@, r.label@, r.box_in_image)
}

pub open spec fn regions_view(rs: Seq<ManualRegion>) -> Seq<RegionView> {
    rs.map_values(|r: ManualRegion| region_view(r))
}

/// The instance id of a manual region.
pub open spec fn manual_instance_id(id: Seq<char>) -> Seq<char> {
    "manual:"@ + id
}

fn copy_texts(v: &Vec<String>) -> (res: Vec<String>)
    ensures
        texts(res@) == texts(v@),
{
    let mut res: Vec<String> = Vec::new();
    let mut i: usize = 0;
    while i < v.len()
        invariant
            i <= v@.len(),
            texts(res@) == texts(v@).take(i as int),
        decreases v@.len() - i,
    {
        let ghost before = texts(res@);
        res.push(v[i].clone());
        assert(texts(res@) =~= before.push(v@[i as int]@));
        assert(texts(v@).take(i as int + 1) =~= texts(v@).take(i as int).push(v@[i as int]@));
        i += 1;
    }
    assert(texts(v@).take(v@.len() as int) =~= texts(v@));
    res
}

fn copy_layer(l: &SegmentationLayer) -> (res: SegmentationLayer)
    ensures
        layer_view(res) == layer_view(*l),
{
    SegmentationLayer {
        source: l.source.clone(),
        instance_ids: copy_texts(&l.instance_ids),
        placement_labels: copy_texts(&l.placement_labels),
    }
}

fn copy_region(r: &ManualRegion) -> (res: ManualRegion)
    ensures
        region_view(res) == region_view(*r),
{
    ManualRegion { id: r.id.clone(), label: r.label.clone(), box_in_image: r.box_in_image }
}

// ---------------------------------------------------------------------------------------
// Model layers
// ---------------------------------------------------------------------------------------

/// Keeps the layers of another source.
pub open spec fn other_source(source: Seq<char>) -> spec_fn(LayerView) -> bool {
    |o: LayerView| o.0 != source
}

/// The layers with `l` in place of the earlier layer of its source, last.
pub open spec fn replace_layer(ls: Seq<LayerView>, l: LayerView) -> Seq<LayerView> {
    ls.filter(other_source(l.0)).push(l)
}

/// The layers after a model run that produced the layers `fresh`, in order.
pub open spec fn merged_layers(ls: Seq<LayerView>, fresh: Seq<LayerView>) -> Seq<LayerView>
    decreases fresh.len(),
{
    if fresh.len() == 0 {
        ls
    } else {
        replace_layer(merged_layers(ls, fresh.drop_last()), fresh.last())
    }
}

fn replace_one(layers: &mut Vec<SegmentationLayer>, fresh: &SegmentationLayer)
    ensures
        layers_view(final(layers)@) == replace_layer(layers_view(old(layers)@), layer_view(*fresh)),
{
    let ghost v = layers_view(layers@);
    let ghost pred = other_source(fresh.source@);
    let mut kept: Vec<SegmentationLayer> = Vec::new();
    let mut j: usize = 0;
    while j < layers.len()
        invariant
            j <= layers@.len(),
            v == layers_view(layers@),
            pred == other_source(fresh.source@),
            layers_view(kept@) == v.take(j as int).filter(pred),
        decreases layers@.len() - j,
    {
        proof {
            assert(v.take(j as int + 1) =~= v.take(j as int).push(v[j as int]));
            v.take(j as int).lemma_filter_push(v[j as int], pred);
        }
        if !str_eq(layers[j].source.as_str(), fresh.source.as_str()) {
            let ghost before = layers_view(kept@);
            kept.push(copy_layer(&layers[j]));
            assert(layers_view(kept@) =~= before.push(v[j as int]));
        }
        j += 1;
    }
    assert(v.take(layers@.len() as int) =~= v);
    let ghost before = layers_view(kept@);
    kept.push(copy_layer(fresh));
    assert(layers_view(kept@) =~= before.push(layer_view(*fresh)));
    *layers = kept;
}

/// Applies the layers of a model run: each replaces the layer of its source, if any, and
/// is placed last.
pub fn merge_model_layers(layers: &mut Vec<SegmentationLayer>, fresh: &Vec<SegmentationLayer>)
    ensures
        layers_view(final(layers)@) == merged_layers(layers_view(old(layers)@), layers_view(fresh@)),
{
    let ghost start = layers_view(layers@);
    let ghost f = layers_view(fresh@);
    let mut i: usize = 0;
    while i < fresh.len()
        invariant
            i <= fresh@.len(),
            f == layers_view(fresh@),
            layers_view(layers@) == merged_layers(start, f.take(i as int)),
        decreases fresh@.len() - i,
    {
        replace_one(layers, &fresh[i]);
        assert(f.take(i as int + 1).drop_last() =~= f.take(i as int));
        i += 1;
    }
    assert(f.take(fresh@.len() as int) =~= f);
}

/// No two layers come from the same source.
pub open spec fn distinct_sources(ls: Seq<LayerView>) -> bool {
    forall|i: int, j: int| 0 <= i < j < ls.len() ==> (#[trigger] ls[i]).0 != (#[trigger] ls[j]).0
}

proof fn lemma_filter_distinct(ls: Seq<LayerView>, pred: spec_fn(LayerView) -> bool)
    requires
        distinct_sources(ls),
    ensures
        distinct_sources(ls.filter(pred)),
        forall|i: int| 0 <= i < ls.filter(pred).len() ==> pred(#[trigger] ls.filter(pred)[i]) && ls.contains(ls.filter(pred)[i]),
    decreases ls.len(),
{
    if ls.len() > 0 {
        let p = ls.drop_last();
        let e = ls.last();
        assert(ls =~= p.push(e));
        assert(distinct_sources(p));
        lemma_filter_distinct(p, pred);
        p.lemma_filter_push(e, pred);
        let fp = p.filter(pred);
        assert forall|i: int| 0 <= i < fp.len() implies (#[trigger] fp[i]).0 != e.0 by {
            assert(p.contains(fp[i]));
            let k = choose|k: int| 0 <= k < p.len() && p[k] == fp[i];
            assert(ls[k] == p[k]);
            assert(ls[ls.len() - 1] == e);
        }
        assert forall|i: int| 0 <= i < ls.filter(pred).len() implies pred(#[trigger] ls.filter(pred)[i]) && ls.contains(
            ls.filter(pred)[i],
        ) by {
            if i < fp.len() {
                let k = choose|k: int| 0 <= k < p.len() && p[k] == fp[i];
                assert(ls[k] == p[k]);
            } else {
                assert(ls[ls.len() - 1] == e);
            }
        }
    } else {
        assert(ls.filter(pred) =~= ls);
    }
}

/// A model run leaves one layer per source: if no two layers shared a source before,
/// none do after, and each source of the run has its layer.
pub proof fn merged_layers_keep_one_layer_per_source(ls: Seq<LayerView>, fresh: Seq<LayerView>)
    requires
        distinct_sources(ls),
    ensures
        distinct_sources(merged_layers(ls, fresh)),
        forall|i: int|
            0 <= i < fresh.len() ==> exists|j: int|
                0 <= j < merged_layers(ls, fresh).len() && (#[trigger] merged_layers(ls, fresh)[j]).0 == (#[trigger] fresh[i]).0,
    decreases fresh.len(),
{
    if fresh.len() > 0 {
        let p = fresh.drop_last();
        let l = fresh.last();
        let prev = merged_layers(ls, p);
        merged_layers_keep_one_layer_per_source(ls, p);
        let pred = other_source(l.0);
        lemma_filter_distinct(prev, pred);
        let kept = prev.filter(pred);
        let res = kept.push(l);
        assert(res == merged_layers(ls, fresh));
        assert forall|i: int, j: int| 0 <= i < j < res.len() implies (#[trigger] res[i]).0 != (#[trigger] res[j]).0 by {
            if j == res.len() - 1 {
                assert(pred(kept[i]));
            } else {
                assert(res[i] == kept[i] && res[j] == kept[j]);
            }
        }
        assert forall|i: int| 0 <= i < fresh.len() implies exists|j: int|
            0 <= j < res.len() && (#[trigger] res[j]).0 == (#[trigger] fresh[i]).0 by {
            if i == fresh.len() - 1 {
                assert(res[res.len() - 1].0 == fresh[i].0);
            } else {
                assert(p[i] == fresh[i]);
                let j = choose|j: int| 0 <= j < prev.len() && (#[trigger] prev[j]).0 == (#[trigger] p[i]).0;
                if prev[j].0 == l.0 {
                    assert(res[res.len() - 1].0 == fresh[i].0);
                } else {
                    lemma_filter_keeps(prev, pred, j);
                    let k = choose|k: int| 0 <= k < kept.len() && kept[k] == prev[j];
                    assert(res[k] == kept[k]);
                }
            }
        }
    }
}

proof fn lemma_filter_keeps(s: Seq<LayerView>, pred: spec_fn(LayerView) -> bool, j: int)
    requires
        0 <= j < s.len(),
        pred(s[j]),
    ensures
        exists|k: int| 0 <= k < s.filter(pred).len() && s.filter(pred)[k] == s[j],
    decreases s.len(),
{
    let p = s.drop_last();
    let e = s.last();
    assert(s =~= p.push(e));
    p.lemma_filter_push(e, pred);
    if j == s.len() - 1 {
        assert(s.filter(pred)[s.filter(pred).len() - 1] == s[j]);
    } else {
        lemma_filter_keeps(p, pred, j);
        let k = choose|k: int| 0 <= k < p.filter(pred).len() && p.filter(pred)[k] == p[j];
        if pred(e) {
            assert(s.filter(pred)[k] == p.filter(pred)[k]);
        }
    }
}

// ---------------------------------------------------------------------------------------
// Removal
// ---------------------------------------------------------------------------------------

/// Keeps the ids that were not requested for removal.
pub open spec fn not_requested(req: Seq<Seq<char>>) -> spec_fn(Seq<char>) -> bool {
    |id: Seq<char>| !req.contains(id)
}

/// Keeps the regions whose instance was not requested for removal.
pub open spec fn region_not_requested(req: Seq<Seq<char>>) -> spec_fn(RegionView) -> bool {
    |r: RegionView| !req.contains(manual_instance_id(r.0))
}

/// The layers without the requested instances.
pub open spec fn layers_without(ls: Seq<LayerView>, req: Seq<Seq<char>>) -> Seq<LayerView> {
    ls.map_values(|l: LayerView| (l.0, l.1.filter(not_requested(req)), l.2))
}

fn contains_text(v: &Vec<String>, s: &str) -> (res: bool)
    ensures
        res == texts(v@).contains(s@),
{
    let mut i: usize = 0;
    while i < v.len()
        invariant
            i <= v@.len(),
            forall|j: int| 0 <= j < i ==> v@[j]@ != s@,
        decreases v@.len() - i,
    {
        if str_eq(v[i].as_str(), s) {
            assert(texts(v@)[i as int] == s@);
            return true;
        }
        i += 1;
    }
    assert forall|j: int| 0 <= j < texts(v@).len() implies texts(v@)[j] != s@ by {
        assert(v@[j]@ != s@);
    }
    false
}

fn manual_id(id: &str) -> (res: String)
    ensures
        res@ == manual_instance_id(id@),
{
    let mut m = owned("manual:");
    m.append(id);
    m
}

fn kept_ids(ids: &Vec<String>, requested: &Vec<String>) -> (res: Vec<String>)
    ensures
        texts(res@) == texts(ids@).filter(not_requested(texts(requested@))),
{
    let ghost v = texts(ids@);
    let ghost pred = not_requested(texts(requested@));
    let mut res: Vec<String> = Vec::new();
    let mut i: usize = 0;
    while i < ids.len()
        invariant
            i <= ids@.len(),
            v == texts(ids@),
            pred == not_requested(texts(requested@)),
            texts(res@) == v.take(i as int).filter(pred),
        decreases ids@.len() - i,
    {
        proof {
            assert(v.take(i as int + 1) =~= v.take(i as int).push(v[i as int]));
            v.take(i as int).lemma_filter_push(v[i as int], pred);
        }
        if !contains_text(requested, ids[i].as_str()) {
            let ghost before = texts(res@);
            res.push(ids[i].clone());
            assert(texts(res@) =~= before.push(v[i as int]));
        }
        i += 1;
    }
    assert(v.take(ids@.len() as int) =~= v);
    res
}

/// Removes the requested instances: each must be among the `current` instances, else the
/// request is refused and nothing changes; the layers lose those instances, and a manual
/// region goes with its instance.
pub fn remove_instances(
    layers: &mut Vec<SegmentationLayer>,
    regions: &mut Vec<ManualRegion>,
    current: &Vec<String>,
    requested: &Vec<String>,
) -> (res: Result<(), SegmentationError>)
    ensures
        res is Ok <==> forall|i: int| 0 <= i < requested@.len() ==> texts(current@).contains(#[trigger] requested@[i]@),
        res is Err ==> res == Err::<(), SegmentationError>(SegmentationError::MissingInstance) && layers_view(final(layers)@)
            == layers_view(old(layers)@) && regions_view(final(regions)@) == regions_view(old(regions)@),
        res is Ok ==> layers_view(final(layers)@) == layers_without(layers_view(old(layers)@), texts(requested@))
            && regions_view(final(regions)@) == regions_view(old(regions)@).filter(region_not_requested(texts(requested@))),
{
    let mut k: usize = 0;
    while k < requested.len()
        invariant
            k <= requested@.len(),
            forall|i: int| 0 <= i < k ==> texts(current@).contains(#[trigger] requested@[i]@),
        decreases requested@.len() - k,
    {
        if !contains_text(current, requested[k].as_str()) {
            return Err(SegmentationError::MissingInstance);
        }
        k += 1;
    }
    let ghost req = texts(requested@);
    let ghost lv = layers_view(layers@);
    let mut kept_layers: Vec<SegmentationLayer> = Vec::new();
    let mut j: usize = 0;
    while j < layers.len()
        invariant
            j <= layers@.len(),
            req == texts(requested@),
            lv == layers_view(layers@),
            layers_view(kept_layers@) == layers_without(lv, req).take(j as int),
        decreases layers@.len() - j,
    {
        let l = &layers[j];
        let layer = SegmentationLayer {
            source: l.source.clone(),
            instance_ids: kept_ids(&l.instance_ids, requested),
            placement_labels: copy_texts(&l.placement_labels),
        };
        let ghost before = layers_view(kept_layers@);
        kept_layers.push(layer);
        assert(layers_view(kept_layers@) =~= before.push(layers_without(lv, req)[j as int]));
        assert(layers_without(lv, req).take(j as int + 1) =~= layers_without(lv, req).take(j as int).push(
            layers_without(lv, req)[j as int],
        ));
        j += 1;
    }
    assert(layers_without(lv, req).take(layers@.len() as int) =~= layers_without(lv, req));
    let ghost rv = regions_view(regions@);
    let ghost pred = region_not_requested(req);
    let mut kept_regions: Vec<ManualRegion> = Vec::new();
    let mut r: usize = 0;
    while r < regions.len()
        invariant
            r <= regions@.len(),
            req == texts(requested@),
            rv == regions_view(regions@),
            pred == region_not_requested(req),
            regions_view(kept_regions@) == rv.take(r as int).filter(pred),
        decreases regions@.len() - r,
    {
        proof {
            assert(rv.take(r as int + 1) =~= rv.take(r as int).push(rv[r as int]));
            rv.take(r as int).lemma_filter_push(rv[r as int], pred);
        }
        let id = manual_id(regions[r].id.as_str());
        if !contains_text(requested, id.as_str()) {
            let ghost before = regions_view(kept_regions@);
            kept_regions.push(copy_region(&regions[r]));
            assert(regions_view(kept_regions@) =~= before.push(rv[r as int]));
        }
        r += 1;
    }
    assert(rv.take(regions@.len() as int) =~= rv);
    *layers = kept_layers;
    *regions = kept_regions;
    Ok(())
}

// ---------------------------------------------------------------------------------------
// Combining layers and regions
// ---------------------------------------------------------------------------------------

/// The instance ids of the layers, layer after layer.
pub open spec fn layer_instances(ls: Seq<LayerView>) -> Seq<Seq<char>>
    decreases ls.len(),
{
    if ls.len() == 0 {
        seq![]
    } else {
        layer_instances(ls.drop_last()) + ls.last().1
    }
}

/// The placement labels of the layers, layer after layer.
pub open spec fn layer_labels(ls: Seq<LayerView>) -> Seq<Seq<char>>
    decreases ls.len(),
{
    if ls.len() == 0 {
        seq![]
    } else {
        layer_labels(ls.drop_last()) + ls.last().2
    }
}

/// What is wrong with region `r` after the regions `prev`, if anything: an id used
/// before, a blank id or label, or a box outside the image.
pub open spec fn region_fault(prev: Seq<RegionView>, r: RegionView) -> Option<SegmentationError> {
    if exists|j: int| 0 <= j < prev.len() && (#[trigger] prev[j]).0 == r.0 {
        Some(SegmentationError::DuplicateRegion)
    } else if trim_spec(r.0).len() == 0 || trim_spec(r.1).len() == 0 {
        Some(SegmentationError::BlankRegion)
    } else if !r.2 {
        Some(SegmentationError::RegionOutsideImage)
    } else {
        None
    }
}

/// The fault of the first faulty region.
pub open spec fn first_fault(rs: Seq<RegionView>) -> Option<SegmentationError>
    decreases rs.len(),
{
    if rs.len() == 0 {
        None
    } else {
        match first_fault(rs.drop_last()) {
            Some(e) => Some(e),
            None => region_fault(rs.drop_last(), rs.last()),
        }
    }
}

/// The instances of the frame, layer instances first, then one per manual region.
pub open spec fn combined_instances(ls: Seq<LayerView>, rs: Seq<RegionView>) -> Seq<Seq<char>> {
    layer_instances(ls) + rs.map_values(|r: RegionView| manual_instance_id(r.0))
}

/// Every placement label: those of the layers, then the trimmed labels of the regions.
pub open spec fn all_labels(ls: Seq<LayerView>, rs: Seq<RegionView>) -> Seq<Seq<char>> {
    layer_labels(ls) + rs.map_values(|r: RegionView| trim_spec(r.1))
}

/// Strictly ascending, so each label once.
pub open spec fn strictly_sorted(s: Seq<Seq<char>>) -> bool {
    forall|i: int, j: int| 0 <= i < j < s.len() ==> seq_lt(#[trigger] s[i], #[trigger] s[j])
}

/// The combined segmentation of a frame.
#[derive(PartialEq, Eq, Debug)]
pub struct Combined {
    pub instance_ids: Vec<String>,
    pub placement_labels: Vec<String>,
}

proof fn lemma_push_contains(s: Seq<Seq<char>>, x: Seq<char>)
    ensures
        forall|k: Seq<char>| #[trigger] s.push(x).contains(k) <==> (s.contains(k) || k == x),
{
    assert forall|k: Seq<char>| #[trigger] s.push(x).contains(k) <==> (s.contains(k) || k == x) by {
        if s.push(x).contains(k) {
            let i = choose|i: int| 0 <= i < s.push(x).len() && s.push(x)[i] == k;
            if i < s.len() {
                assert(s[i] == k);
            }
        }
        if s.contains(k) {
            let i = choose|i: int| 0 <= i < s.len() && s[i] == k;
            assert(s.push(x)[i] == k);
        }
        assert(s.push(x)[s.len() as int] == x);
    }
}

fn blank(s: &str) -> (res: bool)
    ensures
        res == (trim_spec(s@).len() == 0),
{
    let t = trim(s);
    t.as_str().unicode_len() == 0
}

fn region_check(regions: &Vec<ManualRegion>, k: usize) -> (res: Option<SegmentationError>)
    requires
        k < regions@.len(),
    ensures
        res == region_fault(regions_view(regions@).take(k as int), regions_view(regions@)[k as int]),
{
    let ghost rv = regions_view(regions@);
    let ghost prev = rv.take(k as int);
    let mut j: usize = 0;
    while j < k
        invariant
            k < regions@.len(),
            j <= k,
            rv == regions_view(regions@),
            prev == rv.take(k as int),
            forall|t: int| 0 <= t < j ==> (#[trigger] prev[t]).0 != rv[k as int].0,
        decreases k - j,
    {
        if str_eq(regions[j].id.as_str(), regions[k].id.as_str()) {
            assert(prev[j as int].0 == rv[k as int].0);
            return Some(SegmentationError::DuplicateRegion);
        }
        j += 1;
    }
    let r = &regions[k];
    if blank(r.id.as_str()) || blank(r.label.as_str()) {
        Some(SegmentationError::BlankRegion)
    } else if !r.box_in_image {
        Some(SegmentationError::RegionOutsideImage)
    } else {
        None
    }
}

/// Combines the layers and the manual regions of a frame. The regions are checked in
/// order, and the first faulty one refuses the whole edit; otherwise the instances are
/// the layers' followed by one per region, and the placement labels are all labels,
/// sorted, each once.
pub fn combine(layers: &Vec<SegmentationLayer>, regions: &Vec<ManualRegion>) -> (res: Result<Combined, SegmentationError>)
    ensures
        match first_fault(regions_view(regions@)) {
            Some(e) => res == Err::<Combined, SegmentationError>(e),
            None => res matches Ok(c) && texts(c.instance_ids@) == combined_instances(layers_view(layers@), regions_view(regions@))
                && strictly_sorted(texts(c.placement_labels@)) && forall|k: Seq<char>|
                #[trigger] texts(c.placement_labels@).contains(k) <==> all_labels(layers_view(layers@), regions_view(regions@)).contains(k),
        },
{
    let ghost lv = layers_view(layers@);
    let ghost rv = regions_view(regions@);
    let mut k: usize = 0;
    while k < regions.len()
        invariant
            k <= regions@.len(),
            rv == regions_view(regions@),
            first_fault(rv.take(k as int)) is None,
        decreases regions@.len() - k,
    {
        assert(rv.take(k as int + 1).drop_last() =~= rv.take(k as int));
        assert(rv.take(k as int + 1).last() == rv[k as int]);
        match region_check(regions, k) {
            Some(e) => {
                proof {
                    lemma_first_fault_prefix(rv, k as int + 1);
                }
                return Err(e);
            },
            None => {},
        }
        k += 1;
    }
    assert(rv.take(regions@.len() as int) =~= rv);
    // Instances.
    let mut ids: Vec<String> = Vec::new();
    let mut labels: KeyedList<()> = KeyedList::new();
    let ghost mut seen: Seq<Seq<char>> = seq![];
    let mut i: usize = 0;
    while i < layers.len()
        invariant
            i <= layers@.len(),
            lv == layers_view(layers@),
            labels.wf(),
            texts(ids@) == layer_instances(lv.take(i as int)),
            seen == layer_labels(lv.take(i as int)),
            forall|x: Seq<char>| #[trigger] labels@.dom().contains(x) <==> seen.contains(x),
        decreases layers@.len() - i,
    {
        let l = &layers[i];
        assert(lv.take(i as int + 1).drop_last() =~= lv.take(i as int));
        let ghost ids0 = texts(ids@);
        let ghost seen0 = seen;
        let mut j: usize = 0;
        while j < l.instance_ids.len()
            invariant
                j <= l.instance_ids@.len(),
                texts(ids@) == ids0 + texts(l.instance_ids@).take(j as int),
            decreases l.instance_ids@.len() - j,
        {
            let ghost before = texts(ids@);
            ids.push(l.instance_ids[j].clone());
            assert(texts(ids@) =~= before.push(l.instance_ids@[j as int]@));
            assert(ids0 + texts(l.instance_ids@).take(j as int + 1) =~= (ids0 + texts(l.instance_ids@).take(j as int)).push(
                l.instance_ids@[j as int]@,
            ));
            j += 1;
        }
        assert(texts(l.instance_ids@).take(l.instance_ids@.len() as int) =~= texts(l.instance_ids@));
        let mut j: usize = 0;
        while j < l.placement_labels.len()
            invariant
                j <= l.placement_labels@.len(),
                labels.wf(),
                seen == seen0 + texts(l.placement_labels@).take(j as int),
                forall|x: Seq<char>| #[trigger] labels@.dom().contains(x) <==> seen.contains(x),
            decreases l.placement_labels@.len() - j,
        {
            let x = l.placement_labels[j].clone();
            proof {
                lemma_push_contains(seen, x@);
                assert(seen0 + texts(l.placement_labels@).take(j as int + 1) =~= (seen0 + texts(l.placement_labels@).take(
                    j as int,
                )).push(x@));
                seen = seen.push(x@);
            }
            labels.insert(x, ());
            j += 1;
        }
        assert(texts(l.placement_labels@).take(l.placement_labels@.len() as int) =~= texts(l.placement_labels@));
        i += 1;
    }
    assert(lv.take(layers@.len() as int) =~= lv);
    let ghost layer_ids = texts(ids@);
    let ghost layer_seen = seen;
    let mut r: usize = 0;
    while r < regions.len()
        invariant
            r <= regions@.len(),
            rv == regions_view(regions@),
            labels.wf(),
            texts(ids@) == layer_ids + rv.map_values(|x: RegionView| manual_instance_id(x.0)).take(r as int),
            seen == layer_seen + rv.map_values(|x: RegionView| trim_spec(x.1)).take(r as int),
            forall|x: Seq<char>| #[trigger] labels@.dom().contains(x) <==> seen.contains(x),
        decreases regions@.len() - r,
    {
        let ghost before = texts(ids@);
        ids.push(manual_id(regions[r].id.as_str()));
        assert(texts(ids@) =~= before.push(manual_instance_id(rv[r as int].0)));
        assert(layer_ids + rv.map_values(|x: RegionView| manual_instance_id(x.0)).take(r as int + 1) =~= (layer_ids
            + rv.map_values(|x: RegionView| manual_instance_id(x.0)).take(r as int)).push(manual_instance_id(rv[r as int].0)));
        let x = trim(regions[r].label.as_str());
        proof {
            lemma_push_contains(seen, x@);
            assert(layer_seen + rv.map_values(|y: RegionView| trim_spec(y.1)).take(r as int + 1) =~= (layer_seen
                + rv.map_values(|y: RegionView| trim_spec(y.1)).take(r as int)).push(x@));
            seen = seen.push(x@);
        }
        labels.insert(x, ());
        r += 1;
    }
    assert(rv.map_values(|x: RegionView| manual_instance_id(x.0)).take(regions@.len() as int) =~= rv.map_values(
        |x: RegionView| manual_instance_id(x.0),
    ));
    assert(rv.map_values(|x: RegionView| trim_spec(x.1)).take(regions@.len() as int) =~= rv.map_values(
        |x: RegionView| trim_spec(x.1),
    ));
    let placement_labels = labels.keys();
    proof {
        labels.lemma_order();
        let out = texts(placement_labels@);
        assert(out == labels.key_order());
        assert(layer_seen == layer_labels(lv));
        assert(seen =~= all_labels(lv, rv));
        assert forall|k: Seq<char>| #[trigger] out.contains(k) <==> all_labels(lv, rv).contains(k) by {
            if out.contains(k) {
                let i = choose|i: int| 0 <= i < out.len() && out[i] == k;
                assert(labels@.dom().contains(labels.key_order()[i]));
            }
            if all_labels(lv, rv).contains(k) {
                assert(seen.contains(k));
                assert(labels@.dom().contains(k));
            }
        }
    }
    Ok(Combined { instance_ids: ids, placement_labels })
}

proof fn lemma_first_fault_prefix(rv: Seq<RegionView>, n: int)
    requires
        0 < n <= rv.len(),
        first_fault(rv.take(n - 1)) is None,
        first_fault(rv.take(n)) is Some,
    ensures
        first_fault(rv) == first_fault(rv.take(n)),
    decreases rv.len() - n,
{
    if n < rv.len() {
        assert(rv.take(n + 1).drop_last() =~= rv.take(n));
        assert(first_fault(rv.take(n + 1)) == first_fault(rv.take(n)));
        lemma_first_fault_stays(rv, n + 1, first_fault(rv.take(n)));
    } else {
        assert(rv.take(n) =~= rv);
    }
}

proof fn lemma_first_fault_stays(rv: Seq<RegionView>, n: int, e: Option<SegmentationError>)
    requires
        0 < n <= rv.len(),
        e is Some,
        first_fault(rv.take(n)) == e,
    ensures
        first_fault(rv) == e,
    decreases rv.len() - n,
{
    if n < rv.len() {
        assert(rv.take(n + 1).drop_last() =~= rv.take(n));
        lemma_first_fault_stays(rv, n + 1, e);
    } else {
        assert(rv.take(n) =~= rv);
    }
}

proof fn lemma_layers_without(ls: Seq<LayerView>, req: Seq<Seq<char>>)
    ensures
        layer_instances(layers_without(ls, req)) == layer_instances(ls).filter(not_requested(req)),
    decreases ls.len(),
{
    if ls.len() > 0 {
        let p = ls.drop_last();
        assert(layers_without(ls, req).drop_last() =~= layers_without(p, req));
        lemma_layers_without(p, req);
        Seq::filter_distributes_over_add(layer_instances(p), ls.last().1, not_requested(req));
    } else {
        assert(layer_instances(ls).filter(not_requested(req)) =~= seq![]);
    }
}

proof fn lemma_regions_without(rs: Seq<RegionView>, req: Seq<Seq<char>>)
    ensures
        rs.filter(region_not_requested(req)).map_values(|r: RegionView| manual_instance_id(r.0)) == rs.map_values(
            |r: RegionView| manual_instance_id(r.0),
        ).filter(not_requested(req)),
    decreases rs.len(),
{
    let m = |r: RegionView| manual_instance_id(r.0);
    if rs.len() > 0 {
        let p = rs.drop_last();
        let r = rs.last();
        assert(rs =~= p.push(r));
        lemma_regions_without(p, req);
        p.lemma_filter_push(r, region_not_requested(req));
        assert(rs.map_values(m) =~= p.map_values(m).push(m(r)));
        p.map_values(m).lemma_filter_push(m(r), not_requested(req));
        if region_not_requested(req)(r) {
            assert(p.filter(region_not_requested(req)).push(r).map_values(m) =~= p.filter(region_not_requested(req)).map_values(
                m,
            ).push(m(r)));
        }
    } else {
        assert(rs.filter(region_not_requested(req)) =~= seq![]);
        assert(rs.map_values(m).filter(not_requested(req)) =~= seq![]);
    }
}

/// A removal takes exactly the requested instances away: afterwards an instance is
/// present if and only if it was present before and was not requested.
pub proof fn removal_takes_exactly_the_requested_instances(
    ls: Seq<LayerView>,
    rs: Seq<RegionView>,
    req: Seq<Seq<char>>,
    id: Seq<char>,
)
    ensures
        combined_instances(layers_without(ls, req), rs.filter(region_not_requested(req))).contains(id) <==> (
        combined_instances(ls, rs).contains(id) && !req.contains(id)),
{
    let pred = not_requested(req);
    lemma_layers_without(ls, req);
    lemma_regions_without(rs, req);
    let all = combined_instances(ls, rs);
    Seq::filter_distributes_over_add(layer_instances(ls), rs.map_values(|r: RegionView| manual_instance_id(r.0)), pred);
    assert(combined_instances(layers_without(ls, req), rs.filter(region_not_requested(req))) == all.filter(pred));
    if all.filter(pred).contains(id) {
        all.lemma_filter_contains_rev(pred, id);
        let i = choose|i: int| 0 <= i < all.filter(pred).len() && all.filter(pred)[i] == id;
        all.lemma_filter_pred(pred, i);
    }
    if all.contains(id) && !req.contains(id) {
        let i = choose|i: int| 0 <= i < all.len() && all[i] == id;
        all.lemma_filter_contains(pred, i);
    }
}

// ---------------------------------------------------------------------------------------
// Model choice
// ---------------------------------------------------------------------------------------

/// A segmentation model of the compute service's catalog.
pub struct ModelInfo {
    pub id: String,
    /// The model names the instances itself and takes no prompt.
    pub prompt_free: bool,
}

/// The model a run uses and whether it is prompt-free.
pub struct ModelChoice {
    pub model: String,
    pub prompt_free: bool,
}

/// The catalog lacks the chosen model; its id is carried.
pub struct UnknownModel {
    pub model: String,
}

impl UnknownModel {
    /// The message reported for the refusal.
    pub fn message(&self) -> (res: String)
        ensures
            res@ == "未知分割模型 "@ + self.model@,
    {
        let mut m = owned("未知分割模型 ");
        m.append(self.model.as_str());
        m
    }
}

/// The position of the first catalog model with the id.
pub open spec fn model_index(models: Seq<ModelInfo>, id: Seq<char>) -> Option<int> {
    if exists|i: int| 0 <= i < models.len() && #[trigger] models[i].id@ == id {
        Some(choose|i: int| 0 <= i < models.len() && models[i].id@ == id && forall|j: int| 0 <= j < i ==> #[trigger] models[j].id@ != id)
    } else {
        None
    }
}

/// The model of a segmentation run: the configured one, else the catalog's default; it
/// must be in the catalog, whose first entry with that id says whether it is prompt-free.
pub fn segmentation_model(configured: Option<&str>, catalog_default: &str, models: &Vec<ModelInfo>) -> (res: Result<
    ModelChoice,
    UnknownModel,
>)
    ensures
        ({
            let id = match configured {
                Some(c) => c@,
                None => catalog_default@,
            };
            match model_index(models@, id) {
                Some(i) => res matches Ok(c) && c.model@ == id && c.prompt_free == models@[i].prompt_free,
                None => res matches Err(e) && e.model@ == id,
            }
        }),
{
    let id = match configured {
        Some(c) => owned(c),
        None => owned(catalog_default),
    };
    let mut i: usize = 0;
    while i < models.len()
        invariant
            i <= models@.len(),
            id@ == match configured {
                Some(c) => c@,
                None => catalog_default@,
            },
            forall|j: int| 0 <= j < i ==> #[trigger] models@[j].id@ != id@,
        decreases models@.len() - i,
    {
        if str_eq(models[i].id.as_str(), id.as_str()) {
            proof {
                let c = choose|t: int|
                    0 <= t < models@.len() && models@[t].id@ == id@ && forall|j: int| 0 <= j < t ==> #[trigger] models@[j].id@ != id@;
                if c < i {
                    assert(models@[c].id@ != id@);
                } else if c > i {
                    assert(models@[i as int].id@ != id@);
                }
                assert(model_index(models@, id@) == Some(i as int));
            }
            return Ok(ModelChoice { model: id, prompt_free: models[i].prompt_free });
        }
        i += 1;
    }
    Err(UnknownModel { model: id })
}

/// The placement labels of a run: a prompt-free model's instance labels (any observed
/// instance can be a destination), else the configured labels.
pub fn run_placement_labels(prompt_free: bool, instance_labels: &Vec<String>, configured: &Vec<String>) -> (res: Vec<String>)
    ensures
        texts(res@) == if prompt_free {
            texts(instance_labels@)
        } else {
            texts(configured@)
        },
{
    if prompt_free {
        copy_texts(instance_labels)
    } else {
        copy_texts(configured)
    }
}

} // verus!

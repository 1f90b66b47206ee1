//! Discovery of the perception node's ROS cameras from the topics on the graph: every
//! namespace that publishes an aligned depth image, a colour image and the aligned
//! camera info is a source, described by the RealSense device whose serial number its
//! namespace contains (or by the only device, when there is one camera and one device).
use vstd::prelude::*;
use crate::keyed_list::KeyedList;
use crate::realsense::{
    apply_realsense_device_info, camera_source, chars_of, device_info_applied, fields_view, is_camera_source, string_field,
    string_field_spec, string_of, DepthCameraSource, DeviceInfo,
};
use crate::segmentation::{strictly_sorted, texts};
use crate::text::{ends_with, owned, spec_ends_with, str_eq};

verus! {

pub open spec fn depth_suffix() -> Seq<char> {
    "/aligned_depth_to_color/image_raw"@
}

/// `s` with `suffix` removed from its end as long as it ends with it
/// (`str::trim_end_matches`).
pub open spec fn strip_suffixes(s: Seq<char>, suffix: Seq<char>) -> Seq<char>
    decreases s.len(),
{
    if suffix.len() > 0 && spec_ends_with(s, suffix) {
        strip_suffixes(s.subrange(0, s.len() - suffix.len()), suffix)
    } else {
        s
    }
}

pub open spec fn is_depth_topic() -> spec_fn(Seq<char>) -> bool {
    |n: Seq<char>| spec_ends_with(n, depth_suffix())
}

pub open spec fn has_streams(names: Seq<Seq<char>>) -> spec_fn(Seq<char>) -> bool {
    |id: Seq<char>| names.contains(id + "/color/image_raw"@) && names.contains(id + "/aligned_depth_to_color/camera_info"@)
}

/// The source namespaces of the topic names, in the names' order: each depth topic's
/// namespace, if its colour and camera-info topics are there too.
pub open spec fn topic_source_ids(names: Seq<Seq<char>>) -> Seq<Seq<char>> {
    names.filter(is_depth_topic()).map_values(|n: Seq<char>| strip_suffixes(n, depth_suffix())).filter(has_streams(names))
}

/// Whether `needle` occurs in `hay`.
pub open spec fn contains_text(hay: Seq<char>, needle: Seq<char>) -> bool {
    exists|i: int| 0 <= i && i + needle.len() <= hay.len() && #[trigger] hay.subrange(i, i + needle.len()) == needle
}

/// Whether the device's serial number occurs in the source id.
pub open spec fn serial_matches(id: Seq<char>, device: DeviceInfo) -> bool {
    string_field_spec(fields_view(device.fields@), "serial_number"@) matches Some(serial) && contains_text(id, serial)
}

/// The first device whose serial number occurs in the source id.
pub open spec fn first_matching(id: Seq<char>, devices: Seq<DeviceInfo>) -> Option<int>
    decreases devices.len(),
{
    if devices.len() == 0 {
        None
    } else {
        match first_matching(id, devices.drop_last()) {
            Some(j) => Some(j),
            None => if serial_matches(id, devices.last()) {
                Some(devices.len() - 1)
            } else {
                None
            },
        }
    }
}

/// The device that describes a source: the first whose serial the source id contains,
/// else the only device when there is one source and one device.
pub open spec fn device_choice(id: Seq<char>, devices: Seq<DeviceInfo>, single: bool) -> Option<int> {
    match first_matching(id, devices) {
        Some(j) => Some(j),
        None => if single {
            Some(0)
        } else {
            None
        },
    }
}

/// `s` is the discovered source of the namespace `id`, described by `devices[choice]`
/// where there is a choice.
pub open spec fn discovered_source(s: DepthCameraSource, id: Seq<char>, devices: Seq<DeviceInfo>, choice: Option<int>) -> bool {
    match choice {
        None => is_camera_source(s, id),
        Some(j) => exists|b: DepthCameraSource| #[trigger] is_camera_source(b, id) && device_info_applied(b, s, devices[j]),
    }
}

/// The source of a ROS camera namespace, before any device metadata.
pub fn camera_source_info(source_id: &str) -> (res: DepthCameraSource)
    ensures
        is_camera_source(res, source_id@),
{
    camera_source(owned(source_id))
}

/// Whether `needle` occurs in `hay`.
pub fn contains_str(hay: &str, needle: &str) -> (res: bool)
    ensures
        res == contains_text(hay@, needle@),
{
    let h = chars_of(hay);
    let n = chars_of(needle);
    if n.len() > h.len() {
        return false;
    }
    let hl = h.len();
    let mut i: usize = 0;
    while i <= h.len() - n.len()
        invariant
            hl == h@.len(),
            h@ == hay@,
            n@ == needle@,
            n@.len() <= h@.len(),
            i <= h@.len() - n@.len() + 1,
            forall|t: int| 0 <= t < i ==> #[trigger] h@.subrange(t, t + n@.len()) != n@,
        decreases h@.len() - n@.len() + 1 - i,
    {
        let mut j: usize = 0;
        while j < n.len() && h[i + j] == n[j]
            invariant
                hl == h@.len(),
                h@ == hay@,
                n@ == needle@,
                i + n@.len() <= h@.len(),
                j <= n@.len(),
                forall|t: int| 0 <= t < j ==> h@[i + t] == n@[t],
            decreases n@.len() - j,
        {
            j += 1;
        }
        if j == n.len() {
            assert(h@.subrange(i as int, i + n@.len()) =~= n@);
            return true;
        }
        assert(h@.subrange(i as int, i + n@.len())[j as int] != n@[j as int]);
        i += 1;
    }
    proof {
        assert forall|t: int| 0 <= t && t + needle@.len() <= hay@.len() implies #[trigger] hay@.subrange(t, t + needle@.len())
            != needle@ by {
            assert(h@.subrange(t, t + n@.len()) != n@);
        }
    }
    false
}

fn strip_depth_suffix(name: &str) -> (res: String)
    ensures
        res@ == strip_suffixes(name@, depth_suffix()),
{
    let chars = chars_of(name);
    let n: usize = 33;
    let mut end: usize = chars.len();
    let mut cur = string_of(&chars, 0, end);
    assert(chars@.subrange(0, end as int) =~= name@);
    assert(depth_suffix().len() == 33) by {
        reveal_strlit("/aligned_depth_to_color/image_raw");
    }
    while ends_with(cur.as_str(), "/aligned_depth_to_color/image_raw")
        invariant
            chars@ == name@,
            n == depth_suffix().len(),
            n == 33,
            end <= chars@.len(),
            cur@ == chars@.subrange(0, end as int),
            strip_suffixes(name@, depth_suffix()) == strip_suffixes(cur@, depth_suffix()),
        decreases end,
    {
        end = end - n;
        let next = string_of(&chars, 0, end);
        assert(next@ =~= cur@.subrange(0, cur@.len() - depth_suffix().len()));
        cur = next;
    }
    cur
}

fn first_match_index(id: &str, devices: &Vec<DeviceInfo>) -> (res: Option<usize>)
    ensures
        match res {
            Some(j) => first_matching(id@, devices@) == Some(j as int) && j < devices@.len(),
            None => first_matching(id@, devices@) is None,
        },
{
    let mut j: usize = 0;
    while j < devices.len()
        invariant
            j <= devices@.len(),
            first_matching(id@, devices@.take(j as int)) is None,
        decreases devices@.len() - j,
    {
        assert(devices@.take(j as int + 1).drop_last() =~= devices@.take(j as int));
        let serial = string_field(&devices[j], "serial_number");
        let found = match &serial {
            Some(s) => contains_str(id, s.as_str()),
            None => false,
        };
        if found {
            proof {
                lemma_first_matching_prefix(id@, devices@, j as int + 1);
            }
            return Some(j);
        }
        j += 1;
    }
    assert(devices@.take(devices@.len() as int) =~= devices@);
    None
}

proof fn lemma_first_matching_prefix(id: Seq<char>, devices: Seq<DeviceInfo>, n: int)
    requires
        0 < n <= devices.len(),
        first_matching(id, devices.take(n)) == Some(n - 1),
    ensures
        first_matching(id, devices) == Some(n - 1),
    decreases devices.len() - n,
{
    if n < devices.len() {
        assert(devices.take(n + 1).drop_last() =~= devices.take(n));
        lemma_first_matching_prefix_step(id, devices, n + 1, n - 1);
    } else {
        assert(devices.take(n) =~= devices);
    }
}

proof fn lemma_first_matching_prefix_step(id: Seq<char>, devices: Seq<DeviceInfo>, n: int, j: int)
    requires
        0 < n <= devices.len(),
        first_matching(id, devices.take(n)) == Some(j),
    ensures
        first_matching(id, devices) == Some(j),
    decreases devices.len() - n,
{
    if n < devices.len() {
        assert(devices.take(n + 1).drop_last() =~= devices.take(n));
        lemma_first_matching_prefix_step(id, devices, n + 1, j);
    } else {
        assert(devices.take(n) =~= devices);
    }
}

/// The names sorted, each once.
fn sorted_names(topics: &Vec<String>) -> (res: Vec<String>)
    ensures
        strictly_sorted(texts(res@)),
        forall|k: Seq<char>| #[trigger] texts(res@).contains(k) <==> texts(topics@).contains(k),
{
    let mut set: KeyedList<()> = KeyedList::new();
    let mut i: usize = 0;
    while i < topics.len()
        invariant
            set.wf(),
            i <= topics@.len(),
            forall|k: Seq<char>| #[trigger] set@.dom().contains(k) <==> texts(topics@).take(i as int).contains(k),
        decreases topics@.len() - i,
    {
        let ghost before = texts(topics@).take(i as int);
        set.insert(topics[i].clone(), ());
        proof {
            assert(texts(topics@).take(i as int + 1) =~= before.push(topics@[i as int]@));
            assert forall|k: Seq<char>| #[trigger] before.push(topics@[i as int]@).contains(k) <==> (before.contains(k) || k
                == topics@[i as int]@) by {
                if before.push(topics@[i as int]@).contains(k) {
                    let t = choose|t: int| 0 <= t < before.len() + 1 && before.push(topics@[i as int]@)[t] == k;
                    if t < before.len() {
                        assert(before[t] == k);
                    }
                }
                if before.contains(k) {
                    let t = choose|t: int| 0 <= t < before.len() && before[t] == k;
                    assert(before.push(topics@[i as int]@)[t] == k);
                }
                assert(before.push(topics@[i as int]@)[before.len() as int] == topics@[i as int]@);
            }
        }
        i += 1;
    }
    assert(texts(topics@).take(topics@.len() as int) =~= texts(topics@));
    let res = set.keys();
    proof {
        set.lemma_order();
        assert forall|k: Seq<char>| #[trigger] texts(res@).contains(k) <==> texts(topics@).contains(k) by {
            if texts(res@).contains(k) {
                let t = choose|t: int| 0 <= t < texts(res@).len() && texts(res@)[t] == k;
                assert(set@.dom().contains(set.key_order()[t]));
            }
            if texts(topics@).contains(k) {
                assert(set@.dom().contains(k));
            }
        }
    }
    res
}

fn contains_name(names: &Vec<String>, name: &str) -> (res: bool)
    ensures
        res == texts(names@).contains(name@),
{
    let mut i: usize = 0;
    while i < names.len()
        invariant
            i <= names@.len(),
            forall|t: int| 0 <= t < i ==> names@[t]@ != name@,
        decreases names@.len() - i,
    {
        if str_eq(names[i].as_str(), name) {
            assert(texts(names@)[i as int] == name@);
            return true;
        }
        i += 1;
    }
    assert forall|t: int| 0 <= t < texts(names@).len() implies texts(names@)[t] != name@ by {
        assert(names@[t]@ != name@);
    }
    false
}

fn source_ids(names: &Vec<String>) -> (res: Vec<String>)
    ensures
        texts(res@) == topic_source_ids(texts(names@)),
{
    let ghost v = texts(names@);
    let ghost depth = v.filter(is_depth_topic());
    let ghost stripped = depth.map_values(|n: Seq<char>| strip_suffixes(n, depth_suffix()));
    let mut res: Vec<String> = Vec::new();
    let mut i: usize = 0;
    while i < names.len()
        invariant
            i <= names@.len(),
            v == texts(names@),
            texts(res@) == v.take(i as int).filter(is_depth_topic()).map_values(
                |n: Seq<char>| strip_suffixes(n, depth_suffix()),
            ).filter(has_streams(v)),
        decreases names@.len() - i,
    {
        let ghost prefix = v.take(i as int);
        proof {
            assert(v.take(i as int + 1) =~= prefix.push(v[i as int]));
            prefix.lemma_filter_push(v[i as int], is_depth_topic());
        }
        let name = &names[i];
        if ends_with(name.as_str(), "/aligned_depth_to_color/image_raw") {
            let id = strip_depth_suffix(name.as_str());
            let mut color = id.clone();
            color.append("/color/image_raw");
            let mut info = id.clone();
            info.append("/aligned_depth_to_color/camera_info");
            let ghost mapped = prefix.filter(is_depth_topic()).map_values(|n: Seq<char>| strip_suffixes(n, depth_suffix()));
            proof {
                assert(prefix.filter(is_depth_topic()).push(v[i as int]).map_values(
                    |n: Seq<char>| strip_suffixes(n, depth_suffix()),
                ) =~= mapped.push(id@));
                mapped.lemma_filter_push(id@, has_streams(v));
            }
            if contains_name(names, color.as_str()) && contains_name(names, info.as_str()) {
                let ghost before = texts(res@);
                res.push(id);
                assert(texts(res@) =~= before.push(id@));
            }
        }
        i += 1;
    }
    assert(v.take(names@.len() as int) =~= v);
    res
}

/// The sources the topic names announce, each described by its RealSense device.
pub fn discover_cameras(topics: &Vec<String>, devices: &Vec<DeviceInfo>) -> (res: Vec<DepthCameraSource>)
    ensures
        exists|names: Seq<Seq<char>>|
            #![trigger topic_source_ids(names)]
            strictly_sorted(names) && (forall|k: Seq<char>| #[trigger] names.contains(k) <==> texts(topics@).contains(k)) && {
                let ids = topic_source_ids(names);
                &&& res@.len() == ids.len()
                &&& forall|i: int|
                    0 <= i < ids.len() ==> discovered_source(
                        #[trigger] res@[i],
                        ids[i],
                        devices@,
                        device_choice(ids[i], devices@, ids.len() == 1 && devices@.len() == 1),
                    )
            },
{
    let names = sorted_names(topics);
    let ids = source_ids(&names);
    let single = ids.len() == 1 && devices.len() == 1;
    let ghost idv = texts(ids@);
    let mut res: Vec<DepthCameraSource> = Vec::new();
    let mut i: usize = 0;
    while i < ids.len()
        invariant
            i <= ids@.len(),
            idv == texts(ids@),
            single == (idv.len() == 1 && devices@.len() == 1),
            res@.len() == i,
            forall|t: int|
                0 <= t < i ==> #[trigger] discovered_source(res@[t], idv[t], devices@, device_choice(idv[t], devices@, single)),
        decreases ids@.len() - i,
    {
        let mut source = camera_source(ids[i].clone());
        let ghost fresh = source;
        let choice = match first_match_index(ids[i].as_str(), devices) {
            Some(j) => Some(j),
            None => if single {
                Some(0)
            } else {
                None
            },
        };
        match choice {
            Some(j) => {
                apply_realsense_device_info(&mut source, &devices[j]);
                assert(is_camera_source(fresh, idv[i as int]));
            },
            None => {},
        }
        assert(discovered_source(source, idv[i as int], devices@, device_choice(idv[i as int], devices@, single)));
        res.push(source);
        i += 1;
    }
    assert(idv == topic_source_ids(texts(names@)));
    res
}

/// Every discovered source's colour and camera-info topics are among the topic names,
/// and its namespace comes from one of the names' depth topics.
pub proof fn discovered_sources_have_their_topics(names: Seq<Seq<char>>, i: int)
    requires
        0 <= i < topic_source_ids(names).len(),
    ensures
        names.contains(topic_source_ids(names)[i] + "/color/image_raw"@),
        names.contains(topic_source_ids(names)[i] + "/aligned_depth_to_color/camera_info"@),
        exists|t: int|
            0 <= t < names.len() && spec_ends_with(names[t], depth_suffix()) && #[trigger] strip_suffixes(names[t], depth_suffix())
                == topic_source_ids(names)[i],
{
    let stripped = names.filter(is_depth_topic()).map_values(|n: Seq<char>| strip_suffixes(n, depth_suffix()));
    let ids = topic_source_ids(names);
    stripped.lemma_filter_pred(has_streams(names), i);
    stripped.lemma_filter_contains_rev(has_streams(names), ids[i]);
    let j = choose|j: int| 0 <= j < stripped.len() && stripped[j] == ids[i];
    let depth = names.filter(is_depth_topic());
    names.lemma_filter_pred(is_depth_topic(), j);
    assert(depth.contains(depth[j]));
    names.lemma_filter_contains_rev(is_depth_topic(), depth[j]);
    let t = choose|t: int| 0 <= t < names.len() && names[t] == depth[j];
    assert(strip_suffixes(names[t], depth_suffix()) == ids[i]);
}

} // verus!

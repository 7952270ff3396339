//! What collecting leaves behind in the data of a case: every asset that lay on the site
//! is marked as one that is hosted elsewhere, since the offline player takes it from the
//! path that is written in its place.

use crate::assets::{has_image, icon_of_profile, profile_icon};
use crate::json::{json_views, Json, JsonV};
use crate::site::place_views;
use crate::text::string_views;
use vstd::prelude::*;

verus! {

/// What is changed in an entry of a list.
#[derive(Debug)]
pub enum Mark {
    /// The flag `external` is set.
    External,
    /// The flag `icon_external` is set.
    IconExternal,
    /// The icon is the one that is collected: that of the site, below the given
    /// directories, where the profile names none.
    Icon(Vec<String>),
    /// The flag `external` of the background is set, where the background shows an
    /// image.
    Background,
}

/// What a [`Mark`] holds.
pub enum MarkV {
    External,
    IconExternal,
    Icon(Seq<Seq<char>>),
    Background,
}

impl View for Mark {
    type V = MarkV;

    open spec fn view(&self) -> MarkV {
        match self {
            Mark::External => MarkV::External,
            Mark::IconExternal => MarkV::IconExternal,
            Mark::Icon(dirs) => MarkV::Icon(string_views(dirs@)),
            Mark::Background => MarkV::Background,
        }
    }
}

/// The entry `item` with the mark `mark`. Only objects are marked.
pub open spec fn marked(item: JsonV, mark: MarkV) -> JsonV {
    if item is Object {
        match mark {
            MarkV::External => item.with_field("external"@, JsonV::Bool(true)),
            MarkV::IconExternal => item.with_field("icon_external"@, JsonV::Bool(true)),
            MarkV::Icon(dirs) => item.with_field("icon"@, profile_icon(item, dirs)),
            MarkV::Background => if has_image(item) {
                item.with_field(
                    "background"@,
                    item.member("background"@).with_field("external"@, JsonV::Bool(true)),
                )
            } else {
                item
            },
        }
    } else {
        item
    }
}

/// The entries of `items`, each with the mark `mark`.
pub open spec fn all_marked(items: Seq<JsonV>, mark: MarkV) -> Seq<JsonV> {
    Seq::new(items.len(), |i: int| marked(items[i], mark))
}

/// `data` with the mark `mark` on each entry of its list `list`; `data` as it is where it
/// holds no such list.
pub open spec fn list_marked(data: JsonV, list: Seq<char>, mark: MarkV) -> JsonV {
    match data.member(list).items() {
        Some(items) => data.with_field(list, JsonV::Array(all_marked(items, mark))),
        None => data,
    }
}

/// Puts the mark `mark` on the entry `item`.
pub fn mark_item(item: Json, mark: &Mark) -> (r: Json)
    ensures
        r@ == marked(item@, mark@),
{
    if !item.is_object() {
        return item;
    }
    match mark {
        Mark::External => item.with_field("external", Json::Bool(true)),
        Mark::IconExternal => item.with_field("icon_external", Json::Bool(true)),
        Mark::Icon(dirs) => {
            let icon = icon_of_profile(&item, dirs);
            item.with_field("icon", icon)
        },
        Mark::Background => {
            let background = match item.get("background") {
                Some(b) => if b.is_object() && b.contains_key("image") {
                    Some(b.duplicate())
                } else {
                    None
                },
                None => None,
            };
            match background {
                Some(b) => {
                    let b = b.with_field("external", Json::Bool(true));
                    item.with_field("background", b)
                },
                None => item,
            }
        },
    }
}

/// Puts the mark `mark` on each entry of the list `list` of `data`.
pub fn mark_list(data: Json, list: &str, mark: &Mark) -> (r: Json)
    ensures
        r@ == list_marked(data@, list@, mark@),
{
    let mut out: Vec<Json> = Vec::new();
    match data.items_of(list) {
        Some(items) => {
            let mut i: usize = 0;
            while i < items.len()
                invariant
                    i <= items@.len(),
                    out@.len() == i,
                    forall|k: int|
                        0 <= k < i ==> (#[trigger] out@[k])@ == marked(json_views(items@)[k], mark@),
                decreases items.len() - i,
            {
                assert(json_views(items@)[i as int] == items@[i as int]@);
                out.push(mark_item(items[i].duplicate(), mark));
                i += 1;
            }
            assert(json_views(out@) =~= all_marked(json_views(items@), mark@));
        },
        None => {
            return data;
        },
    }
    data.with_field(list, Json::Array(out))
}

/// The default places `places`, with the mark of a background on each one that the case
/// uses.
pub open spec fn default_places_marked(places: Seq<(i64, JsonV)>, used: Seq<i64>) -> Seq<
    (i64, JsonV),
> {
    Seq::new(
        places.len(),
        |i: int|
            if used.contains(places[i].0) {
                (places[i].0, marked(places[i].1, MarkV::Background))
            } else {
                places[i]
            },
    )
}

/// Puts the mark of a background on each default place that the case uses.
pub fn mark_default_places(places: Vec<(i64, Json)>, used: &Vec<i64>) -> (r: Vec<(i64, Json)>)
    ensures
        place_views(r@) == default_places_marked(place_views(places@), used@),
{
    let mut places = places;
    let ghost before = place_views(places@);
    let mut out: Vec<(i64, Json)> = Vec::new();
    let mut done: usize = 0;
    let total = places.len();
    while places.len() > 0
        invariant
            done + places@.len() == total,
            total == before.len(),
            out@.len() == done,
            place_views(places@) == before.skip(done as int),
            forall|k: int|
                0 <= k < done ==> (#[trigger] place_views(out@)[k]) == default_places_marked(
                    before,
                    used@,
                )[k],
        decreases places@.len(),
    {
        let ghost rest = place_views(places@);
        let (id, place) = places.remove(0);
        assert(rest[0] == (id, place@));
        assert(before[done as int] == rest[0]);
        assert(place_views(places@) =~= rest.drop_first());
        assert(rest.drop_first() =~= before.skip(done + 1));
        let ghost view_before = place_views(out@);
        if crate::assets::contains_id(used, id) {
            out.push((id, mark_item(place, &Mark::Background)));
        } else {
            out.push((id, place));
        }
        assert forall|k: int| 0 <= k < done + 1 implies (#[trigger] place_views(out@)[k])
            == default_places_marked(before, used@)[k] by {
            if k < done {
                assert(place_views(out@)[k] == view_before[k]);
            }
        }
        done += 1;
    }
    assert(place_views(out@) =~= default_places_marked(before, used@));
    out
}

} // verus!

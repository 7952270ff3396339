//! Which assets the data of a case asks for, and where each is written back.

use crate::collector::{CollectError, Wanted};
use crate::download::{JsonReference, JsonReferenceV, JsonSource, JsonSourceV};
use crate::json::{json_views, Json, JsonV};
use crate::seqs::{gathered, lemma_gathered_fails, unique};
use crate::site::{is_sprite_kind, SitePaths};
use crate::text::{
    concat, decimal, join, joined, push_decimal, push_signed_decimal, signed_decimal,
    signed_decimal_string, str_eq, string_views,
};
use vstd::prelude::*;

verus! {

/// One asset that the data of a case asks for.
#[derive(Debug)]
pub struct AssetRequest {
    /// The text of the field that names the asset, where it holds text.
    pub file: Option<String>,
    /// The directories of the site below which the asset lies.
    pub components: Option<Vec<String>>,
    /// Whether the asset is hosted elsewhere, where that is known.
    pub external: Option<bool>,
    /// The extension that is usual for assets of its kind.
    pub default_ext: Option<String>,
    /// The place that waits for the asset.
    pub json_ref: JsonReference,
    /// Whether the local path must be known at once.
    pub early: bool,
}

impl View for AssetRequest {
    type V = Wanted;

    open spec fn view(&self) -> Wanted {
        Wanted {
            file: match self.file {
                Some(f) => Some(f@),
                None => None,
            },
            components: match self.components {
                Some(c) => Some(string_views(c@)),
                None => None,
            },
            external: self.external,
            default_ext: match self.default_ext {
                Some(e) => Some(e@),
                None => None,
            },
            json_ref: self.json_ref@,
            early: self.early,
        }
    }
}

/// What the requests of `requests` ask for.
pub open spec fn wanted_views(requests: Seq<AssetRequest>) -> Seq<Wanted> {
    Seq::new(requests.len(), |i: int| requests[i]@)
}

/// The place `pointer` in the data of the case `case_id`.
pub open spec fn case_place(case_id: u32, pointer: Seq<char>) -> JsonReferenceV {
    JsonReferenceV { pointer, source: JsonSourceV::CaseData(case_id) }
}

/// The flag of a field that says whether an asset is hosted elsewhere: a boolean, or
/// the number 1 for `true` and any other number for `false`.
pub open spec fn lenient_flag(value: JsonV) -> Option<bool> {
    match value.flag() {
        Some(b) => Some(b),
        None => match value.integer() {
            Some(n) => Some(n == 1),
            None => None,
        },
    }
}

/// The flag of a field that says whether an asset is hosted elsewhere.
fn read_lenient_flag(item: &Json, key: &str) -> (r: Option<bool>)
    ensures
        r == lenient_flag(item@.member(key@)),
{
    match item.flag_of(key) {
        Some(b) => Some(b),
        None => match item.integer_of(key) {
            Some(n) => Some(n == 1),
            None => None,
        },
    }
}

/// Whether the field holds text that is not empty.
pub open spec fn holds_text(value: JsonV) -> bool {
    value.text() matches Some(t) && t.len() > 0
}

/// Whether the field `key` of `item` holds text that is not empty.
fn has_text(item: &Json, key: &str) -> (r: bool)
    ensures
        r == holds_text(item@.member(key@)),
{
    match item.text_of(key) {
        Some(t) => {
            let chars = crate::text::chars_of(t.as_str());
            chars.len() > 0
        },
        None => false,
    }
}

/// The pointer to the field `field` of the entry `i` of the list `list`.
pub open spec fn entry_pointer(list: Seq<char>, i: int, field: Seq<char>) -> Seq<char> {
    "/"@ + list + "/"@ + signed_decimal(i) + "/"@ + field
}

/// The pointer to the field `field` of the entry `i` of the list `list`.
fn make_entry_pointer(list: &str, i: usize, field: &str) -> (r: String)
    ensures
        r@ == entry_pointer(list@, i as int, field@),
{
    let mut r = crate::text::concat("/", list);
    r.append("/");
    push_decimal(&mut r, i as u64);
    r.append("/");
    r.append(field);
    r
}

/// What an entry of a list of assets that carry the flag `external` asks for: the asset
/// that its field `field` names. An entry that is no object asks for nothing, and one
/// whose flag is no boolean is refused.
pub open spec fn flagged_wanted(
    item: JsonV,
    i: int,
    list: Seq<char>,
    field: Seq<char>,
    components: Seq<Seq<char>>,
    ext: Seq<char>,
    case_id: u32,
) -> Result<Seq<Wanted>, CollectError> {
    if item is Object {
        match item.member("external"@).flag() {
            Some(external) => Ok(
                seq![
                    Wanted {
                        file: item.member(field).text(),
                        components: Some(components),
                        external: Some(external),
                        default_ext: Some(ext),
                        json_ref: case_place(case_id, entry_pointer(list, i, field)),
                        early: false,
                    },
                ],
            ),
            None => Err(CollectError::ExternalMustBeBool),
        }
    } else {
        Ok(Seq::empty())
    }
}

/// What the list `list` of `data` asks for, where its entries carry the flag
/// `external`.
pub open spec fn flagged_list_wanted(
    data: JsonV,
    list: Seq<char>,
    field: Seq<char>,
    components: Seq<Seq<char>>,
    ext: Seq<char>,
    case_id: u32,
) -> Result<Seq<Wanted>, CollectError> {
    match data.member(list).items() {
        Some(items) => gathered(
            items,
            |item: JsonV, i: int| flagged_wanted(item, i, list, field, components, ext, case_id),
            items.len() as int,
        ),
        None => Err(CollectError::Malformed),
    }
}

/// Appends the requests of `more` to `out`.
fn append_requests(out: &mut Vec<AssetRequest>, more: Vec<AssetRequest>)
    ensures
        wanted_views(final(out)@) == wanted_views(old(out)@) + wanted_views(more@),
{
    let mut more = more;
    let ghost added = more@;
    out.append(&mut more);
    assert(wanted_views(out@) =~= wanted_views(old(out)@) + wanted_views(added));
}

/// A copy of the directories `components`.
fn copy_components(components: &Vec<String>) -> (r: Vec<String>)
    ensures
        string_views(r@) == string_views(components@),
{
    let mut r: Vec<String> = Vec::new();
    let mut i: usize = 0;
    while i < components.len()
        invariant
            i <= components@.len(),
            r@.len() == i,
            forall|k: int| 0 <= k < i ==> (#[trigger] r@[k])@ == components@[k]@,
        decreases components.len() - i,
    {
        r.push(components[i].clone());
        i += 1;
    }
    assert(string_views(r@) =~= string_views(components@));
    r
}

/// The requests for the assets of the list `list` of `data`, whose entries carry the
/// flag `external` and name their asset in the field `field`.
pub fn flagged_list_requests(
    data: &Json,
    list: &str,
    field: &str,
    components: &Vec<String>,
    ext: &str,
    case_id: u32,
) -> (r: Result<Vec<AssetRequest>, CollectError>)
    ensures
        match (
            r,
            flagged_list_wanted(data@, list@, field@, string_views(components@), ext@, case_id),
        ) {
            (Ok(requests), Ok(wanted)) => wanted_views(requests@) == wanted,
            (Err(e), Err(owed)) => e == owed,
            _ => false,
        },
{
    let items = match data.items_of(list) {
        Some(items) => items,
        None => {
            return Err(CollectError::Malformed);
        },
    };
    let ghost each = |item: JsonV, i: int|
        flagged_wanted(item, i, list@, field@, string_views(components@), ext@, case_id);
    let mut out: Vec<AssetRequest> = Vec::new();
    let mut i: usize = 0;
    assert(wanted_views(out@) =~= Seq::<Wanted>::empty());
    while i < items.len()
        invariant
            i <= items@.len(),
            each == |item: JsonV, i: int|
                flagged_wanted(item, i, list@, field@, string_views(components@), ext@, case_id),
            gathered(json_views(items@), each, i as int) == Ok::<_, CollectError>(
                wanted_views(out@),
            ),
            data@.member(list@).items() == Some(json_views(items@)),
        decreases items.len() - i,
    {
        let item = &items[i];
        assert(json_views(items@)[i as int] == item@);
        if item.is_object() {
            match item.flag_of("external") {
                Some(external) => {
                    let request = AssetRequest {
                        file: item.text_of(field),
                        components: Some(copy_components(components)),
                        external: Some(external),
                        default_ext: Some(ext.to_owned()),
                        json_ref: JsonReference::for_case(
                            case_id,
                            make_entry_pointer(list, i, field),
                        ),
                        early: false,
                    };
                    let ghost before = wanted_views(out@);
                    out.push(request);
                    assert(wanted_views(out@) =~= before + seq![request@]);
                },
                None => {
                    assert(gathered(json_views(items@), each, i + 1) is Err);
                    proof {
                        lemma_gathered_fails(json_views(items@), each, i + 1, items@.len() as int);
                    }
                    return Err(CollectError::ExternalMustBeBool);
                },
            }
        } else {
            assert(wanted_views(out@) + Seq::<Wanted>::empty() =~= wanted_views(out@));
        }
        i += 1;
    }
    Ok(out)
}

/// Whether an entry of the check-button data of a piece of evidence is plain text, and
/// so no asset.
pub open spec fn is_text_check(entry: JsonV) -> bool {
    match entry.member("type"@).text() {
        Some(t) => t == "text"@,
        None => true,
    }
}

/// The pointer to the content of the entry `j` of the check-button data of the piece of
/// evidence `i`.
pub open spec fn check_pointer(i: int, j: int) -> Seq<char> {
    "/evidence/"@ + signed_decimal(i) + "/check_button_data/"@ + signed_decimal(j) + "/content"@
}

/// What the entry `j` of the check-button data of the piece of evidence `i` asks for:
/// its content, unless it is plain text.
pub open spec fn check_wanted(entry: JsonV, i: int, j: int, case_id: u32) -> Result<
    Seq<Wanted>,
    CollectError,
> {
    if !(entry is Object) {
        Err(CollectError::Malformed)
    } else if is_text_check(entry) {
        Ok(Seq::empty())
    } else {
        Ok(
            seq![
                Wanted {
                    file: entry.member("content"@).text(),
                    components: None,
                    external: None,
                    default_ext: None,
                    json_ref: case_place(case_id, check_pointer(i, j)),
                    early: false,
                },
            ],
        )
    }
}

/// What the piece of evidence `i` asks for: its icon, and then what its check-button
/// data asks for.
pub open spec fn evidence_wanted(item: JsonV, i: int, components: Seq<Seq<char>>, case_id: u32) -> Result<
    Seq<Wanted>,
    CollectError,
> {
    if item is Object {
        match item.member("check_button_data"@).items() {
            Some(checks) => match gathered(
                checks,
                |entry: JsonV, j: int| check_wanted(entry, i, j, case_id),
                checks.len() as int,
            ) {
                Ok(more) => Ok(
                    seq![
                        Wanted {
                            file: item.member("icon"@).text(),
                            components: Some(components),
                            external: item.member("icon_external"@).flag(),
                            default_ext: Some("png"@),
                            json_ref: case_place(case_id, entry_pointer("evidence"@, i, "icon"@)),
                            early: false,
                        },
                    ] + more,
                ),
                Err(e) => Err(e),
            },
            None => Err(CollectError::Malformed),
        }
    } else {
        Ok(Seq::empty())
    }
}

/// What the evidence of `data` asks for.
pub open spec fn evidence_list_wanted(data: JsonV, components: Seq<Seq<char>>, case_id: u32) -> Result<
    Seq<Wanted>,
    CollectError,
> {
    match data.member("evidence"@).items() {
        Some(items) => gathered(
            items,
            |item: JsonV, i: int| evidence_wanted(item, i, components, case_id),
            items.len() as int,
        ),
        None => Err(CollectError::Malformed),
    }
}

fn check_requests(item: &Json, i: usize, case_id: u32) -> (r: Result<Vec<AssetRequest>, CollectError>)
    ensures
        match (r, item@.member("check_button_data"@).items()) {
            (Ok(requests), Some(checks)) => gathered(
                checks,
                |entry: JsonV, j: int| check_wanted(entry, i as int, j, case_id),
                checks.len() as int,
            ) == Ok::<_, CollectError>(wanted_views(requests@)),
            (Err(e), Some(checks)) => gathered(
                checks,
                |entry: JsonV, j: int| check_wanted(entry, i as int, j, case_id),
                checks.len() as int,
            ) == Err::<Seq<Wanted>, _>(e),
            (Err(e), None) => e == CollectError::Malformed,
            _ => false,
        },
{
    let checks = match item.items_of("check_button_data") {
        Some(checks) => checks,
        None => {
            return Err(CollectError::Malformed);
        },
    };
    let ghost each = |entry: JsonV, j: int| check_wanted(entry, i as int, j, case_id);
    let mut out: Vec<AssetRequest> = Vec::new();
    let mut j: usize = 0;
    assert(wanted_views(out@) =~= Seq::<Wanted>::empty());
    while j < checks.len()
        invariant
            j <= checks@.len(),
            each == |entry: JsonV, j: int| check_wanted(entry, i as int, j, case_id),
            gathered(json_views(checks@), each, j as int) == Ok::<_, CollectError>(
                wanted_views(out@),
            ),
            item@.member("check_button_data"@).items() == Some(json_views(checks@)),
        decreases checks.len() - j,
    {
        let entry = &checks[j];
        assert(json_views(checks@)[j as int] == entry@);
        if !entry.is_object() {
            assert(gathered(json_views(checks@), each, j + 1) is Err);
            proof {
                lemma_gathered_fails(json_views(checks@), each, j + 1, checks@.len() as int);
            }
            return Err(CollectError::Malformed);
        }
        let plain = match entry.text_of("type") {
            Some(t) => str_eq(t.as_str(), "text"),
            None => true,
        };
        if !plain {
            let mut pointer = "/evidence/".to_owned();
            push_decimal(&mut pointer, i as u64);
            pointer.append("/check_button_data/");
            push_decimal(&mut pointer, j as u64);
            pointer.append("/content");
            assert(pointer@ =~= check_pointer(i as int, j as int));
            let request = AssetRequest {
                file: entry.text_of("content"),
                components: None,
                external: None,
                default_ext: None,
                json_ref: JsonReference::for_case(case_id, pointer),
                early: false,
            };
            let ghost before = wanted_views(out@);
            out.push(request);
            assert(wanted_views(out@) =~= before + seq![request@]);
        } else {
            assert(wanted_views(out@) + Seq::<Wanted>::empty() =~= wanted_views(out@));
        }
        j += 1;
    }
    Ok(out)
}

/// The requests for the assets of the evidence of `data`: of each piece its icon, and
/// what its check-button data shows.
pub fn evidence_requests(data: &Json, components: &Vec<String>, case_id: u32) -> (r: Result<
    Vec<AssetRequest>,
    CollectError,
>)
    ensures
        match (r, evidence_list_wanted(data@, string_views(components@), case_id)) {
            (Ok(requests), Ok(wanted)) => wanted_views(requests@) == wanted,
            (Err(e), Err(owed)) => e == owed,
            _ => false,
        },
{
    let items = match data.items_of("evidence") {
        Some(items) => items,
        None => {
            return Err(CollectError::Malformed);
        },
    };
    let ghost each = |item: JsonV, i: int|
        evidence_wanted(item, i, string_views(components@), case_id);
    let mut out: Vec<AssetRequest> = Vec::new();
    let mut i: usize = 0;
    assert(wanted_views(out@) =~= Seq::<Wanted>::empty());
    while i < items.len()
        invariant
            i <= items@.len(),
            each == |item: JsonV, i: int|
                evidence_wanted(item, i, string_views(components@), case_id),
            gathered(json_views(items@), each, i as int) == Ok::<_, CollectError>(
                wanted_views(out@),
            ),
            data@.member("evidence"@).items() == Some(json_views(items@)),
        decreases items.len() - i,
    {
        let item = &items[i];
        assert(json_views(items@)[i as int] == item@);
        if item.is_object() {
            match check_requests(item, i, case_id) {
                Ok(more) => {
                    let request = AssetRequest {
                        file: item.text_of("icon"),
                        components: Some(copy_components(components)),
                        external: item.flag_of("icon_external"),
                        default_ext: Some("png".to_owned()),
                        json_ref: JsonReference::for_case(
                            case_id,
                            make_entry_pointer("evidence", i, "icon"),
                        ),
                        early: false,
                    };
                    let ghost before = wanted_views(out@);
                    out.push(request);
                    assert(wanted_views(out@) =~= before + seq![request@]);
                    append_requests(&mut out, more);
                    assert(wanted_views(out@) =~= before + (seq![request@] + wanted_views(more@)));
                },
                Err(e) => {
                    assert(gathered(json_views(items@), each, i + 1) is Err);
                    proof {
                        lemma_gathered_fails(json_views(items@), each, i + 1, items@.len() as int);
                    }
                    return Err(e);
                },
            }
        } else {
            assert(wanted_views(out@) + Seq::<Wanted>::empty() =~= wanted_views(out@));
        }
        i += 1;
    }
    Ok(out)
}

/// The pointer to `rest` in the place that is numbered `id` among the places at `base`.
pub open spec fn place_pointer(base: Seq<char>, id: Seq<char>, rest: Seq<char>) -> Seq<char> {
    base + "/"@ + id + "/"@ + rest
}

/// The pointer to `rest` in the place that is numbered `id` among the places at `base`.
fn make_place_pointer(base: &str, id: &str, rest: &str) -> (r: String)
    ensures
        r@ == place_pointer(base@, id@, rest@),
{
    let mut r = crate::text::concat(base, "/");
    r.append(id);
    r.append("/");
    r.append(rest);
    r
}

/// What the object `j` of the background or foreground objects at `at` asks for: its
/// image, where the object says that it is hosted elsewhere. Any other object is passed
/// over.
pub open spec fn object_wanted(obj: JsonV, j: int, at: Seq<char>, source: JsonSourceV) -> Result<
    Seq<Wanted>,
    CollectError,
> {
    if obj is Object && lenient_flag(obj.member("external"@)) == Some(true) {
        Ok(
            seq![
                Wanted {
                    file: obj.member("image"@).text(),
                    components: None,
                    external: Some(true),
                    default_ext: None,
                    json_ref: JsonReferenceV {
                        pointer: at + "/"@ + signed_decimal(j) + "/image"@,
                        source,
                    },
                    early: false,
                },
            ],
        )
    } else {
        Ok(Seq::empty())
    }
}

/// What the background or foreground objects `value`, which stand at `at`, ask for.
pub open spec fn objects_wanted(value: JsonV, at: Seq<char>, source: JsonSourceV) -> Result<
    Seq<Wanted>,
    CollectError,
> {
    match value.items() {
        Some(items) => gathered(
            items,
            |obj: JsonV, j: int| object_wanted(obj, j, at, source),
            items.len() as int,
        ),
        None => Err(CollectError::ObjectsMustBeArray),
    }
}

/// Whether a place shows an image behind it, and not merely a colour.
pub open spec fn has_image(place: JsonV) -> bool {
    place.member("background"@) is Object && place.member("background"@).has_field("image"@)
}

/// What the background of a place asks for: its image, where it shows one.
pub open spec fn background_wanted(
    place: JsonV,
    id: Seq<char>,
    base: Seq<char>,
    source: JsonSourceV,
    dirs: Seq<Seq<char>>,
) -> Result<Seq<Wanted>, CollectError> {
    let background = place.member("background"@);
    if has_image(place) {
        match lenient_flag(background.member("external"@)) {
            Some(external) => Ok(
                seq![
                    Wanted {
                        file: background.member("image"@).text(),
                        components: Some(dirs),
                        external: Some(external),
                        default_ext: Some("jpg"@),
                        json_ref: JsonReferenceV {
                            pointer: place_pointer(base, id, "background/image"@),
                            source,
                        },
                        early: false,
                    },
                ],
            ),
            None => Err(CollectError::ExternalMustBeBool),
        }
    } else {
        Ok(Seq::empty())
    }
}

/// What the place `id` of the places at `base` asks for: the image behind it, and the
/// images of the objects behind and before it.
pub open spec fn place_wanted(
    place: JsonV,
    id: Seq<char>,
    base: Seq<char>,
    source: JsonSourceV,
    dirs: Seq<Seq<char>>,
) -> Result<Seq<Wanted>, CollectError> {
    if place is Object {
        match background_wanted(place, id, base, source, dirs) {
            Ok(a) => match objects_wanted(
                place.member("background_objects"@),
                place_pointer(base, id, "background_objects"@),
                source,
            ) {
                Ok(b) => match objects_wanted(
                    place.member("foreground_objects"@),
                    place_pointer(base, id, "foreground_objects"@),
                    source,
                ) {
                    Ok(c) => Ok(a + b + c),
                    Err(e) => Err(e),
                },
                Err(e) => Err(e),
            },
            Err(e) => Err(e),
        }
    } else {
        Ok(Seq::empty())
    }
}

/// What the places of `data` ask for.
pub open spec fn places_wanted(data: JsonV, dirs: Seq<Seq<char>>, case_id: u32) -> Result<
    Seq<Wanted>,
    CollectError,
> {
    match data.member("places"@).items() {
        Some(items) => gathered(
            items,
            |place: JsonV, i: int|
                place_wanted(
                    place,
                    signed_decimal(i),
                    "/places"@,
                    JsonSourceV::CaseData(case_id),
                    dirs,
                ),
            items.len() as int,
        ),
        None => Err(CollectError::Malformed),
    }
}

/// What the default places of `places` before `upto` ask for, each by its ID, where the
/// case uses it.
pub open spec fn default_places_wanted(
    places: Seq<(i64, JsonV)>,
    used: Seq<i64>,
    dirs: Seq<Seq<char>>,
    upto: int,
) -> Result<Seq<Wanted>, CollectError>
    decreases upto,
{
    if upto <= 0 {
        Ok(Seq::empty())
    } else {
        match default_places_wanted(places, used, dirs, upto - 1) {
            Ok(before) => if used.contains(places[upto - 1].0) {
                match place_wanted(
                    places[upto - 1].1,
                    signed_decimal(places[upto - 1].0 as int),
                    Seq::empty(),
                    JsonSourceV::DefaultPlaces,
                    dirs,
                ) {
                    Ok(more) => Ok(before + more),
                    Err(e) => Err(e),
                }
            } else {
                Ok(before)
            },
            Err(e) => Err(e),
        }
    }
}

/// Once a default place is refused, so is every longer part of the default places.
pub proof fn lemma_default_places_fail(
    places: Seq<(i64, JsonV)>,
    used: Seq<i64>,
    dirs: Seq<Seq<char>>,
    at: int,
    upto: int,
)
    requires
        at <= upto,
        default_places_wanted(places, used, dirs, at) is Err,
    ensures
        default_places_wanted(places, used, dirs, upto) == default_places_wanted(
            places,
            used,
            dirs,
            at,
        ),
    decreases upto - at,
{
    if at < upto {
        lemma_default_places_fail(places, used, dirs, at, upto - 1);
    }
}

fn objects_requests(place: &Json, key: &str, at: &str, source: &JsonSource) -> (r: Result<
    Vec<AssetRequest>,
    CollectError,
>)
    ensures
        match (r, objects_wanted(place@.member(key@), at@, source@)) {
            (Ok(requests), Ok(wanted)) => wanted_views(requests@) == wanted,
            (Err(e), Err(owed)) => e == owed,
            _ => false,
        },
{
    let items = match place.items_of(key) {
        Some(items) => items,
        None => {
            return Err(CollectError::ObjectsMustBeArray);
        },
    };
    let ghost each = |obj: JsonV, j: int| object_wanted(obj, j, at@, source@);
    let mut out: Vec<AssetRequest> = Vec::new();
    let mut j: usize = 0;
    assert(wanted_views(out@) =~= Seq::<Wanted>::empty());
    while j < items.len()
        invariant
            j <= items@.len(),
            each == |obj: JsonV, j: int| object_wanted(obj, j, at@, source@),
            gathered(json_views(items@), each, j as int) == Ok::<_, CollectError>(
                wanted_views(out@),
            ),
        decreases items.len() - j,
    {
        let obj = &items[j];
        assert(json_views(items@)[j as int] == obj@);
        let external = match read_lenient_flag(obj, "external") {
            Some(e) => e,
            None => false,
        };
        if obj.is_object() && external {
            let mut pointer = crate::text::concat(at, "/");
            push_decimal(&mut pointer, j as u64);
            pointer.append("/image");
            let request = AssetRequest {
                file: obj.text_of("image"),
                components: None,
                external: Some(true),
                default_ext: None,
                json_ref: JsonReference::new(source.duplicate(), pointer),
                early: false,
            };
            let ghost before = wanted_views(out@);
            out.push(request);
            assert(wanted_views(out@) =~= before + seq![request@]);
        } else {
            assert(wanted_views(out@) + Seq::<Wanted>::empty() =~= wanted_views(out@));
        }
        j += 1;
    }
    Ok(out)
}

/// The requests for the assets of the place `id` of the places at `base`.
pub fn place_requests(place: &Json, id: &str, base: &JsonReference, dirs: &Vec<String>) -> (r: Result<
    Vec<AssetRequest>,
    CollectError,
>)
    ensures
        match (r, place_wanted(place@, id@, base@.pointer, base@.source, string_views(dirs@))) {
            (Ok(requests), Ok(wanted)) => wanted_views(requests@) == wanted,
            (Err(e), Err(owed)) => e == owed,
            _ => false,
        },
{
    let mut out: Vec<AssetRequest> = Vec::new();
    assert(wanted_views(out@) =~= Seq::<Wanted>::empty());
    if !place.is_object() {
        return Ok(out);
    }
    let base_pointer = base.pointer.as_str();
    if let Some(background) = place.get("background") {
        if background.is_object() && background.contains_key("image") {
            match read_lenient_flag(background, "external") {
                Some(external) => {
                    let request = AssetRequest {
                        file: background.text_of("image"),
                        components: Some(copy_components(dirs)),
                        external: Some(external),
                        default_ext: Some("jpg".to_owned()),
                        json_ref: JsonReference::new(
                            base.source.duplicate(),
                            make_place_pointer(base_pointer, id, "background/image"),
                        ),
                        early: false,
                    };
                    out.push(request);
                    assert(wanted_views(out@) =~= seq![request@]);
                },
                None => {
                    return Err(CollectError::ExternalMustBeBool);
                },
            }
        }
    }
    let ghost a = wanted_views(out@);
    let behind_at = make_place_pointer(base_pointer, id, "background_objects");
    let behind = match objects_requests(
        place,
        "background_objects",
        behind_at.as_str(),
        &base.source,
    ) {
        Ok(b) => b,
        Err(e) => {
            return Err(e);
        },
    };
    let before_at = make_place_pointer(base_pointer, id, "foreground_objects");
    let before = match objects_requests(
        place,
        "foreground_objects",
        before_at.as_str(),
        &base.source,
    ) {
        Ok(c) => c,
        Err(e) => {
            return Err(e);
        },
    };
    append_requests(&mut out, behind);
    append_requests(&mut out, before);
    assert(wanted_views(out@) =~= a + wanted_views(behind@) + wanted_views(before@));
    Ok(out)
}

/// The requests for the assets of the places of `data`.
pub fn places_requests(data: &Json, dirs: &Vec<String>, case_id: u32) -> (r: Result<
    Vec<AssetRequest>,
    CollectError,
>)
    ensures
        match (r, places_wanted(data@, string_views(dirs@), case_id)) {
            (Ok(requests), Ok(wanted)) => wanted_views(requests@) == wanted,
            (Err(e), Err(owed)) => e == owed,
            _ => false,
        },
{
    let items = match data.items_of("places") {
        Some(items) => items,
        None => {
            return Err(CollectError::Malformed);
        },
    };
    let base = JsonReference::for_case(case_id, "/places".to_owned());
    let ghost each = |place: JsonV, i: int|
        place_wanted(
            place,
            signed_decimal(i),
            "/places"@,
            JsonSourceV::CaseData(case_id),
            string_views(dirs@),
        );
    let mut out: Vec<AssetRequest> = Vec::new();
    let mut i: usize = 0;
    assert(wanted_views(out@) =~= Seq::<Wanted>::empty());
    while i < items.len()
        invariant
            i <= items@.len(),
            base@ == (JsonReferenceV { pointer: "/places"@, source: JsonSourceV::CaseData(case_id) }),
            data@.member("places"@).items() == Some(json_views(items@)),
            each == |place: JsonV, i: int|
                place_wanted(
                    place,
                    signed_decimal(i),
                    "/places"@,
                    JsonSourceV::CaseData(case_id),
                    string_views(dirs@),
                ),
            gathered(json_views(items@), each, i as int) == Ok::<_, CollectError>(
                wanted_views(out@),
            ),
        decreases items.len() - i,
    {
        let place = &items[i];
        assert(json_views(items@)[i as int] == place@);
        let id = crate::text::decimal_string(i as u64);
        match place_requests(place, id.as_str(), &base, dirs) {
            Ok(more) => {
                let ghost before = wanted_views(out@);
                append_requests(&mut out, more);
            },
            Err(e) => {
                assert(gathered(json_views(items@), each, i + 1) is Err);
                proof {
                    lemma_gathered_fails(json_views(items@), each, i + 1, items@.len() as int);
                }
                return Err(e);
            },
        }
        i += 1;
    }
    Ok(out)
}

/// The requests for the assets of the default places of `places` that the case uses.
pub fn default_places_requests(places: &Vec<(i64, Json)>, used: &Vec<i64>, dirs: &Vec<String>) -> (r:
    Result<Vec<AssetRequest>, CollectError>)
    ensures
        match (
            r,
            default_places_wanted(
                crate::site::place_views(places@),
                used@,
                string_views(dirs@),
                places@.len() as int,
            ),
        ) {
            (Ok(requests), Ok(wanted)) => wanted_views(requests@) == wanted,
            (Err(e), Err(owed)) => e == owed,
            _ => false,
        },
{
    let base = JsonReference::new(JsonSource::DefaultPlaces, String::new());
    let ghost views = crate::site::place_views(places@);
    let mut out: Vec<AssetRequest> = Vec::new();
    let mut i: usize = 0;
    assert(wanted_views(out@) =~= Seq::<Wanted>::empty());
    while i < places.len()
        invariant
            i <= places@.len(),
            views == crate::site::place_views(places@),
            base@ == (JsonReferenceV { pointer: Seq::empty(), source: JsonSourceV::DefaultPlaces }),
            default_places_wanted(views, used@, string_views(dirs@), i as int) == Ok::<
                _,
                CollectError,
            >(wanted_views(out@)),
        decreases places.len() - i,
    {
        let id = places[i].0;
        assert(views[i as int] == (id, places@[i as int].1@));
        if contains_id(used, id) {
            let id_text = signed_decimal_string(id);
            match place_requests(&places[i].1, id_text.as_str(), &base, dirs) {
                Ok(more) => {
                    append_requests(&mut out, more);
                },
                Err(e) => {
                    assert(default_places_wanted(views, used@, string_views(dirs@), i + 1) is Err);
                    proof {
                        lemma_default_places_fail(
                            views,
                            used@,
                            string_views(dirs@),
                            i + 1,
                            places@.len() as int,
                        );
                    }
                    return Err(e);
                },
            }
        }
        i += 1;
    }
    Ok(out)
}

/// Whether `id` is among `ids`.
pub(crate) fn contains_id(ids: &Vec<i64>, id: i64) -> (r: bool)
    ensures
        r == ids@.contains(id),
{
    let mut i: usize = 0;
    while i < ids.len()
        invariant
            i <= ids@.len(),
            forall|k: int| 0 <= k < i ==> ids@[k] != id,
        decreases ids.len() - i,
    {
        if ids[i] == id {
            return true;
        }
        i += 1;
    }
    false
}

/// The icon of a profile as it is collected: its own where it names one, and else the
/// icon on the site that goes with the base of the profile.
pub open spec fn profile_icon(profile: JsonV, icon_dirs: Seq<Seq<char>>) -> JsonV {
    if holds_text(profile.member("icon"@)) {
        profile.member("icon"@)
    } else {
        match profile.member("base"@).text() {
            Some(base) => JsonV::Text(joined(icon_dirs, "/"@) + "/"@ + base + ".png"@),
            None => JsonV::Null,
        }
    }
}

/// The pointer to the sprite of kind `kind` of the custom sprite `j` of the profile `i`.
pub open spec fn sprite_pointer(i: int, j: int, kind: Seq<char>) -> Seq<char> {
    "/profiles/"@ + signed_decimal(i) + "/custom_sprites/"@ + signed_decimal(j) + "/"@ + kind
}

/// What the custom sprite `j` of the profile `i` asks for as its sprite of kind `kind`.
pub open spec fn kind_wanted(custom: JsonV, i: int, j: int, kind: Seq<char>, case_id: u32) -> Seq<
    Wanted,
> {
    if holds_text(custom.member(kind)) {
        seq![
            Wanted {
                file: custom.member(kind).text(),
                components: None,
                external: Some(true),
                default_ext: Some("gif"@),
                json_ref: case_place(case_id, sprite_pointer(i, j, kind)),
                early: false,
            },
        ]
    } else {
        Seq::empty()
    }
}

/// What the custom sprite `j` of the profile `i` asks for: its talking, its still and
/// its startup sprite, where it names them.
pub open spec fn custom_wanted(custom: JsonV, i: int, j: int, case_id: u32) -> Result<
    Seq<Wanted>,
    CollectError,
> {
    if custom is Object {
        Ok(
            kind_wanted(custom, i, j, "talking"@, case_id) + kind_wanted(
                custom,
                i,
                j,
                "still"@,
                case_id,
            ) + kind_wanted(custom, i, j, "startup"@, case_id),
        )
    } else {
        Err(CollectError::Malformed)
    }
}

/// What the profile `i` asks for: its icon, and its custom sprites.
pub open spec fn profile_wanted(profile: JsonV, i: int, icon_dirs: Seq<Seq<char>>, case_id: u32) -> Result<
    Seq<Wanted>,
    CollectError,
> {
    if profile is Object {
        match profile.member("custom_sprites"@).items() {
            Some(customs) => match gathered(
                customs,
                |c: JsonV, j: int| custom_wanted(c, i, j, case_id),
                customs.len() as int,
            ) {
                Ok(more) => Ok(
                    seq![
                        Wanted {
                            file: profile_icon(profile, icon_dirs).text(),
                            components: None,
                            external: Some(true),
                            default_ext: Some("png"@),
                            json_ref: case_place(case_id, entry_pointer("profiles"@, i, "icon"@)),
                            early: false,
                        },
                    ] + more,
                ),
                Err(e) => Err(e),
            },
            None => Err(CollectError::Malformed),
        }
    } else {
        Ok(Seq::empty())
    }
}

/// What the profiles of `data` ask for.
pub open spec fn profiles_wanted(data: JsonV, icon_dirs: Seq<Seq<char>>, case_id: u32) -> Result<
    Seq<Wanted>,
    CollectError,
> {
    match data.member("profiles"@).items() {
        Some(items) => gathered(
            items,
            |p: JsonV, i: int| profile_wanted(p, i, icon_dirs, case_id),
            items.len() as int,
        ),
        None => Err(CollectError::Malformed),
    }
}

/// The icon of a profile as it is collected.
pub fn icon_of_profile(profile: &Json, icon_dirs: &Vec<String>) -> (r: Json)
    ensures
        r@ == profile_icon(profile@, string_views(icon_dirs@)),
{
    if has_text(profile, "icon") {
        match profile.get("icon") {
            Some(icon) => icon.duplicate(),
            None => Json::Null,
        }
    } else {
        match profile.text_of("base") {
            Some(base) => {
                let mut icon = join(icon_dirs, "/");
                icon.append("/");
                icon.append(base.as_str());
                icon.append(".png");
                Json::Text(icon)
            },
            None => Json::Null,
        }
    }
}

fn kind_requests(custom: &Json, i: usize, j: usize, kind: &str, case_id: u32) -> (r: Vec<
    AssetRequest,
>)
    ensures
        wanted_views(r@) == kind_wanted(custom@, i as int, j as int, kind@, case_id),
{
    let mut out: Vec<AssetRequest> = Vec::new();
    if has_text(custom, kind) {
        let mut pointer = "/profiles/".to_owned();
        push_decimal(&mut pointer, i as u64);
        pointer.append("/custom_sprites/");
        push_decimal(&mut pointer, j as u64);
        pointer.append("/");
        pointer.append(kind);
        assert(pointer@ =~= sprite_pointer(i as int, j as int, kind@));
        let request = AssetRequest {
            file: custom.text_of(kind),
            components: None,
            external: Some(true),
            default_ext: Some("gif".to_owned()),
            json_ref: JsonReference::for_case(case_id, pointer),
            early: false,
        };
        out.push(request);
        assert(wanted_views(out@) =~= seq![request@]);
    } else {
        assert(wanted_views(out@) =~= Seq::<Wanted>::empty());
    }
    out
}

fn custom_requests(profile: &Json, i: usize, case_id: u32) -> (r: Result<
    Vec<AssetRequest>,
    CollectError,
>)
    ensures
        match (r, profile@.member("custom_sprites"@).items()) {
            (Ok(requests), Some(customs)) => gathered(
                customs,
                |c: JsonV, j: int| custom_wanted(c, i as int, j, case_id),
                customs.len() as int,
            ) == Ok::<_, CollectError>(wanted_views(requests@)),
            (Err(e), Some(customs)) => gathered(
                customs,
                |c: JsonV, j: int| custom_wanted(c, i as int, j, case_id),
                customs.len() as int,
            ) == Err::<Seq<Wanted>, _>(e),
            (Err(e), None) => e == CollectError::Malformed,
            _ => false,
        },
{
    let customs = match profile.items_of("custom_sprites") {
        Some(c) => c,
        None => {
            return Err(CollectError::Malformed);
        },
    };
    let ghost each = |c: JsonV, j: int| custom_wanted(c, i as int, j, case_id);
    let mut out: Vec<AssetRequest> = Vec::new();
    let mut j: usize = 0;
    assert(wanted_views(out@) =~= Seq::<Wanted>::empty());
    while j < customs.len()
        invariant
            j <= customs@.len(),
            each == |c: JsonV, j: int| custom_wanted(c, i as int, j, case_id),
            profile@.member("custom_sprites"@).items() == Some(json_views(customs@)),
            gathered(json_views(customs@), each, j as int) == Ok::<_, CollectError>(
                wanted_views(out@),
            ),
        decreases customs.len() - j,
    {
        let custom = &customs[j];
        assert(json_views(customs@)[j as int] == custom@);
        if !custom.is_object() {
            assert(gathered(json_views(customs@), each, j + 1) is Err);
            proof {
                lemma_gathered_fails(json_views(customs@), each, j + 1, customs@.len() as int);
            }
            return Err(CollectError::Malformed);
        }
        let ghost before = wanted_views(out@);
        let talking = kind_requests(custom, i, j, "talking", case_id);
        let still = kind_requests(custom, i, j, "still", case_id);
        let startup = kind_requests(custom, i, j, "startup", case_id);
        append_requests(&mut out, talking);
        append_requests(&mut out, still);
        append_requests(&mut out, startup);
        assert(wanted_views(out@) =~= before + (wanted_views(talking@) + wanted_views(still@)
            + wanted_views(startup@)));
        j += 1;
    }
    Ok(out)
}

/// The requests for the assets of the profiles of `data`: of each its icon, and its
/// custom sprites.
pub fn profiles_requests(data: &Json, icon_dirs: &Vec<String>, case_id: u32) -> (r: Result<
    Vec<AssetRequest>,
    CollectError,
>)
    ensures
        match (r, profiles_wanted(data@, string_views(icon_dirs@), case_id)) {
            (Ok(requests), Ok(wanted)) => wanted_views(requests@) == wanted,
            (Err(e), Err(owed)) => e == owed,
            _ => false,
        },
{
    let items = match data.items_of("profiles") {
        Some(items) => items,
        None => {
            return Err(CollectError::Malformed);
        },
    };
    let ghost each = |p: JsonV, i: int| profile_wanted(p, i, string_views(icon_dirs@), case_id);
    let mut out: Vec<AssetRequest> = Vec::new();
    let mut i: usize = 0;
    assert(wanted_views(out@) =~= Seq::<Wanted>::empty());
    while i < items.len()
        invariant
            i <= items@.len(),
            each == |p: JsonV, i: int| profile_wanted(p, i, string_views(icon_dirs@), case_id),
            data@.member("profiles"@).items() == Some(json_views(items@)),
            gathered(json_views(items@), each, i as int) == Ok::<_, CollectError>(
                wanted_views(out@),
            ),
        decreases items.len() - i,
    {
        let profile = &items[i];
        assert(json_views(items@)[i as int] == profile@);
        if profile.is_object() {
            match custom_requests(profile, i, case_id) {
                Ok(more) => {
                    let icon = icon_of_profile(profile, icon_dirs);
                    let request = AssetRequest {
                        file: match icon.as_str() {
                            Some(t) => Some(t.to_owned()),
                            None => None,
                        },
                        components: None,
                        external: Some(true),
                        default_ext: Some("png".to_owned()),
                        json_ref: JsonReference::for_case(
                            case_id,
                            make_entry_pointer("profiles", i, "icon"),
                        ),
                        early: false,
                    };
                    let ghost before = wanted_views(out@);
                    out.push(request);
                    assert(wanted_views(out@) =~= before + seq![request@]);
                    append_requests(&mut out, more);
                    assert(wanted_views(out@) =~= before + (seq![request@] + wanted_views(more@)));
                },
                Err(e) => {
                    assert(gathered(json_views(items@), each, i + 1) is Err);
                    proof {
                        lemma_gathered_fails(json_views(items@), each, i + 1, items@.len() as int);
                    }
                    return Err(e);
                },
            }
        } else {
            assert(wanted_views(out@) + Seq::<Wanted>::empty() =~= wanted_views(out@));
        }
        i += 1;
    }
    Ok(out)
}

/// The base of a profile under its ID, for a profile that names both.
pub open spec fn profile_base(profile: JsonV, at: int) -> Result<Seq<(i64, Seq<char>)>, CollectError> {
    if profile is Object {
        match (profile.member("id"@).integer(), profile.member("base"@).text()) {
            (Some(id), Some(base)) => Ok(seq![(id, base)]),
            _ => Err(CollectError::Malformed),
        }
    } else {
        Ok(Seq::empty())
    }
}

/// What stands under `key` in the last entry of `entries` that has that key.
pub open spec fn last_under<V>(entries: Seq<(i64, V)>, key: i64) -> Option<V>
    decreases entries.len(),
{
    if entries.len() == 0 {
        None
    } else if entries.last().0 == key {
        Some(entries.last().1)
    } else {
        last_under(entries.drop_last(), key)
    }
}

/// The default sprite that a character shows: the base of its profile and the number of
/// the sprite, where the sprite is a default one, which a negative ID tells.
pub open spec fn default_sprite(bases: Seq<(i64, Seq<char>)>, shown: (i64, i64)) -> Result<
    Seq<(Seq<char>, i64)>,
    CollectError,
> {
    if shown.1 < 0 {
        match last_under(bases, shown.0) {
            Some(base) => if shown.1 == i64::MIN {
                Err(CollectError::Malformed)
            } else {
                Ok(seq![(base, (-shown.1) as i64)])
            },
            None => Err(CollectError::Malformed),
        }
    } else {
        Ok(Seq::empty())
    }
}

/// The base of the profile that stands for the judge, which every case has.
pub const JUDGE_BASE: &'static str = "Juge";

/// The bases of the profiles of `profiles`, each under its ID, and behind them the one
/// of the judge under 0.
pub open spec fn profile_bases(profiles: JsonV) -> Result<Seq<(i64, Seq<char>)>, CollectError> {
    match profiles.items() {
        Some(items) => match gathered(
            items,
            |p: JsonV, i: int| profile_base(p, i),
            items.len() as int,
        ) {
            Ok(bases) => Ok(bases.push((0i64, JUDGE_BASE@))),
            Err(e) => Err(e),
        },
        None => Err(CollectError::Malformed),
    }
}

/// The default sprites that are actually used in the case, each once: the base of the
/// character and the number of the sprite, for the sprites `shown` of the profiles
/// `profiles`.
pub open spec fn used_default_sprites(profiles: JsonV, shown: Seq<(i64, i64)>) -> Result<
    Seq<(Seq<char>, i64)>,
    CollectError,
> {
    match profile_bases(profiles) {
        Ok(bases) => match gathered(
            shown,
            |s: (i64, i64), k: int| default_sprite(bases, s),
            shown.len() as int,
        ) {
            Ok(all) => Ok(unique(all)),
            Err(e) => Err(e),
        },
        Err(e) => Err(e),
    }
}

/// The bases and numbers of `sprites`.
pub open spec fn sprite_pairs(sprites: Seq<(String, i64)>) -> Seq<(Seq<char>, i64)> {
    Seq::new(sprites.len(), |i: int| (sprites[i].0@, sprites[i].1))
}

/// The IDs and bases of `bases`.
pub open spec fn base_pairs(bases: Seq<(i64, String)>) -> Seq<(i64, Seq<char>)> {
    Seq::new(bases.len(), |i: int| (bases[i].0, bases[i].1@))
}

fn bases_of(profiles: &Json) -> (r: Result<Vec<(i64, String)>, CollectError>)
    ensures
        match (r, profile_bases(profiles@)) {
            (Ok(bases), Ok(owed)) => base_pairs(bases@) == owed,
            (Err(e), Err(owed)) => e == owed,
            _ => false,
        },
{
    let items = match profiles.as_array() {
        Some(items) => items,
        None => {
            return Err(CollectError::Malformed);
        },
    };
    let ghost each = |p: JsonV, i: int| profile_base(p, i);
    let mut out: Vec<(i64, String)> = Vec::new();
    let mut i: usize = 0;
    assert(base_pairs(out@) =~= Seq::<(i64, Seq<char>)>::empty());
    while i < items.len()
        invariant
            i <= items@.len(),
            each == |p: JsonV, i: int| profile_base(p, i),
            profiles@.items() == Some(json_views(items@)),
            gathered(json_views(items@), each, i as int) == Ok::<_, CollectError>(
                base_pairs(out@),
            ),
        decreases items.len() - i,
    {
        let profile = &items[i];
        assert(json_views(items@)[i as int] == profile@);
        if profile.is_object() {
            match (profile.integer_of("id"), profile.text_of("base")) {
                (Some(id), Some(base)) => {
                    let ghost before = base_pairs(out@);
                    out.push((id, base));
                    assert(base_pairs(out@) =~= before + seq![(id, base@)]);
                },
                _ => {
                    assert(gathered(json_views(items@), each, i + 1) is Err);
                    proof {
                        lemma_gathered_fails(json_views(items@), each, i + 1, items@.len() as int);
                    }
                    return Err(CollectError::Malformed);
                },
            }
        } else {
            assert(base_pairs(out@) + Seq::<(i64, Seq<char>)>::empty() =~= base_pairs(out@));
        }
        i += 1;
    }
    let ghost before = base_pairs(out@);
    out.push((0, JUDGE_BASE.to_owned()));
    assert(base_pairs(out@) =~= before.push((0i64, JUDGE_BASE@)));
    Ok(out)
}

fn find_base(bases: &Vec<(i64, String)>, id: i64) -> (r: Option<&str>)
    ensures
        match r {
            Some(base) => last_under(base_pairs(bases@), id) == Some(base@),
            None => last_under(base_pairs(bases@), id) is None,
        },
{
    let mut i: usize = bases.len();
    assert(base_pairs(bases@).take(i as int) =~= base_pairs(bases@));
    while i > 0
        invariant
            i <= bases@.len(),
            last_under(base_pairs(bases@), id) == last_under(base_pairs(bases@).take(i as int), id),
        decreases i,
    {
        let ghost part = base_pairs(bases@).take(i as int);
        assert(part.last() == (bases@[i - 1].0, bases@[i - 1].1@));
        assert(part.drop_last() =~= base_pairs(bases@).take(i - 1));
        if bases[i - 1].0 == id {
            return Some(bases[i - 1].1.as_str());
        }
        i -= 1;
    }
    None
}

fn contains_sprite(sprites: &Vec<(String, i64)>, base: &str, id: i64) -> (r: bool)
    ensures
        r == sprite_pairs(sprites@).contains((base@, id)),
{
    let mut i: usize = 0;
    while i < sprites.len()
        invariant
            i <= sprites@.len(),
            forall|k: int| 0 <= k < i ==> (#[trigger] sprite_pairs(sprites@)[k]) != (base@, id),
        decreases sprites.len() - i,
    {
        if sprites[i].1 == id && str_eq(sprites[i].0.as_str(), base) {
            assert(sprite_pairs(sprites@)[i as int] == (base@, id));
            return true;
        }
        i += 1;
    }
    false
}

/// Returns the default sprites that are actually used in the case (as character base
/// and sprite ID), based on the given `profiles` and the sprites `shown`.
pub fn get_used_default_sprites(profiles: &Json, shown: &Vec<(i64, i64)>) -> (r: Result<
    Vec<(String, i64)>,
    CollectError,
>)
    ensures
        match (r, used_default_sprites(profiles@, shown@)) {
            (Ok(sprites), Ok(owed)) => sprite_pairs(sprites@) == owed,
            (Err(e), Err(owed)) => e == owed,
            _ => false,
        },
{
    let bases = match bases_of(profiles) {
        Ok(b) => b,
        Err(e) => {
            return Err(e);
        },
    };
    let ghost known = base_pairs(bases@);
    let ghost each = |s: (i64, i64), k: int| default_sprite(known, s);
    let ghost mut all: Seq<(Seq<char>, i64)> = Seq::empty();
    let mut out: Vec<(String, i64)> = Vec::new();
    let mut i: usize = 0;
    assert(sprite_pairs(out@) =~= unique(all));
    while i < shown.len()
        invariant
            i <= shown@.len(),
            known == base_pairs(bases@),
            profile_bases(profiles@) == Ok::<_, CollectError>(known),
            each == |s: (i64, i64), k: int| default_sprite(known, s),
            gathered(shown@, each, i as int) == Ok::<_, CollectError>(all),
            sprite_pairs(out@) == unique(all),
        decreases shown.len() - i,
    {
        let (profile, sprite) = shown[i];
        if sprite < 0 {
            match find_base(&bases, profile) {
                Some(base) => {
                    if sprite == i64::MIN {
                        proof {
                            lemma_gathered_fails(shown@, each, i + 1, shown@.len() as int);
                        }
                        return Err(CollectError::Malformed);
                    }
                    let id = -sprite;
                    proof {
                        let next = all + seq![(base@, id)];
                        assert(next.drop_last() =~= all);
                        assert(next.last() == (base@, id));
                        all = next;
                    }
                    if !contains_sprite(&out, base, id) {
                        let ghost before = sprite_pairs(out@);
                        out.push((base.to_owned(), id));
                        assert(sprite_pairs(out@) =~= before.push((base@, id)));
                    }
                },
                None => {
                    proof {
                        lemma_gathered_fails(shown@, each, i + 1, shown@.len() as int);
                    }
                    return Err(CollectError::Malformed);
                },
            }
        } else {
            assert(all + Seq::<(Seq<char>, i64)>::empty() =~= all);
        }
        i += 1;
    }
    Ok(out)
}

/// The name under which a default sprite is marked as having a startup animation.
pub open spec fn startup_name(base: Seq<char>, id: i64) -> Seq<char> {
    base + "/"@ + signed_decimal(id as int)
}

/// What one default sprite asks for as its sprite of kind `kind`: a file of the site,
/// unless the kind is the startup animation and the sprite has none.
pub open spec fn default_kind_wanted(
    base: Seq<char>,
    id: i64,
    kind: Seq<char>,
    startup: Seq<Seq<char>>,
    paths: SitePaths,
) -> Seq<Wanted> {
    if kind == "startup"@ && !startup.contains(startup_name(base, id)) {
        Seq::empty()
    } else {
        seq![
            Wanted {
                file: Some(signed_decimal(id as int) + ".gif"@),
                components: Some(seq![paths.picture_dir@, paths.subdir(kind), base]),
                external: Some(false),
                default_ext: Some("gif"@),
                json_ref: JsonReferenceV {
                    pointer: Seq::empty(),
                    source: JsonSourceV::DefaultSprites(base, id, kind),
                },
                early: false,
            },
        ]
    }
}

/// What the default sprites of `sprites` before `upto` ask for: of each its talking,
/// its still and its startup sprite.
pub open spec fn default_sprites_wanted(
    sprites: Seq<(Seq<char>, i64)>,
    startup: Seq<Seq<char>>,
    paths: SitePaths,
    upto: int,
) -> Seq<Wanted>
    decreases upto,
{
    if upto <= 0 {
        Seq::empty()
    } else {
        let s = sprites[upto - 1];
        default_sprites_wanted(sprites, startup, paths, upto - 1) + default_kind_wanted(
            s.0,
            s.1,
            "talking"@,
            startup,
            paths,
        ) + default_kind_wanted(s.0, s.1, "still"@, startup, paths) + default_kind_wanted(
            s.0,
            s.1,
            "startup"@,
            startup,
            paths,
        )
    }
}

fn default_kind_requests(
    base: &str,
    id: i64,
    kind: &str,
    default_data: &crate::site::DefaultData,
    paths: &SitePaths,
) -> (r: Vec<AssetRequest>)
    requires
        is_sprite_kind(kind@),
    ensures
        wanted_views(r@) == default_kind_wanted(base@, id, kind@, default_data@.startup, *paths),
{
    let mut out: Vec<AssetRequest> = Vec::new();
    let mut name = concat(base, "/");
    push_signed_decimal(&mut name, id);
    if str_eq(kind, "startup") && !default_data.has_startup(name.as_str()) {
        assert(wanted_views(out@) =~= Seq::<Wanted>::empty());
        return out;
    }
    let mut file = signed_decimal_string(id);
    file.append(".gif");
    let request = AssetRequest {
        file: Some(file),
        components: Some(paths.sprite_path(kind, base)),
        external: Some(false),
        default_ext: Some("gif".to_owned()),
        json_ref: JsonReference::new(
            JsonSource::DefaultSprites(base.to_owned(), id, kind.to_owned()),
            String::new(),
        ),
        early: false,
    };
    out.push(request);
    assert(wanted_views(out@) =~= seq![request@]);
    out
}

/// The requests for the default sprites `sprites`: only those that ended up actually
/// being used are downloaded.
pub fn default_sprites_requests(
    sprites: &Vec<(String, i64)>,
    default_data: &crate::site::DefaultData,
    paths: &SitePaths,
) -> (r: Vec<AssetRequest>)
    ensures
        wanted_views(r@) == default_sprites_wanted(
            sprite_pairs(sprites@),
            default_data@.startup,
            *paths,
            sprites@.len() as int,
        ),
{
    let mut out: Vec<AssetRequest> = Vec::new();
    let mut i: usize = 0;
    assert(wanted_views(out@) =~= Seq::<Wanted>::empty());
    while i < sprites.len()
        invariant
            i <= sprites@.len(),
            wanted_views(out@) == default_sprites_wanted(
                sprite_pairs(sprites@),
                default_data@.startup,
                *paths,
                i as int,
            ),
        decreases sprites.len() - i,
    {
        let base = sprites[i].0.as_str();
        let id = sprites[i].1;
        assert(sprite_pairs(sprites@)[i as int] == (base@, id));
        let talking = default_kind_requests(base, id, "talking", default_data, paths);
        let still = default_kind_requests(base, id, "still", default_data, paths);
        let startup = default_kind_requests(base, id, "startup", default_data, paths);
        append_requests(&mut out, talking);
        append_requests(&mut out, still);
        append_requests(&mut out, startup);
        i += 1;
    }
    out
}

/// What the voice `id` asks for in the format `ext`: the blip of that voice, a file of
/// the site.
pub open spec fn voice_wanted(id: u64, ext: Seq<char>, dirs: Seq<Seq<char>>) -> Wanted {
    Wanted {
        file: Some("voice_singleblip_"@ + decimal(id as nat) + "."@ + ext),
        components: Some(dirs),
        external: Some(false),
        default_ext: None,
        json_ref: JsonReferenceV {
            pointer: Seq::empty(),
            source: JsonSourceV::DefaultVoices(id, ext),
        },
        early: false,
    }
}

/// What the voices up to `upto` ask for: each voice as opus, as wav and as mp3.
pub open spec fn voices_wanted(dirs: Seq<Seq<char>>, upto: nat) -> Seq<Wanted>
    decreases upto,
{
    if upto == 0 {
        Seq::empty()
    } else {
        voices_wanted(dirs, (upto - 1) as nat) + seq![
            voice_wanted(upto as u64, "opus"@, dirs),
            voice_wanted(upto as u64, "wav"@, dirs),
            voice_wanted(upto as u64, "mp3"@, dirs),
        ]
    }
}

/// The number of voices that the player has.
pub const VOICES: u64 = 3;

fn voice_request(id: u64, ext: &str, dirs: &Vec<String>) -> (r: AssetRequest)
    ensures
        r@ == voice_wanted(id, ext@, string_views(dirs@)),
{
    let mut file = "voice_singleblip_".to_owned();
    push_decimal(&mut file, id);
    file.append(".");
    file.append(ext);
    AssetRequest {
        file: Some(file),
        components: Some(copy_components(dirs)),
        external: Some(false),
        default_ext: None,
        json_ref: JsonReference::new(JsonSource::DefaultVoices(id, ext.to_owned()), String::new()),
        early: false,
    }
}

/// The requests for the voices, which are just all voices, since there are no custom
/// ones.
pub fn voices_requests(dirs: &Vec<String>) -> (r: Vec<AssetRequest>)
    ensures
        wanted_views(r@) == voices_wanted(string_views(dirs@), VOICES as nat),
{
    let mut out: Vec<AssetRequest> = Vec::new();
    let mut id: u64 = 0;
    assert(wanted_views(out@) =~= Seq::<Wanted>::empty());
    while id < VOICES
        invariant
            id <= VOICES,
            wanted_views(out@) == voices_wanted(string_views(dirs@), id as nat),
        decreases VOICES - id,
    {
        id += 1;
        let ghost before = wanted_views(out@);
        let opus = voice_request(id, "opus", dirs);
        let wav = voice_request(id, "wav", dirs);
        let mp3 = voice_request(id, "mp3", dirs);
        out.push(opus);
        out.push(wav);
        out.push(mp3);
        assert(wanted_views(out@) =~= before + seq![opus@, wav@, mp3@]);
    }
    out
}

/// The number of psyche locks that a dialogue shows.
pub open spec fn dialogue_locks(dialogue: JsonV) -> nat {
    if dialogue is Object && dialogue.member("locks"@) is Object {
        match dialogue.member("locks"@).member("locks_to_display"@).items() {
            Some(locks) => locks.len(),
            None => 0,
        }
    } else {
        0
    }
}

/// The greatest number of psyche locks that one of the dialogues before `upto` shows.
pub open spec fn most_locks_of(dialogues: Seq<JsonV>, upto: int) -> nat
    decreases upto,
{
    if upto <= 0 {
        0
    } else {
        let before = most_locks_of(dialogues, upto - 1);
        let here = dialogue_locks(dialogues[upto - 1]);
        if here > before {
            here
        } else {
            before
        }
    }
}

/// The greatest number of psyche locks that a dialogue of the scenes before `upto`
/// shows; nothing where a scene does not hold its dialogues in an array.
pub open spec fn most_locks_in(scenes: Seq<JsonV>, upto: int) -> Option<nat>
    decreases upto,
{
    if upto <= 0 {
        Some(0)
    } else {
        match most_locks_in(scenes, upto - 1) {
            Some(before) => {
                let scene = scenes[upto - 1];
                if scene is Object {
                    match scene.member("dialogues"@).items() {
                        Some(dialogues) => {
                            let here = most_locks_of(dialogues, dialogues.len() as int);
                            if here > before {
                                Some(here)
                            } else {
                                Some(before)
                            }
                        },
                        None => None,
                    }
                } else {
                    Some(before)
                }
            },
            None => None,
        }
    }
}

/// The number of psyche locks that the case needs at most.
pub open spec fn max_locks(data: JsonV) -> Result<u8, CollectError> {
    match data.member("scenes"@).items() {
        Some(scenes) => match most_locks_in(scenes, scenes.len() as int) {
            Some(n) => if n <= 255 {
                Ok(n as u8)
            } else {
                Err(CollectError::TooManyLocks)
            },
            None => Err(CollectError::Malformed),
        },
        None => Err(CollectError::Malformed),
    }
}

proof fn lemma_most_locks_in_fails(scenes: Seq<JsonV>, at: int, upto: int)
    requires
        at <= upto,
        most_locks_in(scenes, at) is None,
    ensures
        most_locks_in(scenes, upto) is None,
    decreases upto - at,
{
    if at < upto {
        lemma_most_locks_in_fails(scenes, at, upto - 1);
    }
}

fn locks_of_dialogues(dialogues: &Vec<Json>) -> (r: usize)
    ensures
        r == most_locks_of(json_views(dialogues@), dialogues@.len() as int),
{
    let mut most: usize = 0;
    let mut i: usize = 0;
    while i < dialogues.len()
        invariant
            i <= dialogues@.len(),
            most == most_locks_of(json_views(dialogues@), i as int),
        decreases dialogues.len() - i,
    {
        let dialogue = &dialogues[i];
        assert(json_views(dialogues@)[i as int] == dialogue@);
        let here: usize = if dialogue.is_object() {
            match dialogue.get("locks") {
                Some(locks) => if locks.is_object() {
                    match locks.items_of("locks_to_display") {
                        Some(shown) => shown.len(),
                        None => 0,
                    }
                } else {
                    0
                },
                None => 0,
            }
        } else {
            0
        };
        if here > most {
            most = here;
        }
        i += 1;
    }
    most
}

/// The number of psyche locks that the case needs at most.
pub fn count_max_locks(data: &Json) -> (r: Result<u8, CollectError>)
    ensures
        r == max_locks(data@),
{
    let scenes = match data.items_of("scenes") {
        Some(s) => s,
        None => {
            return Err(CollectError::Malformed);
        },
    };
    let mut most: usize = 0;
    let mut i: usize = 0;
    while i < scenes.len()
        invariant
            i <= scenes@.len(),
            data@.member("scenes"@).items() == Some(json_views(scenes@)),
            most_locks_in(json_views(scenes@), i as int) == Some(most as nat),
        decreases scenes.len() - i,
    {
        let scene = &scenes[i];
        assert(json_views(scenes@)[i as int] == scene@);
        if scene.is_object() {
            match scene.items_of("dialogues") {
                Some(dialogues) => {
                    let here = locks_of_dialogues(dialogues);
                    if here > most {
                        most = here;
                    }
                },
                None => {
                    assert(most_locks_in(json_views(scenes@), i + 1) is None);
                    proof {
                        lemma_most_locks_in_fails(json_views(scenes@), i + 1, scenes@.len() as int);
                    }
                    return Err(CollectError::Malformed);
                },
            }
        }
        i += 1;
    }
    if most <= 255 {
        Ok(most as u8)
    } else {
        Err(CollectError::TooManyLocks)
    }
}

/// What the psyche-lock animation `name` asks for: a file of the site, whose local path
/// must be known at once where files are written, since the copies for each lock are
/// made beside it.
pub open spec fn lock_wanted(name: Seq<char>, dirs: Seq<Seq<char>>, early: bool) -> Wanted {
    Wanted {
        file: Some(name),
        components: Some(dirs),
        external: Some(false),
        default_ext: Some("gif"@),
        json_ref: JsonReferenceV { pointer: Seq::empty(), source: JsonSourceV::PsycheLock(name) },
        early,
    }
}

/// The request for the psyche-lock animation `name`.
pub fn lock_request(name: &str, dirs: &Vec<String>, early: bool) -> (r: AssetRequest)
    ensures
        r@ == lock_wanted(name@, string_views(dirs@), early),
{
    AssetRequest {
        file: Some(name.to_owned()),
        components: Some(copy_components(dirs)),
        external: Some(false),
        default_ext: Some("gif".to_owned()),
        json_ref: JsonReference::new(JsonSource::PsycheLock(name.to_owned()), String::new()),
        early,
    }
}

} // verus!

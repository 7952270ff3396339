//! Writes the local path of a downloaded asset back into every place that waits for it.

use crate::case::Case;
use crate::collector::request_views;
use crate::download::{
    AssetDownload, AssetDownloadV, JsonReference, JsonReferenceV, JsonSource, JsonSourceV,
};
use crate::json::{pointed, put, Json, JsonV};
use crate::seqs::{lemma_first_place_found, lemma_first_place_missing};
use crate::site::{
    inserted, key_place, lock_views, place_views, sprite_views, under, voice_views, DefaultDataV,
    SiteData,
};
use crate::text::{
    chars_of, find_from, first_occurrence, lemma_first_occurrence_bounds, parse_i64, parse_i64_spec,
    push_chars, str_eq,
};
use vstd::prelude::*;

verus! {

/// Why a path could not be written back.
#[derive(Debug, Clone, Copy, PartialEq, Eq, Structural)]
pub enum RewriteError {
    /// The local path of the asset is not settled.
    PathNotSettled,
    /// A place waits in the data of a case that is not among the cases.
    UnknownCase(u32),
    /// A place waits in a default place that is not among the default places.
    UnknownDefaultPlace,
    /// A pointer names no place in the document it is for.
    BadPointer,
}

/// The ID and the data of each case of `cases`.
pub open spec fn case_trees(cases: Seq<Case>) -> Seq<(u32, JsonV)> {
    Seq::new(cases.len(), |i: int| (cases[i].case_information.id, cases[i].case_data@))
}

/// The place in `trees` of the last case with the ID `id`.
pub open spec fn case_place(trees: Seq<(u32, JsonV)>, id: u32) -> Option<int>
    decreases trees.len(),
{
    if trees.len() == 0 {
        None
    } else if trees.last().0 == id {
        Some(trees.len() - 1)
    } else {
        case_place(trees.drop_last(), id)
    }
}

/// A pointer into the default places, taken apart: the ID of the place, as it is
/// written between the first two slashes, and the pointer into that place, which is the
/// rest from the second slash on.
pub open spec fn default_place_pointer(pointer: Seq<char>) -> Option<(Seq<char>, Seq<char>)> {
    match first_occurrence(pointer, seq!['/'], 0) {
        Some(a) => match first_occurrence(pointer, seq!['/'], a + 1) {
            Some(b) => if 0 <= a < b < pointer.len() {
                Some((pointer.subrange(a + 1, b), pointer.subrange(b, pointer.len() as int)))
            } else {
                None
            },
            None => None,
        },
        None => None,
    }
}

/// What waits for paths: the data of the cases, and the default data.
pub struct Waiting {
    pub trees: Seq<(u32, JsonV)>,
    pub defaults: DefaultDataV,
}

/// `w` with `path` written into the place that `r` names.
pub open spec fn written(w: Waiting, r: JsonReferenceV, path: Seq<char>) -> Result<
    Waiting,
    RewriteError,
> {
    match r.source {
        JsonSourceV::CaseData(id) => match case_place(w.trees, id) {
            Some(at) => if 0 <= at < w.trees.len() && pointed(w.trees[at].1, r.pointer) is Some {
                Ok(
                    Waiting {
                        trees: w.trees.update(
                            at,
                            (id, put(w.trees[at].1, r.pointer, JsonV::Text(path))),
                        ),
                        ..w
                    },
                )
            } else {
                Err(RewriteError::BadPointer)
            },
            None => Err(RewriteError::UnknownCase(id)),
        },
        JsonSourceV::DefaultPlaces => match default_place_pointer(r.pointer) {
            Some((id_text, inner)) => match parse_i64_spec(id_text) {
                Some(id) => match key_place(w.defaults.places, id) {
                    Some(at) => if 0 <= at < w.defaults.places.len() && pointed(
                        w.defaults.places[at].1,
                        inner,
                    ) is Some {
                        Ok(
                            Waiting {
                                defaults: DefaultDataV {
                                    places: w.defaults.places.update(
                                        at,
                                        (
                                            id,
                                            put(w.defaults.places[at].1, inner, JsonV::Text(path)),
                                        ),
                                    ),
                                    ..w.defaults
                                },
                                ..w
                            },
                        )
                    } else {
                        Err(RewriteError::BadPointer)
                    },
                    None => Err(RewriteError::UnknownDefaultPlace),
                },
                None => Err(RewriteError::BadPointer),
            },
            None => Err(RewriteError::BadPointer),
        },
        JsonSourceV::DefaultVoices(id, ext) => Ok(
            Waiting {
                defaults: DefaultDataV {
                    voices: inserted(w.defaults.voices, (id, ext), path),
                    ..w.defaults
                },
                ..w
            },
        ),
        JsonSourceV::DefaultSprites(base, id, kind) => Ok(
            Waiting {
                defaults: DefaultDataV {
                    sprites: inserted(w.defaults.sprites, (base, id, kind), path),
                    ..w.defaults
                },
                ..w
            },
        ),
        JsonSourceV::PsycheLock(name) => Ok(
            Waiting {
                defaults: DefaultDataV {
                    locks: inserted(w.defaults.locks, name, path),
                    ..w.defaults
                },
                ..w
            },
        ),
    }
}

/// `w` with `path` written into each place of `refs` in turn; the first refusal where
/// there is one.
pub open spec fn written_all(w: Waiting, refs: Seq<JsonReferenceV>, path: Seq<char>) -> Result<
    Waiting,
    RewriteError,
>
    decreases refs.len(),
{
    if refs.len() == 0 {
        Ok(w)
    } else {
        match written(w, refs[0], path) {
            Ok(next) => written_all(next, refs.drop_first(), path),
            Err(e) => Err(e),
        }
    }
}

/// What becomes of `w` when the asset with the local path `path`, for which the places
/// `refs` wait, is written back.
pub open spec fn rewritten(w: Waiting, refs: Seq<JsonReferenceV>, path: Option<Seq<char>>) -> Result<
    Waiting,
    RewriteError,
> {
    match path {
        Some(p) => written_all(w, refs, p),
        None => Err(RewriteError::PathNotSettled),
    }
}

fn find_case(cases: &Vec<Case>, id: u32) -> (r: Option<usize>)
    ensures
        match r {
            Some(at) => case_place(case_trees(cases@), id) == Some(at as int) && at < cases@.len()
                && cases@[at as int].case_information.id == id,
            None => case_place(case_trees(cases@), id) is None,
        },
{
    let mut i: usize = cases.len();
    assert(case_trees(cases@).take(i as int) =~= case_trees(cases@));
    while i > 0
        invariant
            i <= cases@.len(),
            case_place(case_trees(cases@), id) == case_place(
                case_trees(cases@).take(i as int),
                id,
            ),
        decreases i,
    {
        let ghost part = case_trees(cases@).take(i as int);
        assert(part.last() == case_trees(cases@)[i - 1]);
        assert(part.drop_last() =~= case_trees(cases@).take(i - 1));
        if cases[i - 1].id() == id {
            return Some(i - 1);
        }
        i -= 1;
    }
    None
}

fn find_default_place(places: &Vec<(i64, Json)>, id: i64) -> (r: Option<usize>)
    ensures
        match r {
            Some(at) => key_place(place_views(places@), id) == Some(at as int) && at
                < places@.len() && places@[at as int].0 == id,
            None => key_place(place_views(places@), id) is None,
        },
{
    let ghost wanted = under::<i64, JsonV>(id);
    let mut i: usize = 0;
    while i < places.len()
        invariant
            i <= places@.len(),
            wanted == under::<i64, JsonV>(id),
            forall|k: int| 0 <= k < i ==> !wanted(#[trigger] place_views(places@)[k]),
        decreases places.len() - i,
    {
        if places[i].0 == id {
            proof {
                lemma_first_place_found(place_views(places@), wanted, i as int);
            }
            return Some(i);
        }
        i += 1;
    }
    proof {
        lemma_first_place_missing(place_views(places@), wanted);
    }
    None
}

fn split_default_place_pointer(pointer: &str) -> (r: Option<(String, String)>)
    ensures
        match r {
            Some((id, inner)) => default_place_pointer(pointer@) == Some((id@, inner@)),
            None => default_place_pointer(pointer@) is None,
        },
{
    let chars = chars_of(pointer);
    let total = chars.len();
    let slash = vec!['/'];
    assert(slash@ =~= seq!['/']);
    proof {
        lemma_first_occurrence_bounds(chars@, slash@, 0);
    }
    let a = match find_from(&chars, &slash, 0) {
        Some(a) => a,
        None => {
            return None;
        },
    };
    proof {
        lemma_first_occurrence_bounds(chars@, slash@, a + 1);
    }
    let b = match find_from(&chars, &slash, a + 1) {
        Some(b) => b,
        None => {
            return None;
        },
    };
    let mut id = String::new();
    push_chars(&mut id, &chars, a + 1, b);
    let mut inner = String::new();
    push_chars(&mut inner, &chars, b, chars.len());
    Some((id, inner))
}

fn insert_voice(urls: &mut Vec<((u64, String), String)>, id: u64, ext: &str, path: &str)
    ensures
        voice_views(final(urls)@) == inserted(voice_views(old(urls)@), (id, ext@), path@),
{
    let ghost before = voice_views(urls@);
    let ghost wanted = under::<(u64, Seq<char>), Seq<char>>((id, ext@));
    let mut i: usize = 0;
    while i < urls.len()
        invariant
            i <= urls@.len(),
            *urls == *old(urls),
            before == voice_views(urls@),
            wanted == under::<(u64, Seq<char>), Seq<char>>((id, ext@)),
            forall|k: int| 0 <= k < i ==> !wanted(#[trigger] before[k]),
        decreases urls.len() - i,
    {
        if urls[i].0.0 == id && str_eq(urls[i].0.1.as_str(), ext) {
            proof {
                lemma_first_place_found(before, wanted, i as int);
            }
            let _old = urls.remove(i);
            urls.insert(i, ((id, ext.to_owned()), path.to_owned()));
            assert(voice_views(urls@) =~= before.update(i as int, ((id, ext@), path@)));
            return ;
        }
        i += 1;
    }
    proof {
        lemma_first_place_missing(before, wanted);
    }
    urls.push(((id, ext.to_owned()), path.to_owned()));
    assert(voice_views(urls@) =~= before.push(((id, ext@), path@)));
}

fn insert_sprite(
    urls: &mut Vec<((String, i64, String), String)>,
    base: &str,
    id: i64,
    kind: &str,
    path: &str,
)
    ensures
        sprite_views(final(urls)@) == inserted(
            sprite_views(old(urls)@),
            (base@, id, kind@),
            path@,
        ),
{
    let ghost before = sprite_views(urls@);
    let ghost wanted = under::<(Seq<char>, i64, Seq<char>), Seq<char>>((base@, id, kind@));
    let mut i: usize = 0;
    while i < urls.len()
        invariant
            i <= urls@.len(),
            *urls == *old(urls),
            before == sprite_views(urls@),
            wanted == under::<(Seq<char>, i64, Seq<char>), Seq<char>>((base@, id, kind@)),
            forall|k: int| 0 <= k < i ==> !wanted(#[trigger] before[k]),
        decreases urls.len() - i,
    {
        if urls[i].0.1 == id && str_eq(urls[i].0.0.as_str(), base) && str_eq(
            urls[i].0.2.as_str(),
            kind,
        ) {
            proof {
                lemma_first_place_found(before, wanted, i as int);
            }
            let _old = urls.remove(i);
            urls.insert(i, ((base.to_owned(), id, kind.to_owned()), path.to_owned()));
            assert(sprite_views(urls@) =~= before.update(i as int, ((base@, id, kind@), path@)));
            return ;
        }
        i += 1;
    }
    proof {
        lemma_first_place_missing(before, wanted);
    }
    urls.push(((base.to_owned(), id, kind.to_owned()), path.to_owned()));
    assert(sprite_views(urls@) =~= before.push(((base@, id, kind@), path@)));
}

fn insert_lock(urls: &mut Vec<(String, String)>, name: &str, path: &str)
    ensures
        lock_views(final(urls)@) == inserted(lock_views(old(urls)@), name@, path@),
{
    let ghost before = lock_views(urls@);
    let ghost wanted = under::<Seq<char>, Seq<char>>(name@);
    let mut i: usize = 0;
    while i < urls.len()
        invariant
            i <= urls@.len(),
            *urls == *old(urls),
            before == lock_views(urls@),
            wanted == under::<Seq<char>, Seq<char>>(name@),
            forall|k: int| 0 <= k < i ==> !wanted(#[trigger] before[k]),
        decreases urls.len() - i,
    {
        if str_eq(urls[i].0.as_str(), name) {
            proof {
                lemma_first_place_found(before, wanted, i as int);
            }
            let _old = urls.remove(i);
            urls.insert(i, (name.to_owned(), path.to_owned()));
            assert(lock_views(urls@) =~= before.update(i as int, (name@, path@)));
            return ;
        }
        i += 1;
    }
    proof {
        lemma_first_place_missing(before, wanted);
    }
    urls.push((name.to_owned(), path.to_owned()));
    assert(lock_views(urls@) =~= before.push((name@, path@)));
}

/// Writes `path` into the one place that `json_ref` names: in the data of the case it
/// belongs to, which is looked up by its ID, or in the default data.
pub fn write_back(
    json_ref: &JsonReference,
    path: &str,
    cases: &mut Vec<Case>,
    site_data: &mut SiteData,
) -> (r: Result<(), RewriteError>)
    ensures
        final(site_data).site_paths == old(site_data).site_paths,
        final(cases)@.len() == old(cases)@.len(),
        forall|k: int|
            0 <= k < old(cases)@.len() ==> (#[trigger] final(cases)@[k]).case_information
                == old(cases)@[k].case_information,
        match (
            r,
            written(
                Waiting { trees: case_trees(old(cases)@), defaults: old(site_data).default_data@ },
                json_ref@,
                path@,
            ),
        ) {
            (Ok(()), Ok(after)) => case_trees(final(cases)@) == after.trees && final(site_data).default_data@ == after.defaults,
            (Err(e), Err(owed)) => e == owed && case_trees(final(cases)@) == case_trees(
                old(cases)@) && final(site_data).default_data@ == old(site_data).default_data@,
            _ => false,
        },
{
    match &json_ref.source {
        JsonSource::CaseData(id) => {
            let at = match find_case(cases, *id) {
                Some(at) => at,
                None => {
                    return Err(RewriteError::UnknownCase(*id));
                },
            };
            let ghost before = case_trees(cases@);
            let ghost all = cases@;
            let mut case = cases.remove(at);
            assert(case == all[at as int]);
            let mut data = Json::Null;
            core::mem::swap(&mut data, &mut case.case_data);
            // Modify pointee to value with the path.
            let (data, found) = data.put(json_ref.pointer.as_str(), Json::Text(path.to_owned()));
            case.case_data = data;
            cases.insert(at, case);
            if found {
                assert(case_trees(cases@) =~= before.update(
                    at as int,
                    (*id, put(before[at as int].1, json_ref@.pointer, JsonV::Text(path@))),
                ));
                Ok(())
            } else {
                assert(case_trees(cases@) =~= before);
                Err(RewriteError::BadPointer)
            }
        },
        JsonSource::DefaultPlaces => {
            let (id_text, inner) = match split_default_place_pointer(json_ref.pointer.as_str()) {
                Some(parts) => parts,
                None => {
                    return Err(RewriteError::BadPointer);
                },
            };
            let id = match parse_i64(id_text.as_str()) {
                Some(id) => id,
                None => {
                    return Err(RewriteError::BadPointer);
                },
            };
            let at = match find_default_place(&site_data.default_data.default_places, id) {
                Some(at) => at,
                None => {
                    return Err(RewriteError::UnknownDefaultPlace);
                },
            };
            let ghost before = place_views(site_data.default_data.default_places@);
            let (_, place) = site_data.default_data.default_places.remove(at);
            let (place, found) = place.put(inner.as_str(), Json::Text(path.to_owned()));
            site_data.default_data.default_places.insert(at, (id, place));
            if found {
                assert(place_views(site_data.default_data.default_places@) =~= before.update(
                    at as int,
                    (id, put(before[at as int].1, inner@, JsonV::Text(path@))),
                ));
                Ok(())
            } else {
                assert(place_views(site_data.default_data.default_places@) =~= before);
                Err(RewriteError::BadPointer)
            }
        },
        JsonSource::DefaultVoices(id, ext) => {
            insert_voice(&mut site_data.default_data.default_voice_urls, *id, ext.as_str(), path);
            Ok(())
        },
        JsonSource::DefaultSprites(base, id, kind) => {
            insert_sprite(
                &mut site_data.default_data.default_sprite_urls,
                base.as_str(),
                *id,
                kind.as_str(),
                path,
            );
            Ok(())
        },
        JsonSource::PsycheLock(name) => {
            insert_lock(&mut site_data.default_data.psyche_lock_urls, name.as_str(), path);
            Ok(())
        },
    }
}

/// Writes the local path of the downloaded asset `data_asset` (or its data URL) back
/// into every place that waits for it. It stops at the first place that cannot be
/// written, and says why.
pub fn rewrite_data(data_asset: &AssetDownload, cases: &mut Vec<Case>, site_data: &mut SiteData) -> (r:
    Result<(), RewriteError>)
    ensures
        final(site_data).site_paths == old(site_data).site_paths,
        final(cases)@.len() == old(cases)@.len(),
        forall|k: int|
            0 <= k < old(cases)@.len() ==> (#[trigger] final(cases)@[k]).case_information
                == old(cases)@[k].case_information,
        match (
            r,
            rewritten(
                Waiting { trees: case_trees(old(cases)@), defaults: old(site_data).default_data@ },
                data_asset@.refs,
                data_asset@.path,
            ),
        ) {
            (Ok(()), Ok(after)) => case_trees(final(cases)@) == after.trees && final(site_data).default_data@ == after.defaults,
            (Err(e), Err(owed)) => e == owed,
            _ => false,
        },
{
    let path = match data_asset.path() {
        Some(p) => p,
        None => {
            return Err(RewriteError::PathNotSettled);
        },
    };
    let refs = data_asset.json_refs();
    let ghost all = crate::download::reference_views(refs@);
    let ghost start = Waiting { trees: case_trees(cases@), defaults: site_data.default_data@ };
    let mut i: usize = 0;
    assert(all.skip(0) =~= all);
    while i < refs.len()
        invariant
            i <= refs@.len(),
            all == crate::download::reference_views(refs@),
            all == data_asset@.refs,
            data_asset@.path == Some(path@),
            start == (Waiting {
                trees: case_trees(old(cases)@),
                defaults: old(site_data).default_data@,
            }),
            site_data.site_paths == old(site_data).site_paths,
            cases@.len() == old(cases)@.len(),
            forall|k: int|
                0 <= k < old(cases)@.len() ==> (#[trigger] cases@[k]).case_information
                    == old(cases)@[k].case_information,
            written_all(
                Waiting { trees: case_trees(cases@), defaults: site_data.default_data@ },
                all.skip(i as int),
                path@,
            ) == written_all(start, all, path@),
        decreases refs.len() - i,
    {
        assert(all.skip(i as int)[0] == refs@[i as int]@);
        assert(all.skip(i as int).drop_first() =~= all.skip(i + 1));
        let ghost before = Waiting { trees: case_trees(cases@), defaults: site_data.default_data@ };
        match write_back(&refs[i], path, cases, site_data) {
            Ok(()) => {},
            Err(e) => {
                assert(written(before, all.skip(i as int)[0], path@) is Err);
                assert(written_all(before, all.skip(i as int), path@) == Err::<Waiting, _>(e));
                return Err(e);
            },
        }
        i += 1;
    }
    assert(all.skip(refs@.len() as int) =~= Seq::<JsonReferenceV>::empty());
    Ok(())
}

/// What becomes of `w` when the assets of `assets` before `upto` are written back, one
/// after the other; the first refusal where there is one.
pub open spec fn rewritten_each(w: Waiting, assets: Seq<AssetDownloadV>, upto: int) -> Result<
    Waiting,
    RewriteError,
>
    decreases upto,
{
    if upto <= 0 {
        Ok(w)
    } else {
        match rewritten_each(w, assets, upto - 1) {
            Ok(before) => rewritten(before, assets[upto - 1].refs, assets[upto - 1].path),
            Err(e) => Err(e),
        }
    }
}

proof fn lemma_rewritten_each_fails(w: Waiting, assets: Seq<AssetDownloadV>, at: int, upto: int)
    requires
        at <= upto,
        rewritten_each(w, assets, at) is Err,
    ensures
        rewritten_each(w, assets, upto) == rewritten_each(w, assets, at),
    decreases upto - at,
{
    if at < upto {
        lemma_rewritten_each_fails(w, assets, at, upto - 1);
    }
}

/// Writes the local paths of the assets `downloaded` back into every place that waits
/// for them: one download batch may span several cases, and the default data that they
/// share. It stops at the first place that cannot be written, and says why.
pub fn rewrite_collected(
    downloaded: &Vec<AssetDownload>,
    cases: &mut Vec<Case>,
    site_data: &mut SiteData,
) -> (r: Result<(), RewriteError>)
    ensures
        final(site_data).site_paths == old(site_data).site_paths,
        final(cases)@.len() == old(cases)@.len(),
        forall|k: int|
            0 <= k < old(cases)@.len() ==> (#[trigger] final(cases)@[k]).case_information
                == old(cases)@[k].case_information,
        match (
            r,
            rewritten_each(
                Waiting { trees: case_trees(old(cases)@), defaults: old(site_data).default_data@ },
                request_views(downloaded@),
                downloaded@.len() as int,
            ),
        ) {
            (Ok(()), Ok(after)) => case_trees(final(cases)@) == after.trees
                && final(site_data).default_data@ == after.defaults,
            (Err(e), Err(owed)) => e == owed,
            _ => false,
        },
{
    let ghost all = request_views(downloaded@);
    let ghost start = Waiting { trees: case_trees(cases@), defaults: site_data.default_data@ };
    let mut i: usize = 0;
    while i < downloaded.len()
        invariant
            i <= downloaded@.len(),
            all == request_views(downloaded@),
            start == (Waiting {
                trees: case_trees(old(cases)@),
                defaults: old(site_data).default_data@,
            }),
            site_data.site_paths == old(site_data).site_paths,
            cases@.len() == old(cases)@.len(),
            forall|k: int|
                0 <= k < old(cases)@.len() ==> (#[trigger] cases@[k]).case_information
                    == old(cases)@[k].case_information,
            rewritten_each(start, all, i as int) == Ok::<_, RewriteError>(
                Waiting { trees: case_trees(cases@), defaults: site_data.default_data@ },
            ),
        decreases downloaded.len() - i,
    {
        assert(all[i as int] == downloaded@[i as int]@);
        match rewrite_data(&downloaded[i], cases, site_data) {
            Ok(()) => {},
            Err(e) => {
                proof {
                    assert(rewritten_each(start, all, i + 1) == Err::<Waiting, _>(e));
                    lemma_rewritten_each_fails(start, all, i + 1, all.len() as int);
                }
                return Err(e);
            },
        }
        i += 1;
    }
    Ok(())
}

} // verus!

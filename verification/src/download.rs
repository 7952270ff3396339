//! Requests to download the assets of a case, and the places that wait for them.

use crate::text::str_eq;
use vstd::prelude::*;

verus! {

/// The document in which a reference to an asset stands.
#[derive(Debug)]
pub enum JsonSource {
    /// An asset in the case data. The inner value represents the case ID.
    CaseData(u32),
    /// A default place.
    DefaultPlaces,
    /// A default voice. The inner values represent the ID and the extension.
    DefaultVoices(u64, String),
    /// A default sprite. The inner values represent the base, sprite ID, and kind.
    DefaultSprites(String, i64, String),
    /// A psyche-lock file. The inner value represents the filename.
    PsycheLock(String),
}

/// What a [`JsonSource`] holds.
pub enum JsonSourceV {
    CaseData(u32),
    DefaultPlaces,
    DefaultVoices(u64, Seq<char>),
    DefaultSprites(Seq<char>, i64, Seq<char>),
    PsycheLock(Seq<char>),
}

impl View for JsonSource {
    type V = JsonSourceV;

    open spec fn view(&self) -> JsonSourceV {
        match self {
            JsonSource::CaseData(id) => JsonSourceV::CaseData(*id),
            JsonSource::DefaultPlaces => JsonSourceV::DefaultPlaces,
            JsonSource::DefaultVoices(id, ext) => JsonSourceV::DefaultVoices(*id, ext@),
            JsonSource::DefaultSprites(base, id, kind) => JsonSourceV::DefaultSprites(
                base@,
                *id,
                kind@,
            ),
            JsonSource::PsycheLock(name) => JsonSourceV::PsycheLock(name@),
        }
    }
}

impl JsonSource {
    /// Whether the two name the same document.
    pub fn same(&self, other: &JsonSource) -> (r: bool)
        ensures
            r == (self@ == other@),
    {
        match (self, other) {
            (JsonSource::CaseData(a), JsonSource::CaseData(b)) => *a == *b,
            (JsonSource::DefaultPlaces, JsonSource::DefaultPlaces) => true,
            (JsonSource::DefaultVoices(a, x), JsonSource::DefaultVoices(b, y)) => *a == *b
                && str_eq(x.as_str(), y.as_str()),
            (JsonSource::DefaultSprites(x, a, k), JsonSource::DefaultSprites(y, b, l)) => *a == *b
                && str_eq(x.as_str(), y.as_str()) && str_eq(k.as_str(), l.as_str()),
            (JsonSource::PsycheLock(x), JsonSource::PsycheLock(y)) => str_eq(
                x.as_str(),
                y.as_str(),
            ),
            _ => false,
        }
    }

    /// A copy of the source.
    pub fn duplicate(&self) -> (r: JsonSource)
        ensures
            r@ == self@,
    {
        match self {
            JsonSource::CaseData(id) => JsonSource::CaseData(*id),
            JsonSource::DefaultPlaces => JsonSource::DefaultPlaces,
            JsonSource::DefaultVoices(id, ext) => JsonSource::DefaultVoices(*id, ext.clone()),
            JsonSource::DefaultSprites(base, id, kind) => JsonSource::DefaultSprites(
                base.clone(),
                *id,
                kind.clone(),
            ),
            JsonSource::PsycheLock(name) => JsonSource::PsycheLock(name.clone()),
        }
    }
}

/// A place that waits for the path of an asset: where a resolved path must be written
/// back.
#[derive(Debug)]
pub struct JsonReference {
    /// A JSON pointer (RFC 6901) to the referenced part of the JSON.
    pub pointer: String,
    /// The document from which the JSON originally came from.
    pub source: JsonSource,
}

/// What a [`JsonReference`] holds.
pub struct JsonReferenceV {
    pub pointer: Seq<char>,
    pub source: JsonSourceV,
}

impl View for JsonReference {
    type V = JsonReferenceV;

    open spec fn view(&self) -> JsonReferenceV {
        JsonReferenceV { pointer: self.pointer@, source: self.source@ }
    }
}

impl JsonReference {
    /// A reference to the place that `pointer` names in the document `source`.
    pub fn new(source: JsonSource, pointer: String) -> (r: JsonReference)
        ensures
            r@ == (JsonReferenceV { pointer: pointer@, source: source@ }),
    {
        JsonReference { pointer, source }
    }

    /// A reference to the place that `pointer` names in the data of the case `case_id`.
    pub fn for_case(case_id: u32, pointer: String) -> (r: JsonReference)
        ensures
            r@ == (JsonReferenceV { pointer: pointer@, source: JsonSourceV::CaseData(case_id) }),
    {
        JsonReference { pointer, source: JsonSource::CaseData(case_id) }
    }

    /// A reference to the place `path` below the place of this reference.
    pub fn concat_path(&self, path: &str) -> (r: JsonReference)
        ensures
            r@ == (JsonReferenceV {
                pointer: self.pointer@ + "/"@ + path@,
                source: self.source@,
            }),
    {
        let mut pointer = self.pointer.clone();
        pointer.append("/");
        pointer.append(path);
        JsonReference { pointer, source: self.source.duplicate() }
    }

    /// Whether the two name the same place.
    pub fn same(&self, other: &JsonReference) -> (r: bool)
        ensures
            r == (self@ == other@),
    {
        str_eq(self.pointer.as_str(), other.pointer.as_str()) && self.source.same(&other.source)
    }

    /// A copy of the reference.
    pub fn duplicate(&self) -> (r: JsonReference)
        ensures
            r@ == self@,
    {
        JsonReference { pointer: self.pointer.clone(), source: self.source.duplicate() }
    }
}

/// The places that the references of `refs` name.
pub open spec fn reference_views(refs: Seq<JsonReference>) -> Seq<JsonReferenceV> {
    Seq::new(refs.len(), |i: int| refs[i]@)
}

/// The text that `text` holds, if any.
pub open spec fn text_view(text: Option<String>) -> Option<Seq<char>> {
    match text {
        Some(t) => Some(t@),
        None => None,
    }
}

/// `refs` with `r` among them: behind the others where it is new, and `refs` as they are
/// where they name that place already.
pub open spec fn with_reference(refs: Seq<JsonReferenceV>, r: JsonReferenceV) -> Seq<
    JsonReferenceV,
> {
    if refs.contains(r) {
        refs
    } else {
        refs.push(r)
    }
}

/// The local path of a request was settled before, and is settled once only.
#[derive(Debug, Clone, Copy, PartialEq, Eq, Structural)]
pub struct PathAlreadySettled;

/// An asset download request.
///
/// Two download requests are the same request if and only if their URLs and output
/// paths are the same.
#[derive(Debug)]
pub struct AssetDownload {
    /// The URL to download from.
    url: String,
    /// The path to save the downloaded file to. Once it is there, it stays.
    path: Option<String>,
    /// References to the JSON containing the path to this asset, each once.
    json_refs: Vec<JsonReference>,
    /// The case title for which this asset is downloaded.
    case_title: String,
    /// The path into which this asset should be put.
    output_path: String,
}

/// What an [`AssetDownload`] holds.
pub struct AssetDownloadV {
    pub url: Seq<char>,
    pub path: Option<Seq<char>>,
    pub refs: Seq<JsonReferenceV>,
    pub case_title: Seq<char>,
    pub output: Seq<char>,
}

impl AssetDownloadV {
    /// Whether the request is the one for `url` below `output`.
    pub open spec fn is_for(self, url: Seq<char>, output: Seq<char>) -> bool {
        self.url == url && self.output == output
    }

    /// The same request with `r` among its references.
    pub open spec fn referred_by(self, r: JsonReferenceV) -> AssetDownloadV {
        AssetDownloadV { refs: with_reference(self.refs, r), ..self }
    }

    /// The same request with `path` as its local path.
    pub open spec fn settled_at(self, path: Seq<char>) -> AssetDownloadV {
        AssetDownloadV { path: Some(path), ..self }
    }
}

impl View for AssetDownload {
    type V = AssetDownloadV;

    closed spec fn view(&self) -> AssetDownloadV {
        AssetDownloadV {
            url: self.url@,
            path: text_view(self.path),
            refs: reference_views(self.json_refs@),
            case_title: self.case_title@,
            output: self.output_path@,
        }
    }
}

impl AssetDownload {
    /// A request for `url`, for the case `case_title`, to be put below `output_path`,
    /// with one place that waits for it.
    pub fn new(url: String, json_ref: JsonReference, case_title: String, output_path: String) -> (r:
        AssetDownload)
        ensures
            r@ == (AssetDownloadV {
                url: url@,
                path: None,
                refs: seq![json_ref@],
                case_title: case_title@,
                output: output_path@,
            }),
    {
        let mut json_refs: Vec<JsonReference> = Vec::new();
        json_refs.push(json_ref);
        assert(reference_views(json_refs@) =~= seq![json_ref@]);
        AssetDownload { url, path: None, json_refs, case_title, output_path }
    }

    /// The URL to download from.
    pub fn url(&self) -> (r: &str)
        ensures
            r@ == self@.url,
    {
        self.url.as_str()
    }

    /// The local path of the asset, once it is settled.
    pub fn path(&self) -> (r: Option<&str>)
        ensures
            match r {
                Some(p) => self@.path == Some(p@),
                None => self@.path is None,
            },
    {
        match &self.path {
            Some(p) => Some(p.as_str()),
            None => None,
        }
    }

    /// The title of the case for which the asset is downloaded.
    pub fn case_title(&self) -> (r: &str)
        ensures
            r@ == self@.case_title,
    {
        self.case_title.as_str()
    }

    /// The directory below which the asset is put.
    pub fn output_path(&self) -> (r: &str)
        ensures
            r@ == self@.output,
    {
        self.output_path.as_str()
    }

    /// The places that wait for the asset.
    pub fn json_refs(&self) -> (r: &Vec<JsonReference>)
        ensures
            reference_views(r@) == self@.refs,
    {
        &self.json_refs
    }

    /// Whether the request is the one for `url` below `output`.
    pub fn is_for(&self, url: &str, output: &str) -> (r: bool)
        ensures
            r == self@.is_for(url@, output@),
    {
        str_eq(self.url.as_str(), url) && str_eq(self.output_path.as_str(), output)
    }

    /// Settles the local path of the request. A path that is settled stays: a second
    /// call changes nothing and says so.
    pub fn settle(&mut self, path: String) -> (r: Result<(), PathAlreadySettled>)
        ensures
            old(self)@.path is None ==> r is Ok && final(self)@ == old(self)@.settled_at(path@),
            old(self)@.path is Some ==> r is Err && final(self)@ == old(self)@,
    {
        if self.path.is_some() {
            return Err(PathAlreadySettled);
        }
        self.path = Some(path);
        Ok(())
    }

    /// Adds a place that waits for the asset, unless it is among them already.
    pub fn add_reference(&mut self, json_ref: JsonReference)
        ensures
            final(self)@ == old(self)@.referred_by(json_ref@),
    {
        let mut i: usize = 0;
        while i < self.json_refs.len()
            invariant
                i <= self.json_refs@.len(),
                *self == *old(self),
                forall|k: int| 0 <= k < i ==> (#[trigger] reference_views(self.json_refs@)[k])
                    != json_ref@,
            decreases self.json_refs.len() - i,
        {
            if self.json_refs[i].same(&json_ref) {
                assert(reference_views(self.json_refs@)[i as int] == json_ref@);
                return ;
            }
            i += 1;
        }
        let ghost before = reference_views(self.json_refs@);
        self.json_refs.push(json_ref);
        assert(reference_views(self.json_refs@) =~= before.push(json_ref@));
    }
}

} // verus!

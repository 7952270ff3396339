//! Collects the requests to download assets, each asset once.

use crate::assets::{wanted_views, AssetRequest};
use crate::download::{text_view, AssetDownload, AssetDownloadV, JsonReference, JsonReferenceV};
use crate::json::Json;
use crate::outside::{
    hash, lowercased, percent_decode, percent_decoded, sanitize, sanitized, text_hash, to_lowercase,
};
use crate::paths::{
    collapse_slashes, collapsed, extension, extension_of, file_stem, file_stem_of, join_path,
    joined_path, names_file, set_extension, trim, trimmed, with_extension,
};
use crate::seqs::{
    first_place, lemma_first_place, lemma_first_place_found, lemma_first_place_missing,
};
use crate::site::AAONLINE_BASE;
use crate::text::{
    begins_with, chars_of, concat, decimal, join, joined, push_decimal, replace_all, replaced,
    starts_with, string_views,
};
use vstd::prelude::*;

verus! {

/// Why an asset could not be collected.
#[derive(Debug, Clone, Copy, PartialEq, Eq, Structural)]
pub enum CollectError {
    /// The local path of the request was to be settled, and was settled before.
    PathAlreadySettled,
    /// What the name of the asset leaves for a local file is no file name.
    NoFileName,
    /// The flag that says whether an asset is hosted elsewhere is no boolean.
    ExternalMustBeBool,
    /// Background or foreground objects are not in an array.
    ObjectsMustBeArray,
    /// There are more psyche locks than the player can show.
    TooManyLocks,
    /// The data of the case is not laid out as the data of a case is.
    Malformed,
    /// An asset of the site is asked for, and the directories it lies below are not.
    MissingComponents,
    /// An asset is asked for before the case it belongs to is named.
    NoCaseTitle,
}

/// The extension of a local file whose asset shows none.
pub const DEFAULT_EXT: &'static str = "bin";

/// The directory of the assets, below the output directory.
pub const ASSETS_DIR: &'static str = "assets";

/// The name of the local file for the asset at `url`, whose name is taken from `path`:
/// the stem of the name, read as it is written with `%`, then `-` and the hash of the
/// URL, cleaned and in lower case, with the extension of `path`.
pub open spec fn local_stem(url: Seq<char>, path: Seq<char>, windows: bool) -> Seq<char> {
    let stem = match file_stem(path) {
        Some(s) => s,
        None => path,
    };
    let name = match percent_decoded(stem) {
        Some(d) => replaced(d, "%"@, "-"@),
        None => stem,
    };
    lowercased(sanitized(name + "-"@ + decimal(text_hash(url) as nat), windows))
}

/// The extension of the local file for an asset whose name is taken from `path`.
pub open spec fn local_extension(path: Seq<char>) -> Seq<char> {
    match extension(path) {
        Some(e) => e,
        None => DEFAULT_EXT@,
    }
}

/// The path of the local file for the asset at `url` below `output`; nothing where the
/// name that is left for it is no file name.
pub open spec fn local_path(output: Seq<char>, url: Seq<char>, path: Seq<char>, windows: bool) -> Option<
    Seq<char>,
> {
    let stem = local_stem(url, path, windows);
    if stem.contains('/') || !names_file(stem) {
        None
    } else {
        Some(
            joined_path(
                output,
                ASSETS_DIR@ + "/"@ + with_extension(stem, local_extension(path)),
            ),
        )
    }
}

/// The text that names an asset: that of the field, or the default icon where the field
/// holds no text, without the whitespace around it.
pub open spec fn asset_text(file: Option<Seq<char>>, default_icon: Seq<char>) -> Seq<char> {
    trimmed(
        match file {
            Some(t) => t,
            None => default_icon,
        },
    )
}

/// Whether an asset is hosted elsewhere: it is not known to lie on the site, and its
/// name is an address.
pub open spec fn is_outside(text: Seq<char>, external: Option<bool>) -> bool {
    external != Some(false) && begins_with(text, "http"@)
}

/// The name of an asset with its extension: where the asset lies on the site and shows
/// none, the one that is usual for its kind.
pub open spec fn asset_file(text: Seq<char>, external: Option<bool>, default_ext: Option<Seq<char>>) -> Seq<
    char,
> {
    if !is_outside(text, external) && extension(text) is None && default_ext is Some {
        with_extension(text, default_ext.unwrap())
    } else {
        text
    }
}

/// The address of an asset before it is tidied: that of a file on the site below the
/// directories `components`, the name itself where it is an address, and that of a
/// file right below the site otherwise.
pub open spec fn raw_url(
    text: Seq<char>,
    components: Option<Seq<Seq<char>>>,
    external: Option<bool>,
    default_ext: Option<Seq<char>>,
) -> Seq<char> {
    let file = asset_file(text, external, default_ext);
    if external == Some(false) {
        AAONLINE_BASE@ + "/"@ + joined(
            match components {
                Some(c) => c,
                None => Seq::empty(),
            },
            "/"@,
        ) + "/"@ + file
    } else if is_outside(text, external) {
        file
    } else {
        AAONLINE_BASE@ + "/"@ + file
    }
}

/// The address from which an asset is downloaded.
pub open spec fn asset_url(
    text: Seq<char>,
    components: Option<Seq<Seq<char>>>,
    external: Option<bool>,
    default_ext: Option<Seq<char>>,
) -> Seq<char> {
    collapsed(raw_url(text, components, external, default_ext))
}

/// What is asked of the collector for one asset.
pub struct Wanted {
    /// The text of the field that names the asset, where it holds text.
    pub file: Option<Seq<char>>,
    /// The directories of the site below which the asset lies.
    pub components: Option<Seq<Seq<char>>>,
    /// Whether the asset is hosted elsewhere, where that is known.
    pub external: Option<bool>,
    /// The extension that is usual for assets of its kind.
    pub default_ext: Option<Seq<char>>,
    /// The place that waits for the asset.
    pub json_ref: JsonReferenceV,
    /// Whether the local path must be known at once.
    pub early: bool,
}

/// The place in `collected` of the request for `url` below `output`.
pub open spec fn request_place(collected: Seq<AssetDownloadV>, url: Seq<char>, output: Seq<char>) -> Option<
    int,
> {
    first_place(collected, |a: AssetDownloadV| a.is_for(url, output))
}

/// No two requests of `collected` are for one URL below one output directory.
pub open spec fn each_asset_once(collected: Seq<AssetDownloadV>) -> bool {
    forall|i: int, j: int|
        0 <= i < j < collected.len() ==> !(#[trigger] collected[i]).is_for(
            (#[trigger] collected[j]).url,
            collected[j].output,
        )
}

/// What an [`AssetCollector`] holds.
pub struct AssetCollectorV {
    pub collected: Seq<AssetDownloadV>,
    pub default_icon_url: Seq<char>,
    pub output: Seq<char>,
    pub target_case_title: Option<Seq<char>>,
    pub windows_names: bool,
}

impl AssetCollectorV {
    /// Whether the two collect for one case, below one output directory, and in the same
    /// way.
    pub open spec fn same_setting(self, other: AssetCollectorV) -> bool {
        self.default_icon_url == other.default_icon_url && self.output == other.output
            && self.target_case_title == other.target_case_title && self.windows_names
            == other.windows_names
    }

    /// The collector after it was asked for the asset `w`, and the place of the request
    /// for it among the collected ones; the collector as it is, and no place, for an
    /// asset without a name.
    #[verifier::opaque]
    pub open spec fn collect(self, w: Wanted) -> Result<(AssetCollectorV, Option<int>), CollectError> {
        let text = asset_text(w.file, self.default_icon_url);
        if text.len() == 0 {
            Ok((self, None))
        } else if w.external == Some(false) && w.components is None {
            Err(CollectError::MissingComponents)
        } else if self.target_case_title is None {
            Err(CollectError::NoCaseTitle)
        } else {
            let file = asset_file(text, w.external, w.default_ext);
            let url = asset_url(text, w.components, w.external, w.default_ext);
            let early_path = local_path(self.output, url, file, self.windows_names);
            match request_place(self.collected, url, self.output) {
                Some(i) => {
                    if w.early && self.collected[i].path is Some {
                        Err(CollectError::PathAlreadySettled)
                    } else if w.early && early_path is None {
                        Err(CollectError::NoFileName)
                    } else {
                        let merged = self.collected[i].referred_by(w.json_ref);
                        let request = if w.early {
                            merged.settled_at(early_path.unwrap())
                        } else {
                            merged
                        };
                        Ok(
                            (
                                AssetCollectorV {
                                    collected: self.collected.update(i, request),
                                    ..self
                                },
                                Some(i),
                            ),
                        )
                    }
                },
                None => {
                    if w.early && early_path is None {
                        Err(CollectError::NoFileName)
                    } else {
                        let request = AssetDownloadV {
                            url,
                            path: if w.early {
                                early_path
                            } else {
                                None
                            },
                            refs: seq![w.json_ref],
                            case_title: self.target_case_title.unwrap(),
                            output: self.output,
                        };
                        Ok(
                            (
                                AssetCollectorV { collected: self.collected.push(request), ..self },
                                Some(self.collected.len() as int),
                            ),
                        )
                    }
                },
            }
        }
    }
}

/// What the requests of `collected` hold.
pub open spec fn request_views(collected: Seq<AssetDownload>) -> Seq<AssetDownloadV> {
    Seq::new(collected.len(), |i: int| collected[i]@)
}

/// Collects asset downloads and assigns unique filenames to them.
#[derive(Debug)]
pub struct AssetCollector {
    /// The collected asset downloads.
    collected: Vec<AssetDownload>,
    /// The default icon URL.
    default_icon_url: String,
    /// The output directory for the assets.
    output: String,
    /// The case title for which assets are currently collected.
    target_case_title: Option<String>,
    /// Whether local file names keep to the rules of Windows.
    windows_names: bool,
}

impl View for AssetCollector {
    type V = AssetCollectorV;

    closed spec fn view(&self) -> AssetCollectorV {
        AssetCollectorV {
            collected: request_views(self.collected@),
            default_icon_url: self.default_icon_url@,
            output: self.output@,
            target_case_title: text_view(self.target_case_title),
            windows_names: self.windows_names,
        }
    }
}

impl AssetCollector {
    /// Whether the collector holds each asset once.
    pub open spec fn wf(&self) -> bool {
        each_asset_once(self@.collected)
    }

    /// Creates a new asset collector, with nothing collected.
    pub fn new(default_icon_url: String, output: String, windows_names: bool) -> (r: AssetCollector)
        ensures
            r.wf(),
            r@ == (AssetCollectorV {
                collected: Seq::empty(),
                default_icon_url: default_icon_url@,
                output: output@,
                target_case_title: None,
                windows_names,
            }),
    {
        let r = AssetCollector {
            collected: Vec::new(),
            default_icon_url,
            output,
            target_case_title: None,
            windows_names,
        };
        assert(request_views(r.collected@) =~= Seq::empty());
        r
    }

    /// Sets the output directory below which the assets that are collected from now on
    /// are put.
    pub fn set_output(&mut self, output: String)
        ensures
            final(self)@ == (AssetCollectorV { output: output@, ..old(self)@ }),
            old(self).wf() ==> final(self).wf(),
    {
        self.output = output;
    }

    /// Sets the title of the case whose assets are collected from now on.
    pub fn set_target_case_title(&mut self, title: String)
        ensures
            final(self)@ == (AssetCollectorV { target_case_title: Some(title@), ..old(self)@ }),
            old(self).wf() ==> final(self).wf(),
    {
        self.target_case_title = Some(title);
    }

    /// The output directory for the assets.
    pub fn output(&self) -> (r: &str)
        ensures
            r@ == self@.output,
    {
        self.output.as_str()
    }

    /// The requests that were collected.
    pub fn collected(&self) -> (r: &Vec<AssetDownload>)
        ensures
            request_views(r@) == self@.collected,
    {
        &self.collected
    }

    /// Hands out the requests that were collected, and leaves none behind.
    pub fn drain(&mut self) -> (r: Vec<AssetDownload>)
        ensures
            request_views(r@) == old(self)@.collected,
            final(self)@ == (AssetCollectorV { collected: Seq::empty(), ..old(self)@ }),
            final(self).wf(),
    {
        let mut out: Vec<AssetDownload> = Vec::new();
        out.append(&mut self.collected);
        assert(request_views(self.collected@) =~= Seq::empty());
        assert(request_views(out@) =~= old(self)@.collected);
        out
    }

    fn place_of(&self, url: &str) -> (r: Option<usize>)
        ensures
            match r {
                Some(i) => request_place(self@.collected, url@, self@.output) == Some(i as int)
                    && i < self.collected@.len(),
                None => request_place(self@.collected, url@, self@.output) is None,
            },
    {
        let ghost wanted = |a: AssetDownloadV| a.is_for(url@, self@.output);
        let mut i: usize = 0;
        while i < self.collected.len()
            invariant
                i <= self.collected@.len(),
                wanted == |a: AssetDownloadV| a.is_for(url@, self@.output),
                forall|k: int| 0 <= k < i ==> !wanted(#[trigger] self@.collected[k]),
            decreases self.collected.len() - i,
        {
            if self.collected[i].is_for(url, self.output.as_str()) {
                proof {
                    assert(self@.collected[i as int] == self.collected@[i as int]@);
                    lemma_first_place_found(self@.collected, wanted, i as int);
                }
                return Some(i);
            }
            assert(self@.collected[i as int] == self.collected@[i as int]@);
            i += 1;
        }
        proof {
            lemma_first_place_missing(self@.collected, wanted);
        }
        None
    }

    /// Returns the collected asset whose URL matches the given `url` and the currently
    /// set output path.
    pub fn find_by_url(&self, url: &str) -> (r: Option<&AssetDownload>)
        ensures
            match r {
                Some(a) => request_place(self@.collected, url@, self@.output) matches Some(i)
                    && self@.collected[i] == a@,
                None => request_place(self@.collected, url@, self@.output) is None,
            },
    {
        match self.place_of(url) {
            Some(i) => {
                assert(self@.collected[i as int] == self.collected@[i as int]@);
                Some(&self.collected[i])
            },
            None => None,
        }
    }

    /// Creates a new unique path for the given `url` and `path`, below `output`.
    ///
    /// The `url` will be used for hashing only, to ensure a unique output name, while the
    /// file name of `path` will be used for the file name of the output path.
    pub fn new_path(output: &str, url: &str, path: &str, windows_names: bool) -> (r: Result<
        String,
        CollectError,
    >)
        ensures
            match r {
                Ok(p) => local_path(output@, url@, path@, windows_names) == Some(p@),
                Err(e) => e == CollectError::NoFileName && local_path(
                    output@,
                    url@,
                    path@,
                    windows_names,
                ) is None,
            },
    {
        let ext = match extension_of(path) {
            Some(e) => e,
            None => DEFAULT_EXT.to_owned(),
        };
        let stem = match file_stem_of(path) {
            Some(s) => s,
            None => path.to_owned(),
        };
        let mut name = match percent_decode(stem.as_str()) {
            Some(d) => replace_all(d.as_str(), "%", "-"),
            None => stem,
        };
        name.append("-");
        push_decimal(&mut name, hash(url));
        let clean = sanitize(name.as_str(), windows_names);
        let lowered = to_lowercase(clean.as_str());
        assert(lowered@ == local_stem(url@, path@, windows_names));
        let chars = chars_of(lowered.as_str());
        if has_slash(&chars) || !crate::paths::is_file_name(lowered.as_str()) {
            return Err(CollectError::NoFileName);
        }
        let file = set_extension(lowered.as_str(), ext.as_str());
        let mut rel = concat(ASSETS_DIR, "/");
        rel.append(file.as_str());
        Ok(join_path(output, rel.as_str()))
    }

    /// Creates a new asset download request, or adds a place that waits for the asset to
    /// the request that is there for it.
    ///
    /// The given `path_components` will be put in front of the URL, and the `external`
    /// flag will determine whether the URL is hosted on Ace Attorney Online or
    /// externally. The `default_extension` will be applied if the given `file_value` has
    /// no extension and if its host is the Ace Attorney Online server. With
    /// `force_early_name` the local path of the request is settled at once.
    pub fn collect_download(
        &mut self,
        file_value: &Json,
        path_components: Option<Vec<String>>,
        external: Option<bool>,
        default_extension: Option<&str>,
        json_ref: JsonReference,
        force_early_name: bool,
    ) -> (r: Result<Option<usize>, CollectError>)
        requires
            old(self).wf(),
        ensures
            final(self).wf(),
            final(self)@.same_setting(old(self)@),
            match (
                r,
                old(self)@.collect(
                    Wanted {
                        file: file_value@.text(),
                        components: components_view(path_components),
                        external,
                        default_ext: match default_extension {
                            Some(e) => Some(e@),
                            None => None,
                        },
                        json_ref: json_ref@,
                        early: force_early_name,
                    },
                ),
            ) {
                (Ok(Some(i)), Ok((after, Some(at)))) => final(self)@ == after && i == at && i
                    < after.collected.len(),
                (Ok(None), Ok((after, None))) => final(self)@ == after,
                (Err(e), Err(owed)) => e == owed && final(self)@ == old(self)@,
                _ => false,
            },
    {
        reveal(AssetCollectorV::collect);
        let ghost w = Wanted {
            file: file_value@.text(),
            components: components_view(path_components),
            external,
            default_ext: match default_extension {
                Some(e) => Some(e@),
                None => None,
            },
            json_ref: json_ref@,
            early: force_early_name,
        };
        let raw = match file_value.as_str() {
            Some(s) => trim(s),
            None => trim(self.default_icon_url.as_str()),
        };
        let text_chars = chars_of(raw.as_str());
        if text_chars.len() == 0 {
            return Ok(None);
        }
        if is_local(external) && path_components.is_none() {
            return Err(CollectError::MissingComponents);
        }
        if self.target_case_title.is_none() {
            return Err(CollectError::NoCaseTitle);
        }
        let outside = !is_local(external) && starts_with(raw.as_str(), "http");
        let file = match default_extension {
            Some(ext) => {
                if !outside && extension_of(raw.as_str()).is_none() {
                    set_extension(raw.as_str(), ext)
                } else {
                    raw
                }
            },
            None => raw,
        };
        assert(file@ == asset_file(asset_text(w.file, self@.default_icon_url), external, w.default_ext));
        let long_url = if is_local(external) {
            let dirs = match &path_components {
                Some(c) => join(c, "/"),
                None => String::new(),
            };
            let mut u = concat(AAONLINE_BASE, "/");
            u.append(dirs.as_str());
            u.append("/");
            u.append(file.as_str());
            u
        } else if outside {
            file.clone()
        } else {
            let mut u = concat(AAONLINE_BASE, "/");
            u.append(file.as_str());
            u
        };
        let url = collapse_slashes(long_url.as_str());
        assert(url@ == asset_url(
            asset_text(w.file, self@.default_icon_url),
            w.components,
            external,
            w.default_ext,
        ));
        let found = self.place_of(url.as_str());
        let early_path: Option<String> = if force_early_name {
            if let Some(i) = found {
                assert(self@.collected[i as int] == self.collected@[i as int]@);
                if self.collected[i].path().is_some() {
                    return Err(CollectError::PathAlreadySettled);
                }
            }
            match Self::new_path(
                self.output.as_str(),
                url.as_str(),
                file.as_str(),
                self.windows_names,
            ) {
                Ok(p) => Some(p),
                Err(e) => {
                    return Err(e);
                },
            }
        } else {
            None
        };
        let ghost before = self@.collected;
        proof {
            lemma_first_place(before, |a: AssetDownloadV| a.is_for(url@, self@.output));
        }
        match found {
            Some(i) => {
                assert(before[i as int] == self.collected@[i as int]@);
                let mut request = self.collected.remove(i);
                request.add_reference(json_ref);
                if let Some(p) = early_path {
                    let settled = request.settle(p);
                    assert(settled is Ok);
                }
                let ghost merged = request@;
                self.collected.insert(i, request);
                assert(request_views(self.collected@) =~= before.update(i as int, merged));
                proof {
                    assert(merged.url == before[i as int].url && merged.output == before[i as int].output);
                    assert forall|a: int, b: int|
                        0 <= a < b < self@.collected.len() implies !(#[trigger] self@.collected[a]).is_for(
                        (#[trigger] self@.collected[b]).url,
                        self@.collected[b].output,
                    ) by {
                        assert(!before[a].is_for(before[b].url, before[b].output));
                    }
                }
                Ok(Some(i))
            },
            None => {
                let title = match &self.target_case_title {
                    Some(t) => t.clone(),
                    None => String::new(),
                };
                let mut request = AssetDownload::new(url, json_ref, title, self.output.clone());
                if let Some(p) = early_path {
                    let settled = request.settle(p);
                    assert(settled is Ok);
                }
                let ghost fresh = request@;
                let at = self.collected.len();
                self.collected.push(request);
                assert(request_views(self.collected@) =~= before.push(fresh));
                proof {
                    assert forall|a: int, b: int|
                        0 <= a < b < self@.collected.len() implies !(#[trigger] self@.collected[a]).is_for(
                        (#[trigger] self@.collected[b]).url,
                        self@.collected[b].output,
                    ) by {
                        if b < before.len() {
                            assert(!before[a].is_for(before[b].url, before[b].output));
                        } else {
                            assert(!before[a].is_for(url@, self@.output));
                        }
                    }
                }
                Ok(Some(at))
            },
        }
    }
}

/// The collector after it was asked for each asset of `wanted` in turn; the first
/// refusal where there is one.
pub open spec fn collect_all(c: AssetCollectorV, wanted: Seq<Wanted>) -> Result<
    AssetCollectorV,
    CollectError,
>
    decreases wanted.len(),
{
    if wanted.len() == 0 {
        Ok(c)
    } else {
        match c.collect(wanted[0]) {
            Ok((next, _)) => collect_all(next, wanted.drop_first()),
            Err(e) => Err(e),
        }
    }
}

/// Collecting the assets of `first` and then those of `second` is collecting those of
/// both, one after the other.
pub proof fn lemma_collect_all_split(c: AssetCollectorV, first: Seq<Wanted>, second: Seq<Wanted>)
    ensures
        collect_all(c, first + second) == match collect_all(c, first) {
            Ok(next) => collect_all(next, second),
            Err(e) => Err(e),
        },
    decreases first.len(),
{
    if first.len() == 0 {
        assert(first + second =~= second);
    } else {
        assert((first + second)[0] == first[0]);
        assert((first + second).drop_first() =~= first.drop_first() + second);
        match c.collect(first[0]) {
            Ok((next, _)) => {
                lemma_collect_all_split(next, first.drop_first(), second);
            },
            Err(_) => {},
        }
    }
}

impl AssetCollector {
    /// Asks the collector for one asset.
    pub fn collect(&mut self, request: AssetRequest) -> (r: Result<Option<usize>, CollectError>)
        requires
            old(self).wf(),
        ensures
            final(self).wf(),
            final(self)@.same_setting(old(self)@),
            match (r, old(self)@.collect(request@)) {
                (Ok(Some(i)), Ok((after, Some(at)))) => final(self)@ == after && i == at && i
                    < after.collected.len(),
                (Ok(None), Ok((after, None))) => final(self)@ == after,
                (Err(e), Err(owed)) => e == owed && final(self)@ == old(self)@,
                _ => false,
            },
    {
        let AssetRequest { file, components, external, default_ext, json_ref, early } = request;
        let value = match file {
            Some(text) => Json::Text(text),
            None => Json::Null,
        };
        match default_ext {
            Some(ext) => self.collect_download(
                &value,
                components,
                external,
                Some(ext.as_str()),
                json_ref,
                early,
            ),
            None => self.collect_download(&value, components, external, None, json_ref, early),
        }
    }

    /// Asks the collector for each asset of `requests` in turn, and stops at the first
    /// that is refused.
    pub fn collect_list(&mut self, requests: Vec<AssetRequest>) -> (r: Result<(), CollectError>)
        requires
            old(self).wf(),
        ensures
            final(self).wf(),
            final(self)@.same_setting(old(self)@),
            match (r, collect_all(old(self)@, wanted_views(requests@))) {
                (Ok(()), Ok(after)) => final(self)@ == after,
                (Err(e), Err(owed)) => e == owed,
                _ => false,
            },
    {
        let ghost all = wanted_views(requests@);
        let mut queue = requests;
        let ghost mut done: int = 0;

        proof {
            assert(all.skip(0) =~= all);
        }
        while queue.len() > 0
            invariant
                self.wf(),
                self@.same_setting(old(self)@),
                0 <= done <= all.len(),
                all == wanted_views(requests@),
                wanted_views(queue@) == all.skip(done),
                collect_all(self@, all.skip(done)) == collect_all(old(self)@, all),
            decreases queue@.len(),
        {
            let ghost rest = wanted_views(queue@);
            let request = queue.remove(0);
            assert(rest[0] == request@);
            assert(wanted_views(queue@) =~= rest.drop_first());
            assert(all.skip(done).drop_first() =~= all.skip(done + 1));
            let ghost before = self@;
            assert(all.skip(done)[0] == request@);
            match self.collect(request) {
                Ok(_) => {},
                Err(e) => {
                    assert(before.collect(all.skip(done)[0]) is Err);
                    assert(collect_all(before, all.skip(done)) == Err::<AssetCollectorV, _>(e));
                    return Err(e);
                },
            }
            proof {
                done = done + 1;
            }
        }
        Ok(())
    }
}

impl Wanted {
    /// The address of the asset as a collector with the default icon `default_icon`
    /// resolves it.
    pub open spec fn url(self, default_icon: Seq<char>) -> Seq<char> {
        asset_url(asset_text(self.file, default_icon), self.components, self.external, self.default_ext)
    }

    /// Whether the two ask for one asset.
    pub open spec fn same_asset(self, other: Wanted) -> bool {
        self.file == other.file && self.components == other.components && self.external
            == other.external && self.default_ext == other.default_ext
    }
}

/// Collecting the same asset twice, from two places of the JSON, leaves one request for
/// it, which both places wait for: the second call finds the request of the first, and
/// adds no other. Where the asset was not collected before, the request is new and the
/// two places are all that wait for it.
pub proof fn law_same_asset_collected_once(
    c: AssetCollectorV,
    first: Wanted,
    second: Wanted,
    c1: AssetCollectorV,
    c2: AssetCollectorV,
    i: int,
    j: int,
)
    requires
        each_asset_once(c.collected),
        first.same_asset(second),
        first.json_ref != second.json_ref,
        c.collect(first) == Ok::<_, CollectError>((c1, Some(i))),
        c1.collect(second) == Ok::<_, CollectError>((c2, Some(j))),
    ensures
        i == j,
        c2.collected.len() == c1.collected.len(),
        each_asset_once(c2.collected),
        c2.collected[i].is_for(first.url(c.default_icon_url), c.output),
        forall|k: int|
            0 <= k < c2.collected.len() && k != i ==> !(#[trigger] c2.collected[k]).is_for(
                first.url(c.default_icon_url),
                c.output,
            ),
        c2.collected[i].refs.contains(first.json_ref),
        c2.collected[i].refs.contains(second.json_ref),
        request_place(c.collected, first.url(c.default_icon_url), c.output) is None ==> {
            &&& c2.collected.len() == c.collected.len() + 1
            &&& c2.collected[i].refs == seq![first.json_ref, second.json_ref]
        },
{
    reveal(AssetCollectorV::collect);
    let url = first.url(c.default_icon_url);
    let wanted = |a: AssetDownloadV| a.is_for(url, c.output);
    lemma_first_place(c.collected, wanted);
    lemma_collect_keeps_each(c, first);
    assert(c1.output == c.output && c1.default_icon_url == c.default_icon_url);
    assert(wanted(c1.collected[i]));
    assert forall|k: int| 0 <= k < i implies !wanted(#[trigger] c1.collected[k]) by {
        assert(c1.collected[k] == c.collected[k]);
    }
    lemma_first_place_found(c1.collected, wanted, i);
    lemma_collect_keeps_each(c1, second);
    assert(c2.collected[i].refs.contains(second.json_ref)) by {
        let refs = c1.collected[i].refs;
        if !refs.contains(second.json_ref) {
            assert(refs.push(second.json_ref)[refs.len() as int] == second.json_ref);
        }
    }
    assert(c1.collected[i].refs.contains(first.json_ref)) by {
        match request_place(c.collected, url, c.output) {
            Some(at) => {
                let refs = c.collected[at].refs;
                if !refs.contains(first.json_ref) {
                    assert(refs.push(first.json_ref)[refs.len() as int] == first.json_ref);
                }
            },
            None => {
                assert(seq![first.json_ref][0] == first.json_ref);
            },
        }
    }
    assert(c2.collected[i].refs.contains(first.json_ref)) by {
        let refs = c1.collected[i].refs;
        let k = choose|k: int| 0 <= k < refs.len() && refs[k] == first.json_ref;
        if !refs.contains(second.json_ref) {
            assert(refs.push(second.json_ref)[k] == first.json_ref);
        }
    }
    assert forall|k: int| 0 <= k < c2.collected.len() && k != i implies !(
    #[trigger] c2.collected[k]).is_for(url, c.output) by {
        if k < i {
            assert(!c2.collected[k].is_for(c2.collected[i].url, c2.collected[i].output));
        } else {
            assert(!c2.collected[i].is_for(c2.collected[k].url, c2.collected[k].output));
        }
    }
    if request_place(c.collected, url, c.output) is None {
        assert(!seq![first.json_ref].contains(second.json_ref)) by {
            if seq![first.json_ref].contains(second.json_ref) {
                let k = choose|k: int|
                    0 <= k < seq![first.json_ref].len() && seq![first.json_ref][k]
                        == second.json_ref;
                assert(seq![first.json_ref][k] == first.json_ref);
            }
        }
        assert(seq![first.json_ref].push(second.json_ref) =~= seq![
            first.json_ref,
            second.json_ref,
        ]);
    }
}

/// Collecting an asset keeps each asset once, keeps every request where it stands, and
/// keeps what each request is for.
pub proof fn lemma_collect_keeps_each(c: AssetCollectorV, w: Wanted)
    requires
        each_asset_once(c.collected),
    ensures
        match c.collect(w) {
            Ok((after, place)) => {
                &&& each_asset_once(after.collected)
                &&& after.collected.len() >= c.collected.len()
                &&& after.output == c.output
                &&& after.default_icon_url == c.default_icon_url
                &&& forall|k: int|
                    0 <= k < c.collected.len() ==> (#[trigger] after.collected[k]).url
                        == c.collected[k].url && after.collected[k].output == c.collected[k].output
                &&& forall|k: int|
                    0 <= k < c.collected.len() && place != Some(k) ==> (
                    #[trigger] after.collected[k]) == c.collected[k]
                &&& place matches Some(at) ==> 0 <= at < after.collected.len()
                    && after.collected[at].is_for(w.url(c.default_icon_url), c.output)
            },
            Err(_) => true,
        },
{
    reveal(AssetCollectorV::collect);
    let url = w.url(c.default_icon_url);
    let wanted = |a: AssetDownloadV| a.is_for(url, c.output);
    lemma_first_place(c.collected, wanted);
    match c.collect(w) {
        Ok((after, place)) => {
            assert forall|a: int, b: int|
                0 <= a < b < after.collected.len() implies !(#[trigger] after.collected[a]).is_for(
                (#[trigger] after.collected[b]).url,
                after.collected[b].output,
            ) by {
                if b < c.collected.len() {
                    assert(!c.collected[a].is_for(c.collected[b].url, c.collected[b].output));
                } else {
                    assert(!wanted(c.collected[a]));
                }
            }
        },
        Err(_) => {},
    }
}

/// Once the local path of a request is settled, collecting leaves it as it is: whatever
/// asset is collected, and whether the call succeeds or not, every request that had a
/// path before has that path after.
pub proof fn law_settled_path_stays(c: AssetCollectorV, w: Wanted, k: int)
    requires
        0 <= k < c.collected.len(),
        c.collected[k].path is Some,
    ensures
        match c.collect(w) {
            Ok((after, _)) => k < after.collected.len() && after.collected[k].path
                == c.collected[k].path,
            Err(_) => true,
        },
{
    reveal(AssetCollectorV::collect);
    let url = w.url(c.default_icon_url);
    lemma_first_place(c.collected, |a: AssetDownloadV| a.is_for(url, c.output));
}

/// The texts of the directories of `components`, if there are any.
pub open spec fn components_view(components: Option<Vec<String>>) -> Option<Seq<Seq<char>>> {
    match components {
        Some(c) => Some(string_views(c@)),
        None => None,
    }
}

fn is_local(external: Option<bool>) -> (r: bool)
    ensures
        r == (external == Some(false)),
{
    match external {
        Some(e) => !e,
        None => false,
    }
}

fn has_slash(chars: &Vec<char>) -> (r: bool)
    ensures
        r == chars@.contains('/'),
{
    let mut i: usize = 0;
    while i < chars.len()
        invariant
            i <= chars@.len(),
            forall|k: int| 0 <= k < i ==> chars@[k] != '/',
        decreases chars.len() - i,
    {
        if chars[i] == '/' {
            return true;
        }
        i += 1;
    }
    false
}

} // verus!

//! What is decided around a download: where a request goes, what the file is called, and
//! where its content ends up.

use crate::args::HttpHandling;
use crate::collector::{local_path, AssetCollector};
use crate::download::{AssetDownload, AssetDownloadV, PathAlreadySettled};
use crate::outside::{
    base64_encode, base64_text, extension_of_mime, mime_extension, sniff_mime, sniffed_mime,
    text_of_bytes,
};
use crate::paths::{
    extension, extension_of, is_file_name, last_part, names_file, path_to_relative, relative_to,
    set_extension, with_extension,
};
use crate::patterns::{
    find_first, first_found, group_text, text_of_group, CONTENT_DISPOSITION_FILENAME_REGEX,
    REMOVE_QUERY_PARAMETERS_REGEX,
};
use crate::site::AAONLINE_BASE;
use crate::text::{
    begins_with, chars_of, concat, find_from, first_occurrence, lemma_first_occurrence_bounds,
    push_chars, slice, starts_with, text_between,
};
use vstd::prelude::*;
use vstd::utf8::{decode_utf8, encode_utf8, encode_utf8_decode_utf8, valid_utf8};

verus! {

/// A request over plain HTTP was refused.
#[derive(Debug, Clone, Copy, PartialEq, Eq, Structural)]
pub struct InsecureBlocked;

/// The offset at which the run of `/` at the front of `s`, looked at from `i` on, ends.
pub open spec fn skip_slashes(s: Seq<char>, i: int) -> int
    decreases s.len() - i,
{
    if 0 <= i < s.len() && s[i] == '/' {
        skip_slashes(s, i + 1)
    } else {
        i
    }
}

/// The address that is asked for `url`: an address over plain HTTP as the handling of
/// insecure requests has it, a secure address as it is, and anything else as a path on
/// the site.
pub open spec fn target_of(url: Seq<char>, handling: HttpHandling) -> Result<
    Seq<char>,
    InsecureBlocked,
> {
    if begins_with(url, "http://"@) {
        match handling {
            HttpHandling::AllowInsecure => Ok(url),
            HttpHandling::RedirectToHttps => Ok(
                "https://"@ + url.subrange("http://"@.len() as int, url.len() as int),
            ),
            HttpHandling::Disallow => Err(InsecureBlocked),
        }
    } else if begins_with(url, "https://"@) {
        Ok(url)
    } else {
        Ok(
            AAONLINE_BASE@ + "/"@ + url.subrange(
                if skip_slashes(url, 0) <= url.len() {
                    skip_slashes(url, 0)
                } else {
                    url.len() as int
                },
                url.len() as int,
            ),
        )
    }
}

/// The address that is asked for `url`.
pub fn download_target(url: &str, http_handling: HttpHandling) -> (r: Result<
    String,
    InsecureBlocked,
>)
    ensures
        match (r, target_of(url@, http_handling)) {
            (Ok(target), Ok(owed)) => target@ == owed,
            (Err(_), Err(_)) => true,
            _ => false,
        },
{
    let chars = chars_of(url);
    if starts_with(url, "http://") {
        match http_handling {
            HttpHandling::AllowInsecure => Ok(url.to_owned()),
            HttpHandling::RedirectToHttps => {
                let prefix = chars_of("http://");
                let mut target = "https://".to_owned();
                push_chars(&mut target, &chars, prefix.len(), chars.len());
                Ok(target)
            },
            HttpHandling::Disallow => Err(InsecureBlocked),
        }
    } else if starts_with(url, "https://") {
        Ok(url.to_owned())
    } else {
        // Assume this is a relative URL.
        let mut from: usize = 0;
        while from < chars.len() && chars[from] == '/'
            invariant
                from <= chars@.len(),
                skip_slashes(chars@, 0) == skip_slashes(chars@, from as int),
            decreases chars.len() - from,
        {
            from += 1;
        }
        let mut target = concat(AAONLINE_BASE, "/");
        push_chars(&mut target, &chars, from, chars.len());
        Ok(target)
    }
}

/// Downloaded content.
#[derive(Debug)]
pub struct Download {
    /// The target URL (i.e., after all redirections) from which the content was
    /// downloaded.
    pub target_url: String,
    /// The path of that URL.
    pub url_path: String,
    /// The content that was downloaded.
    pub content: Vec<u8>,
    /// The header `Content-Type` of the response, where it has one that is text.
    pub content_type_header: Option<String>,
    /// The header `Content-Disposition` of the response, where it has one that is text.
    pub content_disposition: Option<String>,
}

/// What stands in `value` before its first `;`.
pub open spec fn before_semicolon(value: Seq<char>) -> Seq<char> {
    match first_occurrence(value, seq![';'], 0) {
        Some(at) => if 0 <= at <= value.len() {
            value.subrange(0, at)
        } else {
            value
        },
        None => value,
    }
}

/// `name` without its first match of the pattern for query parameters.
pub open spec fn without_query(name: Seq<char>) -> Seq<char> {
    match first_found(REMOVE_QUERY_PARAMETERS_REGEX@, name) {
        Some(groups) => match groups[0] {
            Some((start, end)) => match (
                text_between(name, 0, start),
                text_between(name, end, encode_utf8(name).len() as usize),
            ) {
                (Some(head), Some(tail)) => head + tail,
                _ => name,
            },
            None => name,
        },
        None => name,
    }
}

/// The file name that the header `Content-Disposition` gives.
pub open spec fn disposition_name(header: Option<Seq<char>>) -> Option<Seq<char>> {
    match header {
        Some(h) => match first_found(CONTENT_DISPOSITION_FILENAME_REGEX@, h) {
            Some(groups) => group_text(h, groups, 1),
            None => None,
        },
        None => None,
    }
}

impl Download {
    /// The content of the download as text, where it is text.
    pub open spec fn spec_content_str(&self) -> Option<Seq<char>> {
        if valid_utf8(self.content@) {
            Some(decode_utf8(self.content@))
        } else {
            None
        }
    }

    /// Returns the content of this download as text; nothing where it is no text.
    pub fn content_str(&self) -> (r: Option<String>)
        ensures
            match r {
                Some(text) => self.spec_content_str() == Some(text@),
                None => self.spec_content_str() is None,
            },
    {
        match text_of_bytes(self.content.clone()) {
            Some(text) => {
                proof {
                    encode_utf8_decode_utf8(text@);
                }
                Some(text)
            },
            None => None,
        }
    }

    /// The content type of the download, as the header `Content-Type` gives it.
    pub open spec fn spec_content_type(&self) -> Option<Seq<char>> {
        match self.content_type_header {
            Some(h) => Some(before_semicolon(h@)),
            None => None,
        }
    }

    /// Returns the content type of this download, as defined by the Content-Type
    /// header.
    pub fn content_type(&self) -> (r: Option<String>)
        ensures
            match r {
                Some(t) => self.spec_content_type() == Some(t@),
                None => self.spec_content_type() is None,
            },
    {
        match &self.content_type_header {
            Some(h) => {
                let chars = chars_of(h.as_str());
                let semicolon = vec![';'];
                assert(semicolon@ =~= seq![';']);
                proof {
                    lemma_first_occurrence_bounds(chars@, semicolon@, 0);
                }
                match find_from(&chars, &semicolon, 0) {
                    Some(at) => {
                        let mut t = String::new();
                        push_chars(&mut t, &chars, 0, at);
                        Some(t)
                    },
                    None => Some(h.clone()),
                }
            },
            None => None,
        }
    }

    /// The MIME type of the download: its content type, or else what its first bytes
    /// tell.
    pub open spec fn spec_mime_type(&self) -> Option<Seq<char>> {
        match self.spec_content_type() {
            Some(t) => Some(t),
            None => sniffed_mime(self.content@),
        }
    }

    /// Returns the MIME type of this download.
    pub fn mime_type(&self) -> (r: Option<String>)
        ensures
            match r {
                Some(t) => self.spec_mime_type() == Some(t@),
                None => self.spec_mime_type() is None,
            },
    {
        match self.content_type() {
            Some(t) => Some(t),
            None => match sniff_mime(self.content.as_slice()) {
                Some(t) => Some(t.to_owned()),
                None => None,
            },
        }
    }

    /// The content of the download as a base64 data URL.
    pub open spec fn spec_data_url(&self) -> Seq<char> {
        "data:"@ + match self.spec_mime_type() {
            Some(t) => t,
            None => "application/octet-stream"@,
        } + ";base64,"@ + base64_text(self.content@)
    }

    /// Converts this download to a base64 data URL.
    pub fn make_data_url(&self) -> (r: String)
        ensures
            r@ == self.spec_data_url(),
    {
        let mut url = "data:".to_owned();
        match self.mime_type() {
            Some(t) => {
                url.append(t.as_str());
            },
            None => {
                url.append("application/octet-stream");
            },
        }
        url.append(";base64,");
        url.append(base64_encode(self.content.as_slice()).as_str());
        url
    }

    /// The name of the file as the target URL gives it: the last part of its path,
    /// without query parameters, and with an extension that suits the MIME type where
    /// it shows none.
    pub open spec fn url_name(&self) -> Seq<char> {
        let name = without_query(last_part(self.url_path@));
        let path = if extension(name) is None {
            match self.spec_mime_type() {
                Some(mime) => match mime_extension(mime) {
                    Some(ext) => with_extension(name, ext),
                    None => name,
                },
                None => name,
            }
        } else {
            name
        };
        if names_file(path) {
            last_part(path)
        } else {
            path
        }
    }

    /// The name under which the download is saved: the one that the header
    /// `Content-Disposition` sets, and else the one that the target URL gives.
    pub open spec fn spec_filename(&self) -> Seq<char> {
        match disposition_name(text_of(self.content_disposition)) {
            Some(name) => name,
            None => self.url_name(),
        }
    }

    /// Returns the filename under which this download should be saved.
    ///
    /// This will first check if an explicit filename has been set in the
    /// Content-Disposition header, and will otherwise use the final path segment of the
    /// URL.
    pub fn filename(&self) -> (r: String)
        ensures
            r@ == self.spec_filename(),
    {
        if let Some(header) = &self.content_disposition {
            if let Some(groups) = find_first(CONTENT_DISPOSITION_FILENAME_REGEX, header.as_str()) {
                if let Some(name) = text_of_group(header.as_str(), &groups, 1) {
                    // If a filename is explicitly set using the Content-Disposition
                    // header, we'll use it.
                    return name.to_owned();
                }
            }
        }
        // We'll assign a path based on the URL's ending.
        let last = last_part_of(self.url_path.as_str());
        let name = remove_query(last.as_str());
        let path = if extension_of(name.as_str()).is_none() {
            match self.mime_type() {
                Some(mime) => match extension_of_mime(mime.as_str()) {
                    Some(ext) => set_extension(name.as_str(), ext),
                    None => name,
                },
                None => name,
            }
        } else {
            name
        };
        if is_file_name(path.as_str()) {
            last_part_of(path.as_str())
        } else {
            path
        }
    }
}

/// The text of `text`, if there is one.
pub open spec fn text_of(text: Option<String>) -> Option<Seq<char>> {
    match text {
        Some(t) => Some(t@),
        None => None,
    }
}

/// What stands behind the last `/` of `path`.
pub fn last_part_of(path: &str) -> (r: String)
    ensures
        r@ == last_part(path@),
{
    let chars = chars_of(path);
    let slash = vec!['/'];
    assert(slash@ =~= seq!['/']);
    let total = chars.len();
    let start: usize = match crate::text::find_last(&chars, &slash) {
        Some(at) => {
            proof {
                crate::text::lemma_last_occurrence_bounds(chars@, slash@, chars@.len() as int);
            }
            at + 1
        },
        None => 0,
    };
    let mut out = String::new();
    push_chars(&mut out, &chars, start, chars.len());
    out
}

/// Removes any query parameters from `name`.
pub fn remove_query(name: &str) -> (r: String)
    ensures
        r@ == without_query(name@),
{
    match find_first(REMOVE_QUERY_PARAMETERS_REGEX, name) {
        Some(groups) => match groups[0] {
            Some((start, end)) => match (slice(name, 0, start), slice(name, end, name.len())) {
                (Some(head), Some(tail)) => concat(head, tail),
                _ => name.to_owned(),
            },
            None => name.to_owned(),
        },
        None => name.to_owned(),
    }
}

/// Why the content of a download found no place.
#[derive(Debug, Clone, Copy, PartialEq, Eq, Structural)]
pub enum PlaceError {
    /// The local path of the request was settled before.
    PathAlreadySettled,
    /// What the name of the download leaves for a local file is no file name.
    NoFileName,
    /// The local file does not lie below the output directory of the request.
    OutsideOutput,
}

/// What becomes of a request when its download arrives, and the file that is written
/// for it, if any.
pub open spec fn placed(asset: AssetDownloadV, download: Download, one_html_file: bool, windows: bool) -> Result<
    (AssetDownloadV, Option<Seq<char>>),
    PlaceError,
> {
    if one_html_file {
        match asset.path {
            Some(_) => Err(PlaceError::PathAlreadySettled),
            None => Ok((asset.settled_at(download.spec_data_url()), None)),
        }
    } else {
        match asset.path {
            Some(p) => Ok((asset, Some(p))),
            None => match local_path(
                asset.output,
                download.target_url@,
                download.spec_filename(),
                windows,
            ) {
                Some(path) => match relative_to(path, asset.output) {
                    Some(rel) => Ok((asset.settled_at(rel), Some(path))),
                    None => Err(PlaceError::OutsideOutput),
                },
                None => Err(PlaceError::NoFileName),
            },
        }
    }
}

/// Decides where the content of `download` goes, and settles the local path of `asset`:
/// the data URL where everything goes into a single file; the path that was settled
/// before, which the content is written to; or a new path below the output directory of
/// the request, which the request notes as it is below that directory.
pub fn place_download(asset: &mut AssetDownload, download: &Download, one_html_file: bool, windows_names: bool) -> (r:
    Result<Option<String>, PlaceError>)
    ensures
        match (r, placed(old(asset)@, *download, one_html_file, windows_names)) {
            (Ok(file), Ok((after, owed))) => final(asset)@ == after && match (file, owed) {
                (Some(f), Some(o)) => f@ == o,
                (None, None) => true,
                _ => false,
            },
            (Err(e), Err(owed)) => e == owed && final(asset)@ == old(asset)@,
            _ => false,
        },
{
    if one_html_file {
        // No need to write data anywhere but in the data URL.
        return match asset.settle(download.make_data_url()) {
            Ok(()) => Ok(None),
            Err(_) => Err(PlaceError::PathAlreadySettled),
        };
    }
    if let Some(path) = asset.path() {
        // We need to reuse the existing path here.
        return Ok(Some(path.to_owned()));
    }
    let name = download.filename();
    let path = match AssetCollector::new_path(
        asset.output_path(),
        download.target_url.as_str(),
        name.as_str(),
        windows_names,
    ) {
        Ok(p) => p,
        Err(_) => {
            return Err(PlaceError::NoFileName);
        },
    };
    let relative = match path_to_relative(path.as_str(), asset.output_path()) {
        Some(rel) => rel,
        None => {
            return Err(PlaceError::OutsideOutput);
        },
    };
    let settled = asset.settle(relative);
    assert(settled is Ok);
    Ok(Some(path))
}

/// The message that tells of an asset that could not be downloaded.
pub open spec fn asset_error_text(err: Seq<char>, case_title: Option<Seq<char>>, goes_on: bool) -> Seq<
    char,
> {
    "Could not download asset for case "@ + match case_title {
        Some(t) => t,
        None => "[UNKNOWN CASE]"@,
    } + ": "@ + err + if goes_on {
        " (continuing anyway)"@
    } else {
        " (set --continue-on-asset-error to ignore this)"@
    }
}

/// The message for the asset error `err` that occurred for the case `case_title`.
pub fn handle_asset_error(err: &str, case_title: Option<&str>, continue_on_asset_error: bool) -> (r:
    String)
    ensures
        r@ == asset_error_text(
            err@,
            match case_title {
                Some(t) => Some(t@),
                None => None,
            },
            continue_on_asset_error,
        ),
{
    let mut message = "Could not download asset for case ".to_owned();
    match case_title {
        Some(t) => {
            message.append(t);
        },
        None => {
            message.append("[UNKNOWN CASE]");
        },
    }
    message.append(": ");
    message.append(err);
    if continue_on_asset_error {
        message.append(" (continuing anyway)");
    } else {
        message.append(" (set --continue-on-asset-error to ignore this)");
    }
    message
}

} // verus!

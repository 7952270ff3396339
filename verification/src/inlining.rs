//! Puts what was fetched for the player into its page and its scripts.

use crate::edits::{applicable, apply, can_apply, edited, splices, Edit};
use crate::fetch::Download;
use crate::json::{merged, Json, JsonV};
use crate::outside::{
    captures_all, groups_of, json_read, json_written, read_json, regex_found, write_json,
};
use crate::paths::{path_to_relative, relative_to};
use crate::patterns::{
    find_first, first_found, group_text, span, span_of, text_of_group, CSS_SRC_REGEX,
    DEFAULT_SPRITES_REGEX, GOOGLE_ANALYTICS_REGEX, GRAPHIC_ELEMENT_REGEX, HEAD_END_REGEX,
    LANGUAGE_INCLUDE_REGEX, LANGUAGE_REGEX, PRELOAD_OPTION_REGEX, PRELOAD_REGEX, PSYCHE_LOCK_REGEX,
    REDIRECTION_REGEX, VOICE_REGEX,
};
use crate::seqs::{gathered, lemma_gathered_fails};
use crate::site::{lock_views, looked_up, DefaultData, DefaultDataV};
use crate::sources::{
    capture_views, captures_in, fetch_views, fetches_for, fetches_wanted, found_in_both,
    lock_address, make_lock_address, make_sprite_js, make_voice_js, push_captures, regex_for_both,
    sprite_js, text_in, transformation_views, voice_js, Capture, CaptureV, Fetch, FetchKind, FetchV,
    MiscError, PlayerTransformation, PlayerTransformationV, TransformationTarget,
};
use crate::text::{concat, concat3, decimal, push_decimal, replace_all, replaced, str_eq};
use vstd::prelude::*;
use vstd::utf8::encode_utf8;

verus! {

/// What a download holds that the player can use: its content as text, where it is
/// text, and its content as a data URL.
pub struct Got {
    pub text: Option<Seq<char>>,
    pub data_url: Seq<char>,
}

/// What the download `result` holds, where there is one.
pub open spec fn got(result: Option<Download>) -> Option<Got> {
    match result {
        Some(d) => Some(Got { text: d.spec_content_str(), data_url: d.spec_data_url() }),
        None => None,
    }
}

/// What the downloads of `results` hold.
pub open spec fn got_all(results: Seq<Option<Download>>) -> Seq<Option<Got>> {
    Seq::new(results.len(), |i: int| got(results[i]))
}

/// What is known of the page and the run when fetched files are put in place.
pub struct Setting {
    /// The byte offset at which the head of the page ends, where the page has a head.
    pub head: Option<usize>,
    /// The byte offset behind the option to preload sounds, where the scripts set it.
    pub preload: Option<usize>,
    /// Whether everything goes into a single file.
    pub one_html_file: bool,
    /// Whether HTML5 audio is switched off.
    pub disable_html5_audio: bool,
}

/// `true` or `false`, as JavaScript writes it.
pub open spec fn bool_text(b: bool) -> Seq<char> {
    if b {
        "true"@
    } else {
        "false"@
    }
}

/// The edits that put the file of the fetch `f` in place, where it was fetched as
/// `result`: a style sheet goes into the page as a style element, in place of the link
/// to it or at the end of the head; a source gives way to its data URL; and the script
/// for sound goes where it was included, before its configuration. A file that could
/// not be fetched is passed over.
pub open spec fn placed_edits(f: FetchV, result: Option<Got>, setting: Setting) -> Result<
    Seq<PlayerTransformationV>,
    MiscError,
> {
    match result {
        None => Ok(Seq::empty()),
        Some(g) => match f.kind {
            FetchKind::Css => match g.text {
                Some(text) => Ok(
                    seq![
                        PlayerTransformationV {
                            target: f.target,
                            start: f.start,
                            end: f.end,
                            replacement: "<style>"@ + text + "</style>"@,
                        },
                    ],
                ),
                None => Err(MiscError::NotText),
            },
            FetchKind::Style => match setting.head {
                Some(head) => match g.text {
                    Some(text) => Ok(
                        seq![
                            PlayerTransformationV {
                                target: f.target,
                                start: f.start,
                                end: f.end,
                                replacement: Seq::empty(),
                            },
                            PlayerTransformationV {
                                target: TransformationTarget::Player,
                                start: head,
                                end: head,
                                replacement: "\n<style>"@ + text + "</style>"@,
                            },
                        ],
                    ),
                    None => Err(MiscError::NotText),
                },
                None => Err(MiscError::NoHead),
            },
            FetchKind::Source => Ok(
                seq![
                    PlayerTransformationV {
                        target: f.target,
                        start: f.start,
                        end: f.end,
                        replacement: g.data_url,
                    },
                ],
            ),
            FetchKind::CssSource => Ok(
                seq![
                    PlayerTransformationV {
                        target: TransformationTarget::Player,
                        start: f.start,
                        end: f.end,
                        replacement: g.data_url,
                    },
                ],
            ),
            FetchKind::Howler => match g.text {
                Some(text) => {
                    let included = PlayerTransformationV {
                        target: TransformationTarget::Scripts,
                        start: f.start,
                        end: f.end,
                        replacement: text + "\n"@ + f.note,
                    };
                    if setting.one_html_file {
                        Ok(seq![included])
                    } else {
                        match setting.preload {
                            Some(at) => Ok(
                                seq![
                                    included,
                                    PlayerTransformationV {
                                        target: TransformationTarget::Scripts,
                                        start: at,
                                        end: at,
                                        replacement: ", html5: "@ + bool_text(
                                            !setting.disable_html5_audio,
                                        ),
                                    },
                                ],
                            ),
                            None => Err(MiscError::NoPreload),
                        }
                    }
                },
                None => Err(MiscError::NotText),
            },
            FetchKind::Language => Ok(Seq::empty()),
        },
    }
}

/// The edits that put the fetched files of kind `kind` in place, for the fetches of
/// `fetches` in their order; the download for each fetch stands at its place in
/// `results`.
pub open spec fn kind_edits(
    kind: FetchKind,
    fetches: Seq<FetchV>,
    results: Seq<Option<Got>>,
    setting: Setting,
) -> Result<Seq<PlayerTransformationV>, MiscError> {
    gathered(
        fetches,
        |f: FetchV, i: int|
            if f.kind == kind && 0 <= i < results.len() {
                placed_edits(f, results[i], setting)
            } else {
                Ok(Seq::empty())
            },
        fetches.len() as int,
    )
}

/// Appends the transformations of `more` to `out`.
fn append_transformations(out: &mut Vec<PlayerTransformation>, more: Vec<PlayerTransformation>)
    ensures
        transformation_views(final(out)@) == transformation_views(old(out)@)
            + transformation_views(more@),
{
    let mut more = more;
    let ghost added = more@;
    out.append(&mut more);
    assert(transformation_views(out@) =~= transformation_views(old(out)@) + transformation_views(
        added,
    ));
}

fn place_fetch(fetch: &Fetch, download: &Download, head: Option<usize>, preload: Option<usize>, one_html_file: bool, disable_html5_audio: bool) -> (r:
    Result<Vec<PlayerTransformation>, MiscError>)
    ensures
        match (
            r,
            placed_edits(
                fetch@,
                got(Some(*download)),
                Setting { head, preload, one_html_file, disable_html5_audio },
            ),
        ) {
            (Ok(list), Ok(owed)) => transformation_views(list@) == owed,
            (Err(e), Err(owed)) => e == owed,
            _ => false,
        },
{
    let mut out: Vec<PlayerTransformation> = Vec::new();
    assert(transformation_views(out@) =~= Seq::empty());
    match fetch.kind {
        FetchKind::Css => {
            let text = match download.content_str() {
                Some(t) => t,
                None => {
                    return Err(MiscError::NotText);
                },
            };
            let t = PlayerTransformation::new(
                fetch.target,
                (fetch.start, fetch.end),
                concat3("<style>", text.as_str(), "</style>"),
            );
            out.push(t);
            assert(transformation_views(out@) =~= seq![t@]);
        },
        FetchKind::Style => {
            // Now, we need to put the CSS thing into a <style> tag in the <head>.
            let head_position = match head {
                Some(h) => h,
                None => {
                    return Err(MiscError::NoHead);
                },
            };
            let text = match download.content_str() {
                Some(t) => t,
                None => {
                    return Err(MiscError::NotText);
                },
            };
            let removed = PlayerTransformation::new(
                fetch.target,
                (fetch.start, fetch.end),
                String::new(),
            );
            let added = PlayerTransformation::new(
                TransformationTarget::Player,
                (head_position, head_position),
                concat3("\n<style>", text.as_str(), "</style>"),
            );
            out.push(removed);
            out.push(added);
            assert(transformation_views(out@) =~= seq![removed@, added@]);
        },
        FetchKind::Source => {
            let t = PlayerTransformation::new(
                fetch.target,
                (fetch.start, fetch.end),
                download.make_data_url(),
            );
            out.push(t);
            assert(transformation_views(out@) =~= seq![t@]);
        },
        FetchKind::CssSource => {
            let t = PlayerTransformation::new(
                TransformationTarget::Player,
                (fetch.start, fetch.end),
                download.make_data_url(),
            );
            out.push(t);
            assert(transformation_views(out@) =~= seq![t@]);
        },
        FetchKind::Howler => {
            let text = match download.content_str() {
                Some(t) => t,
                None => {
                    return Err(MiscError::NotText);
                },
            };
            // We will include Howler directly, as well as its configuration below.
            let included = PlayerTransformation::new(
                TransformationTarget::Scripts,
                (fetch.start, fetch.end),
                concat3(text.as_str(), "\n", fetch.note.as_str()),
            );
            out.push(included);
            // We need to use the HTML5 audio option for Howler, or we'll run into CORS
            // errors. We don't want to do this if we use data URLs for everything:
            // there can't be any CORS errors then.
            if !one_html_file {
                let at = match preload {
                    Some(p) => p,
                    None => {
                        return Err(MiscError::NoPreload);
                    },
                };
                let flag = if !disable_html5_audio {
                    "true"
                } else {
                    "false"
                };
                let option = PlayerTransformation::new(
                    TransformationTarget::Scripts,
                    (at, at),
                    concat(", html5: ", flag),
                );
                out.push(option);
                assert(transformation_views(out@) =~= seq![included@, option@]);
            } else {
                assert(transformation_views(out@) =~= seq![included@]);
            }
        },
        FetchKind::Language => {},
    }
    Ok(out)
}

/// The transformations that put the fetched files of kind `kind` in place.
pub fn edits_for_kind(
    kind: FetchKind,
    fetches: &Vec<Fetch>,
    results: &Vec<Option<Download>>,
    head: Option<usize>,
    preload: Option<usize>,
    one_html_file: bool,
    disable_html5_audio: bool,
) -> (r: Result<Vec<PlayerTransformation>, MiscError>)
    ensures
        match (
            r,
            kind_edits(
                kind,
                fetch_views(fetches@),
                got_all(results@),
                Setting { head, preload, one_html_file, disable_html5_audio },
            ),
        ) {
            (Ok(list), Ok(owed)) => transformation_views(list@) == owed,
            (Err(e), Err(owed)) => e == owed,
            _ => false,
        },
{
    let ghost setting = Setting { head, preload, one_html_file, disable_html5_audio };
    let ghost views = fetch_views(fetches@);
    let ghost gots = got_all(results@);
    let ghost each = |f: FetchV, i: int|
        if f.kind == kind && 0 <= i < gots.len() {
            placed_edits(f, gots[i], setting)
        } else {
            Ok(Seq::empty())
        };
    let mut out: Vec<PlayerTransformation> = Vec::new();
    let mut i: usize = 0;
    assert(transformation_views(out@) =~= Seq::<PlayerTransformationV>::empty());
    while i < fetches.len()
        invariant
            i <= fetches@.len(),
            views == fetch_views(fetches@),
            gots == got_all(results@),
            setting == (Setting { head, preload, one_html_file, disable_html5_audio }),
            each == |f: FetchV, i: int|
                if f.kind == kind && 0 <= i < gots.len() {
                    placed_edits(f, gots[i], setting)
                } else {
                    Ok(Seq::empty())
                },
            gathered(views, each, i as int) == Ok::<_, MiscError>(transformation_views(out@)),
        decreases fetches.len() - i,
    {
        let fetch = &fetches[i];
        assert(views[i as int] == fetch@);
        let same = match (fetch.kind, kind) {
            (FetchKind::Css, FetchKind::Css) => true,
            (FetchKind::Style, FetchKind::Style) => true,
            (FetchKind::Language, FetchKind::Language) => true,
            (FetchKind::Source, FetchKind::Source) => true,
            (FetchKind::Howler, FetchKind::Howler) => true,
            (FetchKind::CssSource, FetchKind::CssSource) => true,
            _ => false,
        };
        if same && i < results.len() {
            assert(gots[i as int] == got(results@[i as int]));
            match &results[i] {
                Some(download) => {
                    match place_fetch(
                        fetch,
                        download,
                        head,
                        preload,
                        one_html_file,
                        disable_html5_audio,
                    ) {
                        Ok(more) => {
                            append_transformations(&mut out, more);
                        },
                        Err(e) => {
                            assert(gathered(views, each, i + 1) is Err);
                            proof {
                                lemma_gathered_fails(views, each, i + 1, fetches@.len() as int);
                            }
                            return Err(e);
                        },
                    }
                },
                None => {
                    assert(transformation_views(out@) + Seq::<PlayerTransformationV>::empty()
                        =~= transformation_views(out@));
                },
            }
        } else {
            assert(transformation_views(out@) + Seq::<PlayerTransformationV>::empty()
                =~= transformation_views(out@));
        }
        i += 1;
    }
    Ok(out)
}

/// The texts of the language: the files of the language that were fetched, before
/// `upto`, each laid over those before it.
pub open spec fn language_json(fetches: Seq<FetchV>, results: Seq<Option<Got>>, upto: int) -> Result<
    JsonV,
    MiscError,
>
    decreases upto,
{
    if upto <= 0 {
        Ok(JsonV::Null)
    } else {
        match language_json(fetches, results, upto - 1) {
            Ok(before) => if fetches[upto - 1].kind == FetchKind::Language {
                if upto - 1 < results.len() {
                    match results[upto - 1] {
                        Some(g) => match g.text {
                            Some(text) => match json_read(text) {
                                Some(file) => Ok(merged(before, file)),
                                None => Err(MiscError::BadLanguageFile),
                            },
                            None => Err(MiscError::BadLanguageFile),
                        },
                        None => Err(MiscError::LanguageMissing),
                    }
                } else {
                    Err(MiscError::ResultsMismatch)
                }
            } else {
                Ok(before)
            },
            Err(e) => Err(e),
        }
    }
}

proof fn lemma_language_json_fails(fetches: Seq<FetchV>, results: Seq<Option<Got>>, at: int, upto: int)
    requires
        at <= upto,
        language_json(fetches, results, at) is Err,
    ensures
        language_json(fetches, results, upto) == language_json(fetches, results, at),
    decreases upto - at,
{
    if at < upto {
        lemma_language_json_fails(fetches, results, at, upto - 1);
    }
}

/// Lays the files of the language that were fetched over one another.
pub fn merge_language(fetches: &Vec<Fetch>, results: &Vec<Option<Download>>) -> (r: Result<
    Json,
    MiscError,
>)
    ensures
        match (r, language_json(fetch_views(fetches@), got_all(results@), fetches@.len() as int)) {
            (Ok(tree), Ok(owed)) => tree@ == owed,
            (Err(e), Err(owed)) => e == owed,
            _ => false,
        },
{
    let ghost views = fetch_views(fetches@);
    let ghost gots = got_all(results@);
    let mut lang = Json::Null;
    let mut i: usize = 0;
    while i < fetches.len()
        invariant
            i <= fetches@.len(),
            views == fetch_views(fetches@),
            gots == got_all(results@),
            language_json(views, gots, i as int) == Ok::<_, MiscError>(lang@),
        decreases fetches.len() - i,
    {
        let fetch = &fetches[i];
        assert(views[i as int] == fetch@);
        let is_language = match fetch.kind {
            FetchKind::Language => true,
            _ => false,
        };
        if is_language {
            if i >= results.len() {
                proof {
                    lemma_language_json_fails(views, gots, i + 1, fetches@.len() as int);
                }
                return Err(MiscError::ResultsMismatch);
            }
            assert(gots[i as int] == got(results@[i as int]));
            let failure = match &results[i] {
                Some(download) => match download.content_str() {
                    Some(text) => match read_json(text.as_str()) {
                        Some(file) => {
                            lang = lang.merge(file);
                            None
                        },
                        None => Some(MiscError::BadLanguageFile),
                    },
                    None => Some(MiscError::BadLanguageFile),
                },
                None => Some(MiscError::LanguageMissing),
            };
            if let Some(e) = failure {
                assert(language_json(views, gots, i + 1) is Err);
                proof {
                    lemma_language_json_fails(views, gots, i + 1, fetches@.len() as int);
                }
                return Err(e);
            }
        }
        i += 1;
    }
    Ok(lang)
}

/// The edits that put the texts of the language `lang` into the scripts: the
/// definition of the language gives way to the texts; the list of files to request is
/// emptied, and so is the callback of the request; and what the callback did stands
/// right behind the request.
pub open spec fn language_edits(scripts: Seq<char>, lang: JsonV) -> Result<
    Seq<PlayerTransformationV>,
    MiscError,
> {
    match first_found(LANGUAGE_INCLUDE_REGEX@, scripts) {
        Some(groups) => match (
            span_of(groups, 0),
            span_of(groups, 1),
            span_of(groups, 2),
            group_text(scripts, groups, 2),
        ) {
            (Some((_, func_end)), Some(list), Some(callback), Some(callback_text)) => match first_found(
                LANGUAGE_REGEX@,
                scripts,
            ) {
                Some(definition) => match (span_of(definition, 0), json_written(lang)) {
                    (Some(range), Some(written)) => if func_end < usize::MAX {
                        Ok(
                            seq![
                                PlayerTransformationV {
                                    target: TransformationTarget::Scripts,
                                    start: range.0,
                                    end: range.1,
                                    replacement: "var lang = "@ + written + ";"@,
                                },
                                PlayerTransformationV {
                                    target: TransformationTarget::Scripts,
                                    start: list.0,
                                    end: list.1,
                                    replacement: Seq::empty(),
                                },
                                PlayerTransformationV {
                                    target: TransformationTarget::Scripts,
                                    start: callback.0,
                                    end: callback.1,
                                    replacement: Seq::empty(),
                                },
                                PlayerTransformationV {
                                    target: TransformationTarget::Scripts,
                                    start: func_end,
                                    end: (func_end + 1) as usize,
                                    replacement: callback_text,
                                },
                            ],
                        )
                    } else {
                        Err(MiscError::NotApplicable)
                    },
                    (Some(_), None) => Err(MiscError::Unwritable),
                    _ => Err(MiscError::BadGroup),
                },
                None => Err(MiscError::NoLanguageDefinition),
            },
            _ => Err(MiscError::BadGroup),
        },
        None => Err(MiscError::NoLanguageInclude),
    }
}

/// The transformations that put the texts of the language `lang` into the scripts.
pub fn language_transformations(scripts: &str, lang: &Json) -> (r: Result<
    Vec<PlayerTransformation>,
    MiscError,
>)
    ensures
        match (r, language_edits(scripts@, lang@)) {
            (Ok(list), Ok(owed)) => transformation_views(list@) == owed,
            (Err(e), Err(owed)) => e == owed,
            _ => false,
        },
{
    let groups = match find_first(LANGUAGE_INCLUDE_REGEX, scripts) {
        Some(g) => g,
        None => {
            return Err(MiscError::NoLanguageInclude);
        },
    };
    let (func_end, list, callback, callback_text) = match (
        span(&groups, 0),
        span(&groups, 1),
        span(&groups, 2),
        text_of_group(scripts, &groups, 2),
    ) {
        (Some((_, end)), Some(list), Some(callback), Some(text)) => (end, list, callback, text),
        _ => {
            return Err(MiscError::BadGroup);
        },
    };
    // First, we need to replace the language object.
    let definition = match find_first(LANGUAGE_REGEX, scripts) {
        Some(d) => d,
        None => {
            return Err(MiscError::NoLanguageDefinition);
        },
    };
    let range = match span(&definition, 0) {
        Some(r) => r,
        None => {
            return Err(MiscError::BadGroup);
        },
    };
    let written = match write_json(lang) {
        Some(w) => w,
        None => {
            return Err(MiscError::Unwritable);
        },
    };
    if func_end == usize::MAX {
        return Err(MiscError::NotApplicable);
    }
    let mut out: Vec<PlayerTransformation> = Vec::new();
    let language = PlayerTransformation::new(
        TransformationTarget::Scripts,
        range,
        concat3("var lang = ", written.as_str(), ";"),
    );
    // Then, we need to make sure the script doesn't try to dynamically retrieve
    // languages. We do this by just setting the list of files to retrieve to an empty
    // list.
    let emptied = PlayerTransformation::new(TransformationTarget::Scripts, list, String::new());
    // We also need to call the provided callback immediately. To do this, we first empty
    // the callback where it stands...
    let silenced = PlayerTransformation::new(
        TransformationTarget::Scripts,
        callback,
        String::new(),
    );
    // ...then we add the callback code as a normal block directly below.
    let called = PlayerTransformation::new(
        TransformationTarget::Scripts,
        (func_end, func_end + 1),
        callback_text.to_owned(),
    );
    out.push(language);
    out.push(emptied);
    out.push(silenced);
    out.push(called);
    assert(transformation_views(out@) =~= seq![language@, emptied@, silenced@, called@]);
    Ok(out)
}

/// The edit that takes the whole first match of `pattern` out of `text`, and puts
/// `replacement` in its place; none where the pattern does not match.
pub open spec fn whole_edit(
    pattern: Seq<char>,
    text: Seq<char>,
    target: TransformationTarget,
    replacement: Seq<char>,
) -> Seq<PlayerTransformationV> {
    match first_found(pattern, text) {
        Some(groups) => match span_of(groups, 0) {
            Some((start, end)) => seq![PlayerTransformationV { target, start, end, replacement }],
            None => Seq::empty(),
        },
        None => Seq::empty(),
    }
}

/// The transformation that takes the whole first match of `pattern` out of `text`.
pub fn whole_transformation(pattern: &str, text: &str, target: TransformationTarget, replacement: &str) -> (r:
    Vec<PlayerTransformation>)
    ensures
        transformation_views(r@) == whole_edit(pattern@, text@, target, replacement@),
{
    let mut out: Vec<PlayerTransformation> = Vec::new();
    match find_first(pattern, text) {
        Some(groups) => match span(&groups, 0) {
            Some(range) => {
                let t = PlayerTransformation::new(target, range, replacement.to_owned());
                out.push(t);
                assert(transformation_views(out@) =~= seq![t@]);
            },
            None => {
                assert(transformation_views(out@) =~= Seq::empty());
            },
        },
        None => {
            assert(transformation_views(out@) =~= Seq::empty());
        },
    }
    out
}

/// The edit that puts `replacement` in place of the first group of the first match of
/// `pattern` in the scripts; none where the pattern does not match.
pub open spec fn body_edit(pattern: Seq<char>, scripts: Seq<char>, replacement: Seq<char>) -> Result<
    Seq<PlayerTransformationV>,
    MiscError,
> {
    match first_found(pattern, scripts) {
        Some(groups) => match span_of(groups, 1) {
            Some((start, end)) => Ok(
                seq![
                    PlayerTransformationV {
                        target: TransformationTarget::Scripts,
                        start,
                        end,
                        replacement,
                    },
                ],
            ),
            None => Err(MiscError::BadGroup),
        },
        None => Ok(Seq::empty()),
    }
}

/// The transformation that puts `replacement` in place of the first group of the first
/// match of `pattern` in the scripts.
pub fn body_transformation(pattern: &str, scripts: &str, replacement: String) -> (r: Result<
    Vec<PlayerTransformation>,
    MiscError,
>)
    ensures
        match (r, body_edit(pattern@, scripts@, replacement@)) {
            (Ok(list), Ok(owed)) => transformation_views(list@) == owed,
            (Err(e), Err(owed)) => e == owed,
            _ => false,
        },
{
    let mut out: Vec<PlayerTransformation> = Vec::new();
    match find_first(pattern, scripts) {
        Some(groups) => match span(&groups, 1) {
            Some(range) => {
                let t = PlayerTransformation::new(TransformationTarget::Scripts, range, replacement);
                out.push(t);
                assert(transformation_views(out@) =~= seq![t@]);
            },
            None => {
                return Err(MiscError::BadGroup);
            },
        },
        None => {
            assert(transformation_views(out@) =~= Seq::empty());
        },
    }
    Ok(out)
}

/// The name of the animation that a match of the pattern for psyche locks asks for: the
/// name it holds, behind `jfa_lock` where the match holds a type.
pub open spec fn lock_name(text: Seq<char>, groups: Seq<Option<(usize, usize)>>) -> Option<
    Seq<char>,
> {
    match group_text(text, groups, 3) {
        Some(name) => if span_of(groups, 2) is Some {
            Some("jfa_lock"@ + name)
        } else {
            Some(name)
        },
        None => None,
    }
}

/// The edit for one match of the pattern for psyche locks: the path that the match
/// builds gives way to the address of the local animation.
pub open spec fn lock_edit(
    player: Seq<char>,
    scripts: Seq<char>,
    locks: Seq<(Seq<char>, Seq<char>)>,
    one_html_file: bool,
    c: CaptureV,
    at: int,
) -> Result<Seq<PlayerTransformationV>, MiscError> {
    let text = text_in(c.target, player, scripts);
    match (lock_name(text, c.groups), span_of(c.groups, 1), group_text(text, c.groups, 4)) {
        (Some(name), Some((start, end)), Some(lock_id)) => Ok(
            seq![
                PlayerTransformationV {
                    target: c.target,
                    start,
                    end,
                    replacement: lock_address(name, lock_id, one_html_file, looked_up(locks, name)),
                },
            ],
        ),
        _ => Err(MiscError::BadGroup),
    }
}

/// The edits for the matches `captures` of the pattern for psyche locks.
pub open spec fn lock_edits(
    player: Seq<char>,
    scripts: Seq<char>,
    locks: Seq<(Seq<char>, Seq<char>)>,
    one_html_file: bool,
    captures: Seq<CaptureV>,
) -> Result<Seq<PlayerTransformationV>, MiscError> {
    gathered(
        captures,
        |c: CaptureV, i: int| lock_edit(player, scripts, locks, one_html_file, c, i),
        captures.len() as int,
    )
}

fn find_lock<'a>(locks: &'a Vec<(String, String)>, name: &str) -> (r: Option<&'a str>)
    ensures
        match r {
            Some(url) => looked_up(lock_views(locks@), name@) == Some(url@),
            None => looked_up(lock_views(locks@), name@) is None,
        },
{
    let ghost wanted = crate::site::under::<Seq<char>, Seq<char>>(name@);
    let mut i: usize = 0;
    while i < locks.len()
        invariant
            i <= locks@.len(),
            wanted == crate::site::under::<Seq<char>, Seq<char>>(name@),
            forall|k: int| 0 <= k < i ==> !wanted(#[trigger] lock_views(locks@)[k]),
        decreases locks.len() - i,
    {
        if str_eq(locks[i].0.as_str(), name) {
            proof {
                crate::seqs::lemma_first_place_found(lock_views(locks@), wanted, i as int);
            }
            return Some(locks[i].1.as_str());
        }
        i += 1;
    }
    proof {
        crate::seqs::lemma_first_place_missing(lock_views(locks@), wanted);
    }
    None
}

/// The transformations for the matches `captures` of the pattern for psyche locks.
pub fn lock_transformations(
    player: &str,
    scripts: &str,
    locks: &Vec<(String, String)>,
    one_html_file: bool,
    captures: &Vec<Capture>,
) -> (r: Result<Vec<PlayerTransformation>, MiscError>)
    ensures
        match (
            r,
            lock_edits(
                player@,
                scripts@,
                lock_views(locks@),
                one_html_file,
                capture_views(captures@),
            ),
        ) {
            (Ok(list), Ok(owed)) => transformation_views(list@) == owed,
            (Err(e), Err(owed)) => e == owed,
            _ => false,
        },
{
    let ghost views = capture_views(captures@);
    let ghost each = |c: CaptureV, i: int|
        lock_edit(player@, scripts@, lock_views(locks@), one_html_file, c, i);
    let mut out: Vec<PlayerTransformation> = Vec::new();
    let mut i: usize = 0;
    assert(transformation_views(out@) =~= Seq::<PlayerTransformationV>::empty());
    while i < captures.len()
        invariant
            i <= captures@.len(),
            views == capture_views(captures@),
            each == |c: CaptureV, i: int|
                lock_edit(player@, scripts@, lock_views(locks@), one_html_file, c, i),
            gathered(views, each, i as int) == Ok::<_, MiscError>(transformation_views(out@)),
        decreases captures.len() - i,
    {
        let capture = &captures[i];
        assert(views[i as int] == capture@);
        let text = match capture.target {
            TransformationTarget::Player => player,
            TransformationTarget::Scripts => scripts,
        };
        match (
            text_of_group(text, &capture.groups, 3),
            span(&capture.groups, 1),
            text_of_group(text, &capture.groups, 4),
        ) {
            (Some(held), Some(path), Some(lock_id)) => {
                let name = if span(&capture.groups, 2).is_some() {
                    concat("jfa_lock", held)
                } else {
                    held.to_owned()
                };
                let replacement = make_lock_address(
                    name.as_str(),
                    lock_id,
                    one_html_file,
                    find_lock(locks, name.as_str()),
                );
                let t = PlayerTransformation::new(capture.target, path, replacement);
                let ghost before = transformation_views(out@);
                out.push(t);
                assert(transformation_views(out@) =~= before + seq![t@]);
            },
            _ => {
                assert(gathered(views, each, i + 1) is Err);
                proof {
                    lemma_gathered_fails(views, each, i + 1, captures@.len() as int);
                }
                return Err(MiscError::BadGroup);
            },
        }
        i += 1;
    }
    Ok(out)
}

/// What is put before the code that sizes an image, so that an image that is not
/// loaded yet has a size.
pub const IMAGE_SIZE_FIX: &'static str =
    "\nif (img.height == 0) img.height = 192; if (img.width == 0) img.width = 256;\n";

/// The edits that put the fix for the size of images before each of the matches
/// `found` before `upto`.
pub open spec fn image_edits(found: Seq<Seq<Option<(usize, usize)>>>, upto: int) -> Seq<
    PlayerTransformationV,
>
    decreases upto,
{
    if upto <= 0 {
        Seq::empty()
    } else {
        let before = image_edits(found, upto - 1);
        match span_of(found[upto - 1], 0) {
            Some((start, _)) => before.push(
                PlayerTransformationV {
                    target: TransformationTarget::Scripts,
                    start,
                    end: start,
                    replacement: IMAGE_SIZE_FIX@,
                },
            ),
            None => before,
        }
    }
}

/// The transformations that put the fix for the size of images before each match of
/// the pattern for the code that sizes an image.
pub fn image_transformations(scripts: &str) -> (r: Option<Vec<PlayerTransformation>>)
    ensures
        match (r, regex_found(GRAPHIC_ELEMENT_REGEX@, scripts@)) {
            (Some(list), Some(found)) => transformation_views(list@) == image_edits(
                found,
                found.len() as int,
            ),
            (None, None) => true,
            _ => false,
        },
{
    let found = match captures_all(GRAPHIC_ELEMENT_REGEX, scripts) {
        Some(f) => f,
        None => {
            return None;
        },
    };
    let ghost all = groups_of(found@);
    let mut out: Vec<PlayerTransformation> = Vec::new();
    let mut i: usize = 0;
    assert(transformation_views(out@) =~= Seq::<PlayerTransformationV>::empty());
    while i < found.len()
        invariant
            i <= found@.len(),
            all == groups_of(found@),
            transformation_views(out@) == image_edits(all, i as int),
        decreases found.len() - i,
    {
        assert(all[i as int] == found@[i as int]@);
        match span(&found[i], 0) {
            Some((start, _)) => {
                let t = PlayerTransformation::new(
                    TransformationTarget::Scripts,
                    (start, start),
                    IMAGE_SIZE_FIX.to_owned(),
                );
                let ghost before = transformation_views(out@);
                out.push(t);
                assert(transformation_views(out@) =~= before.push(t@));
            },
            None => {},
        }
        i += 1;
    }
    Some(out)
}

/// What the player says when it is sent to a case that was not downloaded with this
/// one.
pub const REDIRECTION_DEFAULT: &'static str =
    "default: window.alert('Target case was not downloaded when this case was written. Please download a sequence of cases together (at once). You can, for example, use `-s every` with aaoffline to do this.');\n}";

/// The path of the file of a case as the player of another case reaches it: what it is
/// below the output directory, from one directory up where each case has a directory of
/// its own, and with every `'` written so that it can stand in a string.
pub open spec fn redirection_path(path: Seq<char>, output: Seq<char>, one_html_file: bool) -> Option<
    Seq<char>,
> {
    match relative_to(path, output) {
        Some(rel) => Some(
            replaced(
                if one_html_file {
                    rel
                } else {
                    "../"@ + rel
                },
                "'"@,
                "\\'"@,
            ),
        ),
        None => None,
    }
}

/// The branches of the redirection for the cases of `mapping` before `upto`: each case
/// by its ID, and the file it was written to.
pub open spec fn redirection_cases(
    mapping: Seq<(u32, Seq<char>)>,
    output: Seq<char>,
    save: Seq<char>,
    one_html_file: bool,
    upto: int,
) -> Option<Seq<char>>
    decreases upto,
{
    if upto <= 0 {
        Some(Seq::empty())
    } else {
        match (
            redirection_cases(mapping, output, save, one_html_file, upto - 1),
            redirection_path(mapping[upto - 1].1, output, one_html_file),
        ) {
            (Some(before), Some(path)) => Some(
                before + "case "@ + decimal(mapping[upto - 1].0 as nat)
                    + ": window.location.href = '"@ + path + "' + '?"@ + save + ";\nbreak;\n"@,
            ),
            _ => None,
        }
    }
}

/// The files of the cases of `mapping`, each under the ID of its case.
pub open spec fn mapping_views(mapping: Seq<(u32, String)>) -> Seq<(u32, Seq<char>)> {
    Seq::new(mapping.len(), |i: int| (mapping[i].0, mapping[i].1@))
}

/// The redirection to another case of a sequence, with the path of each case that was
/// downloaded written into it; nothing where the file of a case does not lie below the
/// output directory.
pub open spec fn redirection_js(
    target: Seq<char>,
    save: Seq<char>,
    mapping: Seq<(u32, Seq<char>)>,
    output: Seq<char>,
    one_html_file: bool,
) -> Option<Seq<char>> {
    match redirection_cases(mapping, output, save, one_html_file, mapping.len() as int) {
        Some(cases) => Some(
            "switch (Number.parseInt("@ + target + ")) {\n"@ + cases + REDIRECTION_DEFAULT@,
        ),
        None => None,
    }
}

proof fn lemma_redirection_cases_fail(
    mapping: Seq<(u32, Seq<char>)>,
    output: Seq<char>,
    save: Seq<char>,
    one_html_file: bool,
    at: int,
    upto: int,
)
    requires
        at <= upto,
        redirection_cases(mapping, output, save, one_html_file, at) is None,
    ensures
        redirection_cases(mapping, output, save, one_html_file, upto) is None,
    decreases upto - at,
{
    if at < upto {
        lemma_redirection_cases_fail(mapping, output, save, one_html_file, at, upto - 1);
    }
}

/// Writes the redirection to another case of a sequence.
pub fn make_redirection_js(
    target: &str,
    save: &str,
    mapping: &Vec<(u32, String)>,
    output: &str,
    one_html_file: bool,
) -> (r: Option<String>)
    ensures
        match r {
            Some(js) => redirection_js(
                target@,
                save@,
                mapping_views(mapping@),
                output@,
                one_html_file,
            ) == Some(js@),
            None => redirection_js(
                target@,
                save@,
                mapping_views(mapping@),
                output@,
                one_html_file,
            ) is None,
        },
{
    let ghost views = mapping_views(mapping@);
    let mut cases = String::new();
    let mut i: usize = 0;
    while i < mapping.len()
        invariant
            i <= mapping@.len(),
            views == mapping_views(mapping@),
            redirection_cases(views, output@, save@, one_html_file, i as int) == Some(cases@),
        decreases mapping.len() - i,
    {
        assert(views[i as int] == (mapping@[i as int].0, mapping@[i as int].1@));
        // The path needs to be relative to each case (so that downloaded cases can be
        // moved).
        let rel = match path_to_relative(mapping[i].1.as_str(), output) {
            Some(rel) => rel,
            None => {
                assert(redirection_cases(views, output@, save@, one_html_file, i + 1) is None);
                proof {
                    lemma_redirection_cases_fail(
                        views,
                        output@,
                        save@,
                        one_html_file,
                        i + 1,
                        mapping@.len() as int,
                    );
                }
                return None;
            },
        };
        let target_path = if one_html_file {
            rel
        } else {
            // We need to go up one directory first.
            concat("../", rel.as_str())
        };
        let target_path = replace_all(target_path.as_str(), "'", "\\'");
        cases.append("case ");
        push_decimal(&mut cases, mapping[i].0 as u64);
        cases.append(": window.location.href = '");
        cases.append(target_path.as_str());
        cases.append("' + '?");
        cases.append(save);
        cases.append(";\nbreak;\n");
        i += 1;
    }
    let mut js = concat3("switch (Number.parseInt(", target, ")) {\n");
    js.append(cases.as_str());
    js.append(REDIRECTION_DEFAULT);
    Some(js)
}

/// The edit that writes the redirection to another case of a sequence in place of the
/// one that asks the site; none where the scripts hold none.
pub open spec fn redirection_edit(
    scripts: Seq<char>,
    mapping: Seq<(u32, Seq<char>)>,
    output: Seq<char>,
    one_html_file: bool,
) -> Result<Seq<PlayerTransformationV>, MiscError> {
    match first_found(REDIRECTION_REGEX@, scripts) {
        Some(groups) => match (
            span_of(groups, 0),
            group_text(scripts, groups, 1),
            group_text(scripts, groups, 2),
        ) {
            (Some((start, end)), Some(target), Some(save)) => match redirection_js(
                target,
                save,
                mapping,
                output,
                one_html_file,
            ) {
                Some(js) => Ok(
                    seq![
                        PlayerTransformationV {
                            target: TransformationTarget::Scripts,
                            start,
                            end,
                            replacement: js,
                        },
                    ],
                ),
                None => Err(MiscError::OutputMismatch),
            },
            _ => Err(MiscError::BadGroup),
        },
        None => Ok(Seq::empty()),
    }
}

/// The transformation that writes the redirection to another case of a sequence.
pub fn redirection_transformation(
    scripts: &str,
    mapping: &Vec<(u32, String)>,
    output: &str,
    one_html_file: bool,
) -> (r: Result<Vec<PlayerTransformation>, MiscError>)
    ensures
        match (r, redirection_edit(scripts@, mapping_views(mapping@), output@, one_html_file)) {
            (Ok(list), Ok(owed)) => transformation_views(list@) == owed,
            (Err(e), Err(owed)) => e == owed,
            _ => false,
        },
{
    let mut out: Vec<PlayerTransformation> = Vec::new();
    assert(transformation_views(out@) =~= Seq::empty());
    let groups = match find_first(REDIRECTION_REGEX, scripts) {
        Some(g) => g,
        None => {
            return Ok(out);
        },
    };
    match (span(&groups, 0), text_of_group(scripts, &groups, 1), text_of_group(scripts, &groups, 2)) {
        (Some(range), Some(target), Some(save)) => {
            match make_redirection_js(target, save, mapping, output, one_html_file) {
                Some(js) => {
                    let t = PlayerTransformation::new(TransformationTarget::Scripts, range, js);
                    out.push(t);
                    assert(transformation_views(out@) =~= seq![t@]);
                    Ok(out)
                },
                None => Err(MiscError::OutputMismatch),
            }
        },
        _ => Err(MiscError::BadGroup),
    }
}

/// What was put together so far, and then `next`; the first refusal where there is one.
pub open spec fn and_then(
    so_far: Result<Seq<PlayerTransformationV>, MiscError>,
    next: Result<Seq<PlayerTransformationV>, MiscError>,
) -> Result<Seq<PlayerTransformationV>, MiscError> {
    match so_far {
        Ok(a) => match next {
            Ok(b) => Ok(a + b),
            Err(e) => Err(e),
        },
        Err(e) => Err(e),
    }
}

/// The byte offset at which the first match of `pattern` in `text` starts.
pub open spec fn start_of(pattern: Seq<char>, text: Seq<char>) -> Option<usize> {
    match first_found(pattern, text) {
        Some(groups) => match span_of(groups, 0) {
            Some((start, _)) => Some(start),
            None => None,
        },
        None => None,
    }
}

/// The byte offset at which the first match of `pattern` in `text` ends.
pub open spec fn end_of(pattern: Seq<char>, text: Seq<char>) -> Option<usize> {
    match first_found(pattern, text) {
        Some(groups) => match span_of(groups, 0) {
            Some((_, end)) => Some(end),
            None => None,
        },
        None => None,
    }
}

fn find_start(pattern: &str, text: &str) -> (r: Option<usize>)
    ensures
        r == start_of(pattern@, text@),
{
    match find_first(pattern, text) {
        Some(groups) => match span(&groups, 0) {
            Some((start, _)) => Some(start),
            None => None,
        },
        None => None,
    }
}

fn find_end(pattern: &str, text: &str) -> (r: Option<usize>)
    ensures
        r == end_of(pattern@, text@),
{
    match find_first(pattern, text) {
        Some(groups) => match span(&groups, 0) {
            Some((_, end)) => Some(end),
            None => None,
        },
        None => None,
    }
}

/// The texts of the language as edits of the scripts.
pub open spec fn language_part(scripts: Seq<char>, fetches: Seq<FetchV>, results: Seq<Option<Got>>) -> Result<
    Seq<PlayerTransformationV>,
    MiscError,
> {
    match language_json(fetches, results, fetches.len() as int) {
        Ok(lang) => language_edits(scripts, lang),
        Err(e) => Err(e),
    }
}

/// The edits for the psyche locks.
pub open spec fn lock_part(
    player: Seq<char>,
    scripts: Seq<char>,
    locks: Seq<(Seq<char>, Seq<char>)>,
    one_html_file: bool,
) -> Result<Seq<PlayerTransformationV>, MiscError> {
    match found_in_both(PSYCHE_LOCK_REGEX@, player, scripts) {
        Some(captures) => lock_edits(player, scripts, locks, one_html_file, captures),
        None => Err(MiscError::BadPattern),
    }
}

/// The edits that give every image a size.
pub open spec fn image_part(scripts: Seq<char>) -> Result<Seq<PlayerTransformationV>, MiscError> {
    match regex_found(GRAPHIC_ELEMENT_REGEX@, scripts) {
        Some(found) => Ok(image_edits(found, found.len() as int)),
        None => Err(MiscError::BadPattern),
    }
}

/// What the run knows when the sources of the player are put in place.
pub struct Run {
    pub defaults: DefaultDataV,
    pub one_html_file: bool,
    pub disable_html5_audio: bool,
    pub mapping: Seq<(u32, Seq<char>)>,
    pub output: Seq<char>,
}

/// All the edits of the page of the player and of its scripts, in the order in which
/// they are found: the tag for analytics is taken out; the style sheets, the texts of
/// the language, the sources and the script for sound are put in; the voices, the
/// default sprites and the psyche locks are taken from local files; nothing is loaded
/// ahead; every image has a size; and the way to another case of a sequence leads to
/// its local file.
pub open spec fn misc_edits(
    player: Seq<char>,
    scripts: Seq<char>,
    fetches: Seq<FetchV>,
    results: Seq<Option<Got>>,
    run: Run,
) -> Result<Seq<PlayerTransformationV>, MiscError> {
    let setting = Setting {
        head: start_of(HEAD_END_REGEX@, player),
        preload: end_of(PRELOAD_OPTION_REGEX@, scripts),
        one_html_file: run.one_html_file,
        disable_html5_audio: run.disable_html5_audio,
    };
    let a = Ok(whole_edit(GOOGLE_ANALYTICS_REGEX@, player, TransformationTarget::Player, Seq::empty()));
    let b = and_then(a, kind_edits(FetchKind::Css, fetches, results, setting));
    let c = and_then(b, kind_edits(FetchKind::Style, fetches, results, setting));
    let d = and_then(c, language_part(scripts, fetches, results));
    let e = and_then(d, kind_edits(FetchKind::Source, fetches, results, setting));
    let f = and_then(e, kind_edits(FetchKind::Howler, fetches, results, setting));
    let g = and_then(
        f,
        body_edit(
            VOICE_REGEX@,
            scripts,
            voice_js(run.defaults.voices, run.defaults.voices.len() as int)
                + "return 'data:audio/wav;base64,'"@,
        ),
    );
    let h = and_then(
        g,
        body_edit(
            DEFAULT_SPRITES_REGEX@,
            scripts,
            sprite_js(run.defaults.sprites, run.defaults.sprites.len() as int)
                + "return 'data:image/gif;base64,'"@,
        ),
    );
    let i = and_then(h, lock_part(player, scripts, run.defaults.locks, run.one_html_file));
    let j = and_then(
        i,
        Ok(whole_edit(PRELOAD_REGEX@, scripts, TransformationTarget::Scripts, "return;"@)),
    );
    let k = and_then(j, image_part(scripts));
    and_then(k, redirection_edit(scripts, run.mapping, run.output, run.one_html_file))
}

/// Finds the transformations that make the player's miscellaneous external sources
/// (e.g., sources mentioned in CSS URLs) work offline, from what was fetched for them:
/// `results` holds the download for each fetch of `fetches`, at the same place, and
/// nothing where the download failed.
pub fn retrieve_player_misc_sources(
    player: &str,
    scripts: &str,
    fetches: &Vec<Fetch>,
    results: &Vec<Option<Download>>,
    default_data: &DefaultData,
    one_html_file: bool,
    disable_html5_audio: bool,
    case_output_mapping: &Vec<(u32, String)>,
    output: &str,
) -> (r: Result<Vec<PlayerTransformation>, MiscError>)
    ensures
        match (
            r,
            misc_edits(
                player@,
                scripts@,
                fetch_views(fetches@),
                got_all(results@),
                Run {
                    defaults: default_data@,
                    one_html_file,
                    disable_html5_audio,
                    mapping: mapping_views(case_output_mapping@),
                    output: output@,
                },
            ),
        ) {
            (Ok(list), Ok(owed)) => transformation_views(list@) == owed,
            (Err(e), Err(owed)) => e == owed,
            _ => false,
        },
{
    let head = find_start(HEAD_END_REGEX, player);
    let preload = find_end(PRELOAD_OPTION_REGEX, scripts);
    // We need to remove the Google Analytics tag at the bottom of the page.
    let mut out = whole_transformation(
        GOOGLE_ANALYTICS_REGEX,
        player,
        TransformationTarget::Player,
        "",
    );
    proof {
        reveal_strlit("");
        assert(""@ =~= Seq::<char>::empty());
    }
    let ghost a = transformation_views(out@);
    let css = match edits_for_kind(
        FetchKind::Css,
        fetches,
        results,
        head,
        preload,
        one_html_file,
        disable_html5_audio,
    ) {
        Ok(list) => list,
        Err(e) => {
            return Err(e);
        },
    };
    append_transformations(&mut out, css);
    // We also need to handle any dynamic CSS inclusions.
    let styles = match edits_for_kind(
        FetchKind::Style,
        fetches,
        results,
        head,
        preload,
        one_html_file,
        disable_html5_audio,
    ) {
        Ok(list) => list,
        Err(e) => {
            return Err(e);
        },
    };
    append_transformations(&mut out, styles);
    let lang = match merge_language(fetches, results) {
        Ok(l) => l,
        Err(e) => {
            return Err(e);
        },
    };
    let language = match language_transformations(scripts, &lang) {
        Ok(list) => list,
        Err(e) => {
            return Err(e);
        },
    };
    append_transformations(&mut out, language);
    let sources = match edits_for_kind(
        FetchKind::Source,
        fetches,
        results,
        head,
        preload,
        one_html_file,
        disable_html5_audio,
    ) {
        Ok(list) => list,
        Err(e) => {
            return Err(e);
        },
    };
    append_transformations(&mut out, sources);
    let howler = match edits_for_kind(
        FetchKind::Howler,
        fetches,
        results,
        head,
        preload,
        one_html_file,
        disable_html5_audio,
    ) {
        Ok(list) => list,
        Err(e) => {
            return Err(e);
        },
    };
    append_transformations(&mut out, howler);
    // Since the default voices are always retrieved from the server, we need to change
    // the getVoiceUrl function to point to our local files.
    let voices = match body_transformation(
        VOICE_REGEX,
        scripts,
        make_voice_js(&default_data.default_voice_urls),
    ) {
        Ok(list) => list,
        Err(e) => {
            return Err(e);
        },
    };
    append_transformations(&mut out, voices);
    // We need to do the same for the default sprites.
    let sprites = match body_transformation(
        DEFAULT_SPRITES_REGEX,
        scripts,
        make_sprite_js(&default_data.default_sprite_urls),
    ) {
        Ok(list) => list,
        Err(e) => {
            return Err(e);
        },
    };
    append_transformations(&mut out, sprites);
    // Psyche locks are slightly more tricky to replace. In the online version, a query
    // parameter "?id=" is appended to the lock request, this is later used to
    // differentiate individual lock images (even though the underlying image is the
    // same). We cannot use query parameters like this for static HTML files.
    let psy_caps = match regex_for_both(PSYCHE_LOCK_REGEX, player, scripts) {
        Some(c) => c,
        None => {
            return Err(MiscError::BadPattern);
        },
    };
    let locks = match lock_transformations(
        player,
        scripts,
        &default_data.psyche_lock_urls,
        one_html_file,
        &psy_caps,
    ) {
        Ok(list) => list,
        Err(e) => {
            return Err(e);
        },
    };
    append_transformations(&mut out, locks);
    // We disable preloading, it only leads to some errors (since we do not download all
    // default sprites) and we don't gain anything, since the assets are already local.
    let ahead = whole_transformation(
        PRELOAD_REGEX,
        scripts,
        TransformationTarget::Scripts,
        "return;",
    );
    append_transformations(&mut out, ahead);
    let images = match image_transformations(scripts) {
        Some(list) => list,
        None => {
            return Err(MiscError::BadPattern);
        },
    };
    append_transformations(&mut out, images);
    // When ending a case, it's possible that we might be redirected to another entry of
    // the same sequence. To support this (when the user downloads multiple cases), the
    // resulting paths are written into the player.
    let redirection = match redirection_transformation(
        scripts,
        case_output_mapping,
        output,
        one_html_file,
    ) {
        Ok(list) => list,
        Err(e) => {
            return Err(e);
        },
    };
    append_transformations(&mut out, redirection);
    Ok(out)
}

/// The edits of `list` before `upto` that are for `target`.
pub open spec fn edits_for(list: Seq<PlayerTransformationV>, target: TransformationTarget, upto: int) -> Seq<
    (usize, usize, Seq<char>),
>
    decreases upto,
{
    if upto <= 0 {
        Seq::empty()
    } else {
        let before = edits_for(list, target, upto - 1);
        if list[upto - 1].target == target {
            before.push((list[upto - 1].start, list[upto - 1].end, list[upto - 1].replacement))
        } else {
            before
        }
    }
}

fn edits_of(list: &Vec<PlayerTransformation>, target: TransformationTarget) -> (r: Vec<Edit>)
    ensures
        crate::transform::edit_views(r@) == edits_for(
            transformation_views(list@),
            target,
            list@.len() as int,
        ),
{
    let ghost views = transformation_views(list@);
    let mut out: Vec<Edit> = Vec::new();
    let mut i: usize = 0;
    assert(crate::transform::edit_views(out@) =~= Seq::empty());
    while i < list.len()
        invariant
            i <= list@.len(),
            views == transformation_views(list@),
            crate::transform::edit_views(out@) == edits_for(views, target, i as int),
        decreases list.len() - i,
    {
        assert(views[i as int] == list@[i as int]@);
        if list[i].target == target {
            let ghost before = crate::transform::edit_views(out@);
            out.push(Edit::new(list[i].start, list[i].end, list[i].replacement.clone()));
            assert(crate::transform::edit_views(out@) =~= before.push(
                (list@[i as int].start, list@[i as int].end, list@[i as int].replacement@),
            ));
        }
        i += 1;
    }
    out
}

/// Applies the transformations of `list` to the page of the player and to its scripts:
/// to each the edits that are for it, from its end towards its start. Where the edits
/// do not fit the one or the other, neither is changed.
pub fn apply_transformations(player: &mut String, scripts: &mut String, list: &Vec<PlayerTransformation>) -> (r:
    bool)
    ensures
        r == (applicable(
            encode_utf8(old(player)@),
            crate::transform::plan_splices(
                edits_for(
                    transformation_views(list@),
                    TransformationTarget::Player,
                    list@.len() as int,
                ),
            ),
        ) && applicable(
            encode_utf8(old(scripts)@),
            crate::transform::plan_splices(
                edits_for(
                    transformation_views(list@),
                    TransformationTarget::Scripts,
                    list@.len() as int,
                ),
            ),
        )),
        r ==> encode_utf8(final(player)@) == edited(
            encode_utf8(old(player)@),
            crate::transform::plan_splices(
                edits_for(
                    transformation_views(list@),
                    TransformationTarget::Player,
                    list@.len() as int,
                ),
            ),
        ) && encode_utf8(final(scripts)@) == edited(
            encode_utf8(old(scripts)@),
            crate::transform::plan_splices(
                edits_for(
                    transformation_views(list@),
                    TransformationTarget::Scripts,
                    list@.len() as int,
                ),
            ),
        ),
        !r ==> final(player)@ == old(player)@ && final(scripts)@ == old(scripts)@,
{
    let player_edits = edits_of(list, TransformationTarget::Player);
    let scripts_edits = edits_of(list, TransformationTarget::Scripts);
    assert(splices(player_edits@) =~= crate::transform::plan_splices(
        crate::transform::edit_views(player_edits@),
    ));
    assert(splices(scripts_edits@) =~= crate::transform::plan_splices(
        crate::transform::edit_views(scripts_edits@),
    ));
    if can_apply(player.as_str(), &player_edits) && can_apply(scripts.as_str(), &scripts_edits) {
        apply(player, &player_edits);
        apply(scripts, &scripts_edits);
        true
    } else {
        false
    }
}

/// What the page of the player asks to fetch once the style sheets stand in it: the
/// sources that they name.
pub open spec fn css_source_plan(player: Seq<char>) -> Result<Seq<FetchV>, MiscError> {
    match regex_found(CSS_SRC_REGEX@, player) {
        Some(found) => fetches_wanted(
            FetchKind::CssSource,
            player,
            Seq::empty(),
            captures_in(found, TransformationTarget::Player),
        ),
        None => Err(MiscError::BadPattern),
    }
}

/// Plans what the page of the player asks to fetch once the style sheets stand in it.
/// This needs to be done after the style sheets are put in, because what they name is
/// replaced in the page itself.
pub fn plan_css_sources(player: &str) -> (r: Result<Vec<Fetch>, MiscError>)
    ensures
        match (r, css_source_plan(player@)) {
            (Ok(list), Ok(owed)) => fetch_views(list@) == owed,
            (Err(e), Err(owed)) => e == owed,
            _ => false,
        },
{
    let found = match captures_all(CSS_SRC_REGEX, player) {
        Some(f) => f,
        None => {
            return Err(MiscError::BadPattern);
        },
    };
    let mut captures: Vec<Capture> = Vec::new();
    assert(capture_views(captures@) =~= Seq::empty());
    push_captures(&mut captures, found, TransformationTarget::Player);
    assert(capture_views(captures@) =~= captures_in(
        groups_of(found@),
        TransformationTarget::Player,
    ));
    let empty = String::new();
    fetches_for(FetchKind::CssSource, player, empty.as_str(), &captures)
}

/// The transformations that put the sources that style sheets name into the page, each
/// as a data URL.
pub fn css_source_transformations(fetches: &Vec<Fetch>, results: &Vec<Option<Download>>) -> (r:
    Result<Vec<PlayerTransformation>, MiscError>)
    ensures
        match (
            r,
            kind_edits(
                FetchKind::CssSource,
                fetch_views(fetches@),
                got_all(results@),
                Setting {
                    head: None,
                    preload: None,
                    one_html_file: false,
                    disable_html5_audio: false,
                },
            ),
        ) {
            (Ok(list), Ok(owed)) => transformation_views(list@) == owed,
            (Err(e), Err(owed)) => e == owed,
            _ => false,
        },
{
    edits_for_kind(FetchKind::CssSource, fetches, results, None, None, false, false)
}

} // verus!

//! What the player needs from elsewhere besides its modules: style sheets, the texts of
//! its language, images, and the script for sound. Each is fetched and put into the page
//! or the script, and what the player would fetch while it runs is made to stay at
//! home.

use crate::json::texts_of;
use crate::modules::BITBUCKET_URL;
use crate::outside::{captures_all, groups_of, json_read, read_json, regex_found};
use crate::patterns::{
    find_first, first_found, group_text, span, span_of, text_of_group, CSS_REGEX, HOWLER_REGEX,
    LANGUAGE_INCLUDE_REGEX, SRC_REGEX, STYLE_INCLUDE_REGEX,
};
use crate::seqs::{gathered, lemma_gathered_fails};
use crate::text::{
    begins_with, concat, concat3, decimal, ends_with, finishes_with, push_decimal,
    push_signed_decimal, replace_all, replaced, signed_decimal, starts_with, string_views,
};
use vstd::prelude::*;

verus! {

/// The target of a transformation.
#[derive(Debug, Clone, Copy, PartialEq, Eq, Structural)]
pub enum TransformationTarget {
    /// The case player itself.
    Player,
    /// The JavaScript scripts/modules for the player.
    Scripts,
}

/// A transformation to be applied to the player or its scripts.
#[derive(Debug)]
pub struct PlayerTransformation {
    /// The target of the transformation.
    pub target: TransformationTarget,
    /// The start of the range that shall be replaced by the replacement.
    pub start: usize,
    /// The end of that range.
    pub end: usize,
    /// The replacement text for the range.
    pub replacement: String,
}

/// What a [`PlayerTransformation`] holds.
pub struct PlayerTransformationV {
    pub target: TransformationTarget,
    pub start: usize,
    pub end: usize,
    pub replacement: Seq<char>,
}

impl View for PlayerTransformation {
    type V = PlayerTransformationV;

    open spec fn view(&self) -> PlayerTransformationV {
        PlayerTransformationV {
            target: self.target,
            start: self.start,
            end: self.end,
            replacement: self.replacement@,
        }
    }
}

impl PlayerTransformation {
    /// Initializes a new transformation with the given `target`, `range`, and
    /// `replacement`.
    pub fn new(target: TransformationTarget, range: (usize, usize), replacement: String) -> (r:
        PlayerTransformation)
        ensures
            r@ == (PlayerTransformationV {
                target,
                start: range.0,
                end: range.1,
                replacement: replacement@,
            }),
    {
        PlayerTransformation { target, start: range.0, end: range.1, replacement }
    }
}

/// What the transformations of `list` hold.
pub open spec fn transformation_views(list: Seq<PlayerTransformation>) -> Seq<
    PlayerTransformationV,
> {
    Seq::new(list.len(), |i: int| list[i]@)
}

/// A match of a pattern, in the page of the player or in its scripts.
#[derive(Debug)]
pub struct Capture {
    /// Where the match was found.
    pub target: TransformationTarget,
    /// The groups of the match, the whole match first.
    pub groups: Vec<Option<(usize, usize)>>,
}

/// What a [`Capture`] holds.
pub struct CaptureV {
    pub target: TransformationTarget,
    pub groups: Seq<Option<(usize, usize)>>,
}

impl View for Capture {
    type V = CaptureV;

    open spec fn view(&self) -> CaptureV {
        CaptureV { target: self.target, groups: self.groups@ }
    }
}

/// What the captures of `list` hold.
pub open spec fn capture_views(list: Seq<Capture>) -> Seq<CaptureV> {
    Seq::new(list.len(), |i: int| list[i]@)
}

/// The matches `found`, as matches in `target`.
pub open spec fn captures_in(
    found: Seq<Seq<Option<(usize, usize)>>>,
    target: TransformationTarget,
) -> Seq<CaptureV> {
    Seq::new(found.len(), |i: int| CaptureV { target, groups: found[i] })
}

/// The matches of `pattern` in the player and in the scripts: those in the player
/// first.
pub open spec fn found_in_both(pattern: Seq<char>, player: Seq<char>, scripts: Seq<char>) -> Option<
    Seq<CaptureV>,
> {
    match (regex_found(pattern, player), regex_found(pattern, scripts)) {
        (Some(a), Some(b)) => Some(
            captures_in(a, TransformationTarget::Player) + captures_in(
                b,
                TransformationTarget::Scripts,
            ),
        ),
        _ => None,
    }
}

/// Puts the matches `found`, as matches in `target`, behind the captures of `out`.
pub(crate) fn push_captures(out: &mut Vec<Capture>, found: Vec<Vec<Option<(usize, usize)>>>, target: TransformationTarget)
    ensures
        capture_views(final(out)@) == capture_views(old(out)@) + captures_in(
            groups_of(found@),
            target,
        ),
{
    let ghost before = capture_views(out@);
    let ghost all = groups_of(found@);
    let mut queue = found;
    let ghost mut done: int = 0;
    assert(capture_views(out@) =~= before + captures_in(all, target).take(0));
    while queue.len() > 0
        invariant
            0 <= done <= all.len(),
            done + queue@.len() == all.len(),
            groups_of(queue@) == all.skip(done),
            capture_views(out@) == before + captures_in(all, target).take(done),
        decreases queue@.len(),
    {
        let ghost rest = groups_of(queue@);
        let groups = queue.remove(0);
        assert(rest[0] == groups@);
        assert(groups_of(queue@) =~= rest.drop_first());
        assert(rest.drop_first() =~= all.skip(done + 1));
        let ghost views = capture_views(out@);
        out.push(Capture { target, groups });
        assert(capture_views(out@) =~= views.push(CaptureV { target, groups: all[done] }));
        assert(captures_in(all, target).take(done + 1) =~= captures_in(all, target).take(
            done,
        ).push(CaptureV { target, groups: all[done] }));
        proof {
            done = done + 1;
        }
    }
    assert(captures_in(all, target).take(all.len() as int) =~= captures_in(all, target));
}

/// Applies the given `pattern` to both the `player` and the `scripts` and returns a list
/// of the targets it was found in and the matches.
pub fn regex_for_both(pattern: &str, player: &str, scripts: &str) -> (r: Option<Vec<Capture>>)
    ensures
        match r {
            Some(list) => found_in_both(pattern@, player@, scripts@) == Some(capture_views(list@)),
            None => found_in_both(pattern@, player@, scripts@) is None,
        },
{
    let in_player = match captures_all(pattern, player) {
        Some(f) => f,
        None => {
            return None;
        },
    };
    let in_scripts = match captures_all(pattern, scripts) {
        Some(f) => f,
        None => {
            return None;
        },
    };
    let mut out: Vec<Capture> = Vec::new();
    assert(capture_views(out@) =~= Seq::empty());
    push_captures(&mut out, in_player, TransformationTarget::Player);
    push_captures(&mut out, in_scripts, TransformationTarget::Scripts);
    assert(capture_views(out@) =~= captures_in(groups_of(in_player@), TransformationTarget::Player)
        + captures_in(groups_of(in_scripts@), TransformationTarget::Scripts));
    Some(out)
}

/// The script that answers for the address of a voice: the local address of each voice
/// that was downloaded, and an empty sound for any other.
pub open spec fn voice_js(urls: Seq<((u64, Seq<char>), Seq<char>)>, upto: int) -> Seq<char>
    decreases upto,
{
    if upto <= 0 {
        Seq::empty()
    } else {
        let ((id, ext), url) = urls[upto - 1];
        voice_js(urls, upto - 1) + "if (-voice_id === "@ + decimal(id as nat) + " && ext === '"@
            + ext + "') return '"@ + url + "';\n"@
    }
}

/// The script that answers for the address of a voice.
pub fn make_voice_js(urls: &Vec<((u64, String), String)>) -> (r: String)
    ensures
        r@ == voice_js(crate::site::voice_views(urls@), urls@.len() as int)
            + "return 'data:audio/wav;base64,'"@,
{
    let ghost views = crate::site::voice_views(urls@);
    let mut js = String::new();
    let mut i: usize = 0;
    while i < urls.len()
        invariant
            i <= urls@.len(),
            views == crate::site::voice_views(urls@),
            js@ == voice_js(views, i as int),
        decreases urls.len() - i,
    {
        assert(views[i as int] == ((urls@[i as int].0.0, urls@[i as int].0.1@), urls@[i as int].1@));
        js.append("if (-voice_id === ");
        push_decimal(&mut js, urls[i].0.0);
        js.append(" && ext === '");
        js.append(urls[i].0.1.as_str());
        js.append("') return '");
        js.append(urls[i].1.as_str());
        js.append("';\n");
        i += 1;
    }
    // Just return an empty audio URL otherwise.
    js.append("return 'data:audio/wav;base64,'");
    js
}

/// The script that answers for the address of a default sprite: the local address of
/// each sprite that was downloaded, and an empty image for any other.
pub open spec fn sprite_js(urls: Seq<((Seq<char>, i64, Seq<char>), Seq<char>)>, upto: int) -> Seq<
    char,
>
    decreases upto,
{
    if upto <= 0 {
        Seq::empty()
    } else {
        let ((base, id, status), url) = urls[upto - 1];
        sprite_js(urls, upto - 1) + "if (base === '"@ + base + "' && sprite_id === "@
            + signed_decimal(id as int) + " && status === '"@ + status + "') return '"@ + url
            + "';\n"@
    }
}

/// The script that answers for the address of a default sprite.
pub fn make_sprite_js(urls: &Vec<((String, i64, String), String)>) -> (r: String)
    ensures
        r@ == sprite_js(crate::site::sprite_views(urls@), urls@.len() as int)
            + "return 'data:image/gif;base64,'"@,
{
    let ghost views = crate::site::sprite_views(urls@);
    let mut js = String::new();
    let mut i: usize = 0;
    while i < urls.len()
        invariant
            i <= urls@.len(),
            views == crate::site::sprite_views(urls@),
            js@ == sprite_js(views, i as int),
        decreases urls.len() - i,
    {
        assert(views[i as int] == (
            (urls@[i as int].0.0@, urls@[i as int].0.1, urls@[i as int].0.2@),
            urls@[i as int].1@,
        ));
        js.append("if (base === '");
        js.append(urls[i].0.0.as_str());
        js.append("' && sprite_id === ");
        push_signed_decimal(&mut js, urls[i].0.1);
        js.append(" && status === '");
        js.append(urls[i].0.2.as_str());
        js.append("') return '");
        js.append(urls[i].1.as_str());
        js.append("';\n");
        i += 1;
    }
    js.append("return 'data:image/gif;base64,'");
    js
}

/// What stands for the address of a psyche-lock image: with files, the copy of the
/// animation that goes with the lock; in a single file, the data URL of the animation,
/// made one of its own for each lock by the ID of the lock that is put behind its MIME
/// type, or nothing where the case shows no locks.
pub open spec fn lock_address(
    name: Seq<char>,
    lock_id: Seq<char>,
    one_html_file: bool,
    data_url: Option<Seq<char>>,
) -> Seq<char> {
    if one_html_file {
        match data_url {
            Some(url) => "'"@ + replaced(url, ";"@, "'"@ + lock_id + " + ';"@) + "'"@,
            None => Seq::empty(),
        }
    } else {
        "'assets/"@ + name + "_'"@ + lock_id + " + '.gif'"@
    }
}

/// What stands for the address of a psyche-lock image.
pub fn make_lock_address(name: &str, lock_id: &str, one_html_file: bool, data_url: Option<&str>) -> (r:
    String)
    ensures
        r@ == lock_address(
            name@,
            lock_id@,
            one_html_file,
            match data_url {
                Some(u) => Some(u@),
                None => None,
            },
        ),
{
    if one_html_file {
        match data_url {
            Some(url) => {
                let mut with = concat("'", lock_id);
                with.append(" + ';");
                let mut out = "'".to_owned();
                out.append(replace_all(url, ";", with.as_str()).as_str());
                out.append("'");
                out
            },
            // Case doesn't use any psyche-locks, this doesn't matter.
            None => String::new(),
        }
    } else {
        let mut out = concat("'assets/", name);
        out.append("_'");
        out.append(lock_id);
        out.append(" + '.gif'");
        out
    }
}

/// Why the sources of the player could not be put in place.
#[derive(Debug, Clone, Copy, PartialEq, Eq, Structural)]
pub enum MiscError {
    /// A pattern is no regular expression.
    BadPattern,
    /// A match lacks a group that it should have.
    BadGroup,
    /// The scripts do not ask for the files of a language as they are known to.
    NoLanguageInclude,
    /// The list of the files of a language cannot be read.
    BadLanguageList,
    /// A file of the language could not be downloaded.
    LanguageMissing,
    /// A file of the language cannot be read.
    BadLanguageFile,
    /// The scripts do not define the language as they are known to.
    NoLanguageDefinition,
    /// What was downloaded is no text.
    NotText,
    /// The page of the player has no head.
    NoHead,
    /// The scripts do not set the option to preload sounds.
    NoPreload,
    /// The file of a case does not lie below the output directory.
    OutputMismatch,
    /// The texts of the language cannot be written.
    Unwritable,
    /// There is not one download for each file that was asked for.
    ResultsMismatch,
    /// The edits do not fit the page or the scripts.
    NotApplicable,
}

/// What a file is fetched for.
#[derive(Debug, Clone, Copy, PartialEq, Eq, Structural)]
pub enum FetchKind {
    /// A style sheet that the page links to.
    Css,
    /// A style sheet that a script includes.
    Style,
    /// A file of the texts of the language.
    Language,
    /// An image or another source that the page or a script names.
    Source,
    /// The script for sound.
    Howler,
    /// A source that a style sheet names.
    CssSource,
}

/// A file that is to be fetched for the player.
#[derive(Debug)]
pub struct Fetch {
    /// What the file is fetched for.
    pub kind: FetchKind,
    /// The address of the file.
    pub url: String,
    /// Where the match stands that asks for the file.
    pub target: TransformationTarget,
    /// The start of the range that the file is put into.
    pub start: usize,
    /// The end of that range.
    pub end: usize,
    /// What goes with the file: the name of a file of the language, and the
    /// configuration of the script for sound.
    pub note: String,
}

/// What a [`Fetch`] holds.
pub struct FetchV {
    pub kind: FetchKind,
    pub url: Seq<char>,
    pub target: TransformationTarget,
    pub start: usize,
    pub end: usize,
    pub note: Seq<char>,
}

impl View for Fetch {
    type V = FetchV;

    open spec fn view(&self) -> FetchV {
        FetchV {
            kind: self.kind,
            url: self.url@,
            target: self.target,
            start: self.start,
            end: self.end,
            note: self.note@,
        }
    }
}

/// What the fetches of `list` hold.
pub open spec fn fetch_views(list: Seq<Fetch>) -> Seq<FetchV> {
    Seq::new(list.len(), |i: int| list[i]@)
}

/// The text in which a match stands: the page of the player, or its scripts.
pub open spec fn text_in(target: TransformationTarget, player: Seq<char>, scripts: Seq<char>) -> Seq<
    char,
> {
    match target {
        TransformationTarget::Player => player,
        TransformationTarget::Scripts => scripts,
    }
}

fn source_of<'a>(target: TransformationTarget, player: &'a str, scripts: &'a str) -> (r: &'a str)
    ensures
        r@ == text_in(target, player@, scripts@),
{
    match target {
        TransformationTarget::Player => player,
        TransformationTarget::Scripts => scripts,
    }
}

/// The address that a fetch of kind `kind` goes to, which the match names as `named`:
/// the style sheet that a script includes lies in `CSS/` and ends in `.css`, and the
/// source that a style sheet names lies in `CSS/`.
pub open spec fn fetch_url(kind: FetchKind, named: Seq<char>) -> Seq<char> {
    match kind {
        FetchKind::Style => "CSS/"@ + named + ".css"@,
        FetchKind::CssSource => "CSS/"@ + named,
        _ => named,
    }
}

/// The group of a match that names the file to fetch: the first group, and for a
/// source the second where the first took no part.
pub open spec fn naming_group(kind: FetchKind, groups: Seq<Option<(usize, usize)>>) -> int {
    if kind == FetchKind::Source && span_of(groups, 1) is None {
        2
    } else {
        1
    }
}

/// Whether a file that a match names is passed over: a source that is a data URL
/// already, and a source of a style sheet that is the tick, which is commented out.
pub open spec fn passed_over(kind: FetchKind, named: Seq<char>) -> bool {
    (kind == FetchKind::Source && begins_with(named, "data:"@)) || (kind == FetchKind::CssSource
        && finishes_with(named, "/tick.png"@))
}

/// The range of a match that a fetched file is put into: the whole match for a style
/// sheet, and the group that names the file for anything else.
pub open spec fn fetch_range(kind: FetchKind, groups: Seq<Option<(usize, usize)>>) -> Option<
    (usize, usize),
> {
    if kind == FetchKind::Css || kind == FetchKind::Style {
        span_of(groups, 0)
    } else {
        span_of(groups, naming_group(kind, groups))
    }
}

/// What the match `c` asks to fetch, where matches of its pattern ask for files of kind
/// `kind`.
pub open spec fn fetch_wanted(
    kind: FetchKind,
    player: Seq<char>,
    scripts: Seq<char>,
    c: CaptureV,
    at: int,
) -> Result<Seq<FetchV>, MiscError> {
    match (
        fetch_range(kind, c.groups),
        group_text(text_in(c.target, player, scripts), c.groups, naming_group(kind, c.groups)),
    ) {
        (Some((start, end)), Some(named)) => if passed_over(kind, named) {
            Ok(Seq::empty())
        } else {
            Ok(
                seq![
                    FetchV {
                        kind,
                        url: fetch_url(kind, named),
                        target: c.target,
                        start,
                        end,
                        note: Seq::empty(),
                    },
                ],
            )
        },
        _ => Err(MiscError::BadGroup),
    }
}

/// What the matches `captures` ask to fetch.
pub open spec fn fetches_wanted(
    kind: FetchKind,
    player: Seq<char>,
    scripts: Seq<char>,
    captures: Seq<CaptureV>,
) -> Result<Seq<FetchV>, MiscError> {
    gathered(
        captures,
        |c: CaptureV, i: int| fetch_wanted(kind, player, scripts, c, i),
        captures.len() as int,
    )
}

/// Appends the fetches of `more` to `out`.
fn append_fetches(out: &mut Vec<Fetch>, more: Vec<Fetch>)
    ensures
        fetch_views(final(out)@) == fetch_views(old(out)@) + fetch_views(more@),
{
    let mut more = more;
    let ghost added = more@;
    out.append(&mut more);
    assert(fetch_views(out@) =~= fetch_views(old(out)@) + fetch_views(added));
}

/// The fetches that the matches `captures` ask for.
pub fn fetches_for(kind: FetchKind, player: &str, scripts: &str, captures: &Vec<Capture>) -> (r:
    Result<Vec<Fetch>, MiscError>)
    ensures
        match (r, fetches_wanted(kind, player@, scripts@, capture_views(captures@))) {
            (Ok(list), Ok(owed)) => fetch_views(list@) == owed,
            (Err(e), Err(owed)) => e == owed,
            _ => false,
        },
{
    let ghost views = capture_views(captures@);
    let ghost each = |c: CaptureV, i: int| fetch_wanted(kind, player@, scripts@, c, i);
    let mut out: Vec<Fetch> = Vec::new();
    let mut i: usize = 0;
    assert(fetch_views(out@) =~= Seq::<FetchV>::empty());
    while i < captures.len()
        invariant
            i <= captures@.len(),
            views == capture_views(captures@),
            each == |c: CaptureV, i: int| fetch_wanted(kind, player@, scripts@, c, i),
            gathered(views, each, i as int) == Ok::<_, MiscError>(fetch_views(out@)),
        decreases captures.len() - i,
    {
        let capture = &captures[i];
        assert(views[i as int] == capture@);
        let text = source_of(capture.target, player, scripts);
        let source_kind = match kind {
            FetchKind::Source => true,
            _ => false,
        };
        let sheet = match kind {
            FetchKind::Css => true,
            FetchKind::Style => true,
            _ => false,
        };
        let naming: usize = if source_kind && span(&capture.groups, 1).is_none() {
            2
        } else {
            1
        };
        let range = if sheet {
            span(&capture.groups, 0)
        } else {
            span(&capture.groups, naming)
        };
        match (range, text_of_group(text, &capture.groups, naming)) {
            (Some((start, end)), Some(named)) => {
                let skip = match kind {
                    FetchKind::Source => starts_with(named, "data:"),
                    FetchKind::CssSource => ends_with(named, "/tick.png"),
                    _ => false,
                };
                if !skip {
                    let url = match kind {
                        FetchKind::Style => concat3("CSS/", named, ".css"),
                        FetchKind::CssSource => concat("CSS/", named),
                        _ => named.to_owned(),
                    };
                    let fetch = Fetch {
                        kind,
                        url,
                        target: capture.target,
                        start,
                        end,
                        note: String::new(),
                    };
                    let ghost before = fetch_views(out@);
                    out.push(fetch);
                    assert(fetch_views(out@) =~= before + seq![fetch@]);
                } else {
                    assert(fetch_views(out@) + Seq::<FetchV>::empty() =~= fetch_views(out@));
                }
            },
            _ => {
                assert(gathered(views, each, i + 1) is Err);
                proof {
                    lemma_gathered_fails(views, each, i + 1, captures@.len() as int);
                }
                return Err(MiscError::BadGroup);
            },
        }
        i += 1;
    }
    Ok(out)
}

/// The address of the file `file` of the texts of the language `language`.
pub open spec fn language_url(lang_dir: Seq<char>, language: Seq<char>, file: Seq<char>) -> Seq<
    char,
> {
    lang_dir + "/"@ + language + "/"@ + file + ".js"@
}

/// The fetches for the files `files` of the language before `upto`.
pub open spec fn language_fetches(
    lang_dir: Seq<char>,
    language: Seq<char>,
    files: Seq<Seq<char>>,
    upto: int,
) -> Seq<FetchV>
    decreases upto,
{
    if upto <= 0 {
        Seq::empty()
    } else {
        language_fetches(lang_dir, language, files, upto - 1).push(
            FetchV {
                kind: FetchKind::Language,
                url: language_url(lang_dir, language, files[upto - 1]),
                target: TransformationTarget::Scripts,
                start: 0,
                end: 0,
                note: files[upto - 1],
            },
        )
    }
}

/// The names of the files of the language that the scripts ask for: the list that the
/// first request for them holds, read as an array of names.
pub open spec fn language_files(scripts: Seq<char>) -> Result<Seq<Seq<char>>, MiscError> {
    match first_found(LANGUAGE_INCLUDE_REGEX@, scripts) {
        Some(groups) => match group_text(scripts, groups, 1) {
            Some(list) => match json_read("["@ + replaced(list, "'"@, "\""@) + "]"@) {
                Some(value) => match texts_of(value) {
                    Some(files) => Ok(files),
                    None => Err(MiscError::BadLanguageList),
                },
                None => Err(MiscError::BadLanguageList),
            },
            None => Err(MiscError::BadGroup),
        },
        None => Err(MiscError::NoLanguageInclude),
    }
}

/// Reads the names of the files of the language that the scripts ask for.
pub fn read_language_files(scripts: &str) -> (r: Result<Vec<String>, MiscError>)
    ensures
        match (r, language_files(scripts@)) {
            (Ok(files), Ok(owed)) => string_views(files@) == owed,
            (Err(e), Err(owed)) => e == owed,
            _ => false,
        },
{
    let groups = match find_first(LANGUAGE_INCLUDE_REGEX, scripts) {
        Some(g) => g,
        None => {
            return Err(MiscError::NoLanguageInclude);
        },
    };
    let list = match text_of_group(scripts, &groups, 1) {
        Some(l) => l,
        None => {
            return Err(MiscError::BadGroup);
        },
    };
    let mut array = "[".to_owned();
    array.append(replace_all(list, "'", "\"").as_str());
    array.append("]");
    let value = match read_json(array.as_str()) {
        Some(v) => v,
        None => {
            return Err(MiscError::BadLanguageList);
        },
    };
    match value.strings() {
        Some(files) => Ok(files),
        None => Err(MiscError::BadLanguageList),
    }
}

/// The fetch for the script for sound, where the scripts include it: its address in the
/// version `player_version` of the player, to be put in place of the whole inclusion,
/// with the configuration that the inclusion holds.
pub open spec fn howler_fetch(scripts: Seq<char>, player_version: Seq<char>) -> Result<
    Seq<FetchV>,
    MiscError,
> {
    match first_found(HOWLER_REGEX@, scripts) {
        Some(groups) => match (span_of(groups, 0), group_text(scripts, groups, 1)) {
            (Some((start, end)), Some(configuration)) => Ok(
                seq![
                    FetchV {
                        kind: FetchKind::Howler,
                        url: BITBUCKET_URL@ + "/"@ + player_version
                            + "/Javascript/howler.js/howler.min.js"@,
                        target: TransformationTarget::Scripts,
                        start,
                        end,
                        note: configuration,
                    },
                ],
            ),
            _ => Err(MiscError::BadGroup),
        },
        None => Ok(Seq::empty()),
    }
}

/// What is fetched for the player before its page and scripts are edited: the style
/// sheets that the page links to, those that scripts include, the files of the
/// language, the sources that are named, and the script for sound.
pub open spec fn fetch_plan(
    player: Seq<char>,
    scripts: Seq<char>,
    lang_dir: Seq<char>,
    language: Seq<char>,
    player_version: Seq<char>,
) -> Result<Seq<FetchV>, MiscError> {
    match (
        found_in_both(CSS_REGEX@, player, scripts),
        found_in_both(STYLE_INCLUDE_REGEX@, player, scripts),
        found_in_both(SRC_REGEX@, player, scripts),
    ) {
        (Some(css), Some(style), Some(src)) => match fetches_wanted(
            FetchKind::Css,
            player,
            scripts,
            css,
        ) {
            Ok(a) => match fetches_wanted(FetchKind::Style, player, scripts, style) {
                Ok(b) => match language_files(scripts) {
                    Ok(files) => match fetches_wanted(FetchKind::Source, player, scripts, src) {
                        Ok(d) => match howler_fetch(scripts, player_version) {
                            Ok(e) => Ok(
                                a + b + language_fetches(
                                    lang_dir,
                                    language,
                                    files,
                                    files.len() as int,
                                ) + d + e,
                            ),
                            Err(e) => Err(e),
                        },
                        Err(e) => Err(e),
                    },
                    Err(e) => Err(e),
                },
                Err(e) => Err(e),
            },
            Err(e) => Err(e),
        },
        _ => Err(MiscError::BadPattern),
    }
}

/// Plans what is fetched for the player before its page and scripts are edited.
pub fn plan_fetches(player: &str, scripts: &str, lang_dir: &str, language: &str, player_version: &str) -> (r:
    Result<Vec<Fetch>, MiscError>)
    ensures
        match (r, fetch_plan(player@, scripts@, lang_dir@, language@, player_version@)) {
            (Ok(list), Ok(owed)) => fetch_views(list@) == owed,
            (Err(e), Err(owed)) => e == owed,
            _ => false,
        },
{
    let css = match regex_for_both(CSS_REGEX, player, scripts) {
        Some(c) => c,
        None => {
            return Err(MiscError::BadPattern);
        },
    };
    let style = match regex_for_both(STYLE_INCLUDE_REGEX, player, scripts) {
        Some(c) => c,
        None => {
            return Err(MiscError::BadPattern);
        },
    };
    let src = match regex_for_both(SRC_REGEX, player, scripts) {
        Some(c) => c,
        None => {
            return Err(MiscError::BadPattern);
        },
    };
    let mut out = match fetches_for(FetchKind::Css, player, scripts, &css) {
        Ok(list) => list,
        Err(e) => {
            return Err(e);
        },
    };
    let ghost a = fetch_views(out@);
    let styles = match fetches_for(FetchKind::Style, player, scripts, &style) {
        Ok(list) => list,
        Err(e) => {
            return Err(e);
        },
    };
    let ghost b = fetch_views(styles@);
    append_fetches(&mut out, styles);
    // Additionally, we need to download the language data.
    let files = match read_language_files(scripts) {
        Ok(f) => f,
        Err(e) => {
            return Err(e);
        },
    };
    let ghost names = string_views(files@);
    let ghost before = fetch_views(out@);
    let mut i: usize = 0;
    assert(fetch_views(out@) =~= before + language_fetches(lang_dir@, language@, names, 0));
    while i < files.len()
        invariant
            i <= files@.len(),
            names == string_views(files@),
            fetch_views(out@) == before + language_fetches(lang_dir@, language@, names, i as int),
        decreases files.len() - i,
    {
        let mut url = concat(lang_dir, "/");
        url.append(language);
        url.append("/");
        url.append(files[i].as_str());
        url.append(".js");
        let fetch = Fetch {
            kind: FetchKind::Language,
            url,
            target: TransformationTarget::Scripts,
            start: 0,
            end: 0,
            note: files[i].clone(),
        };
        let ghost views = fetch_views(out@);
        out.push(fetch);
        assert(fetch_views(out@) =~= views.push(fetch@));
        assert(fetch_views(out@) =~= before + language_fetches(lang_dir@, language@, names, i + 1));
        i += 1;
    }
    let ghost c = language_fetches(lang_dir@, language@, names, names.len() as int);
    // We download any sources present in the JavaScript or CSS.
    let sources = match fetches_for(FetchKind::Source, player, scripts, &src) {
        Ok(list) => list,
        Err(e) => {
            return Err(e);
        },
    };
    let ghost d = fetch_views(sources@);
    append_fetches(&mut out, sources);
    // We need howler.js for sound effects.
    match find_first(HOWLER_REGEX, scripts) {
        Some(groups) => match (span(&groups, 0), text_of_group(scripts, &groups, 1)) {
            (Some((start, end)), Some(configuration)) => {
                let mut url = concat(BITBUCKET_URL, "/");
                url.append(player_version);
                url.append("/Javascript/howler.js/howler.min.js");
                let fetch = Fetch {
                    kind: FetchKind::Howler,
                    url,
                    target: TransformationTarget::Scripts,
                    start,
                    end,
                    note: configuration.to_owned(),
                };
                let ghost views = fetch_views(out@);
                out.push(fetch);
                assert(fetch_views(out@) =~= a + b + c + d + seq![fetch@]);
            },
            _ => {
                return Err(MiscError::BadGroup);
            },
        },
        None => {
            assert(fetch_views(out@) =~= a + b + c + d + Seq::<FetchV>::empty());
        },
    }
    Ok(out)
}

} // verus!

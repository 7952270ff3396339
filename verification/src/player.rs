//! The player: what is read from the pages of the site, and what is written into them.

use crate::edits::{applicable, edited, splices, try_apply, Edit};
use crate::json::{field_views, Json, JsonV};
use crate::outside::{
    captures_all, groups_of, json_read, json_written, read_json, regex_found, write_json,
};
use crate::patterns::{
    find_first, first_found, group_text, span, span_of, text_of_group, CONFIG_REGEX,
    DEFAULT_PLACES_REGEX, DEFAULT_PROFILES_STARTUP_REGEX, HTML_END_REGEX,
};
use crate::site::{place_views, DefaultData, DefaultDataV, SiteData, SitePaths};
use crate::text::{
    concat, concat3, join, joined, parse_i64, parse_i64_spec, replace_all, replaced, signed_decimal,
    signed_decimal_string, str_eq, string_views,
};
use crate::transform::plan_splices;
use vstd::prelude::*;
use vstd::utf8::encode_utf8;

verus! {

/// Why a value could not be read from a script of the site.
#[derive(Debug, Clone, Copy, PartialEq, Eq, Structural)]
pub enum ReadError {
    /// The script does not hold the value as it is known to: the site has changed.
    FormatChanged,
    /// The script holds the place of the value, and no value in it.
    RegexNotMatched,
    /// The value is no JSON.
    ParseFailed,
    /// The value is not laid out as it is known to be.
    Malformed,
}

/// `text` as it reads once the escapes of a JavaScript string are taken off it: those
/// of the backslash, of the two quotes and of the slash, in this order.
pub open spec fn unescaped_js(text: Seq<char>) -> Seq<char> {
    replaced(
        replaced(replaced(replaced(text, "\\\\"@, "\\"@), "\\\""@, "\""@), "\\'"@, "'"@),
        "\\/"@,
        "/"@,
    )
}

/// The JSON value that `pattern` finds in `text`: what its first group holds in its
/// first match, read without the escapes of a JavaScript string.
pub open spec fn escaped_json(pattern: Seq<char>, text: Seq<char>) -> Result<JsonV, ReadError> {
    match first_found(pattern, text) {
        Some(groups) => match group_text(text, groups, 1) {
            Some(held) => match json_read(unescaped_js(held)) {
                Some(value) => Ok(value),
                None => Err(ReadError::ParseFailed),
            },
            None => Err(ReadError::RegexNotMatched),
        },
        None => Err(ReadError::FormatChanged),
    }
}

/// Extracts a JSON value from the given `text` using the given `pattern`.
pub fn retrieve_escaped_json(pattern: &str, text: &str) -> (r: Result<Json, ReadError>)
    ensures
        match (r, escaped_json(pattern@, text@)) {
            (Ok(value), Ok(owed)) => value@ == owed,
            (Err(e), Err(owed)) => e == owed,
            _ => false,
        },
{
    let groups = match find_first(pattern, text) {
        Some(g) => g,
        None => {
            return Err(ReadError::FormatChanged);
        },
    };
    let held = match text_of_group(text, &groups, 1) {
        Some(h) => h,
        None => {
            return Err(ReadError::RegexNotMatched);
        },
    };
    let a = replace_all(held, "\\\\", "\\");
    let b = replace_all(a.as_str(), "\\\"", "\"");
    let c = replace_all(b.as_str(), "\\'", "'");
    let extracted = replace_all(c.as_str(), "\\/", "/");
    match read_json(extracted.as_str()) {
        Some(value) => Ok(value),
        None => Err(ReadError::ParseFailed),
    }
}

/// The names of the fields of `fields`, in their order.
pub open spec fn field_names(fields: Seq<(Seq<char>, JsonV)>) -> Seq<Seq<char>> {
    Seq::new(fields.len(), |i: int| fields[i].0)
}

/// The default places that the fields of `fields` before `upto` hold: each field is a
/// place, under the ID that its name writes; nothing where a name writes no ID.
pub open spec fn places_of_fields(fields: Seq<(Seq<char>, JsonV)>, upto: int) -> Option<
    Seq<(i64, JsonV)>,
>
    decreases upto,
{
    if upto <= 0 {
        Some(Seq::empty())
    } else {
        match (places_of_fields(fields, upto - 1), parse_i64_spec(fields[upto - 1].0)) {
            (Some(before), Some(id)) => Some(before.push((id, fields[upto - 1].1))),
            _ => None,
        }
    }
}

proof fn lemma_places_of_fields_fail(fields: Seq<(Seq<char>, JsonV)>, at: int, upto: int)
    requires
        at <= upto,
        places_of_fields(fields, at) is None,
    ensures
        places_of_fields(fields, upto) is None,
    decreases upto - at,
{
    if at < upto {
        lemma_places_of_fields_fail(fields, at, upto - 1);
    }
}

/// The default data that the module of the default data holds: the names of the
/// profiles that have a startup animation, and the default places.
pub open spec fn default_data_read(module: Seq<char>) -> Result<DefaultDataV, ReadError> {
    match escaped_json(DEFAULT_PROFILES_STARTUP_REGEX@, module) {
        Ok(startup) => match startup {
            JsonV::Object(names) => match escaped_json(DEFAULT_PLACES_REGEX@, module) {
                Ok(places) => match places {
                    JsonV::Object(fields) => match places_of_fields(fields, fields.len() as int) {
                        Some(list) => Ok(
                            DefaultDataV {
                                startup: field_names(names),
                                places: list,
                                voices: Seq::empty(),
                                sprites: Seq::empty(),
                                locks: Seq::empty(),
                            },
                        ),
                        None => Err(ReadError::Malformed),
                    },
                    _ => Err(ReadError::Malformed),
                },
                Err(e) => Err(e),
            },
            _ => Err(ReadError::Malformed),
        },
        Err(e) => Err(e),
    }
}

/// The default places as a JSON document: an object that holds each place under its
/// ID.
pub open spec fn places_json(places: Seq<(i64, JsonV)>) -> JsonV {
    JsonV::Object(Seq::new(places.len(), |i: int| (signed_decimal(places[i].0 as int), places[i].1)))
}

/// Why the default places could not be written into their module.
#[derive(Debug, Clone, Copy, PartialEq, Eq, Structural)]
pub enum WriteError {
    /// The default places cannot be written as JSON.
    Unwritable,
    /// The module does not hold the default places as it is known to.
    FormatChanged,
    /// What was found in the module is no range of it.
    NotApplicable,
}

/// The edit that writes the default places `places` into their module `module`.
pub open spec fn default_places_edit(places: Seq<(i64, JsonV)>, module: Seq<char>) -> Result<
    (usize, usize, Seq<char>),
    WriteError,
> {
    match json_written(places_json(places)) {
        Some(text) => match first_found(DEFAULT_PLACES_REGEX@, module) {
            Some(groups) => match span_of(groups, 0) {
                Some((start, end)) => Ok((start, end, "var default_places = "@ + text + ";"@)),
                None => Err(WriteError::FormatChanged),
            },
            None => Err(WriteError::FormatChanged),
        },
        None => Err(WriteError::Unwritable),
    }
}

impl DefaultData {
    /// Retrieves the default data from the given `module`.
    pub fn from_default_module(module: &str) -> (r: Result<DefaultData, ReadError>)
        ensures
            match (r, default_data_read(module@)) {
                (Ok(data), Ok(owed)) => data@ == owed,
                (Err(e), Err(owed)) => e == owed,
                _ => false,
            },
    {
        let startup_value = match retrieve_escaped_json(DEFAULT_PROFILES_STARTUP_REGEX, module) {
            Ok(v) => v,
            Err(e) => {
                return Err(e);
            },
        };
        let mut default_profiles_startup: Vec<String> = Vec::new();
        match startup_value {
            Json::Object(names) => {
                let ghost views = field_views(names@);
                let mut names = names;
                let ghost mut done: int = 0;
                assert(string_views(default_profiles_startup@) =~= field_names(views).take(0));
                while names.len() > 0
                    invariant
                        0 <= done <= views.len(),
                        done + names@.len() == views.len(),
                        field_views(names@) == views.skip(done),
                        string_views(default_profiles_startup@) == field_names(views).take(done),
                    decreases names@.len(),
                {
                    let ghost rest = field_views(names@);
                    let (name, _) = names.remove(0);
                    assert(rest[0].0 == name@);
                    assert(field_views(names@) =~= rest.drop_first());
                    assert(rest.drop_first() =~= views.skip(done + 1));
                    let ghost before = string_views(default_profiles_startup@);
                    default_profiles_startup.push(name);
                    assert(string_views(default_profiles_startup@) =~= before.push(views[done].0));
                    assert(field_names(views).take(done + 1) =~= field_names(views).take(done).push(
                        views[done].0,
                    ));
                    proof {
                        done = done + 1;
                    }
                }
                assert(field_names(views).take(views.len() as int) =~= field_names(views));
            },
            _ => {
                return Err(ReadError::Malformed);
            },
        }
        let places_value = match retrieve_escaped_json(DEFAULT_PLACES_REGEX, module) {
            Ok(v) => v,
            Err(e) => {
                return Err(e);
            },
        };
        let mut default_places: Vec<(i64, Json)> = Vec::new();
        match places_value {
            Json::Object(fields) => {
                let ghost views = field_views(fields@);
                let mut fields = fields;
                let ghost mut done: int = 0;
                assert(place_views(default_places@) =~= Seq::empty());
                while fields.len() > 0
                    invariant
                        0 <= done <= views.len(),
                        done + fields@.len() == views.len(),
                        field_views(fields@) == views.skip(done),
                        places_of_fields(views, done) == Some(place_views(default_places@)),
                        escaped_json(DEFAULT_PROFILES_STARTUP_REGEX@, module@) is Ok,
                        escaped_json(DEFAULT_PROFILES_STARTUP_REGEX@, module@)->Ok_0 is Object,
                        escaped_json(DEFAULT_PLACES_REGEX@, module@) == Ok::<_, ReadError>(
                            JsonV::Object(views),
                        ),
                    decreases fields@.len(),
                {
                    let ghost rest = field_views(fields@);
                    let (name, place) = fields.remove(0);
                    assert(rest[0] == (name@, place@));
                    assert(views[done] == rest[0]);
                    assert(field_views(fields@) =~= rest.drop_first());
                    assert(rest.drop_first() =~= views.skip(done + 1));
                    let id = match parse_i64(name.as_str()) {
                        Some(id) => id,
                        None => {
                            assert(places_of_fields(views, done + 1) is None);
                            proof {
                                lemma_places_of_fields_fail(views, done + 1, views.len() as int);
                            }
                            return Err(ReadError::Malformed);
                        },
                    };
                    let ghost before = place_views(default_places@);
                    default_places.push((id, place));
                    assert(place_views(default_places@) =~= before.push((id, views[done].1)));
                    proof {
                        done = done + 1;
                    }
                }
            },
            _ => {
                return Err(ReadError::Malformed);
            },
        }
        Ok(DefaultData::new(default_profiles_startup, default_places))
    }

    /// The default places as a JSON document.
    pub fn places_to_json(&self) -> (r: Json)
        ensures
            r@ == places_json(self@.places),
    {
        let mut fields: Vec<(String, Json)> = Vec::new();
        let mut i: usize = 0;
        while i < self.default_places.len()
            invariant
                i <= self.default_places@.len(),
                fields@.len() == i,
                forall|k: int|
                    0 <= k < i ==> (#[trigger] fields@[k]).0@ == signed_decimal(
                        self.default_places@[k].0 as int,
                    ) && fields@[k].1@ == self.default_places@[k].1@,
            decreases self.default_places.len() - i,
        {
            fields.push(
                (signed_decimal_string(self.default_places[i].0), self.default_places[i].1.duplicate()),
            );
            i += 1;
        }
        assert(field_views(fields@) =~= places_json(self@.places)->Object_0);
        Json::Object(fields)
    }

    /// Writes the default places to the given `module` as a JavaScript variable that is
    /// picked up by the player. A module that they cannot be written into stays as it
    /// is.
    pub fn write_default_module(&self, module: &mut String) -> (r: Result<(), WriteError>)
        ensures
            match default_places_edit(self@.places, old(module)@) {
                Ok(edit) => match r {
                    Ok(()) => applicable(encode_utf8(old(module)@), plan_splices(seq![edit]))
                        && encode_utf8(final(module)@) == edited(
                        encode_utf8(old(module)@),
                        plan_splices(seq![edit]),
                    ),
                    Err(e) => e == WriteError::NotApplicable && !applicable(
                        encode_utf8(old(module)@),
                        plan_splices(seq![edit]),
                    ) && final(module)@ == old(module)@,
                },
                Err(owed) => r == Err::<(), _>(owed) && final(module)@ == old(module)@,
            },
    {
        let default_places_text = match write_json(&self.places_to_json()) {
            Some(t) => t,
            None => {
                return Err(WriteError::Unwritable);
            },
        };
        let range = match find_first(DEFAULT_PLACES_REGEX, module.as_str()) {
            Some(groups) => match span(&groups, 0) {
                Some(range) => range,
                None => {
                    return Err(WriteError::FormatChanged);
                },
            },
            None => {
                return Err(WriteError::FormatChanged);
            },
        };
        let mut edits: Vec<Edit> = Vec::new();
        let replacement = concat3("var default_places = ", default_places_text.as_str(), ";");
        edits.push(Edit::new(range.0, range.1, replacement));
        assert(splices(edits@) =~= plan_splices(seq![(range.0, range.1, replacement@)]));
        if try_apply(module, &edits) {
            Ok(())
        } else {
            Err(WriteError::NotApplicable)
        }
    }
}

/// The address of the page of the player, in the version `player_version` of the
/// player.
pub fn player_url(player_version: &str) -> (r: String)
    ensures
        r@ == crate::modules::BITBUCKET_URL@ + "/"@ + player_version@ + "/player.php"@,
{
    concat3(crate::modules::BITBUCKET_URL, "/", concat(player_version, "/player.php").as_str())
}

/// The page of the player as it is kept: the page as it was fetched, behind a line
/// break.
pub fn retrieve_player(page: &str) -> (r: String)
    ensures
        r@ == "\n"@ + page@,
{
    concat("\n", page)
}

/// Why the userscripts could not be put into the page.
#[derive(Debug, Clone, Copy, PartialEq, Eq, Structural)]
pub enum UserscriptError {
    /// The pattern for the end of the page is no regular expression.
    BadPattern,
    /// The page has no end.
    NoEnd,
    /// What was found is no range of the page.
    NotApplicable,
}

/// The edit that puts the userscripts `userscripts` into the page `content`: they
/// stand in one script element before the last end of the page, with an empty line
/// between each two.
pub open spec fn userscripts_edit(content: Seq<char>, userscripts: Seq<Seq<char>>) -> Result<
    (usize, usize, Seq<char>),
    UserscriptError,
> {
    match regex_found(HTML_END_REGEX@, content) {
        Some(found) => if found.len() > 0 {
            match span_of(found.last(), 0) {
                Some((start, end)) => Ok(
                    (
                        start,
                        end,
                        "<script type=\"text/javascript\">"@ + joined(userscripts, "\n\n"@)
                            + "</script>\n</html>"@,
                    ),
                ),
                None => Err(UserscriptError::NoEnd),
            }
        } else {
            Err(UserscriptError::NoEnd)
        },
        None => Err(UserscriptError::BadPattern),
    }
}

/// Appends the userscripts that were retrieved to the page of the player.
pub fn retrieve_userscripts(content: &mut String, userscripts: &Vec<String>) -> (r: Result<
    (),
    UserscriptError,
>)
    ensures
        match userscripts_edit(old(content)@, string_views(userscripts@)) {
            Ok(edit) => match r {
                Ok(()) => applicable(encode_utf8(old(content)@), plan_splices(seq![edit]))
                    && encode_utf8(final(content)@) == edited(
                    encode_utf8(old(content)@),
                    plan_splices(seq![edit]),
                ),
                Err(e) => e == UserscriptError::NotApplicable && !applicable(
                    encode_utf8(old(content)@),
                    plan_splices(seq![edit]),
                ) && final(content)@ == old(content)@,
            },
            Err(owed) => r == Err::<(), _>(owed) && final(content)@ == old(content)@,
        },
{
    let found = match captures_all(HTML_END_REGEX, content.as_str()) {
        Some(f) => f,
        None => {
            return Err(UserscriptError::BadPattern);
        },
    };
    if found.len() == 0 {
        return Err(UserscriptError::NoEnd);
    }
    assert(groups_of(found@).last() == found@[found@.len() - 1]@);
    let range = match span(&found[found.len() - 1], 0) {
        Some(r) => r,
        None => {
            return Err(UserscriptError::NoEnd);
        },
    };
    let mut replacement = "<script type=\"text/javascript\">".to_owned();
    replacement.append(join(userscripts, "\n\n").as_str());
    replacement.append("</script>\n</html>");
    let mut edits: Vec<Edit> = Vec::new();
    edits.push(Edit::new(range.0, range.1, replacement));
    assert(splices(edits@) =~= plan_splices(seq![(range.0, range.1, replacement@)]));
    if try_apply(content, &edits) {
        Ok(())
    } else {
        Err(UserscriptError::NotApplicable)
    }
}

/// The page of the player and its scripts, as they stand before they are made into
/// the player of one case.
#[derive(Debug)]
pub struct SavedPlayerState {
    content: Option<String>,
    scripts: Option<String>,
}

/// The player for an Ace Attorney Online case.
#[derive(Debug)]
pub struct Player {
    /// The site data for the Ace Attorney Online server.
    pub site_data: SiteData,
    /// The player's code.
    pub content: Option<String>,
    /// The scripts used by the player.
    pub scripts: Option<String>,
}

/// The text of `text`, if there is one.
pub open spec fn text_view(text: Option<String>) -> Option<Seq<char>> {
    match text {
        Some(t) => Some(t@),
        None => None,
    }
}

fn copy_text(text: &Option<String>) -> (r: Option<String>)
    ensures
        text_view(r) == text_view(*text),
{
    match text {
        Some(t) => Some(t.clone()),
        None => None,
    }
}

impl SavedPlayerState {
    /// The page that was saved.
    pub closed spec fn content(&self) -> Option<Seq<char>> {
        text_view(self.content)
    }

    /// The scripts that were saved.
    pub closed spec fn scripts(&self) -> Option<Seq<char>> {
        text_view(self.scripts)
    }
}

impl Player {
    /// A player with the site data `site_data`, which holds the module of the default
    /// data as its scripts, and no page yet.
    pub fn new(site_data: SiteData, default_text: String) -> (r: Player)
        ensures
            r.site_data == site_data,
            r.content is None,
            r.scripts == Some(default_text),
    {
        Player { site_data, content: None, scripts: Some(default_text) }
    }

    /// Saves the page and the scripts as they stand.
    pub fn save(&self) -> (r: SavedPlayerState)
        ensures
            r.content() == text_view(self.content),
            r.scripts() == text_view(self.scripts),
    {
        SavedPlayerState { content: copy_text(&self.content), scripts: copy_text(&self.scripts) }
    }

    /// Puts the page and the scripts back as `state` holds them. The site data stays.
    pub fn restore(&mut self, state: &SavedPlayerState)
        ensures
            text_view(final(self).content) == state.content(),
            text_view(final(self).scripts) == state.scripts(),
            final(self).site_data == old(self).site_data,
    {
        self.content = copy_text(&state.content);
        self.scripts = copy_text(&state.scripts);
    }

    /// Potentially transforms the module with the given `name` and `content`: into the
    /// module of the default data the default places are written as they stand, so that
    /// the player takes them from local files. Any other module stays as it is.
    pub fn transform_module(site_data: &SiteData, name: &str, content: &mut String) -> (r: Result<
        (),
        WriteError,
    >)
        ensures
            name@ != "default_data"@ ==> r is Ok && final(content)@ == old(content)@,
            name@ == "default_data"@ ==> match default_places_edit(
                site_data.default_data@.places,
                old(content)@,
            ) {
                Ok(edit) => match r {
                    Ok(()) => applicable(encode_utf8(old(content)@), plan_splices(seq![edit]))
                        && encode_utf8(final(content)@) == edited(
                        encode_utf8(old(content)@),
                        plan_splices(seq![edit]),
                    ),
                    Err(e) => e == WriteError::NotApplicable && !applicable(
                        encode_utf8(old(content)@),
                        plan_splices(seq![edit]),
                    ) && final(content)@ == old(content)@,
                },
                Err(owed) => r == Err::<(), _>(owed) && final(content)@ == old(content)@,
            },
    {
        if str_eq(name, "default_data") {
            // Here we need to insert our modified default data, to avoid the default
            // resources being retrieved from the server.
            site_data.default_data.write_default_module(content)
        } else {
            Ok(())
        }
    }
}

/// Whether `value` holds every path of the site as text.
pub open spec fn holds_site_paths(value: JsonV) -> bool {
    &&& value.member("bg_subdir"@).text() is Some
    &&& value.member("cache_dir"@).text() is Some
    &&& value.member("css_dir"@).text() is Some
    &&& value.member("defaultplaces_subdir"@).text() is Some
    &&& value.member("evidence_subdir"@).text() is Some
    &&& value.member("forum_path"@).text() is Some
    &&& value.member("icon_subdir"@).text() is Some
    &&& value.member("js_dir"@).text() is Some
    &&& value.member("lang_dir"@).text() is Some
    &&& value.member("locks_subdir"@).text() is Some
    &&& value.member("music_dir"@).text() is Some
    &&& value.member("picture_dir"@).text() is Some
    &&& value.member("popups_subdir"@).text() is Some
    &&& value.member("site_name"@).text() is Some
    &&& value.member("sounds_dir"@).text() is Some
    &&& value.member("startup_subdir"@).text() is Some
    &&& value.member("still_subdir"@).text() is Some
    &&& value.member("talking_subdir"@).text() is Some
    &&& value.member("trialdata_backups_dir"@).text() is Some
    &&& value.member("trialdata_deleted_dir"@).text() is Some
    &&& value.member("trialdata_dir"@).text() is Some
    &&& value.member("voices_dir"@).text() is Some
}

impl SitePaths {
    /// The paths as a JSON document: each under its name, in the order of the names.
    pub open spec fn json(&self) -> JsonV {
        JsonV::Object(
            seq![
                ("bg_subdir"@, JsonV::Text(self.bg_subdir@)),
                ("cache_dir"@, JsonV::Text(self.cache_dir@)),
                ("css_dir"@, JsonV::Text(self.css_dir@)),
                ("defaultplaces_subdir"@, JsonV::Text(self.defaultplaces_subdir@)),
                ("evidence_subdir"@, JsonV::Text(self.evidence_subdir@)),
                ("forum_path"@, JsonV::Text(self.forum_path@)),
                ("icon_subdir"@, JsonV::Text(self.icon_subdir@)),
                ("js_dir"@, JsonV::Text(self.js_dir@)),
                ("lang_dir"@, JsonV::Text(self.lang_dir@)),
                ("locks_subdir"@, JsonV::Text(self.locks_subdir@)),
                ("music_dir"@, JsonV::Text(self.music_dir@)),
                ("picture_dir"@, JsonV::Text(self.picture_dir@)),
                ("popups_subdir"@, JsonV::Text(self.popups_subdir@)),
                ("site_name"@, JsonV::Text(self.site_name@)),
                ("sounds_dir"@, JsonV::Text(self.sounds_dir@)),
                ("startup_subdir"@, JsonV::Text(self.startup_subdir@)),
                ("still_subdir"@, JsonV::Text(self.still_subdir@)),
                ("talking_subdir"@, JsonV::Text(self.talking_subdir@)),
                ("trialdata_backups_dir"@, JsonV::Text(self.trialdata_backups_dir@)),
                ("trialdata_deleted_dir"@, JsonV::Text(self.trialdata_deleted_dir@)),
                ("trialdata_dir"@, JsonV::Text(self.trialdata_dir@)),
                ("voices_dir"@, JsonV::Text(self.voices_dir@)),
            ],
        )
    }

    /// Whether the paths are those that `value` holds.
    pub open spec fn read_from(&self, value: JsonV) -> bool {
        &&& value.member("bg_subdir"@).text() == Some(self.bg_subdir@)
        &&& value.member("cache_dir"@).text() == Some(self.cache_dir@)
        &&& value.member("css_dir"@).text() == Some(self.css_dir@)
        &&& value.member("defaultplaces_subdir"@).text() == Some(self.defaultplaces_subdir@)
        &&& value.member("evidence_subdir"@).text() == Some(self.evidence_subdir@)
        &&& value.member("forum_path"@).text() == Some(self.forum_path@)
        &&& value.member("icon_subdir"@).text() == Some(self.icon_subdir@)
        &&& value.member("js_dir"@).text() == Some(self.js_dir@)
        &&& value.member("lang_dir"@).text() == Some(self.lang_dir@)
        &&& value.member("locks_subdir"@).text() == Some(self.locks_subdir@)
        &&& value.member("music_dir"@).text() == Some(self.music_dir@)
        &&& value.member("picture_dir"@).text() == Some(self.picture_dir@)
        &&& value.member("popups_subdir"@).text() == Some(self.popups_subdir@)
        &&& value.member("site_name"@).text() == Some(self.site_name@)
        &&& value.member("sounds_dir"@).text() == Some(self.sounds_dir@)
        &&& value.member("startup_subdir"@).text() == Some(self.startup_subdir@)
        &&& value.member("still_subdir"@).text() == Some(self.still_subdir@)
        &&& value.member("talking_subdir"@).text() == Some(self.talking_subdir@)
        &&& value.member("trialdata_backups_dir"@).text() == Some(self.trialdata_backups_dir@)
        &&& value.member("trialdata_deleted_dir"@).text() == Some(self.trialdata_deleted_dir@)
        &&& value.member("trialdata_dir"@).text() == Some(self.trialdata_dir@)
        &&& value.member("voices_dir"@).text() == Some(self.voices_dir@)
    }

    /// The paths as a JSON document.
    pub fn to_json(&self) -> (r: Json)
        ensures
            r@ == self.json(),
    {
        let mut fields: Vec<(String, Json)> = Vec::new();
        fields.push(("bg_subdir".to_owned(), Json::Text(self.bg_subdir.clone())));
        fields.push(("cache_dir".to_owned(), Json::Text(self.cache_dir.clone())));
        fields.push(("css_dir".to_owned(), Json::Text(self.css_dir.clone())));
        fields.push(("defaultplaces_subdir".to_owned(), Json::Text(self.defaultplaces_subdir.clone())));
        fields.push(("evidence_subdir".to_owned(), Json::Text(self.evidence_subdir.clone())));
        fields.push(("forum_path".to_owned(), Json::Text(self.forum_path.clone())));
        fields.push(("icon_subdir".to_owned(), Json::Text(self.icon_subdir.clone())));
        fields.push(("js_dir".to_owned(), Json::Text(self.js_dir.clone())));
        fields.push(("lang_dir".to_owned(), Json::Text(self.lang_dir.clone())));
        fields.push(("locks_subdir".to_owned(), Json::Text(self.locks_subdir.clone())));
        fields.push(("music_dir".to_owned(), Json::Text(self.music_dir.clone())));
        fields.push(("picture_dir".to_owned(), Json::Text(self.picture_dir.clone())));
        fields.push(("popups_subdir".to_owned(), Json::Text(self.popups_subdir.clone())));
        fields.push(("site_name".to_owned(), Json::Text(self.site_name.clone())));
        fields.push(("sounds_dir".to_owned(), Json::Text(self.sounds_dir.clone())));
        fields.push(("startup_subdir".to_owned(), Json::Text(self.startup_subdir.clone())));
        fields.push(("still_subdir".to_owned(), Json::Text(self.still_subdir.clone())));
        fields.push(("talking_subdir".to_owned(), Json::Text(self.talking_subdir.clone())));
        fields.push(("trialdata_backups_dir".to_owned(), Json::Text(self.trialdata_backups_dir.clone())));
        fields.push(("trialdata_deleted_dir".to_owned(), Json::Text(self.trialdata_deleted_dir.clone())));
        fields.push(("trialdata_dir".to_owned(), Json::Text(self.trialdata_dir.clone())));
        fields.push(("voices_dir".to_owned(), Json::Text(self.voices_dir.clone())));
        assert(field_views(fields@) =~= self.json()->Object_0);
        Json::Object(fields)
    }

    /// The paths that the document `value` holds; nothing where it lacks one of them.
    pub fn from_json(value: &Json) -> (r: Option<SitePaths>)
        ensures
            r is Some <==> holds_site_paths(value@),
            r matches Some(paths) ==> paths.read_from(value@),
    {
        let bg_subdir = match value.text_of("bg_subdir") {
            Some(t) => t,
            None => {
                return None;
            },
        };
        let cache_dir = match value.text_of("cache_dir") {
            Some(t) => t,
            None => {
                return None;
            },
        };
        let css_dir = match value.text_of("css_dir") {
            Some(t) => t,
            None => {
                return None;
            },
        };
        let defaultplaces_subdir = match value.text_of("defaultplaces_subdir") {
            Some(t) => t,
            None => {
                return None;
            },
        };
        let evidence_subdir = match value.text_of("evidence_subdir") {
            Some(t) => t,
            None => {
                return None;
            },
        };
        let forum_path = match value.text_of("forum_path") {
            Some(t) => t,
            None => {
                return None;
            },
        };
        let icon_subdir = match value.text_of("icon_subdir") {
            Some(t) => t,
            None => {
                return None;
            },
        };
        let js_dir = match value.text_of("js_dir") {
            Some(t) => t,
            None => {
                return None;
            },
        };
        let lang_dir = match value.text_of("lang_dir") {
            Some(t) => t,
            None => {
                return None;
            },
        };
        let locks_subdir = match value.text_of("locks_subdir") {
            Some(t) => t,
            None => {
                return None;
            },
        };
        let music_dir = match value.text_of("music_dir") {
            Some(t) => t,
            None => {
                return None;
            },
        };
        let picture_dir = match value.text_of("picture_dir") {
            Some(t) => t,
            None => {
                return None;
            },
        };
        let popups_subdir = match value.text_of("popups_subdir") {
            Some(t) => t,
            None => {
                return None;
            },
        };
        let site_name = match value.text_of("site_name") {
            Some(t) => t,
            None => {
                return None;
            },
        };
        let sounds_dir = match value.text_of("sounds_dir") {
            Some(t) => t,
            None => {
                return None;
            },
        };
        let startup_subdir = match value.text_of("startup_subdir") {
            Some(t) => t,
            None => {
                return None;
            },
        };
        let still_subdir = match value.text_of("still_subdir") {
            Some(t) => t,
            None => {
                return None;
            },
        };
        let talking_subdir = match value.text_of("talking_subdir") {
            Some(t) => t,
            None => {
                return None;
            },
        };
        let trialdata_backups_dir = match value.text_of("trialdata_backups_dir") {
            Some(t) => t,
            None => {
                return None;
            },
        };
        let trialdata_deleted_dir = match value.text_of("trialdata_deleted_dir") {
            Some(t) => t,
            None => {
                return None;
            },
        };
        let trialdata_dir = match value.text_of("trialdata_dir") {
            Some(t) => t,
            None => {
                return None;
            },
        };
        let voices_dir = match value.text_of("voices_dir") {
            Some(t) => t,
            None => {
                return None;
            },
        };
        Some(
            SitePaths {
            bg_subdir,
            cache_dir,
            css_dir,
            defaultplaces_subdir,
            evidence_subdir,
            forum_path,
            icon_subdir,
            js_dir,
            lang_dir,
            locks_subdir,
            music_dir,
            picture_dir,
            popups_subdir,
            site_name,
            sounds_dir,
            startup_subdir,
            still_subdir,
            talking_subdir,
            trialdata_backups_dir,
            trialdata_deleted_dir,
            trialdata_dir,
            voices_dir,
            },
        )
    }

    /// The paths as the player reads them: as JSON text.
    pub fn config(&self) -> (r: Option<String>)
        ensures
            match r {
                Some(text) => json_written(self.json()) == Some(text@),
                None => json_written(self.json()) is None,
            },
    {
        write_json(&self.to_json())
    }
}

/// The configuration of the site as the bridge script holds it: the first group of the
/// first match of the pattern for it, read as JSON.
pub open spec fn bridge_config(bridge: Seq<char>) -> Result<JsonV, ReadError> {
    match first_found(CONFIG_REGEX@, bridge) {
        Some(groups) => match group_text(bridge, groups, 1) {
            Some(held) => match json_read(held) {
                Some(value) => if holds_site_paths(value) {
                    Ok(value)
                } else {
                    Err(ReadError::Malformed)
                },
                None => Err(ReadError::ParseFailed),
            },
            None => Err(ReadError::RegexNotMatched),
        },
        None => Err(ReadError::FormatChanged),
    }
}

/// Retrieves the site paths from the text of the bridge script.
pub fn retrieve_from_bridge(bridge: &str) -> (r: Result<SitePaths, ReadError>)
    ensures
        match (r, bridge_config(bridge@)) {
            (Ok(paths), Ok(value)) => paths.read_from(value),
            (Err(e), Err(owed)) => e == owed,
            _ => false,
        },
{
    let groups = match find_first(CONFIG_REGEX, bridge) {
        Some(g) => g,
        None => {
            return Err(ReadError::FormatChanged);
        },
    };
    let config_text = match text_of_group(bridge, &groups, 1) {
        Some(t) => t,
        None => {
            return Err(ReadError::RegexNotMatched);
        },
    };
    let value = match read_json(config_text) {
        Some(v) => v,
        None => {
            return Err(ReadError::ParseFailed);
        },
    };
    match SitePaths::from_json(&value) {
        Some(paths) => Ok(paths),
        None => Err(ReadError::Malformed),
    }
}

} // verus!

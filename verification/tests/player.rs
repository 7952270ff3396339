use aaoffline::case::{Case, CaseInformation, Sequence, SequenceEntry};
use aaoffline::json::Json;
use aaoffline::patterns::{find_first, is_match, span, text_of_group, TRIAL_DATA_REGEX};
use aaoffline::player::{
    retrieve_escaped_json, retrieve_from_bridge, retrieve_player, retrieve_userscripts, Player,
    ReadError, UserscriptError, WriteError,
};
use aaoffline::reading::{case_script_url, not_found_message, CaseError};
use aaoffline::site::{DefaultData, SiteData, SitePaths};

const NAMES: [&str; 22] = [
    "bg_subdir",
    "cache_dir",
    "css_dir",
    "defaultplaces_subdir",
    "evidence_subdir",
    "forum_path",
    "icon_subdir",
    "js_dir",
    "lang_dir",
    "locks_subdir",
    "music_dir",
    "picture_dir",
    "popups_subdir",
    "site_name",
    "sounds_dir",
    "startup_subdir",
    "still_subdir",
    "talking_subdir",
    "trialdata_backups_dir",
    "trialdata_deleted_dir",
    "trialdata_dir",
    "voices_dir",
];

fn show<T: std::fmt::Debug>(value: &T) -> String {
    format!("{value:?}")
}

fn config_text(skip: &str) -> String {
    let fields: Vec<String> = NAMES
        .iter()
        .filter(|n| **n != skip)
        .map(|n| format!("\"{n}\":\"path/{n}\""))
        .collect();
    format!("{{{}}}", fields.join(","))
}

fn paths() -> SitePaths {
    retrieve_from_bridge(&format!("var cfg = {};", config_text(""))).unwrap()
}

const MODULE: &str = r#"// The default data.
var default_profiles_startup = JSON.parse("{\"Phoenix\/3\":1,\"Edgeworth\/1\":1}");
var default_places = {"-1":{"name":"Court","background":{"image":"court","external":0}},"-2":{"name":"Lobby"}};
Modules.complete('default_data');
"#;

#[test]
fn value_is_read_without_the_escapes_of_a_string() {
    let text = r#"var initial_trial_data = JSON.parse("{\"a\":\"x\\\/y\",\"q\":\"it\'s \\\"so\\\"\"}");"#;
    let value = retrieve_escaped_json(TRIAL_DATA_REGEX, text).unwrap();
    assert_eq!(value.text_of("a"), Some("x/y".to_string()));
    assert_eq!(value.text_of("q"), Some("it's \"so\"".to_string()));
}

#[test]
fn value_that_cannot_be_read_is_refused() {
    assert_eq!(retrieve_escaped_json(TRIAL_DATA_REGEX, "var x;").err(), Some(ReadError::FormatChanged));
    assert_eq!(
        retrieve_escaped_json(TRIAL_DATA_REGEX, "var initial_trial_data = JSON.parse(\"{oops\");").err(),
        Some(ReadError::ParseFailed)
    );
    assert_eq!(retrieve_escaped_json(r"var a(b)?;", "var a;").err(), Some(ReadError::RegexNotMatched));
    assert_eq!(retrieve_escaped_json(r"var a(", "var a;").err(), Some(ReadError::FormatChanged));
}

#[test]
fn patterns_find_their_groups() {
    let groups = find_first(r"(\d+)-(x)?(\w+)", "ab 12-cd 34-xef").unwrap();
    assert_eq!(groups, vec![Some((3, 8)), Some((3, 5)), None, Some((6, 8))]);
    assert_eq!(span(&groups, 0), Some((3, 8)));
    assert_eq!(span(&groups, 2), None);
    assert_eq!(span(&groups, 9), None);
    assert_eq!(text_of_group("ab 12-cd 34-xef", &groups, 1), Some("12"));
    assert_eq!(text_of_group("ab 12-cd 34-xef", &groups, 3), Some("cd"));
    assert_eq!(text_of_group("ab 12-cd 34-xef", &groups, 2), None);
    assert!(find_first(r"\d+", "none").is_none());
    assert!(find_first(r"(", "none").is_none());
    assert!(is_match(r"^a+$", "aaa"));
    assert!(!is_match(r"^a+$", "aab"));
    assert!(!is_match(r"(", "("));
}

#[test]
fn default_data_is_read_from_its_module() {
    let data = DefaultData::from_default_module(MODULE).unwrap();
    assert_eq!(data.default_profiles_startup, vec!["Edgeworth/1", "Phoenix/3"]);
    let ids: Vec<i64> = data.default_places.iter().map(|p| p.0).collect();
    assert_eq!(ids, vec![-1, -2]);
    assert_eq!(data.default_places[0].1.text_of("name"), Some("Court".to_string()));
    assert!(data.default_voice_urls.is_empty());
    assert!(data.default_sprite_urls.is_empty());
    assert!(data.psyche_lock_urls.is_empty());
    assert!(data.has_startup("Phoenix/3"));
    assert!(!data.has_startup("Phoenix/4"));
}

#[test]
fn module_without_default_data_is_refused() {
    assert_eq!(DefaultData::from_default_module("var x;").err(), Some(ReadError::FormatChanged));
    let no_places = MODULE.replace("var default_places", "var other_places");
    assert_eq!(DefaultData::from_default_module(&no_places).err(), Some(ReadError::FormatChanged));
    let named = MODULE.replace("\"-2\"", "\"lobby\"");
    assert_eq!(DefaultData::from_default_module(&named).err(), Some(ReadError::Malformed));
    let listed = MODULE.replace("{\\\"Phoenix\\/3\\\":1,\\\"Edgeworth\\/1\\\":1}", "[1]");
    assert_eq!(DefaultData::from_default_module(&listed).err(), Some(ReadError::Malformed));
}

#[test]
fn default_places_are_written_into_their_module() {
    let mut data = DefaultData::from_default_module(MODULE).unwrap();
    let place = std::mem::replace(&mut data.default_places[1].1, Json::Null);
    data.default_places[1].1 = place.with_field("name", Json::Text("Entrance".to_string()));
    let mut module = MODULE.to_string();
    assert_eq!(data.write_default_module(&mut module), Ok(()));
    assert_eq!(
        module,
        "// The default data.\n\
         var default_profiles_startup = JSON.parse(\"{\\\"Phoenix\\/3\\\":1,\\\"Edgeworth\\/1\\\":1}\");\n\
         var default_places = {\"-1\":{\"background\":{\"external\":0,\"image\":\"court\"},\"name\":\"Court\"},\"-2\":{\"name\":\"Entrance\"}};\n\
         Modules.complete('default_data');\n"
    );
    let mut other = "var x;".to_string();
    assert_eq!(data.write_default_module(&mut other), Err(WriteError::FormatChanged));
    assert_eq!(other, "var x;");
    data.default_places[0].1 = Json::Number("many".to_string());
    let mut module = MODULE.to_string();
    assert_eq!(data.write_default_module(&mut module), Err(WriteError::Unwritable));
    assert_eq!(module, MODULE);
}

#[test]
fn only_the_module_of_the_default_data_is_transformed() {
    let site = SiteData { default_data: DefaultData::from_default_module(MODULE).unwrap(), site_paths: paths() };
    let mut content = MODULE.to_string();
    assert_eq!(Player::transform_module(&site, "player", &mut content), Ok(()));
    assert_eq!(content, MODULE);
    assert_eq!(Player::transform_module(&site, "default_data", &mut content), Ok(()));
    assert!(content.contains("var default_places = {\"-1\":{\"background\":{\"external\":0,\"image\":\"court\"},\"name\":\"Court\"},\"-2\":{\"name\":\"Lobby\"}};"));
}

#[test]
fn player_is_saved_and_restored() {
    let site = SiteData { default_data: DefaultData::from_default_module(MODULE).unwrap(), site_paths: paths() };
    let mut player = Player::new(site, "var scripts;".to_string());
    assert_eq!(player.content, None);
    assert_eq!(player.scripts, Some("var scripts;".to_string()));
    player.content = Some(retrieve_player("<html></html>"));
    let saved = player.save();
    player.content = Some("changed".to_string());
    player.scripts = None;
    player.restore(&saved);
    assert_eq!(player.content, Some("\n<html></html>".to_string()));
    assert_eq!(player.scripts, Some("var scripts;".to_string()));
    player.content = Some("changed again".to_string());
    player.restore(&saved);
    assert_eq!(player.content, Some("\n<html></html>".to_string()));
}

#[test]
fn userscripts_stand_before_the_end_of_the_page() {
    let mut page = "<html><body>a </html> in text</body></html>\n".to_string();
    let scripts = vec!["one();".to_string(), "two();".to_string()];
    assert_eq!(retrieve_userscripts(&mut page, &scripts), Ok(()));
    assert_eq!(
        page,
        "<html><body>a </html> in text</body><script type=\"text/javascript\">one();\n\ntwo();</script>\n</html>\n"
    );
    let mut page = "<html>".to_string();
    assert_eq!(retrieve_userscripts(&mut page, &scripts), Err(UserscriptError::NoEnd));
    assert_eq!(page, "<html>");
}

#[test]
fn site_paths_are_read_from_the_bridge() {
    let bridge = format!("var x = 1;\nvar cfg = {};\nvar y = {{}};", config_text(""));
    let paths = retrieve_from_bridge(&bridge).unwrap();
    assert_eq!(paths.picture_dir, "path/picture_dir");
    assert_eq!(paths.voices_dir, "path/voices_dir");
    assert_eq!(paths.bg_subdir, "path/bg_subdir");
    assert_eq!(paths.site_name, "path/site_name");
    assert_eq!(paths.config(), Some(config_text("")));
    assert_eq!(show(&SitePaths::from_json(&paths.to_json()).unwrap()), show(&paths));
}

#[test]
fn bridge_that_lacks_a_path_is_refused() {
    for name in NAMES {
        let bridge = format!("var cfg = {};", config_text(name));
        assert_eq!(retrieve_from_bridge(&bridge).err(), Some(ReadError::Malformed), "{name}");
    }
    assert_eq!(retrieve_from_bridge("var config;").err(), Some(ReadError::FormatChanged));
    assert_eq!(retrieve_from_bridge("var cfg = {oops};").err(), Some(ReadError::ParseFailed));
}

#[test]
fn site_paths_name_the_directories_of_assets() {
    let p = paths();
    assert_eq!(p.default_icon(), "https://aaonline.fr/path/picture_dir/path/icon_subdir/Inconnu.png");
    assert_eq!(p.icon_path(), vec!["path/picture_dir", "path/icon_subdir"]);
    assert_eq!(p.evidence_path(), vec!["path/picture_dir", "path/evidence_subdir"]);
    assert_eq!(p.bg_path(), vec!["path/picture_dir", "path/bg_subdir"]);
    assert_eq!(p.popup_path(), vec!["path/picture_dir", "path/popups_subdir"]);
    assert_eq!(p.lock_path(), vec!["path/picture_dir", "path/locks_subdir"]);
    assert_eq!(p.music_path(), vec!["path/music_dir"]);
    assert_eq!(p.sound_path(), vec!["path/sounds_dir"]);
    assert_eq!(p.voice_path(), vec!["path/voices_dir"]);
    assert_eq!(p.sprite_path("talking", "Phoenix"), vec!["path/picture_dir", "path/talking_subdir", "Phoenix"]);
    assert_eq!(p.sprite_path("startup", "Maya"), vec!["path/picture_dir", "path/startup_subdir", "Maya"]);
    assert_eq!(p.get_subdir("still"), "path/still_subdir");
    assert_eq!(p.get_subdir("defaultplaces"), "path/defaultplaces_subdir");
}

const CASE_SCRIPT: &str = r#"/* trial */
var trial_information = JSON.parse("{\"author\":\"Author\",\"author_id\":9,\"can_read\":true,\"can_write\":false,\"format\":\"Def6\",\"id\":102059,\"language\":\"en\",\"last_edit_date\":1600000000,\"sequence\":{\"title\":\"Trilogy\",\"list\":[{\"id\":102059,\"title\":\"One\"},{\"id\":102060,\"title\":\"Two\"}]},\"title\":\"The First\",\"more\":1}");
var initial_trial_data = JSON.parse("{\"frames\":[0,{\"place\":-1,\"characters\":[0,{\"profile_id\":2,\"sprite_id\":-3},{\"profile_id\":null,\"sprite_id\":1}]},{\"place\":4,\"characters\":[]}]}");
"#;

#[test]
fn case_is_read_from_its_script() {
    let case = Case::from_script(CASE_SCRIPT).unwrap();
    let info = &case.case_information;
    assert_eq!(info.author, "Author");
    assert_eq!(info.author_id, 9);
    assert!(info.can_read);
    assert!(!info.can_write);
    assert_eq!(info.format, "Def6");
    assert_eq!(info.id, 102059);
    assert_eq!(info.language, "en");
    assert_eq!(info.last_edit_date, 1_600_000_000);
    assert_eq!(info.title, "The First");
    let sequence = info.sequence.as_ref().unwrap();
    assert_eq!(sequence.title(), "Trilogy");
    assert_eq!(sequence.len(), 2);
    assert_eq!(sequence.entry_ids(), vec![102059, 102060]);
    assert_eq!(case.id(), 102059);
    assert_eq!(case.filename(false), "The First_102059");
    assert_eq!(case.get_used_sprites(), Ok(vec![(2, -3)]));
    assert_eq!(case.get_used_places(), Ok(vec![-1, 4]));
}

#[test]
fn case_without_sequence_is_read() {
    for sequence in ["\\\"sequence\\\":null,", ""] {
        let script = CASE_SCRIPT.replace(
            "\\\"sequence\\\":{\\\"title\\\":\\\"Trilogy\\\",\\\"list\\\":[{\\\"id\\\":102059,\\\"title\\\":\\\"One\\\"},{\\\"id\\\":102060,\\\"title\\\":\\\"Two\\\"}]},",
            sequence,
        );
        assert_ne!(script, CASE_SCRIPT);
        let case = Case::from_script(&script).unwrap();
        assert!(case.case_information.sequence.is_none());
    }
}

#[test]
fn date_of_a_case_may_be_written_as_text() {
    let script = CASE_SCRIPT.replace("\\\"last_edit_date\\\":1600000000", "\\\"last_edit_date\\\":\\\"1600000001\\\"");
    assert_eq!(Case::from_script(&script).unwrap().case_information.last_edit_date, 1_600_000_001);
}

#[test]
fn case_that_the_site_does_not_know_is_not_found() {
    let r = Case::from_script("var trial_information;\nvar initial_trial_data;");
    assert_eq!(r.err(), Some(CaseError::NotFound));
    assert_eq!(not_found_message(17), "The case with given ID 17 could not be found!");
}

#[test]
fn script_that_holds_no_case_is_refused() {
    assert_eq!(Case::from_script("<html>").err(), Some(CaseError::Unreadable(ReadError::FormatChanged)));
    let no_data = CASE_SCRIPT.replace("var initial_trial_data", "var other");
    assert_eq!(Case::from_script(&no_data).err(), Some(CaseError::Unreadable(ReadError::FormatChanged)));
    let no_author = CASE_SCRIPT.replace("\\\"author\\\":\\\"Author\\\",", "");
    assert_eq!(Case::from_script(&no_author).err(), Some(CaseError::Unreadable(ReadError::Malformed)));
    let negative = CASE_SCRIPT.replace("\\\"author_id\\\":9", "\\\"author_id\\\":-9");
    assert_eq!(Case::from_script(&negative).err(), Some(CaseError::Unreadable(ReadError::Malformed)));
    let entry = CASE_SCRIPT.replace("{\\\"id\\\":102060,\\\"title\\\":\\\"Two\\\"}", "{\\\"id\\\":102060}");
    assert_eq!(Case::from_script(&entry).err(), Some(CaseError::Unreadable(ReadError::Malformed)));
    let broken = CASE_SCRIPT.replace("{\\\"frames\\\"", "{frames");
    assert_eq!(Case::from_script(&broken).err(), Some(CaseError::Unreadable(ReadError::ParseFailed)));
}

#[test]
fn address_of_the_script_of_a_case() {
    assert_eq!(case_script_url(102059), "https://aaonline.fr/trial.js.php?trial_id=102059");
}

#[test]
fn case_is_written_as_it_was_read() {
    let case = Case::from_script(CASE_SCRIPT).unwrap();
    let js = case.serialize_to_js().unwrap();
    assert_eq!(
        js,
        "var trial_information = {\"author\":\"Author\",\"author_id\":9,\"can_read\":true,\"can_write\":false,\
         \"format\":\"Def6\",\"id\":102059,\"language\":\"en\",\"last_edit_date\":1600000000,\
         \"sequence\":{\"list\":[{\"id\":102059,\"title\":\"One\"},{\"id\":102060,\"title\":\"Two\"}],\"title\":\"Trilogy\"},\
         \"title\":\"The First\"};\n\
         var initial_trial_data = {\"frames\":[0,{\"characters\":[0,{\"profile_id\":2,\"sprite_id\":-3},\
         {\"profile_id\":null,\"sprite_id\":1}],\"place\":-1},{\"characters\":[],\"place\":4}]};\n"
    );
}

#[test]
fn sequences_are_compared_by_what_they_hold() {
    let make = |title: &str, ids: &[u32]| {
        Sequence::new(title.to_string(), ids.iter().map(|i| SequenceEntry::new(*i, format!("Case {i}"))).collect())
    };
    assert!(make("S", &[1, 2]).same(&make("S", &[1, 2])));
    assert!(!make("S", &[1, 2]).same(&make("T", &[1, 2])));
    assert!(!make("S", &[1, 2]).same(&make("S", &[1, 3])));
    assert!(!make("S", &[1, 2]).same(&make("S", &[1])));
    let entry = SequenceEntry::new(4, "Four".to_string());
    assert_eq!((entry.id(), entry.title()), (4, "Four"));
    assert_eq!(show(&entry.to_json()), "Object([(\"id\", Number(\"4\")), (\"title\", Text(\"Four\"))])");
}

#[test]
fn sprites_of_a_case_need_frames() {
    let mut case = Case::from_script(CASE_SCRIPT).unwrap();
    case.case_data = Json::Object(Vec::new());
    assert!(case.get_used_sprites().is_err());
    assert!(case.get_used_places().is_err());
    case.case_data = Json::Object(vec![(
        "frames".to_string(),
        Json::Array(vec![Json::Object(vec![("characters".to_string(), Json::Array(vec![Json::Text("x".to_string())]))])]),
    )]);
    assert!(case.get_used_sprites().is_err());
}

#[test]
fn information_is_read_from_what_it_is_written_as() {
    let info = Case::from_script(CASE_SCRIPT).unwrap().case_information;
    let read = CaseInformation::from_json(&info.to_json()).unwrap();
    assert_eq!(show(&read), show(&info));
}

#[test]
fn addresses_of_the_player_and_of_the_common_script() {
    assert_eq!(
        aaoffline::player::player_url("master"),
        "https://bitbucket.org/AceAttorneyOnline/aao-game-creation-engine/raw//master/player.php"
    );
    assert_eq!(
        aaoffline::scripts::common_js_url("v3"),
        "https://bitbucket.org/AceAttorneyOnline/aao-game-creation-engine/raw//v3/Javascript/common.js"
    );
    assert_eq!(aaoffline::site::BRIDGE_URL, "https://aaonline.fr/bridge.js.php");
}

use aaoffline::case::{Case, CaseInformation};
use aaoffline::collector::CollectError;
use aaoffline::download::{AssetDownload, JsonSource};
use aaoffline::downloader::{plan_links, AssetDownloader};
use aaoffline::fetch::{place_download, Download};
use aaoffline::json::Json;
use aaoffline::rewrite::{rewrite_collected, rewrite_data, RewriteError};
use aaoffline::site::{DefaultData, SiteData, SitePaths};
use std::collections::hash_map::DefaultHasher;
use std::hash::{Hash, Hasher};

fn hash_of(url: &str) -> u64 {
    let mut hasher = DefaultHasher::new();
    url.hash(&mut hasher);
    hasher.finish()
}

fn text(s: &str) -> Json {
    Json::Text(s.to_string())
}

fn number(n: i64) -> Json {
    Json::Number(n.to_string())
}

fn object(fields: Vec<(&str, Json)>) -> Json {
    Json::Object(fields.into_iter().map(|(k, v)| (k.to_string(), v)).collect())
}

fn list(items: Vec<Json>) -> Json {
    let mut all = vec![number(0)];
    all.extend(items);
    Json::Array(all)
}

fn show(j: &Json) -> String {
    format!("{j:?}")
}

fn site_paths() -> SitePaths {
    SitePaths {
        bg_subdir: "backgrounds".to_string(),
        cache_dir: "cache".to_string(),
        css_dir: "css".to_string(),
        defaultplaces_subdir: "defaultplaces".to_string(),
        evidence_subdir: "evidence".to_string(),
        forum_path: "forum".to_string(),
        icon_subdir: "icons".to_string(),
        js_dir: "js".to_string(),
        lang_dir: "lang".to_string(),
        locks_subdir: "locks".to_string(),
        music_dir: "music".to_string(),
        picture_dir: "pictures".to_string(),
        popups_subdir: "popups".to_string(),
        site_name: "Ace Attorney Online".to_string(),
        sounds_dir: "sounds".to_string(),
        startup_subdir: "startup".to_string(),
        still_subdir: "still".to_string(),
        talking_subdir: "talking".to_string(),
        trialdata_backups_dir: "backups".to_string(),
        trialdata_deleted_dir: "deleted".to_string(),
        trialdata_dir: "trials".to_string(),
        voices_dir: "voices".to_string(),
    }
}

fn default_place(image: &str) -> Json {
    object(vec![
        ("name", text("Courtroom")),
        ("background", object(vec![("image", text(image)), ("external", number(0))])),
        ("background_objects", Json::Array(Vec::new())),
        ("foreground_objects", Json::Array(Vec::new())),
    ])
}

fn site_data(places: Vec<(i64, Json)>) -> SiteData {
    SiteData {
        default_data: DefaultData::new(vec!["Phoenix/3".to_string()], places),
        site_paths: site_paths(),
    }
}

fn frame(place: i64, characters: Vec<Json>) -> Json {
    object(vec![("place", number(place)), ("characters", Json::Array(characters))])
}

fn evidence(icon: &str, external: bool) -> Json {
    object(vec![
        ("icon", text(icon)),
        ("icon_external", Json::Bool(external)),
        ("check_button_data", Json::Array(Vec::new())),
    ])
}

struct Lists {
    profiles: Vec<Json>,
    evidence: Vec<Json>,
    places: Vec<Json>,
    popups: Vec<Json>,
    music: Vec<Json>,
    sounds: Vec<Json>,
    frames: Vec<Json>,
    scenes: Vec<Json>,
}

fn empty_lists() -> Lists {
    Lists {
        profiles: Vec::new(),
        evidence: Vec::new(),
        places: Vec::new(),
        popups: Vec::new(),
        music: Vec::new(),
        sounds: Vec::new(),
        frames: Vec::new(),
        scenes: Vec::new(),
    }
}

fn case(id: u32, title: &str, lists: Lists) -> Case {
    Case {
        case_information: CaseInformation {
            author: "Author".to_string(),
            author_id: 9,
            can_read: true,
            can_write: false,
            format: "Def6".to_string(),
            id,
            language: "en".to_string(),
            last_edit_date: 1_600_000_000,
            sequence: None,
            title: title.to_string(),
        },
        case_data: object(vec![
            ("profiles", list(lists.profiles)),
            ("evidence", list(lists.evidence)),
            ("places", list(lists.places)),
            ("popups", list(lists.popups)),
            ("music", list(lists.music)),
            ("sounds", list(lists.sounds)),
            ("frames", list(lists.frames)),
            ("scenes", list(lists.scenes)),
        ]),
    }
}

fn urls(downloads: &[AssetDownload]) -> Vec<String> {
    downloads.iter().map(|d| d.url().to_string()).collect()
}

fn with_url<'a>(downloads: &'a [AssetDownload], url: &str) -> Vec<&'a AssetDownload> {
    downloads.iter().filter(|d| d.url() == url).collect()
}

fn arrived(asset: &AssetDownload, content_type: &str) -> Download {
    let url = asset.url().to_string();
    let path = url.splitn(4, '/').nth(3).map(|p| format!("/{p}")).unwrap_or_default();
    Download {
        target_url: url,
        url_path: path,
        content: vec![1, 2, 3],
        content_type_header: Some(content_type.to_string()),
        content_disposition: None,
    }
}

const VOICES: usize = 9;

#[test]
fn case_without_assets_asks_for_the_voices_only() {
    let mut site = site_data(Vec::new());
    let out = AssetDownloader::collect_cases(vec![case(1, "Empty", empty_lists())], &mut site, "out", false, false).unwrap();
    assert_eq!(out.cases.len(), 1);
    assert_eq!(out.downloads.len(), 1);
    assert_eq!(
        urls(&out.downloads[0]),
        vec![
            "https://aaonline.fr/voices/voice_singleblip_1.opus",
            "https://aaonline.fr/voices/voice_singleblip_1.wav",
            "https://aaonline.fr/voices/voice_singleblip_1.mp3",
            "https://aaonline.fr/voices/voice_singleblip_2.opus",
            "https://aaonline.fr/voices/voice_singleblip_2.wav",
            "https://aaonline.fr/voices/voice_singleblip_2.mp3",
            "https://aaonline.fr/voices/voice_singleblip_3.opus",
            "https://aaonline.fr/voices/voice_singleblip_3.wav",
            "https://aaonline.fr/voices/voice_singleblip_3.mp3",
        ]
    );
    assert!(out.links[0].is_empty());
    assert_eq!(out.downloads[0][0].output_path(), "out");
    assert_eq!(out.downloads[0][0].case_title(), "Empty");
}

#[test]
fn evidence_icon_and_shared_default_place_resolve_to_one_file_each() {
    let mut site = site_data(vec![(7, default_place("court")), (8, default_place("lobby"))]);
    let mut a = empty_lists();
    a.evidence = vec![evidence("gavel.png", false), evidence("gavel.png", false)];
    a.frames = vec![frame(7, Vec::new()), frame(7, Vec::new())];
    let mut b = empty_lists();
    b.frames = vec![frame(7, Vec::new())];
    let out = AssetDownloader::collect_cases(vec![case(1, "A", a), case(2, "B", b)], &mut site, "out", false, false)
        .unwrap();
    let mut cases = out.cases;
    let mut downloads = out.downloads;

    let gavel = "https://aaonline.fr/pictures/evidence/gavel.png";
    let court = "https://aaonline.fr/pictures/backgrounds/court.jpg";
    // One request for the icon, for which two places wait, and one for the place.
    assert_eq!(with_url(&downloads[0], gavel).len(), 1);
    assert_eq!(with_url(&downloads[0], gavel)[0].json_refs().len(), 2);
    assert_eq!(with_url(&downloads[0], court).len(), 1);
    assert_eq!(with_url(&downloads[0], court)[0].json_refs().len(), 1);
    assert_eq!(downloads[0].len(), 2 + VOICES);
    assert_eq!(with_url(&downloads[1], gavel).len(), 0);
    assert_eq!(with_url(&downloads[1], court).len(), 1);
    assert_eq!(downloads[1].len(), 1 + VOICES);
    assert_eq!(downloads[0][0].output_path(), "out/A_1");
    assert_eq!(downloads[1][0].output_path(), "out/B_2");
    assert_eq!(out.asset_dirs, vec![Some("out/A_1/assets".to_string()), Some("out/B_2/assets".to_string())]);
    // The place that no case uses is not asked for.
    assert!(urls(&downloads[0]).iter().all(|u| !u.contains("lobby")));

    // The data of the case is marked: the icon is now given as a full address.
    let marked = &cases[0].case_data.items_of("evidence").unwrap()[1];
    assert_eq!(marked.flag_of("icon_external"), Some(true));

    // Each download arrives and finds its place, and then all are written back.
    let mut all: Vec<AssetDownload> = downloads.drain(..).flatten().collect();
    for asset in all.iter_mut() {
        let written = place_download(asset, &arrived(asset, "image/png"), false, false).unwrap();
        assert_eq!(
            written,
            Some(format!("{}/{}", asset.output_path(), asset.path().unwrap()))
        );
    }
    assert_eq!(rewrite_collected(&all, &mut cases, &mut site), Ok(()));
    let gavel_path = format!("assets/gavel-{}.png", hash_of(gavel));
    let court_path = format!("assets/court-{}.jpg", hash_of(court));
    let evidence_a = cases[0].case_data.items_of("evidence").unwrap();
    assert_eq!(evidence_a[1].text_of("icon"), Some(gavel_path.clone()));
    assert_eq!(evidence_a[2].text_of("icon"), Some(gavel_path));
    assert_eq!(cases[1].case_data.items_of("evidence").unwrap().len(), 1);
    // The default place is shared: both cases read the same entry.
    let places = &site.default_data.default_places;
    assert_eq!(places.len(), 2);
    assert_eq!(places[0].0, 7);
    assert_eq!(places[0].1.get("background").unwrap().text_of("image"), Some(court_path));
    assert_eq!(places[0].1.get("background").unwrap().flag_of("external"), Some(true));
    assert_eq!(show(&places[1].1), show(&default_place("lobby")));
}

#[test]
fn default_place_of_one_case_does_not_leak_into_the_next() {
    let fresh = || site_data(vec![(3, default_place("court"))]);
    let using = |id: u32, title: &str| {
        let mut l = empty_lists();
        l.frames = vec![frame(3, Vec::new())];
        case(id, title, l)
    };
    let court = "https://aaonline.fr/pictures/backgrounds/court.jpg";

    let mut site = fresh();
    let both = AssetDownloader::collect_cases(vec![using(1, "A"), using(2, "B")], &mut site, "out", false, false)
        .unwrap();
    // The second case asks for the place as it was fetched, not as the first left it.
    for k in 0..2 {
        let found = with_url(&both.downloads[k], court);
        assert_eq!(found.len(), 1, "case {k}");
        assert!(matches!(found[0].json_refs()[0].source, JsonSource::DefaultPlaces));
        assert_eq!(found[0].json_refs()[0].pointer, "/3/background/image");
        assert_eq!(both.downloads[k].len(), 1 + VOICES);
    }

    // In the other order each case asks for the same.
    let mut site = fresh();
    let turned = AssetDownloader::collect_cases(vec![using(2, "B"), using(1, "A")], &mut site, "out", false, false)
        .unwrap();
    assert_eq!(urls(&both.downloads[0]), urls(&turned.downloads[1]));
    assert_eq!(urls(&both.downloads[1]), urls(&turned.downloads[0]));
    assert_eq!(show(&both.cases[1].case_data), show(&turned.cases[0].case_data));
    assert_eq!(show(&both.cases[0].case_data), show(&turned.cases[1].case_data));
}

#[test]
fn assets_of_each_kind_are_collected() {
    let mut site = site_data(Vec::new());
    let mut l = empty_lists();
    l.profiles = vec![
        object(vec![
            ("id", number(1)),
            ("base", text("Phoenix")),
            ("icon", text("")),
            (
                "custom_sprites",
                Json::Array(vec![object(vec![
                    ("talking", text("https://example.com/talk.gif")),
                    ("still", text("")),
                    ("startup", text("")),
                ])]),
            ),
        ]),
    ];
    l.evidence = vec![object(vec![
        ("icon", text("https://example.com/badge.png")),
        ("icon_external", Json::Bool(true)),
        (
            "check_button_data",
            Json::Array(vec![
                object(vec![("type", text("text")), ("content", text("A badge."))]),
                object(vec![("type", text("image")), ("content", text("https://example.com/big.png"))]),
            ]),
        ),
    ])];
    l.places = vec![object(vec![
        ("background", object(vec![("image", text("office")), ("external", Json::Bool(false))])),
        (
            "background_objects",
            Json::Array(vec![
                object(vec![("image", text("https://example.com/desk.png")), ("external", number(1))]),
                object(vec![("image", text("chair")), ("external", number(0))]),
            ]),
        ),
        ("foreground_objects", Json::Array(Vec::new())),
    ])];
    l.popups = vec![object(vec![("path", text("objection")), ("external", Json::Bool(false))])];
    l.music = vec![object(vec![("path", text("https://example.com/theme.ogg")), ("external", Json::Bool(true))])];
    l.sounds = vec![object(vec![("path", text("slam")), ("external", Json::Bool(false))])];
    l.frames = vec![frame(0, vec![number(0), object(vec![("profile_id", number(1)), ("sprite_id", number(-3))])])];
    let out = AssetDownloader::collect_cases(vec![case(5, "Kinds", l)], &mut site, "out", false, false).unwrap();
    let all = urls(&out.downloads[0]);
    assert_eq!(
        all[..all.len() - VOICES],
        [
            // The default sprite that the frame shows, with its startup animation.
            "https://aaonline.fr/pictures/talking/Phoenix/3.gif",
            "https://aaonline.fr/pictures/still/Phoenix/3.gif",
            "https://aaonline.fr/pictures/startup/Phoenix/3.gif",
            // The profile: the icon that goes with its base, and its custom sprite.
            "https://aaonline.fr/pictures/icons/Phoenix.png",
            "https://example.com/talk.gif",
            // The evidence: its icon, and what its check buttons show.
            "https://example.com/badge.png",
            "https://example.com/big.png",
            // The place: its background, and the object that is hosted elsewhere.
            "https://aaonline.fr/pictures/backgrounds/office.jpg",
            "https://example.com/desk.png",
            "https://aaonline.fr/pictures/popups/objection.gif",
            "https://example.com/theme.ogg",
            "https://aaonline.fr/sounds/slam.mp3",
        ]
    );
    let refs = |url: &str| -> Vec<String> {
        with_url(&out.downloads[0], url)[0].json_refs().iter().map(|r| r.pointer.clone()).collect()
    };
    assert_eq!(refs("https://example.com/talk.gif"), vec!["/profiles/1/custom_sprites/0/talking"]);
    assert_eq!(refs("https://example.com/big.png"), vec!["/evidence/1/check_button_data/1/content"]);
    assert_eq!(refs("https://example.com/desk.png"), vec!["/places/1/background_objects/0/image"]);
    assert_eq!(refs("https://aaonline.fr/pictures/backgrounds/office.jpg"), vec!["/places/1/background/image"]);
    assert_eq!(refs("https://aaonline.fr/sounds/slam.mp3"), vec!["/sounds/1/path"]);
    // The data is marked for the player.
    let data = &out.cases[0].case_data;
    assert_eq!(data.items_of("popups").unwrap()[1].flag_of("external"), Some(true));
    assert_eq!(data.items_of("sounds").unwrap()[1].flag_of("external"), Some(true));
    assert_eq!(
        data.items_of("profiles").unwrap()[1].text_of("icon"),
        Some("pictures/icons/Phoenix.png".to_string())
    );
    assert_eq!(
        data.items_of("places").unwrap()[1].get("background").unwrap().flag_of("external"),
        Some(true)
    );
}

#[test]
fn place_that_shows_a_colour_only_is_passed_over() {
    let mut site = site_data(Vec::new());
    let mut l = empty_lists();
    l.places = vec![object(vec![
        ("background", object(vec![("colour", text("#000000"))])),
        ("background_objects", Json::Array(Vec::new())),
        ("foreground_objects", Json::Array(Vec::new())),
    ])];
    let out = AssetDownloader::collect_cases(vec![case(1, "Colour", l)], &mut site, "out", false, false).unwrap();
    assert_eq!(out.downloads[0].len(), VOICES);
    let place = &out.cases[0].case_data.items_of("places").unwrap()[1];
    assert!(!place.get("background").unwrap().contains_key("external"));
}

#[test]
fn object_that_is_not_hosted_elsewhere_is_passed_over() {
    let mut site = site_data(Vec::new());
    let mut l = empty_lists();
    l.places = vec![object(vec![
        ("background", object(vec![("colour", text("#000000"))])),
        ("background_objects", Json::Array(vec![object(vec![("image", text("chair")), ("external", number(0))])])),
        ("foreground_objects", Json::Array(vec![object(vec![("image", text("plant"))])])),
    ])];
    let out = AssetDownloader::collect_cases(vec![case(1, "Objects", l)], &mut site, "out", false, false).unwrap();
    assert_eq!(out.downloads[0].len(), VOICES);
}

#[test]
fn asset_without_address_is_passed_over() {
    let mut site = site_data(Vec::new());
    let mut l = empty_lists();
    l.music = vec![object(vec![("path", text("")), ("external", Json::Bool(true))])];
    l.sounds = vec![object(vec![("path", text("  ")), ("external", Json::Bool(false))])];
    let out = AssetDownloader::collect_cases(vec![case(1, "Nothing", l)], &mut site, "out", false, false).unwrap();
    assert_eq!(out.downloads[0].len(), VOICES);
}

#[test]
fn flag_that_is_no_boolean_is_refused() {
    let mut site = site_data(Vec::new());
    let mut l = empty_lists();
    l.music = vec![object(vec![("path", text("theme")), ("external", number(1))])];
    let r = AssetDownloader::collect_cases(vec![case(1, "Flag", l)], &mut site, "out", false, false);
    assert_eq!(r.err(), Some(CollectError::ExternalMustBeBool));
}

#[test]
fn objects_that_are_no_array_are_refused() {
    let mut site = site_data(Vec::new());
    let mut l = empty_lists();
    l.places = vec![object(vec![
        ("background", object(vec![("colour", text("#000000"))])),
        ("background_objects", text("none")),
        ("foreground_objects", Json::Array(Vec::new())),
    ])];
    let r = AssetDownloader::collect_cases(vec![case(1, "Objects", l)], &mut site, "out", false, false);
    assert_eq!(r.err(), Some(CollectError::ObjectsMustBeArray));
}

#[test]
fn data_without_a_list_is_refused() {
    let mut site = site_data(Vec::new());
    let mut c = case(1, "Broken", empty_lists());
    c.case_data = object(vec![("frames", list(Vec::new())), ("profiles", list(Vec::new()))]);
    let r = AssetDownloader::collect_cases(vec![c], &mut site, "out", false, false);
    assert_eq!(r.err(), Some(CollectError::Malformed));
}

fn scene_with_locks(count: usize) -> Json {
    object(vec![(
        "dialogues",
        Json::Array(vec![object(vec![(
            "locks",
            object(vec![("locks_to_display", Json::Array((0..count).map(|_| Json::Null).collect()))]),
        )])]),
    )])
}

#[test]
fn psyche_locks_are_collected_with_their_copies() {
    let mut site = site_data(Vec::new());
    let mut l = empty_lists();
    l.scenes = vec![scene_with_locks(1), scene_with_locks(3)];
    let out = AssetDownloader::collect_cases(vec![case(1, "Locks", l)], &mut site, "out", false, false).unwrap();
    let all = urls(&out.downloads[0]);
    assert_eq!(
        all[VOICES..],
        [
            "https://aaonline.fr/pictures/locks/fg_chains_appear.gif",
            "https://aaonline.fr/pictures/locks/jfa_lock_appears.gif",
            "https://aaonline.fr/pictures/locks/jfa_lock_explodes.gif",
            "https://aaonline.fr/pictures/locks/fg_chains_disappear.gif",
        ]
    );
    // The files are named at once, since their copies stand beside them.
    let appears = &out.downloads[0][VOICES + 1];
    let url = "https://aaonline.fr/pictures/locks/jfa_lock_appears.gif";
    let path = format!("out/assets/jfa_lock_appears-{}.gif", hash_of(url));
    assert_eq!(appears.path(), Some(path.as_str()));
    assert_eq!(out.links[0].len(), 4);
    let plan = &out.links[0][1];
    assert_eq!(plan.name, "jfa_lock_appears");
    assert_eq!(plan.original_path, path);
    assert_eq!(
        plan.targets,
        vec![
            "out/assets/jfa_lock_appears_1.gif",
            "out/assets/jfa_lock_appears_2.gif",
            "out/assets/jfa_lock_appears_3.gif",
        ]
    );
    assert_eq!(out.links[0][0].name, "fg_chains_appear");
    assert_eq!(out.links[0][2].name, "jfa_lock_explodes");
    assert_eq!(out.links[0][3].name, "fg_chains_disappear");
}

#[test]
fn psyche_locks_in_a_single_file_have_no_copies() {
    let mut site = site_data(Vec::new());
    let mut l = empty_lists();
    l.scenes = vec![scene_with_locks(2)];
    let out = AssetDownloader::collect_cases(vec![case(1, "Locks", l)], &mut site, "out", true, false).unwrap();
    assert_eq!(out.downloads[0].len(), VOICES + 4);
    assert_eq!(out.downloads[0][VOICES + 1].path(), None);
    assert!(out.links[0].is_empty());
    assert_eq!(out.asset_dirs, vec![None]);
}

#[test]
fn copies_of_a_lock_file_are_numbered() {
    let plan = plan_links("out/assets/jfa_lock_appears-77.gif", "jfa_lock_appears", 3);
    assert_eq!(plan.name, "jfa_lock_appears");
    assert_eq!(plan.original_path, "out/assets/jfa_lock_appears-77.gif");
    assert_eq!(plan.original_name, "jfa_lock_appears-77.gif");
    assert_eq!(
        plan.targets,
        vec![
            "out/assets/jfa_lock_appears_1.gif",
            "out/assets/jfa_lock_appears_2.gif",
            "out/assets/jfa_lock_appears_3.gif",
        ]
    );
}

#[test]
fn written_back_path_needs_a_settled_path_and_a_known_place() {
    let mut site = site_data(Vec::new());
    let mut cases = vec![case(1, "A", empty_lists())];
    let mut asset = AssetDownload::new(
        "https://example.com/a.png".to_string(),
        aaoffline::download::JsonReference::for_case(1, "/evidence/0".to_string()),
        "A".to_string(),
        "out".to_string(),
    );
    assert_eq!(rewrite_data(&asset, &mut cases, &mut site), Err(RewriteError::PathNotSettled));
    asset.settle("assets/a.png".to_string()).unwrap();
    assert_eq!(rewrite_data(&asset, &mut cases, &mut site), Ok(()));
    assert_eq!(cases[0].case_data.items_of("evidence").unwrap()[0].as_str(), Some("assets/a.png"));

    let mut other = AssetDownload::new(
        "https://example.com/a.png".to_string(),
        aaoffline::download::JsonReference::for_case(2, "/evidence/0".to_string()),
        "B".to_string(),
        "out".to_string(),
    );
    other.settle("assets/a.png".to_string()).unwrap();
    assert_eq!(rewrite_data(&other, &mut cases, &mut site), Err(RewriteError::UnknownCase(2)));

    let mut nowhere = AssetDownload::new(
        "https://example.com/a.png".to_string(),
        aaoffline::download::JsonReference::for_case(1, "/evidence/5/icon".to_string()),
        "A".to_string(),
        "out".to_string(),
    );
    nowhere.settle("assets/a.png".to_string()).unwrap();
    assert_eq!(rewrite_data(&nowhere, &mut cases, &mut site), Err(RewriteError::BadPointer));

    let mut place = AssetDownload::new(
        "https://example.com/a.png".to_string(),
        aaoffline::download::JsonReference::new(JsonSource::DefaultPlaces, "/4/background/image".to_string()),
        "A".to_string(),
        "out".to_string(),
    );
    place.settle("assets/a.png".to_string()).unwrap();
    assert_eq!(rewrite_data(&place, &mut cases, &mut site), Err(RewriteError::UnknownDefaultPlace));
}

#[test]
fn writing_back_stops_at_the_first_refusal() {
    let mut site = site_data(Vec::new());
    let mut cases = vec![case(1, "A", empty_lists())];
    let request = |pointer: &str, path: Option<&str>| {
        let mut asset = AssetDownload::new(
            "https://example.com/a.png".to_string(),
            aaoffline::download::JsonReference::for_case(1, pointer.to_string()),
            "A".to_string(),
            "out".to_string(),
        );
        if let Some(p) = path {
            asset.settle(p.to_string()).unwrap();
        }
        asset
    };
    let all = vec![
        request("/music/0", Some("assets/first.mp3")),
        request("/sounds/0", None),
        request("/popups/0", Some("assets/third.gif")),
    ];
    assert_eq!(rewrite_collected(&all, &mut cases, &mut site), Err(RewriteError::PathNotSettled));
    assert_eq!(cases[0].case_data.items_of("music").unwrap()[0].as_str(), Some("assets/first.mp3"));
    assert_eq!(cases[0].case_data.items_of("popups").unwrap()[0].as_i64(), Some(0));
    assert_eq!(rewrite_collected(&Vec::new(), &mut cases, &mut site), Ok(()));
}

#[test]
fn default_assets_are_written_back_under_their_keys() {
    let mut site = site_data(Vec::new());
    let mut cases: Vec<Case> = Vec::new();
    let settled = |source: JsonSource, path: &str| {
        let mut asset = AssetDownload::new(
            format!("https://aaonline.fr/{path}"),
            aaoffline::download::JsonReference::new(source, String::new()),
            "A".to_string(),
            "out".to_string(),
        );
        asset.settle(format!("assets/{path}")).unwrap();
        asset
    };
    rewrite_data(&settled(JsonSource::DefaultVoices(2, "mp3".to_string()), "v2.mp3"), &mut cases, &mut site).unwrap();
    rewrite_data(
        &settled(JsonSource::DefaultSprites("Phoenix".to_string(), 3, "talking".to_string()), "3.gif"),
        &mut cases,
        &mut site,
    )
    .unwrap();
    rewrite_data(&settled(JsonSource::PsycheLock("jfa_lock_appears".to_string()), "lock.gif"), &mut cases, &mut site)
        .unwrap();
    rewrite_data(&settled(JsonSource::DefaultVoices(2, "mp3".to_string()), "other.mp3"), &mut cases, &mut site).unwrap();
    let d = &site.default_data;
    assert_eq!(d.default_voice_urls, vec![((2, "mp3".to_string()), "assets/other.mp3".to_string())]);
    assert_eq!(
        d.default_sprite_urls,
        vec![(("Phoenix".to_string(), 3, "talking".to_string()), "assets/3.gif".to_string())]
    );
    assert_eq!(d.psyche_lock_urls, vec![("jfa_lock_appears".to_string(), "assets/lock.gif".to_string())]);
}

#[test]
fn more_locks_than_can_be_counted_are_refused() {
    let mut site = site_data(Vec::new());
    let mut l = empty_lists();
    l.scenes = vec![scene_with_locks(255)];
    let out = AssetDownloader::collect_cases(vec![case(1, "Many", l)], &mut site, "out", false, false).unwrap();
    assert_eq!(out.links[0][0].targets.len(), 255);
    let mut l = empty_lists();
    l.scenes = vec![scene_with_locks(256)];
    let r = AssetDownloader::collect_cases(vec![case(1, "Too many", l)], &mut site, "out", false, false);
    assert_eq!(r.err(), Some(CollectError::TooManyLocks));
}

#[test]
fn first_case_that_fails_stops_the_collection() {
    let mut site = site_data(Vec::new());
    let mut broken = empty_lists();
    broken.music = vec![object(vec![("path", text("theme")), ("external", text("yes"))])];
    let mut worse = case(3, "Worse", empty_lists());
    worse.case_data = Json::Null;
    let cases = vec![case(1, "Fine", empty_lists()), case(2, "Broken", broken), worse];
    let r = AssetDownloader::collect_cases(cases, &mut site, "out", false, false);
    assert_eq!(r.err(), Some(CollectError::ExternalMustBeBool));
}

#[test]
fn steps_of_a_collection_can_be_taken_one_by_one() {
    let site = site_data(Vec::new());
    let mut d = AssetDownloader::new("out".to_string(), &site, false, false);
    d.collector.set_target_case_title("Steps".to_string());
    let mut l = empty_lists();
    l.evidence = vec![evidence("gavel", false)];
    l.popups = vec![object(vec![("path", text("objection")), ("external", Json::Bool(false))])];
    let data = case(1, "Steps", l).case_data;
    let data = d.collect_evidence(data, &site.site_paths, 1).unwrap();
    let data = d.collect_popups(data, &site.site_paths, 1).unwrap();
    let data = d.collect_music(data, &site.site_paths, 1).unwrap();
    let data = d.collect_sounds(data, &site.site_paths, 1).unwrap();
    d.collect_voices(&site.site_paths).unwrap();
    assert_eq!(d.collect_psyche_locks(&data, &site).map(|l| l.len()), Ok(0));
    assert_eq!(
        urls(d.collector.collected())[..2],
        [
            "https://aaonline.fr/pictures/evidence/gavel.png",
            "https://aaonline.fr/pictures/popups/objection.gif",
        ]
    );
    assert_eq!(d.collector.collected().len(), 2 + VOICES);
    assert_eq!(d.set_output("out/next".to_string()), Some("out/next/assets".to_string()));
    assert_eq!(d.collector.output(), "out/next");
}

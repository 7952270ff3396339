use aaoffline::assets::AssetRequest;
use aaoffline::collector::{AssetCollector, CollectError};
use aaoffline::download::{AssetDownload, JsonReference, JsonSource, PathAlreadySettled};
use aaoffline::json::Json;
use std::collections::hash_map::DefaultHasher;
use std::hash::{Hash, Hasher};

const ICON: &str = "https://aaonline.fr/uploads/icon/default.png";

fn hash_of(url: &str) -> u64 {
    let mut hasher = DefaultHasher::new();
    url.hash(&mut hasher);
    hasher.finish()
}

fn collector() -> AssetCollector {
    let mut c = AssetCollector::new(ICON.to_string(), "out".to_string(), false);
    c.set_target_case_title("The First Turnabout".to_string());
    c
}

fn site_file(file: &str, dirs: &[&str], pointer: &str) -> AssetRequest {
    AssetRequest {
        file: Some(file.to_string()),
        components: Some(dirs.iter().map(|d| d.to_string()).collect()),
        external: Some(false),
        default_ext: Some("png".to_string()),
        json_ref: JsonReference::for_case(1, pointer.to_string()),
        early: false,
    }
}

fn outside_file(file: &str, pointer: &str) -> AssetRequest {
    AssetRequest {
        file: Some(file.to_string()),
        components: None,
        external: Some(true),
        default_ext: Some("gif".to_string()),
        json_ref: JsonReference::for_case(1, pointer.to_string()),
        early: false,
    }
}

fn pointers(asset: &AssetDownload) -> Vec<String> {
    asset.json_refs().iter().map(|r| r.pointer.clone()).collect()
}

#[test]
fn same_asset_from_two_places_is_one_request_with_two_references() {
    let mut c = collector();
    let first = c.collect(site_file("gavel.png", &["uploads", "evidence"], "/evidence/1/icon"));
    let second = c.collect(site_file("gavel.png", &["uploads", "evidence"], "/evidence/4/icon"));
    assert_eq!(first, Ok(Some(0)));
    assert_eq!(second, Ok(Some(0)));
    assert_eq!(c.collected().len(), 1);
    let asset = &c.collected()[0];
    assert_eq!(asset.url(), "https://aaonline.fr/uploads/evidence/gavel.png");
    assert_eq!(pointers(asset), vec!["/evidence/1/icon", "/evidence/4/icon"]);
    assert_eq!(asset.case_title(), "The First Turnabout");
    assert_eq!(asset.output_path(), "out");
    assert_eq!(asset.path(), None);
}

#[test]
fn same_reference_twice_is_kept_once() {
    let mut c = collector();
    c.collect(site_file("gavel.png", &["uploads", "evidence"], "/evidence/1/icon")).unwrap();
    c.collect(site_file("gavel.png", &["uploads", "evidence"], "/evidence/1/icon")).unwrap();
    assert_eq!(c.collected().len(), 1);
    assert_eq!(pointers(&c.collected()[0]), vec!["/evidence/1/icon"]);
}

#[test]
fn same_url_below_another_output_is_another_request() {
    let mut c = collector();
    c.collect(site_file("gavel.png", &["uploads", "evidence"], "/evidence/1/icon")).unwrap();
    c.set_output("out/other".to_string());
    let place = c.collect(site_file("gavel.png", &["uploads", "evidence"], "/evidence/1/icon"));
    assert_eq!(place, Ok(Some(1)));
    assert_eq!(c.collected().len(), 2);
    assert_eq!(c.collected()[1].output_path(), "out/other");
}

#[test]
fn different_assets_are_different_requests() {
    let mut c = collector();
    assert_eq!(c.collect(site_file("a.png", &["p"], "/evidence/1/icon")), Ok(Some(0)));
    assert_eq!(c.collect(site_file("b.png", &["p"], "/evidence/2/icon")), Ok(Some(1)));
    assert_eq!(c.collect(site_file("a.png", &["p"], "/evidence/3/icon")), Ok(Some(0)));
    assert_eq!(c.collected().len(), 2);
    assert!(c.find_by_url("https://aaonline.fr/p/b.png").is_some());
    assert!(c.find_by_url("https://aaonline.fr/p/c.png").is_none());
}

#[test]
fn settled_path_stays_when_the_asset_is_collected_again() {
    let mut c = collector();
    let mut early = site_file("lock.gif", &["uploads", "locks"], "");
    early.early = true;
    assert_eq!(c.collect(early), Ok(Some(0)));
    let path = c.collected()[0].path().map(str::to_string);
    let url = "https://aaonline.fr/uploads/locks/lock.gif";
    assert_eq!(path, Some(format!("out/assets/lock-{}.gif", hash_of(url))));
    // Collecting the asset again leaves the path as it is.
    assert_eq!(c.collect(site_file("lock.gif", &["uploads", "locks"], "/x")), Ok(Some(0)));
    assert_eq!(c.collected()[0].path().map(str::to_string), path);
    assert_eq!(c.collected()[0].json_refs().len(), 2);
    // Settling it a second time is refused, and changes nothing.
    let mut again = site_file("lock.gif", &["uploads", "locks"], "/y");
    again.early = true;
    assert_eq!(c.collect(again), Err(CollectError::PathAlreadySettled));
    assert_eq!(c.collected()[0].path().map(str::to_string), path);
    assert_eq!(c.collected()[0].json_refs().len(), 2);
}

#[test]
fn path_of_a_request_is_written_once() {
    let mut asset = AssetDownload::new(
        "https://example.com/a.png".to_string(),
        JsonReference::for_case(1, "/a".to_string()),
        "Case".to_string(),
        "out".to_string(),
    );
    assert_eq!(asset.path(), None);
    assert_eq!(asset.settle("assets/a-1.png".to_string()), Ok(()));
    assert_eq!(asset.path(), Some("assets/a-1.png"));
    assert_eq!(asset.settle("assets/other.png".to_string()), Err(PathAlreadySettled));
    assert_eq!(asset.path(), Some("assets/a-1.png"));
}

#[test]
fn references_of_a_request_are_kept_once_each() {
    let mut asset = AssetDownload::new(
        "https://example.com/a.png".to_string(),
        JsonReference::for_case(1, "/a".to_string()),
        "Case".to_string(),
        "out".to_string(),
    );
    asset.add_reference(JsonReference::for_case(1, "/a".to_string()));
    asset.add_reference(JsonReference::for_case(2, "/a".to_string()));
    asset.add_reference(JsonReference::new(JsonSource::DefaultPlaces, "/a".to_string()));
    asset.add_reference(JsonReference::for_case(2, "/a".to_string()));
    assert_eq!(asset.json_refs().len(), 3);
    assert!(asset.is_for("https://example.com/a.png", "out"));
    assert!(!asset.is_for("https://example.com/a.png", "out2"));
    assert!(!asset.is_for("https://example.com/b.png", "out"));
}

#[test]
fn asset_without_a_name_is_passed_over() {
    let mut c = collector();
    assert_eq!(c.collect(site_file("", &["uploads"], "/evidence/1/icon")), Ok(None));
    assert_eq!(c.collect(site_file("   ", &["uploads"], "/evidence/1/icon")), Ok(None));
    assert_eq!(c.collected().len(), 0);
}

#[test]
fn field_without_text_asks_for_the_default_icon() {
    let mut c = collector();
    let place = c.collect_download(
        &Json::Null,
        None,
        Some(true),
        Some("png"),
        JsonReference::for_case(1, "/profiles/1/icon".to_string()),
        false,
    );
    assert_eq!(place, Ok(Some(0)));
    assert_eq!(c.collected()[0].url(), ICON);
}

#[test]
fn address_is_made_from_the_kind_of_asset() {
    let mut c = collector();
    // A file of the site below its directories, with the usual extension.
    c.collect(site_file("gavel", &["uploads", "evidence"], "/1")).unwrap();
    assert_eq!(c.collected()[0].url(), "https://aaonline.fr/uploads/evidence/gavel.png");
    // An address elsewhere, as it stands.
    c.collect(outside_file(" https://example.com/img/phoenix ", "/2")).unwrap();
    assert_eq!(c.collected()[1].url(), "https://example.com/img/phoenix");
    // What is called external and is no address lies right below the site.
    c.collect(outside_file("uploads/sprites/x.gif", "/3")).unwrap();
    assert_eq!(c.collected()[2].url(), "https://aaonline.fr/uploads/sprites/x.gif");
    // Without extension, such a file gets the usual one.
    c.collect(outside_file("uploads/sprites/y", "/4")).unwrap();
    assert_eq!(c.collected()[3].url(), "https://aaonline.fr/uploads/sprites/y.gif");
    // Runs of slashes are made one.
    c.collect(site_file("/z.png", &["uploads/", "evidence"], "/5")).unwrap();
    assert_eq!(c.collected()[4].url(), "https://aaonline.fr/uploads/evidence/z.png");
}

#[test]
fn site_asset_without_directories_is_refused() {
    let mut c = collector();
    let mut request = site_file("gavel.png", &[], "/1");
    request.components = None;
    assert_eq!(c.collect(request), Err(CollectError::MissingComponents));
    assert_eq!(c.collected().len(), 0);
}

#[test]
fn asset_before_the_case_is_named_is_refused() {
    let mut c = AssetCollector::new(ICON.to_string(), "out".to_string(), false);
    assert_eq!(
        c.collect(site_file("gavel.png", &["uploads"], "/1")),
        Err(CollectError::NoCaseTitle)
    );
}

#[test]
fn list_is_collected_in_order_and_stops_at_a_refusal() {
    let mut c = collector();
    let requests = vec![
        site_file("a.png", &["p"], "/1"),
        site_file("", &["p"], "/2"),
        site_file("b.png", &["p"], "/3"),
        site_file("a.png", &["p"], "/4"),
    ];
    assert_eq!(c.collect_list(requests), Ok(()));
    assert_eq!(c.collected().len(), 2);
    assert_eq!(pointers(&c.collected()[0]), vec!["/1", "/4"]);
    assert_eq!(pointers(&c.collected()[1]), vec!["/3"]);
}

#[test]
fn drain_hands_out_what_was_collected() {
    let mut c = collector();
    c.collect(site_file("a.png", &["p"], "/1")).unwrap();
    c.collect(site_file("b.png", &["p"], "/2")).unwrap();
    let drained = c.drain();
    assert_eq!(drained.len(), 2);
    assert_eq!(drained[0].url(), "https://aaonline.fr/p/a.png");
    assert_eq!(c.collected().len(), 0);
    assert_eq!(c.output(), "out");
}

#[test]
fn local_path_holds_the_name_and_the_hash_of_the_address() {
    let url = "https://example.com/My%20Image.PNG?x=1";
    let path = AssetCollector::new_path("out", url, "My%20Image.PNG", false);
    assert_eq!(path, Ok(format!("out/assets/my image-{}.PNG", hash_of(url))));
    // Two addresses with one file name get two local files.
    let a = AssetCollector::new_path("out", "https://a.example/x.png", "x.png", false).unwrap();
    let b = AssetCollector::new_path("out", "https://b.example/x.png", "x.png", false).unwrap();
    assert_ne!(a, b);
    // And one address gets the same file each time.
    assert_eq!(AssetCollector::new_path("out", "https://a.example/x.png", "x.png", false).unwrap(), a);
}

#[test]
fn local_path_of_a_name_without_extension_ends_in_bin() {
    let url = "https://example.com/download";
    assert_eq!(
        AssetCollector::new_path("", url, "download", false),
        Ok(format!("assets/download-{}.bin", hash_of(url)))
    );
}

#[test]
fn local_name_is_cleaned() {
    let url = "https://example.com/a";
    let path = AssetCollector::new_path("out", url, "wh%3Fat%25.gif", false).unwrap();
    assert_eq!(path, format!("out/assets/what--{}.gif", hash_of(url)));
}

#[test]
fn place_below_a_place() {
    let base = JsonReference::new(JsonSource::DefaultPlaces, "/7".to_string());
    let below = base.concat_path("background/image");
    assert_eq!(below.pointer, "/7/background/image");
    assert!(matches!(below.source, JsonSource::DefaultPlaces));
    assert!(below.same(&below.duplicate()));
    assert!(!below.same(&base));
    assert!(!JsonReference::for_case(1, "/7".to_string()).same(&base));
    assert!(JsonSource::DefaultVoices(1, "mp3".to_string()).same(&JsonSource::DefaultVoices(1, "mp3".to_string())));
    assert!(!JsonSource::DefaultVoices(1, "mp3".to_string()).same(&JsonSource::DefaultVoices(1, "wav".to_string())));
    assert!(!JsonSource::PsycheLock("a".to_string()).same(&JsonSource::CaseData(1)));
}

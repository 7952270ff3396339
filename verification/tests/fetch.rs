use aaoffline::args::HttpHandling;
use aaoffline::download::{AssetDownload, JsonReference};
use aaoffline::fetch::{
    download_target, handle_asset_error, last_part_of, place_download, remove_query, Download,
    InsecureBlocked, PlaceError,
};
use std::collections::hash_map::DefaultHasher;
use std::hash::{Hash, Hasher};

fn hash_of(url: &str) -> u64 {
    let mut hasher = DefaultHasher::new();
    url.hash(&mut hasher);
    hasher.finish()
}

fn download(path: &str, content: &[u8], content_type: Option<&str>, disposition: Option<&str>) -> Download {
    Download {
        target_url: format!("https://example.com{path}"),
        url_path: path.to_string(),
        content: content.to_vec(),
        content_type_header: content_type.map(str::to_string),
        content_disposition: disposition.map(str::to_string),
    }
}

fn request() -> AssetDownload {
    AssetDownload::new(
        "https://example.com/img/gavel".to_string(),
        JsonReference::for_case(1, "/evidence/1/icon".to_string()),
        "Case".to_string(),
        "out/Case_1".to_string(),
    )
}

const PNG: [u8; 8] = [0x89, b'P', b'N', b'G', 0x0d, 0x0a, 0x1a, 0x0a];

#[test]
fn insecure_address_is_handled_as_asked() {
    assert_eq!(download_target("http://a.example/x", HttpHandling::AllowInsecure), Ok("http://a.example/x".to_string()));
    assert_eq!(download_target("http://a.example/x", HttpHandling::RedirectToHttps), Ok("https://a.example/x".to_string()));
    assert_eq!(download_target("http://a.example/x", HttpHandling::Disallow), Err(InsecureBlocked));
    for handling in [HttpHandling::AllowInsecure, HttpHandling::RedirectToHttps, HttpHandling::Disallow] {
        assert_eq!(download_target("https://a.example/x", handling), Ok("https://a.example/x".to_string()));
        assert_eq!(download_target("//CSS/main.css", handling), Ok("https://aaonline.fr/CSS/main.css".to_string()));
        assert_eq!(download_target("Languages/en/a.js", handling), Ok("https://aaonline.fr/Languages/en/a.js".to_string()));
        assert_eq!(download_target("", handling), Ok("https://aaonline.fr/".to_string()));
    }
}

#[test]
fn content_is_text_where_it_is_text() {
    assert_eq!(download("/a", "héllo".as_bytes(), None, None).content_str(), Some("héllo".to_string()));
    assert_eq!(download("/a", &[0xff, 0x00], None, None).content_str(), None);
    assert_eq!(download("/a", &[], None, None).content_str(), Some(String::new()));
}

#[test]
fn type_is_read_from_the_header_or_from_the_content() {
    let d = download("/a", &PNG, Some("image/gif; charset=binary"), None);
    assert_eq!(d.content_type(), Some("image/gif".to_string()));
    assert_eq!(d.mime_type(), Some("image/gif".to_string()));
    let d = download("/a", &PNG, None, None);
    assert_eq!(d.content_type(), None);
    assert_eq!(d.mime_type(), Some("image/png".to_string()));
    let d = download("/a", b"plain words", None, None);
    assert_eq!(d.mime_type(), None);
}

#[test]
fn content_becomes_a_data_url() {
    assert_eq!(
        download("/a", &PNG, None, None).make_data_url(),
        "data:image/png;base64,iVBORw0KGgo="
    );
    assert_eq!(
        download("/a", b"hi", Some("text/plain; charset=utf-8"), None).make_data_url(),
        "data:text/plain;base64,aGk="
    );
    assert_eq!(
        download("/a", b"plain words", None, None).make_data_url(),
        "data:application/octet-stream;base64,cGxhaW4gd29yZHM="
    );
    assert_eq!(download("/a", &[], Some("image/gif"), None).make_data_url(), "data:image/gif;base64,");
}

#[test]
fn name_is_taken_from_the_header_or_from_the_address() {
    let named = download("/img/get.php", &PNG, None, Some("attachment; filename=\"gavel.png\""));
    assert_eq!(named.filename(), "gavel.png");
    assert_eq!(download("/img/gavel.png", &PNG, None, Some("inline")).filename(), "gavel.png");
    assert_eq!(download("/img/gavel.png?size=2", &PNG, None, None).filename(), "gavel.png");
    // A name without extension gets the one that suits the content.
    assert_eq!(download("/img/gavel", &PNG, None, None).filename(), "gavel.png");
    assert_eq!(download("/img/theme", b"x", Some("image/gif"), None).filename(), "theme.gif");
    assert_eq!(download("/img/unknown", b"x", None, None).filename(), "unknown");
    assert_eq!(download("/img/", b"x", None, None).filename(), "");
}

#[test]
fn last_part_and_query() {
    assert_eq!(last_part_of("/a/b/c.png"), "c.png");
    assert_eq!(last_part_of("c.png"), "c.png");
    assert_eq!(last_part_of("/a/b/"), "");
    assert_eq!(remove_query("a.png?x=1&y=2"), "a.png");
    assert_eq!(remove_query("a.png"), "a.png");
    assert_eq!(remove_query("?x"), "");
}

#[test]
fn download_is_placed_below_the_output_of_its_request() {
    let mut asset = request();
    let d = download("/img/gavel", &PNG, None, None);
    let written = place_download(&mut asset, &d, false, false).unwrap();
    let name = format!("gavel-{}.png", hash_of("https://example.com/img/gavel"));
    assert_eq!(written, Some(format!("out/Case_1/assets/{name}")));
    assert_eq!(asset.path(), Some(format!("assets/{name}").as_str()));
}

#[test]
fn download_for_a_settled_request_goes_to_the_settled_path() {
    let mut asset = request();
    asset.settle("out/Case_1/assets/lock.gif".to_string()).unwrap();
    let d = download("/img/other.gif", &PNG, None, None);
    assert_eq!(place_download(&mut asset, &d, false, false), Ok(Some("out/Case_1/assets/lock.gif".to_string())));
    assert_eq!(asset.path(), Some("out/Case_1/assets/lock.gif"));
}

#[test]
fn download_for_a_single_file_becomes_its_data_url() {
    let mut asset = request();
    let d = download("/img/gavel", &PNG, None, None);
    assert_eq!(place_download(&mut asset, &d, true, false), Ok(None));
    assert_eq!(asset.path(), Some("data:image/png;base64,iVBORw0KGgo="));
    assert_eq!(place_download(&mut asset, &d, true, false), Err(PlaceError::PathAlreadySettled));
    assert_eq!(asset.path(), Some("data:image/png;base64,iVBORw0KGgo="));
}

#[test]
fn asset_error_names_the_case() {
    assert_eq!(
        handle_asset_error("timed out", Some("My Case"), true),
        "Could not download asset for case My Case: timed out (continuing anyway)"
    );
    assert_eq!(
        handle_asset_error("timed out", None, false),
        "Could not download asset for case [UNKNOWN CASE]: timed out (set --continue-on-asset-error to ignore this)"
    );
}

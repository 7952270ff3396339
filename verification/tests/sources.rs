use aaoffline::fetch::Download;
use aaoffline::inlining::{
    apply_transformations, css_source_transformations, image_transformations,
    lock_transformations, make_redirection_js, plan_css_sources, redirection_transformation,
    retrieve_player_misc_sources,
};
use aaoffline::json::Json;
use aaoffline::site::DefaultData;
use aaoffline::sources::{
    make_lock_address, make_sprite_js, make_voice_js, plan_fetches, read_language_files,
    regex_for_both, Fetch, FetchKind, MiscError, PlayerTransformation, TransformationTarget,
};

const PLAYER: &str = "<html><head><link rel=\"stylesheet\" type=\"text/css\" href=\"CSS/main.css\" />\
<script>track('UA-1234');</script></head><body><img src=\"img/logo.png\"><img src=\"data:image/gif;base64,AA==\"></body></html>";

const SCRIPTS: &str = "var lang = new Object();\n\
Languages.requestFiles(['player', 'common'], function(){\n\tstart();\n});\n\
includeStyle('player');\n\
function getVoiceUrl(voice_id, ext) {return site;}\n\
function getDefaultSpriteUrl(base, sprite_id, status) {return site;}\n\
translateNode(images_loading_label);\n";

fn download(content: &[u8], content_type: &str) -> Option<Download> {
    Some(Download {
        target_url: "https://aaonline.fr/file".to_string(),
        url_path: "/file".to_string(),
        content: content.to_vec(),
        content_type_header: Some(content_type.to_string()),
        content_disposition: None,
    })
}

fn defaults() -> DefaultData {
    let mut data = DefaultData::new(Vec::new(), Vec::<(i64, Json)>::new());
    data.default_voice_urls = vec![((1, "mp3".to_string()), "assets/v1.mp3".to_string())];
    data
}

fn described(fetches: &[Fetch]) -> Vec<(FetchKind, String, TransformationTarget, String)> {
    fetches.iter().map(|f| (f.kind, f.url.clone(), f.target, f.note.clone())).collect()
}

fn results() -> Vec<Option<Download>> {
    vec![
        download(b"body{background:url(\"bg.png\")}", "text/css"),
        download(b"h1{}", "text/css"),
        download(b"{\"a\":\"1\",\"deep\":{\"x\":1}}", "application/javascript"),
        download(b"{\"b\":\"2\",\"deep\":{\"y\":2}}", "application/javascript"),
        download(&[0x89, b'P', b'N', b'G'], "image/png"),
    ]
}

#[test]
fn fetches_are_planned_in_the_order_of_their_kinds() {
    let fetches = plan_fetches(PLAYER, SCRIPTS, "Languages", "en", "master").unwrap();
    assert_eq!(
        described(&fetches),
        vec![
            (FetchKind::Css, "CSS/main.css".to_string(), TransformationTarget::Player, String::new()),
            (FetchKind::Style, "CSS/player.css".to_string(), TransformationTarget::Scripts, String::new()),
            (
                FetchKind::Language,
                "Languages/en/player.js".to_string(),
                TransformationTarget::Scripts,
                "player".to_string()
            ),
            (
                FetchKind::Language,
                "Languages/en/common.js".to_string(),
                TransformationTarget::Scripts,
                "common".to_string()
            ),
            (FetchKind::Source, "img/logo.png".to_string(), TransformationTarget::Player, String::new()),
        ]
    );
    // The style sheet gives way as a whole, the source by its address only.
    assert_eq!(&PLAYER[fetches[0].start..fetches[0].end], "<link rel=\"stylesheet\" type=\"text/css\" href=\"CSS/main.css\" />");
    assert_eq!(&SCRIPTS[fetches[1].start..fetches[1].end], "includeStyle('player');");
    assert_eq!(&PLAYER[fetches[4].start..fetches[4].end], "img/logo.png");
}

#[test]
fn sources_of_the_player_are_put_in_place() {
    let fetches = plan_fetches(PLAYER, SCRIPTS, "Languages", "en", "master").unwrap();
    let list = retrieve_player_misc_sources(
        PLAYER,
        SCRIPTS,
        &fetches,
        &results(),
        &defaults(),
        false,
        false,
        &vec![(1, "out/index.html".to_string())],
        "out",
    )
    .unwrap();
    let mut player = PLAYER.to_string();
    let mut scripts = SCRIPTS.to_string();
    assert!(apply_transformations(&mut player, &mut scripts, &list));
    assert_eq!(
        player,
        "<html><head><style>body{background:url(\"bg.png\")}</style>\n<style>h1{}</style></head>\
         <body><img src=\"data:image/png;base64,iVBORw==\"><img src=\"data:image/gif;base64,AA==\"></body></html>"
    );
    assert_eq!(
        scripts,
        "var lang = {\"a\":\"1\",\"b\":\"2\",\"deep\":{\"x\":1,\"y\":2}};\n\
         Languages.requestFiles([], function(){\n\t\n});start();\n\
         function getVoiceUrl(voice_id, ext) {if (-voice_id === 1 && ext === 'mp3') return 'assets/v1.mp3';\n\
         return 'data:audio/wav;base64,'}\n\
         function getDefaultSpriteUrl(base, sprite_id, status) {return 'data:image/gif;base64,'}\n\
         return;\n"
    );

    // Then the sources that the style sheets name are put into the page.
    let named = plan_css_sources(&player).unwrap();
    assert_eq!(
        described(&named),
        vec![(FetchKind::CssSource, "CSS/bg.png".to_string(), TransformationTarget::Player, String::new())]
    );
    let list = css_source_transformations(&named, &vec![download(&[1, 2, 3], "image/png")]).unwrap();
    assert!(apply_transformations(&mut player, &mut scripts, &list));
    assert!(player.starts_with(
        "<html><head><style>body{background:url(\"data:image/png;base64,AQID\")}</style>"
    ));
}

#[test]
fn file_that_could_not_be_fetched_is_passed_over() {
    let fetches = plan_fetches(PLAYER, SCRIPTS, "Languages", "en", "master").unwrap();
    let mut got = results();
    got[0] = None;
    got[4] = None;
    let list = retrieve_player_misc_sources(PLAYER, SCRIPTS, &fetches, &got, &defaults(), false, false, &Vec::new(), "out")
        .unwrap();
    let mut player = PLAYER.to_string();
    let mut scripts = SCRIPTS.to_string();
    assert!(apply_transformations(&mut player, &mut scripts, &list));
    assert_eq!(
        player,
        "<html><head><link rel=\"stylesheet\" type=\"text/css\" href=\"CSS/main.css\" />\n<style>h1{}</style></head>\
         <body><img src=\"img/logo.png\"><img src=\"data:image/gif;base64,AA==\"></body></html>"
    );
}

#[test]
fn missing_file_of_the_language_is_refused() {
    let fetches = plan_fetches(PLAYER, SCRIPTS, "Languages", "en", "master").unwrap();
    let mut got = results();
    got[3] = None;
    let r = retrieve_player_misc_sources(PLAYER, SCRIPTS, &fetches, &got, &defaults(), false, false, &Vec::new(), "out");
    assert_eq!(r.err(), Some(MiscError::LanguageMissing));
    let mut got = results();
    got[2] = download(b"not json", "text/plain");
    let r = retrieve_player_misc_sources(PLAYER, SCRIPTS, &fetches, &got, &defaults(), false, false, &Vec::new(), "out");
    assert_eq!(r.err(), Some(MiscError::BadLanguageFile));
}

#[test]
fn style_sheet_that_is_no_text_is_refused() {
    let fetches = plan_fetches(PLAYER, SCRIPTS, "Languages", "en", "master").unwrap();
    let mut got = results();
    got[0] = download(&[0xff, 0xfe], "text/css");
    let r = retrieve_player_misc_sources(PLAYER, SCRIPTS, &fetches, &got, &defaults(), false, false, &Vec::new(), "out");
    assert_eq!(r.err(), Some(MiscError::NotText));
}

#[test]
fn included_style_needs_a_head() {
    let player = "<html><body></body></html>";
    let fetches = plan_fetches(player, SCRIPTS, "Languages", "en", "master").unwrap();
    assert_eq!(fetches.len(), 3);
    let got = vec![download(b"h1{}", "text/css"), download(b"{}", "text/plain"), download(b"{}", "text/plain")];
    let r = retrieve_player_misc_sources(player, SCRIPTS, &fetches, &got, &defaults(), false, false, &Vec::new(), "out");
    assert_eq!(r.err(), Some(MiscError::NoHead));
}

#[test]
fn scripts_without_language_are_refused() {
    assert_eq!(plan_fetches(PLAYER, "var x;", "Languages", "en", "master").err(), Some(MiscError::NoLanguageInclude));
    assert_eq!(read_language_files("var x;"), Err(MiscError::NoLanguageInclude));
    assert_eq!(
        read_language_files("Languages.requestFiles([player], function(){ go(); });"),
        Err(MiscError::BadLanguageList)
    );
    assert_eq!(
        read_language_files("Languages.requestFiles([1, 2], function(){ go(); });"),
        Err(MiscError::BadLanguageList)
    );
    assert_eq!(
        read_language_files("Languages.requestFiles([\"a\", 'b'], function(){ go(); });"),
        Ok(vec!["a".to_string(), "b".to_string()])
    );
    let without_definition = SCRIPTS.replace("var lang = new Object();", "");
    let fetches = plan_fetches(PLAYER, &without_definition, "Languages", "en", "master").unwrap();
    let r = retrieve_player_misc_sources(
        PLAYER,
        &without_definition,
        &fetches,
        &results(),
        &defaults(),
        false,
        false,
        &Vec::new(),
        "out",
    );
    assert_eq!(r.err(), Some(MiscError::NoLanguageDefinition));
}

const HOWLER: &str = "includeScript('howler.js/howler.min', false, '', function(){setup();});\nvar sound = new Howl({preload: true});\n";

#[test]
fn script_for_sound_is_put_in_with_its_configuration() {
    let scripts = format!("{SCRIPTS}{HOWLER}");
    let fetches = plan_fetches("<head></head>", &scripts, "Languages", "en", "v2").unwrap();
    let howler = fetches.last().unwrap();
    assert_eq!(howler.kind, FetchKind::Howler);
    assert_eq!(
        howler.url,
        "https://bitbucket.org/AceAttorneyOnline/aao-game-creation-engine/raw//v2/Javascript/howler.js/howler.min.js"
    );
    assert_eq!(howler.note, "setup();");
    let got = vec![
        download(b"h1{}", "text/css"),
        download(b"{}", "text/plain"),
        download(b"{}", "text/plain"),
        download(b"var Howl;", "application/javascript"),
    ];
    for (disabled, option) in [(false, "true"), (true, "false")] {
        let list = retrieve_player_misc_sources(
            "<head></head>",
            &scripts,
            &fetches,
            &got,
            &defaults(),
            false,
            disabled,
            &Vec::new(),
            "out",
        )
        .unwrap();
        let mut player = "<head></head>".to_string();
        let mut changed = scripts.clone();
        assert!(apply_transformations(&mut player, &mut changed, &list));
        assert!(changed.ends_with(&format!(
            "var Howl;\nsetup();\nvar sound = new Howl({{preload: true, html5: {option}}});\n"
        )));
    }
    // In a single file, the option is left alone.
    let list = retrieve_player_misc_sources("<head></head>", &scripts, &fetches, &got, &defaults(), true, false, &Vec::new(), "out")
        .unwrap();
    let mut player = "<head></head>".to_string();
    let mut changed = scripts.clone();
    assert!(apply_transformations(&mut player, &mut changed, &list));
    assert!(changed.ends_with("var Howl;\nsetup();\nvar sound = new Howl({preload: true});\n"));
}

#[test]
fn script_for_sound_needs_the_preload_option() {
    let scripts = format!("{SCRIPTS}{}", HOWLER.replace("preload: true", ""));
    let fetches = plan_fetches("<head></head>", &scripts, "Languages", "en", "v2").unwrap();
    let got = vec![
        download(b"h1{}", "text/css"),
        download(b"{}", "text/plain"),
        download(b"{}", "text/plain"),
        download(b"var Howl;", "application/javascript"),
    ];
    let r = retrieve_player_misc_sources("<head></head>", &scripts, &fetches, &got, &defaults(), false, false, &Vec::new(), "out");
    assert_eq!(r.err(), Some(MiscError::NoPreload));
}

#[test]
fn matches_are_found_in_the_page_and_then_in_the_scripts() {
    let found = regex_for_both(r"a(b)?", "xab", "a").unwrap();
    assert_eq!(found.len(), 2);
    assert_eq!(found[0].target, TransformationTarget::Player);
    assert_eq!(found[0].groups, vec![Some((1, 3)), Some((2, 3))]);
    assert_eq!(found[1].target, TransformationTarget::Scripts);
    assert_eq!(found[1].groups, vec![Some((0, 1)), None]);
    assert!(regex_for_both(r"a(", "a", "a").is_none());
}

#[test]
fn voices_and_sprites_answer_with_local_files() {
    assert_eq!(make_voice_js(&Vec::new()), "return 'data:audio/wav;base64,'");
    assert_eq!(
        make_voice_js(&vec![
            ((1, "opus".to_string()), "assets/a.opus".to_string()),
            ((3, "mp3".to_string()), "assets/c.mp3".to_string()),
        ]),
        "if (-voice_id === 1 && ext === 'opus') return 'assets/a.opus';\n\
         if (-voice_id === 3 && ext === 'mp3') return 'assets/c.mp3';\n\
         return 'data:audio/wav;base64,'"
    );
    assert_eq!(make_sprite_js(&Vec::new()), "return 'data:image/gif;base64,'");
    assert_eq!(
        make_sprite_js(&vec![(("Phoenix".to_string(), 3, "talking".to_string()), "assets/3.gif".to_string())]),
        "if (base === 'Phoenix' && sprite_id === 3 && status === 'talking') return 'assets/3.gif';\n\
         return 'data:image/gif;base64,'"
    );
}

#[test]
fn lock_address_names_the_copy_or_the_data() {
    assert_eq!(
        make_lock_address("jfa_lock_appears", " + lock_id", false, None),
        "'assets/jfa_lock_appears_' + lock_id + '.gif'"
    );
    assert_eq!(
        make_lock_address("jfa_lock_appears", " + lock_id", true, Some("data:image/gif;base64,AAAA")),
        "'data:image/gif' + lock_id + ';base64,AAAA'"
    );
    assert_eq!(make_lock_address("jfa_lock_appears", " + lock_id", true, None), "");
}

#[test]
fn lock_images_are_taken_from_local_files() {
    let scripts = "var a = generateImageElement(cfg.picture_dir + cfg.locks_subdir + 'fg_chains_appear.gif?id=' + lock.id);\n\
                   var b = generateImageElement(cfg.picture_dir + cfg.locks_subdir + type + '_appears.gif?id=' + i);\n";
    let captures = regex_for_both(aaoffline::patterns::PSYCHE_LOCK_REGEX, "", scripts).unwrap();
    assert_eq!(captures.len(), 2);
    let list = lock_transformations("", scripts, &Vec::new(), false, &captures).unwrap();
    let mut player = String::new();
    let mut changed = scripts.to_string();
    assert!(apply_transformations(&mut player, &mut changed, &list));
    assert_eq!(
        changed,
        "var a = generateImageElement('assets/fg_chains_appear_' + lock.id + '.gif');\n\
         var b = generateImageElement('assets/jfa_lock_appears_' + i + '.gif');\n"
    );
}

#[test]
fn images_get_a_size_before_they_are_sized() {
    let scripts = "load();\n\telement.style.height = img.height + 'px';\nnext();";
    let list = image_transformations(scripts).unwrap();
    assert_eq!(list.len(), 1);
    let mut player = String::new();
    let mut changed = scripts.to_string();
    assert!(apply_transformations(&mut player, &mut changed, &list));
    assert_eq!(
        changed,
        "load();\nif (img.height == 0) img.height = 192; if (img.width == 0) img.width = 256;\n\n\telement.style.height = img.height + 'px';\nnext();"
    );
    assert_eq!(image_transformations("nothing").map(|l| l.len()), Some(0));
}

#[test]
fn redirection_leads_to_the_local_files() {
    let mapping = vec![(11, "out/A_11/index.html".to_string()), (12, "out/It's_12/index.html".to_string())];
    assert_eq!(
        make_redirection_js("target_id", "save_data=' + data", &mapping, "out", false),
        Some(
            "switch (Number.parseInt(target_id)) {\n\
             case 11: window.location.href = '../A_11/index.html' + '?save_data=' + data;\nbreak;\n\
             case 12: window.location.href = '../It\\'s_12/index.html' + '?save_data=' + data;\nbreak;\n\
             default: window.alert('Target case was not downloaded when this case was written. Please download a sequence of cases together (at once). You can, for example, use `-s every` with aaoffline to do this.');\n}"
                .to_string()
        )
    );
    let single = vec![(11, "out/A_11.html".to_string())];
    let js = make_redirection_js("t", "s", &single, "out", true).unwrap();
    assert!(js.contains("case 11: window.location.href = 'A_11.html' + '?s;\nbreak;\n"));
    assert_eq!(make_redirection_js("t", "s", &single, "elsewhere", true), None);
}

#[test]
fn redirection_in_the_scripts_is_rewritten() {
    let scripts = "go();\nwindow.location.href = '?trial_id=' + next_id + '&save_data=' + save;\nend();";
    let mapping = vec![(17, "out/index.html".to_string())];
    let list = redirection_transformation(scripts, &mapping, "out", true).unwrap();
    let mut player = String::new();
    let mut changed = scripts.to_string();
    assert!(apply_transformations(&mut player, &mut changed, &list));
    assert!(changed.starts_with(
        "go();\nswitch (Number.parseInt(next_id)) {\ncase 17: window.location.href = 'index.html' + '?save_data=' + save;\nbreak;\ndefault: "
    ));
    assert!(changed.ends_with("}\nend();"));
    assert_eq!(redirection_transformation("none", &mapping, "out", true).map(|l| l.len()), Ok(0));
    assert_eq!(
        redirection_transformation(scripts, &mapping, "other", true).err(),
        Some(MiscError::OutputMismatch)
    );
}

#[test]
fn transformations_that_do_not_fit_change_nothing() {
    let mut player = "page".to_string();
    let mut scripts = "scripts".to_string();
    let list = vec![
        PlayerTransformation::new(TransformationTarget::Player, (0, 4), "new".to_string()),
        PlayerTransformation::new(TransformationTarget::Scripts, (3, 20), "x".to_string()),
    ];
    assert!(!apply_transformations(&mut player, &mut scripts, &list));
    assert_eq!(player, "page");
    assert_eq!(scripts, "scripts");
    let list = vec![
        PlayerTransformation::new(TransformationTarget::Player, (0, 4), "new".to_string()),
        PlayerTransformation::new(TransformationTarget::Scripts, (0, 0), "// ".to_string()),
        PlayerTransformation::new(TransformationTarget::Scripts, (7, 7), ";".to_string()),
    ];
    assert!(apply_transformations(&mut player, &mut scripts, &list));
    assert_eq!(player, "new");
    assert_eq!(scripts, "// scripts;");
}

#[test]
fn language_needs_a_download_for_each_of_its_files() {
    let fetches = plan_fetches(PLAYER, SCRIPTS, "Languages", "en", "master").unwrap();
    let mut got = results();
    got.truncate(3);
    let r = retrieve_player_misc_sources(PLAYER, SCRIPTS, &fetches, &got, &defaults(), false, false, &Vec::new(), "out");
    assert_eq!(r.err(), Some(MiscError::ResultsMismatch));
}

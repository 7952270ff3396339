use aaoffline::args::{Args, DownloadSequence, HttpHandling, Userscripts};

#[test]
fn all_alone_is_a_valid_combination() {
    assert_eq!(Userscripts::validate_combination(&[Userscripts::All]), Ok(()));
}

#[test]
fn all_beside_another_script_is_refused() {
    assert_eq!(
        Userscripts::validate_combination(&[Userscripts::All, Userscripts::Backlog]),
        Err("Can't specify any other scripts when including all of them anyway".to_string())
    );
}

#[test]
fn none_beside_another_script_is_refused() {
    assert_eq!(
        Userscripts::validate_combination(&[Userscripts::Backlog, Userscripts::NoScripts]),
        Err("Can't specify any other scripts when including none".to_string())
    );
}

#[test]
fn all_urls_names_each_url_once() {
    let urls = Userscripts::all_urls(&[
        Userscripts::Backlog,
        Userscripts::All,
        Userscripts::AltNametag,
    ]);
    assert_eq!(
        urls,
        vec![
            "https://beyondtimeaxis.github.io/misc/aaobacklog.user.js",
            "https://beyondtimeaxis.github.io/misc/aaoaltnametags.user.js",
            "https://beyondtimeaxis.github.io/misc/aaobetterlayout.user.js",
            "https://gist.github.com/falko17/965207b1f1f0496ff5f0cb41d8e827f2/raw/aaokeyboard.user.js",
        ]
    );
}

#[test]
fn case_is_named_by_its_id() {
    assert_eq!(Args::accept_case("102059"), Ok(102059));
    assert_eq!(Args::accept_case("0"), Ok(0));
}

#[test]
fn case_is_named_by_its_address() {
    assert_eq!(Args::accept_case("https://aaonline.fr/player.php?trial_id=102059"), Ok(102059));
    assert_eq!(Args::accept_case("http://www.aaonline.fr/player.php?trial_id=7&lang=en"), Ok(7));
    assert_eq!(Args::accept_case("https://aceattorney.sparklin.org/jeu.php?id_proces=31"), Ok(31));
    assert_eq!(Args::accept_case("see https://aaonline.fr/player.php?trial_id=5 here"), Ok(5));
}

#[test]
fn case_that_is_neither_is_refused() {
    assert_eq!(
        Args::accept_case("https://example.com/player.php?trial_id=1"),
        Err("Could not parse case ID from input \"https://example.com/player.php?trial_id=1\". Please provide a valid case URL or ID.".to_string())
    );
    assert_eq!(
        Args::accept_case("-4"),
        Err("Could not parse case ID from input \"-4\". Please provide a valid case URL or ID.".to_string())
    );
    assert_eq!(
        Args::accept_case(""),
        Err("Could not parse case ID from input \"\". Please provide a valid case URL or ID.".to_string())
    );
}

#[test]
fn case_whose_id_is_too_large_is_refused() {
    assert_eq!(
        Args::accept_case("https://aaonline.fr/player.php?trial_id=99999999999"),
        Err("Case ID in given URL is not a valid number!".to_string())
    );
    assert!(Args::accept_case("99999999999").is_err());
}

#[test]
fn defaults_of_the_choices() {
    assert_eq!(HttpHandling::default(), HttpHandling::RedirectToHttps);
    assert_eq!(DownloadSequence::default(), DownloadSequence::Ask);
    assert_eq!(Userscripts::default(), Userscripts::NoScripts);
}

#[test]
fn urls_of_the_userscripts() {
    assert!(Userscripts::NoScripts.urls().is_empty());
    assert_eq!(Userscripts::Backlog.urls().len(), 1);
    assert!(Userscripts::all_urls(&[Userscripts::NoScripts]).is_empty());
    assert_eq!(
        Userscripts::all_urls(&[Userscripts::Backlog, Userscripts::Backlog]),
        Userscripts::all_urls(&[Userscripts::Backlog])
    );
    assert_eq!(Userscripts::all_urls(&[Userscripts::All]).len(), Userscripts::All.urls().len());
}

#[test]
fn userscripts_live_at_their_addresses() {
    assert_eq!(
        Userscripts::AltNametag.urls(),
        vec!["https://beyondtimeaxis.github.io/misc/aaoaltnametags.user.js"]
    );
    assert_eq!(
        Userscripts::All.urls(),
        vec![
            "https://beyondtimeaxis.github.io/misc/aaoaltnametags.user.js",
            "https://beyondtimeaxis.github.io/misc/aaobacklog.user.js",
            "https://beyondtimeaxis.github.io/misc/aaobetterlayout.user.js",
            "https://gist.github.com/falko17/965207b1f1f0496ff5f0cb41d8e827f2/raw/aaokeyboard.user.js",
        ]
    );
    assert_eq!(
        Userscripts::all_urls(&[
            Userscripts::KeyboardControls,
            Userscripts::Backlog,
            Userscripts::KeyboardControls,
            Userscripts::BetterLayout,
        ]),
        vec![
            "https://gist.github.com/falko17/965207b1f1f0496ff5f0cb41d8e827f2/raw/aaokeyboard.user.js",
            "https://beyondtimeaxis.github.io/misc/aaobacklog.user.js",
            "https://beyondtimeaxis.github.io/misc/aaobetterlayout.user.js",
        ]
    );
}

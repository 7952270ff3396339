use aaoffline::args::{Args, DownloadSequence, HttpHandling, LogLevel, Userscripts};
use aaoffline::case::{Case, CaseInformation, Sequence, SequenceEntry};
use aaoffline::context;
use aaoffline::context::{Cancelled, MainContext, RefusedRoot, Stage};
use aaoffline::json::Json;

fn args(cases: Vec<u32>, output: Option<&str>, one_html_file: bool) -> Args {
    Args {
        cases,
        output: output.map(str::to_string),
        player_version: "master".to_string(),
        language: "en".to_string(),
        continue_on_asset_error: false,
        replace_existing: false,
        sequence: DownloadSequence::Ask,
        one_html_file,
        with_userscripts: vec![Userscripts::NoScripts],
        concurrent_downloads: 5,
        retries: 3,
        connect_timeout: 10,
        read_timeout: 30,
        http_handling: HttpHandling::RedirectToHttps,
        disable_html5_audio: false,
        disable_photobucket_fix: false,
        proxy: None,
        log_level: LogLevel::Info,
    }
}

fn sequence(title: &str) -> Sequence {
    Sequence::new(
        title.to_string(),
        vec![SequenceEntry::new(1, "One".to_string()), SequenceEntry::new(2, "Two".to_string())],
    )
}

fn case(id: u32, title: &str, sequence: Option<Sequence>) -> Case {
    Case {
        case_information: CaseInformation {
            author: "Author".to_string(),
            author_id: 9,
            can_read: true,
            can_write: false,
            format: "Def6".to_string(),
            id,
            language: "en".to_string(),
            last_edit_date: 0,
            sequence,
            title: title.to_string(),
        },
        case_data: Json::Null,
    }
}

#[test]
fn output_before_the_cases_are_known() {
    assert_eq!(context::initial_output(Some("dir"), &vec![1, 2]), "dir");
    assert_eq!(context::initial_output(None, &vec![102059]), "102059");
    assert_eq!(context::initial_output(None, &vec![1, 2]), ".");
    assert_eq!(context::initial_output(None, &Vec::new()), ".");
}

#[test]
fn progress_is_hidden_when_much_is_logged() {
    let hidden: Vec<bool> =
        [LogLevel::Off, LogLevel::Error, LogLevel::Warn, LogLevel::Info, LogLevel::Debug, LogLevel::Trace]
            .into_iter()
            .map(context::should_hide_pb)
            .collect();
    assert_eq!(hidden, vec![false, false, false, false, true, true]);
}

#[test]
fn sequence_is_asked_for_at_a_terminal_only() {
    assert_eq!(context::ask_sequence(false, 3, Some(true)), Ok(false));
    assert_eq!(context::ask_sequence(true, 1, Some(true)), Ok(false));
    assert_eq!(context::ask_sequence(true, 0, None), Ok(false));
    assert_eq!(context::ask_sequence(true, 2, Some(true)), Ok(true));
    assert_eq!(context::ask_sequence(true, 2, Some(false)), Ok(false));
    assert_eq!(context::ask_sequence(true, 2, None), Err(Cancelled));
    assert!(context::needs_confirmation(true, 2));
    assert!(!context::needs_confirmation(true, 1));
    assert!(!context::needs_confirmation(false, 2));
}

#[test]
fn cases_of_a_sequence_are_added_as_asked() {
    let part = case(1, "One", Some(sequence("S")));
    let alone = case(1, "One", None);
    assert_eq!(context::additional_cases(&part, DownloadSequence::Every, false, None), Ok(vec![1, 2]));
    assert_eq!(context::additional_cases(&part, DownloadSequence::Single, true, Some(true)), Ok(Vec::new()));
    assert_eq!(context::additional_cases(&part, DownloadSequence::Ask, true, Some(true)), Ok(vec![1, 2]));
    assert_eq!(context::additional_cases(&part, DownloadSequence::Ask, true, Some(false)), Ok(Vec::new()));
    assert_eq!(context::additional_cases(&part, DownloadSequence::Ask, false, None), Ok(Vec::new()));
    assert_eq!(context::additional_cases(&part, DownloadSequence::Ask, true, None), Err(Cancelled));
    assert_eq!(context::additional_cases(&alone, DownloadSequence::Every, true, Some(true)), Ok(Vec::new()));
    assert_eq!(context::additional_cases(&alone, DownloadSequence::Ask, true, None), Ok(Vec::new()));
}

#[test]
fn cases_are_taken_once_each() {
    let cases = vec![case(2, "Two", None), case(1, "One", None), case(2, "Two again", None), case(3, "Three", None)];
    let distinct = context::distinct_cases(cases);
    let titles: Vec<&str> = distinct.iter().map(|c| c.case_information.title.as_str()).collect();
    assert_eq!(titles, vec!["Two", "One", "Three"]);
}

#[test]
fn single_case_is_written_under_its_title() {
    let cases = vec![case(7, "My: Case", None)];
    let out = context::update_output_paths(&cases, None, "7", false, false, false);
    assert_eq!(out.output, "My Case_7");
    assert_eq!(out.case_output_mapping, vec![(7, "My Case_7/index.html".to_string())]);
    let out = context::update_output_paths(&cases, None, "7", true, false, false);
    assert_eq!(out.output, "My Case_7.html");
    assert_eq!(out.case_output_mapping, vec![(7, "My Case_7.html".to_string())]);
}

#[test]
fn single_case_goes_where_it_was_asked_to() {
    let cases = vec![case(7, "Case", None)];
    let out = context::update_output_paths(&cases, Some("dir"), "dir", false, true, false);
    assert_eq!(out.output, "dir");
    assert_eq!(out.case_output_mapping, vec![(7, "dir/index.html".to_string())]);
    // A single file gets the extension of a page.
    let out = context::update_output_paths(&cases, Some("file"), "file", true, false, false);
    assert_eq!(out.output, "file.html");
    let out = context::update_output_paths(&cases, Some("file.txt"), "file.txt", true, false, false);
    assert_eq!(out.output, "file.html");
    for named in ["page.html", "page.HTML", "page.Html"] {
        let out = context::update_output_paths(&cases, Some(named), named, true, false, false);
        assert_eq!(out.output, named);
        assert_eq!(out.case_output_mapping, vec![(7, named.to_string())]);
    }
    // And goes into the directory that was asked for, where it is one.
    let out = context::update_output_paths(&cases, Some("dir"), "dir", true, true, false);
    assert_eq!(out.output, "dir/Case_7.html");
}

#[test]
fn cases_of_one_sequence_go_below_its_title() {
    let cases = vec![case(1, "One", Some(sequence(" Trilogy "))), case(2, "Two", Some(sequence(" Trilogy ")))];
    let out = context::update_output_paths(&cases, None, ".", false, true, false);
    assert_eq!(out.output, "Trilogy");
    assert_eq!(
        out.case_output_mapping,
        vec![(1, "Trilogy/One_1/index.html".to_string()), (2, "Trilogy/Two_2/index.html".to_string())]
    );
    let out = context::update_output_paths(&cases, None, ".", true, true, false);
    assert_eq!(
        out.case_output_mapping,
        vec![(1, "Trilogy/One_1.html".to_string()), (2, "Trilogy/Two_2.html".to_string())]
    );
    let out = context::update_output_paths(&cases, Some("dir"), "dir", false, true, false);
    assert_eq!(out.output, "dir");
}

#[test]
fn other_cases_go_into_the_current_directory() {
    let mixed = vec![case(1, "One", Some(sequence("S"))), case(2, "Two", Some(sequence("T")))];
    assert_eq!(context::update_output_paths(&mixed, None, ".", false, true, false).output, ".");
    let partly = vec![case(1, "One", Some(sequence("S"))), case(2, "Two", None)];
    assert_eq!(context::update_output_paths(&partly, None, ".", false, true, false).output, ".");
    let none = vec![case(1, "One", None), case(2, "Two", None)];
    let out = context::update_output_paths(&none, None, "x", false, true, false);
    assert_eq!(out.output, ".");
    assert_eq!(out.case_output_mapping[1], (2, "./Two_2/index.html".to_string()));
    let nothing = context::update_output_paths(&Vec::new(), None, "x", false, true, false);
    assert_eq!(nothing.output, ".");
    assert!(nothing.case_output_mapping.is_empty());
}

#[test]
fn directory_of_a_path() {
    assert_eq!(context::parent_of("a/b/c.html"), Some("a/b".to_string()));
    assert_eq!(context::parent_of("c.html"), Some(String::new()));
    assert_eq!(context::parent_of("/c.html"), Some("/".to_string()));
    assert_eq!(context::parent_of("/"), None);
    assert_eq!(context::parent_of(""), None);
}

#[test]
fn what_was_written_is_named_for_removal() {
    let mapping = vec![(1, "out/A_1/index.html".to_string()), (2, "out/B_2/index.html".to_string())];
    assert_eq!(context::cleanup_data("out", 1, &mapping, false), Ok(vec!["out".to_string()]));
    assert_eq!(
        context::cleanup_data("out", 2, &mapping, false),
        Ok(vec!["out/A_1".to_string(), "out/B_2".to_string()])
    );
    let files = vec![(1, "out/A_1.html".to_string()), (2, "out/B_2.html".to_string())];
    assert_eq!(
        context::cleanup_data("out", 2, &files, true),
        Ok(vec!["out/A_1.html".to_string(), "out/B_2.html".to_string()])
    );
    assert_eq!(context::cleanup_data("out", 2, &Vec::new(), true), Ok(Vec::new()));
    assert_eq!(context::cleanup_data("/", 1, &mapping, false), Err(RefusedRoot));
    assert_eq!(context::cleanup_data("/", 2, &mapping, true), Err(RefusedRoot));
}

#[test]
fn existing_output_stands_in_the_way() {
    assert!(context::blocks_output(true, true, false));
    assert!(context::blocks_output(true, false, false));
    assert!(context::blocks_output(false, false, true));
    assert!(!context::blocks_output(false, true, true));
    assert!(!context::blocks_output(false, false, false));
    assert_eq!(
        context::existing_output_message("out/A_1/index.html"),
        "Output at \"out/A_1\" already exists. Please remove it or use --replace-existing."
    );
    assert_eq!(
        context::existing_output_message(""),
        "Output at \"\" already exists. Please remove it or use --replace-existing."
    );
}

#[test]
fn asset_is_written_into_the_directory_of_assets() {
    assert_eq!(context::asset_directory("out/assets/a.png"), Some("out/assets".to_string()));
    assert_eq!(context::asset_directory("assets/a.png"), Some("assets".to_string()));
    assert_eq!(context::asset_directory("out/other/a.png"), None);
    assert_eq!(context::asset_directory("out/myassets/a.png"), None);
    assert_eq!(context::asset_directory("a.png"), None);
}

#[test]
fn messages_of_the_run() {
    assert_eq!(context::download_step_text(1), "Downloading case assets... (This may take a while)");
    assert_eq!(context::download_step_text(3), "Downloading case assets for 3 cases... (This may take a while)");
    assert_eq!(context::success_message(1, "out/index.html", "out"), "Case successfully written to \"out/index.html\"!");
    assert_eq!(context::success_message(2, "x", "."), "2 cases successfully written to current directory!");
    assert_eq!(context::success_message(2, "x", "Trilogy"), "2 cases successfully written to directory \"Trilogy\"!");
    assert_eq!(
        context::write_failed_message("out/index.html"),
        "Could not write player to file out/index.html. Please check your permissions."
    );
    assert_eq!(context::identified_message(&vec!["\"A\" by B".to_string()]), "Case identified as: \u{2022} \"A\" by B");
    assert_eq!(
        context::identified_message(&vec!["A".to_string(), "B".to_string()]),
        "Cases identified as:\n\u{2022} A\n\u{2022} B"
    );
    assert_eq!(context::identified_message(&Vec::new()), "Cases identified as:\n");
}

#[test]
fn requests_are_prepared() {
    assert!(context::needs_referer(true, Some("i1.photobucket.com")));
    assert!(!context::needs_referer(false, Some("i1.photobucket.com")));
    assert!(!context::needs_referer(true, Some("example.com")));
    assert!(!context::needs_referer(true, None));
    assert_eq!(context::PHOTOBUCKET_REFERER, "https://photobucket.com/");
    assert_eq!(
        context::proxied_url(Some("https://proxy.example/?url="), "https://aaonline.fr/a"),
        Some("https://proxy.example/?url=https://aaonline.fr/a".to_string())
    );
    assert_eq!(context::proxied_url(None, "https://aaonline.fr/a"), None);
}

#[test]
fn run_goes_through_its_steps() {
    let mut ctx = MainContext::new(args(vec![1, 2], None, false), false);
    assert_eq!(ctx.output, ".");
    assert_eq!(ctx.case_ids, vec![1, 2]);
    assert_eq!(ctx.stage, Stage::CaseInfos);
    let cases = vec![case(1, "One", Some(sequence("S"))), case(2, "Two", Some(sequence("S")))];
    ctx.update_output_paths(&cases, false);
    assert_eq!(ctx.output, "S");
    assert_eq!(ctx.output_of(2), Some("S/Two_2/index.html"));
    assert_eq!(ctx.output_of(3), None);

    let mut shown = Vec::new();
    let mut finished = Vec::new();
    while let Some(step) = ctx.show_step("Title") {
        assert!(!step.hidden);
        shown.push((step.step, step.text));
        finished.push(ctx.finish_text());
        assert!(!ctx.completed(true));
    }
    assert_eq!(ctx.stage, Stage::Finished);
    assert_eq!(
        shown,
        vec![
            (1, "Retrieving case information...".to_string()),
            (2, "Retrieving site configuration...".to_string()),
            (3, "Downloading case assets for 2 cases... (This may take a while)".to_string()),
            (4, "Retrieving player...".to_string()),
            (5, "Retrieving player scripts...".to_string()),
            (6, "Retrieving additional external player sources...".to_string()),
            (7, "Applying userscripts...".to_string()),
            (8, "Writing case \"Title\" to disk...".to_string()),
            (8, "Writing case \"Title\" to disk...".to_string()),
        ]
    );
    assert_eq!(
        finished,
        vec![
            Some("All case information retrieved."),
            None,
            Some("Case data downloaded."),
            None,
            Some("Player scripts retrieved."),
            Some("All player sources downloaded."),
            Some("Userscripts retrieved."),
            None,
            None,
        ]
    );
    assert_eq!(ctx.success_message("S/Two_2/index.html"), "2 cases successfully written to directory \"S\"!");
    assert!(!ctx.completed(true));
    assert_eq!(ctx.stage, Stage::Finished);
}

#[test]
fn failed_step_ends_the_run() {
    let stages = [
        (Stage::CaseInfos, false),
        (Stage::SiteConfig, false),
        (Stage::CaseData, true),
        (Stage::Player, true),
        (Stage::Scripts, true),
        (Stage::Sources, true),
        (Stage::Userscripts, true),
        (Stage::Writing(0), true),
        (Stage::Finished, false),
    ];
    for (stage, cleans) in stages {
        let mut ctx = MainContext::new(args(vec![1], Some("out"), false), false);
        ctx.stage = stage;
        assert_eq!(ctx.completed(false), cleans, "{stage:?}");
        assert_eq!(ctx.stage, Stage::Failed);
        assert!(ctx.show_step("T").is_none());
        assert_eq!(ctx.cleanup_data(), Ok(vec!["out".to_string()]));
    }
}

#[test]
fn run_without_cases_writes_nothing() {
    let mut ctx = MainContext::new(args(Vec::new(), None, false), false);
    ctx.update_output_paths(&Vec::new(), false);
    ctx.stage = Stage::Userscripts;
    ctx.completed(true);
    assert_eq!(ctx.stage, Stage::Finished);
}

#[test]
fn progress_of_a_run_is_hidden_when_much_is_logged() {
    let mut asked = args(vec![1], None, false);
    asked.log_level = LogLevel::Trace;
    let ctx = MainContext::new(asked, false);
    assert!(ctx.show_step("").unwrap().hidden);
    assert_eq!(ctx.output, "1");
}

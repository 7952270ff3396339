use aaoffline::case::{Case, CaseInformation, Sequence, SequenceEntry};
use aaoffline::json::Json;
use aaoffline::transform::{
    expected_player_blocks, expected_trial_blocks, plan_blocks, transform_blocks,
    transform_player_blocks, transform_trial_blocks, ExpectedPhpBlock, FoundPhpBlock, Replacement,
};

fn text(s: &str) -> Replacement {
    Replacement::Text(s.to_string())
}

fn show<T: std::fmt::Debug>(value: &T) -> String {
    format!("{value:?}")
}

fn case() -> Case {
    Case {
        case_information: CaseInformation {
            author: "Author".to_string(),
            author_id: 9,
            can_read: true,
            can_write: false,
            format: "Def6".to_string(),
            id: 1,
            language: "en".to_string(),
            last_edit_date: 1_600_000_000,
            sequence: Some(Sequence::new(
                "Trilogy".to_string(),
                vec![SequenceEntry::new(1, "One".to_string()), SequenceEntry::new(2, "Two".to_string())],
            )),
            title: "The \"First\" Turnabout".to_string(),
        },
        case_data: Json::Object(vec![
            ("frames".to_string(), Json::Array(vec![Json::Number("0".to_string())])),
            ("title".to_string(), Json::Text("é".to_string())),
        ]),
    }
}

#[test]
fn blocks_give_way_to_what_is_expected() {
    let mut page = "<a><?php echo one(); ?></a><b><?php echo two(); ?></b>".to_string();
    let blocks = vec![
        ExpectedPhpBlock::new_rangeless("two", r"echo two\(\);", text("2")),
        ExpectedPhpBlock::new_rangeless("one", r"echo one\(\);", text("first")),
    ];
    let warnings = transform_blocks(&mut page, &blocks).unwrap();
    assert!(warnings.is_empty());
    assert_eq!(page, "<a>first</a><b>2</b>");
}

#[test]
fn unexpected_block_is_removed_with_a_warning() {
    let mut page = "a<?php surprise(); ?>b<?php echo one(); ?>c".to_string();
    let blocks = vec![ExpectedPhpBlock::new_rangeless("one", r"echo one\(\);", text("1"))];
    let warnings = transform_blocks(&mut page, &blocks).unwrap();
    assert_eq!(page, "ab1c");
    assert_eq!(show(&warnings), "[Unexpected { start: 1, end: 21 }]");
}

#[test]
fn expected_block_is_taken_once() {
    let mut page = "<?php echo one(); ?>|<?php echo one(); ?>".to_string();
    let blocks = vec![ExpectedPhpBlock::new_rangeless("one", r"echo one\(\);", text("1"))];
    let warnings = transform_blocks(&mut page, &blocks).unwrap();
    assert_eq!(page, "1|");
    assert_eq!(show(&warnings), "[Unexpected { start: 21, end: 41 }]");
}

#[test]
fn block_at_another_range_is_replaced_with_a_warning() {
    let mut page = "ab<?php echo one(); ?>".to_string();
    let blocks = vec![ExpectedPhpBlock::new("one", 0, 20, r"echo one\(\);", text("1"))];
    let warnings = transform_blocks(&mut page, &blocks).unwrap();
    assert_eq!(page, "ab1");
    assert_eq!(show(&warnings), "[Moved { id: \"one\", expected: (0, 20), found: (2, 22) }]");

    let mut page = "<?php echo one(); ?>ab".to_string();
    assert!(transform_blocks(&mut page, &blocks).unwrap().is_empty());
    assert_eq!(page, "1ab");
}

#[test]
fn block_that_two_expect_is_refused() {
    let source = "x<?php echo one(); ?>".to_string();
    let mut page = source.clone();
    let blocks = vec![
        ExpectedPhpBlock::new_rangeless("one", r"echo one", text("1")),
        ExpectedPhpBlock::new_rangeless("other", r"one\(\)", text("2")),
    ];
    let error = transform_blocks(&mut page, &blocks).unwrap_err();
    assert_eq!(show(&error), "InvalidMatches { count: 2, start: 1, end: 21 }");
    assert_eq!(page, source);
}

#[test]
fn replacement_that_cannot_be_made_is_refused() {
    let source = "x<?php echo one(); ?>".to_string();
    let mut page = source.clone();
    let blocks = vec![ExpectedPhpBlock::new_rangeless(
        "one",
        r"echo one",
        Replacement::Failed("no data".to_string()),
    )];
    let error = transform_blocks(&mut page, &blocks).unwrap_err();
    assert_eq!(show(&error), "ReplacerFailed(\"no data\")");
    assert_eq!(page, source);
}

#[test]
fn page_without_blocks_stays() {
    let mut page = "<html>é</html>".to_string();
    let blocks = expected_player_blocks("en", "x", "T");
    assert!(transform_blocks(&mut page, &blocks).unwrap().is_empty());
    assert_eq!(page, "<html>é</html>");
}

#[test]
fn block_may_span_lines_and_follow_wide_characters() {
    let mut page = "é<?php\n echo one();\n?>é".to_string();
    let blocks = vec![ExpectedPhpBlock::new("one", 2, 23, r"echo one", text("ü"))];
    assert!(transform_blocks(&mut page, &blocks).unwrap().is_empty());
    assert_eq!(page, "éüé");
}

#[test]
fn plan_names_an_edit_for_each_block() {
    let source = "a<?php one ?>b<?php two ?>";
    let found = vec![
        vec![Some((1, 13)), Some((6, 11))],
        vec![Some((14, 26)), Some((19, 24))],
    ];
    let blocks = vec![ExpectedPhpBlock::new_rangeless("two", "two", text("2"))];
    let (edits, warnings) = plan_blocks(source, &found, &blocks).unwrap();
    assert_eq!(edits.len(), 2);
    assert_eq!((edits[0].start, edits[0].end, edits[0].replacement.as_str()), (1, 13, ""));
    assert_eq!((edits[1].start, edits[1].end, edits[1].replacement.as_str()), (14, 26, "2"));
    assert_eq!(show(&warnings), "[Unexpected { start: 1, end: 13 }]");
}

#[test]
fn plan_refuses_a_block_without_content() {
    let found = vec![vec![Some((0, 5)), None]];
    let error = plan_blocks("<?php", &found, &Vec::new()).unwrap_err();
    assert_eq!(show(&error), "NoContent");
}

#[test]
fn expected_block_tells_a_moved_block() {
    let ranged = ExpectedPhpBlock::new("a", 1, 40, "x", Replacement::Nothing);
    assert!(!ranged.expect_match(&FoundPhpBlock::new(1, 40)));
    assert!(ranged.expect_match(&FoundPhpBlock::new(1, 41)));
    assert!(ranged.expect_match(&FoundPhpBlock::new(0, 40)));
    let rangeless = ExpectedPhpBlock::new_rangeless("a", "x", Replacement::Nothing);
    assert!(!rangeless.expect_match(&FoundPhpBlock::new(7, 9)));
    assert_eq!(FoundPhpBlock::new(1, 2).replaced, None);
    assert_eq!(FoundPhpBlock::new_unexpected(1, 2).replaced, Some(String::new()));
}

#[test]
fn expected_block_replaces_and_detects() {
    let block = ExpectedPhpBlock::new_rangeless("a", r"echo \d+;", text("seen"));
    assert_eq!(block.replace(), Ok("seen".to_string()));
    assert!(block.matches(" echo 12; "));
    assert!(!block.matches(" echo x; "));
    let nothing = ExpectedPhpBlock::new_rangeless("a", "x", Replacement::Nothing);
    assert_eq!(nothing.replace(), Ok(String::new()));
    let failed = ExpectedPhpBlock::new_rangeless("a", "x", Replacement::Failed("why".to_string()));
    assert_eq!(failed.replace(), Err("why".to_string()));
}

#[test]
fn trial_script_gets_the_data_of_the_case() {
    let mut script = "<?php include('common_render.php'); ?>\n<?php\nvar trial_information;\n?>\nrest();".to_string();
    let warnings = transform_trial_blocks(&case(), &mut script).unwrap();
    assert!(warnings.is_empty());
    assert_eq!(
        script,
        "\nvar trial_information = {\"author\":\"Author\",\"author_id\":9,\"can_read\":true,\"can_write\":false,\
         \"format\":\"Def6\",\"id\":1,\"language\":\"en\",\"last_edit_date\":1600000000,\
         \"sequence\":{\"list\":[{\"id\":1,\"title\":\"One\"},{\"id\":2,\"title\":\"Two\"}],\"title\":\"Trilogy\"},\
         \"title\":\"The \\\"First\\\" Turnabout\"};\n\
         var initial_trial_data = {\"frames\":[0],\"title\":\"é\"};\n\nrest();"
    );
}

#[test]
fn trial_script_of_a_case_that_cannot_be_written_is_refused() {
    let mut broken = case();
    broken.case_data = Json::Number("one".to_string());
    let source = "<?php var trial_information; ?>".to_string();
    let mut script = source.clone();
    let error = transform_trial_blocks(&broken, &mut script).unwrap_err();
    assert_eq!(show(&error), "ReplacerFailed(\"The case cannot be written as JSON.\")");
    assert_eq!(script, source);
}

#[test]
fn trial_blocks_are_the_two_of_the_script() {
    let blocks = expected_trial_blocks(text("data"));
    assert_eq!(blocks.len(), 2);
    assert_eq!(blocks[0].id, "common_render");
    assert_eq!(blocks[0].replace(), Ok(String::new()));
    assert_eq!(blocks[1].id, "trial_data");
    assert_eq!(blocks[1].replace(), Ok("data".to_string()));
    assert!(blocks[1].matches("\nvar trial_information;\n"));
}

#[test]
fn player_page_gets_language_scripts_and_title() {
    let mut page = glued(&[
        "<?php include('common_render.php'); ?>",
        "<html lang=\"<?php echo language_backend('player'); ?>\"><head>",
        "<script><?php include('bridge.js.php'); ?></script>",
        "<title><?php echo 'Ace Attorney Online - Trial Player (Loading)'; ?></title></head>",
        "<body><h1><?php echo 'Loading trial ...'; ?></h1><?php other(); ?></body></html>",
    ]);
    let warnings = transform_player_blocks(&mut page, "en", "var cfg;", "My Case").unwrap();
    assert_eq!(
        page,
        "<html lang=\"en\"><head><script>var cfg;</script><title>My Case</title></head>\
         <body><h1>My Case</h1></body></html>"
    );
    // Each block that is known by its place is found elsewhere here, and one is unknown.
    assert_eq!(warnings.len(), 5);
    assert!(show(&warnings[0]).starts_with("Moved { id: \"common_render\", expected: (1, 40)"));
    assert!(show(&warnings[4]).starts_with("Unexpected"));
}

fn glued(parts: &[&str]) -> String {
    parts.iter().map(|p| p.to_string()).collect()
}

#[test]
fn player_blocks_are_known_by_their_places() {
    let blocks = expected_player_blocks("en", "scripts", "Title");
    let ids: Vec<&str> = blocks.iter().map(|b| b.id.as_str()).collect();
    assert_eq!(ids, vec!["common_render", "language", "script", "title", "heading"]);
    let ranges: Vec<Option<(usize, usize)>> = blocks.iter().map(|b| b.range).collect();
    assert_eq!(ranges, vec![Some((1, 40)), Some((224, 272)), Some((276, 396)), Some((417, 530)), None]);
    assert_eq!(blocks[1].replace(), Ok("en".to_string()));
    assert_eq!(blocks[2].replace(), Ok("scripts".to_string()));
    assert_eq!(blocks[3].replace(), Ok("Title".to_string()));
    assert_eq!(blocks[4].replace(), Ok("Title".to_string()));
}

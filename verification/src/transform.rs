//! The blocks of PHP in the pages of the player: each block that is known gives way to
//! what stands for it offline, and any other block is taken out.

use crate::case::Case;
use crate::edits::{applicable, edited, splices, try_apply, Edit, Splice};
use crate::outside::{captures_all, groups_of, regex_found};
use crate::patterns::{
    group_text, is_match, matches_somewhere, span, span_of, text_of_group, PHP_REGEX,
};
use vstd::prelude::*;
use vstd::utf8::encode_utf8;

verus! {

/// A matched `<?php ... ?>` block within the player.
#[derive(Debug)]
pub struct FoundPhpBlock {
    /// The start byte offset of the block.
    pub start: usize,
    /// The end byte offset of the block.
    pub end: usize,
    /// The replacement text for this block.
    pub replaced: Option<String>,
}

impl FoundPhpBlock {
    /// Creates a new `FoundPhpBlock` with the given `start` and `end` byte offsets.
    pub fn new(start: usize, end: usize) -> (r: FoundPhpBlock)
        ensures
            r.start == start,
            r.end == end,
            r.replaced is None,
    {
        FoundPhpBlock { start, end, replaced: None }
    }

    /// Creates a new `FoundPhpBlock` with the given `start` and `end` byte offsets that
    /// was not expected and will thus simply be removed.
    pub fn new_unexpected(start: usize, end: usize) -> (r: FoundPhpBlock)
        ensures
            r.start == start,
            r.end == end,
            r.replaced matches Some(text) && text@.len() == 0,
    {
        FoundPhpBlock { start, end, replaced: Some(String::new()) }
    }
}

/// What stands in place of a block.
#[derive(Debug)]
pub enum Replacement {
    /// Nothing: the block is taken out.
    Nothing,
    /// This text.
    Text(String),
    /// The text could not be made, for the reason given.
    Failed(String),
}

/// An expected `<?php ... ?>` block within the player.
#[derive(Debug)]
pub struct ExpectedPhpBlock {
    /// A human-readable ID for this block to uniquely identify it.
    pub id: String,
    /// The expected byte range of this PHP block.
    pub range: Option<(usize, usize)>,
    /// A regular expression to detect this PHP block.
    pub detector: String,
    /// What the content of this PHP block is replaced with.
    pub replacer: Replacement,
}

/// What an [`ExpectedPhpBlock`] holds.
pub struct ExpectedPhpBlockV {
    pub id: Seq<char>,
    pub range: Option<(usize, usize)>,
    pub detector: Seq<char>,
    pub replacer: Result<Seq<char>, Seq<char>>,
}

impl View for ExpectedPhpBlock {
    type V = ExpectedPhpBlockV;

    open spec fn view(&self) -> ExpectedPhpBlockV {
        ExpectedPhpBlockV {
            id: self.id@,
            range: self.range,
            detector: self.detector@,
            replacer: match self.replacer {
                Replacement::Nothing => Ok(Seq::empty()),
                Replacement::Text(t) => Ok(t@),
                Replacement::Failed(why) => Err(why@),
            },
        }
    }
}

/// What the blocks of `blocks` hold.
pub open spec fn expected_views(blocks: Seq<ExpectedPhpBlock>) -> Seq<ExpectedPhpBlockV> {
    Seq::new(blocks.len(), |i: int| blocks[i]@)
}

impl ExpectedPhpBlock {
    /// Creates a new `ExpectedPhpBlock` out of the given arguments.
    pub fn new(id: &str, start: usize, end: usize, detector: &str, replacer: Replacement) -> (r:
        ExpectedPhpBlock)
        ensures
            r.id@ == id@,
            r.range == Some((start, end)),
            r.detector@ == detector@,
            r.replacer == replacer,
    {
        ExpectedPhpBlock {
            id: id.to_owned(),
            range: Some((start, end)),
            detector: detector.to_owned(),
            replacer,
        }
    }

    /// Creates a new `ExpectedPhpBlock` without a specific range, meaning that it will
    /// accept any range without a warning.
    pub fn new_rangeless(id: &str, detector: &str, replacer: Replacement) -> (r: ExpectedPhpBlock)
        ensures
            r.id@ == id@,
            r.range is None,
            r.detector@ == detector@,
            r.replacer == replacer,
    {
        ExpectedPhpBlock { id: id.to_owned(), range: None, detector: detector.to_owned(), replacer }
    }

    /// Whether the expected byte range of this block differs from the actual range of
    /// the given `other` block, which the user is warned of.
    pub fn expect_match(&self, other: &FoundPhpBlock) -> (r: bool)
        ensures
            r == (self.range matches Some(range) && range != (other.start, other.end)),
    {
        match self.range {
            Some((start, end)) => other.start != start || other.end != end,
            None => false,
        }
    }

    /// The text that stands in place of this block, or why there is none.
    pub fn replace(&self) -> (r: Result<String, String>)
        ensures
            match (r, self@.replacer) {
                (Ok(text), Ok(owed)) => text@ == owed,
                (Err(why), Err(owed)) => why@ == owed,
                _ => false,
            },
    {
        match &self.replacer {
            Replacement::Nothing => Ok(String::new()),
            Replacement::Text(t) => Ok(t.clone()),
            Replacement::Failed(why) => Err(why.clone()),
        }
    }

    /// Checks if the given `text` matches the detector of this block.
    pub fn matches(&self, text: &str) -> (r: bool)
        ensures
            r == matches_somewhere(self@.detector, text@),
    {
        is_match(self.detector.as_str(), text)
    }
}

/// What the user is told of a block.
#[derive(Debug)]
pub enum BlockWarning {
    /// The block is none of those that are expected. It is removed.
    Unexpected { start: usize, end: usize },
    /// The block `id` was expected at another range than it was found at.
    Moved { id: String, expected: (usize, usize), found: (usize, usize) },
}

/// What a [`BlockWarning`] holds.
pub enum BlockWarningV {
    Unexpected { start: usize, end: usize },
    Moved { id: Seq<char>, expected: (usize, usize), found: (usize, usize) },
}

impl View for BlockWarning {
    type V = BlockWarningV;

    open spec fn view(&self) -> BlockWarningV {
        match self {
            BlockWarning::Unexpected { start, end } => BlockWarningV::Unexpected {
                start: *start,
                end: *end,
            },
            BlockWarning::Moved { id, expected, found } => BlockWarningV::Moved {
                id: id@,
                expected: *expected,
                found: *found,
            },
        }
    }
}

/// What the warnings of `warnings` hold.
pub open spec fn warning_views(warnings: Seq<BlockWarning>) -> Seq<BlockWarningV> {
    Seq::new(warnings.len(), |i: int| warnings[i]@)
}

/// Why the blocks of a page could not be transformed.
#[derive(Debug)]
pub enum TransformError {
    /// The pattern for blocks is no regular expression.
    BadPattern,
    /// A block was found without its content.
    NoContent,
    /// More than one of the expected blocks take the block at this range for theirs.
    InvalidMatches { count: usize, start: usize, end: usize },
    /// What stands in place of a block could not be made.
    ReplacerFailed(String),
    /// The blocks do not lie in the page one after the other.
    NotApplicable,
}

/// What a [`TransformError`] holds.
pub enum TransformErrorV {
    BadPattern,
    NoContent,
    InvalidMatches { count: usize, start: usize, end: usize },
    ReplacerFailed(Seq<char>),
    NotApplicable,
}

impl View for TransformError {
    type V = TransformErrorV;

    open spec fn view(&self) -> TransformErrorV {
        match self {
            TransformError::BadPattern => TransformErrorV::BadPattern,
            TransformError::NoContent => TransformErrorV::NoContent,
            TransformError::InvalidMatches { count, start, end } => TransformErrorV::InvalidMatches {
                count: *count,
                start: *start,
                end: *end,
            },
            TransformError::ReplacerFailed(why) => TransformErrorV::ReplacerFailed(why@),
            TransformError::NotApplicable => TransformErrorV::NotApplicable,
        }
    }
}

/// The places before `upto` of the expected blocks that take the content `text` for
/// theirs, and were not taken by a block before.
pub open spec fn candidates(
    blocks: Seq<ExpectedPhpBlockV>,
    visited: Seq<usize>,
    text: Seq<char>,
    upto: int,
) -> Seq<usize>
    decreases upto,
{
    if upto <= 0 {
        Seq::empty()
    } else {
        let before = candidates(blocks, visited, text, upto - 1);
        if !visited.contains((upto - 1) as usize) && matches_somewhere(
            blocks[upto - 1].detector,
            text,
        ) {
            before.push((upto - 1) as usize)
        } else {
            before
        }
    }
}

/// How far the blocks of a page are planned: the edits, the expected blocks that are
/// taken, and the warnings.
pub struct Plan {
    pub edits: Seq<(usize, usize, Seq<char>)>,
    pub visited: Seq<usize>,
    pub warnings: Seq<BlockWarningV>,
}

/// The plan after the block with the groups `groups` was looked at: a block that no
/// expected block takes is removed, with a warning; a block that one expected block
/// takes gives way to what that block puts in its place, with a warning where it was
/// expected elsewhere; and a block that more than one take is refused.
pub open spec fn block_planned(
    plan: Plan,
    source: Seq<char>,
    groups: Seq<Option<(usize, usize)>>,
    blocks: Seq<ExpectedPhpBlockV>,
) -> Result<Plan, TransformErrorV> {
    match (group_text(source, groups, 1), span_of(groups, 0)) {
        (Some(text), Some((start, end))) => {
            let found = candidates(blocks, plan.visited, text, blocks.len() as int);
            if found.len() == 0 {
                Ok(
                    Plan {
                        edits: plan.edits.push((start, end, Seq::empty())),
                        warnings: plan.warnings.push(BlockWarningV::Unexpected { start, end }),
                        ..plan
                    },
                )
            } else if found.len() > 1 {
                Err(TransformErrorV::InvalidMatches { count: found.len() as usize, start, end })
            } else {
                let block = blocks[found[0] as int];
                match block.replacer {
                    Ok(text) => Ok(
                        Plan {
                            edits: plan.edits.push((start, end, text)),
                            visited: plan.visited.push(found[0]),
                            warnings: match block.range {
                                Some(range) => if range != (start, end) {
                                    plan.warnings.push(
                                        BlockWarningV::Moved {
                                            id: block.id,
                                            expected: range,
                                            found: (start, end),
                                        },
                                    )
                                } else {
                                    plan.warnings
                                },
                                None => plan.warnings,
                            },
                        },
                    ),
                    Err(why) => Err(TransformErrorV::ReplacerFailed(why)),
                }
            }
        },
        _ => Err(TransformErrorV::NoContent),
    }
}

/// The plan for the blocks `found` before `upto`, taken in their order.
pub open spec fn blocks_planned(
    source: Seq<char>,
    found: Seq<Seq<Option<(usize, usize)>>>,
    blocks: Seq<ExpectedPhpBlockV>,
    upto: int,
) -> Result<Plan, TransformErrorV>
    decreases upto,
{
    if upto <= 0 {
        Ok(Plan { edits: Seq::empty(), visited: Seq::empty(), warnings: Seq::empty() })
    } else {
        match blocks_planned(source, found, blocks, upto - 1) {
            Ok(plan) => block_planned(plan, source, found[upto - 1], blocks),
            Err(e) => Err(e),
        }
    }
}

/// The edits of `edits`: each a range and what stands in its place.
pub open spec fn edit_views(edits: Seq<Edit>) -> Seq<(usize, usize, Seq<char>)> {
    Seq::new(edits.len(), |i: int| (edits[i].start, edits[i].end, edits[i].replacement@))
}

/// The edits of `edits` over bytes.
pub open spec fn plan_splices(edits: Seq<(usize, usize, Seq<char>)>) -> Seq<Splice> {
    Seq::new(
        edits.len(),
        |i: int|
            Splice { start: edits[i].0 as int, end: edits[i].1 as int, with: encode_utf8(edits[i].2) },
    )
}

proof fn lemma_blocks_planned_fails(
    source: Seq<char>,
    found: Seq<Seq<Option<(usize, usize)>>>,
    blocks: Seq<ExpectedPhpBlockV>,
    at: int,
    upto: int,
)
    requires
        at <= upto,
        blocks_planned(source, found, blocks, at) is Err,
    ensures
        blocks_planned(source, found, blocks, upto) == blocks_planned(source, found, blocks, at),
    decreases upto - at,
{
    if at < upto {
        lemma_blocks_planned_fails(source, found, blocks, at, upto - 1);
    }
}

fn contains_index(visited: &Vec<usize>, i: usize) -> (r: bool)
    ensures
        r == visited@.contains(i),
{
    let mut k: usize = 0;
    while k < visited.len()
        invariant
            k <= visited@.len(),
            forall|j: int| 0 <= j < k ==> visited@[j] != i,
        decreases visited.len() - k,
    {
        if visited[k] == i {
            return true;
        }
        k += 1;
    }
    false
}

fn find_candidates(blocks: &Vec<ExpectedPhpBlock>, visited: &Vec<usize>, text: &str) -> (r: Vec<
    usize,
>)
    ensures
        r@ == candidates(expected_views(blocks@), visited@, text@, blocks@.len() as int),
        forall|k: int| 0 <= k < r@.len() ==> (#[trigger] r@[k]) < blocks@.len(),
{
    let mut out: Vec<usize> = Vec::new();
    let mut i: usize = 0;
    while i < blocks.len()
        invariant
            i <= blocks@.len(),
            out@ == candidates(expected_views(blocks@), visited@, text@, i as int),
            forall|k: int| 0 <= k < out@.len() ==> (#[trigger] out@[k]) < blocks@.len(),
        decreases blocks.len() - i,
    {
        assert(expected_views(blocks@)[i as int] == blocks@[i as int]@);
        if !contains_index(visited, i) && blocks[i].matches(text) {
            out.push(i);
        }
        i += 1;
    }
    out
}

/// Plans the blocks that were `found` in `source`: what each is replaced with.
pub fn plan_blocks(source: &str, found: &Vec<Vec<Option<(usize, usize)>>>, blocks: &Vec<
    ExpectedPhpBlock,
>) -> (r: Result<(Vec<Edit>, Vec<BlockWarning>), TransformError>)
    ensures
        match (
            r,
            blocks_planned(source@, groups_of(found@), expected_views(blocks@), found@.len() as int),
        ) {
            (Ok(out), Ok(plan)) => edit_views(out.0@) == plan.edits && warning_views(out.1@)
                == plan.warnings,
            (Err(e), Err(owed)) => e@ == owed,
            _ => false,
        },
{
    let ghost all = groups_of(found@);
    let ghost expected = expected_views(blocks@);
    let mut visited: Vec<usize> = Vec::new();
    let mut edits: Vec<Edit> = Vec::new();
    let mut warnings: Vec<BlockWarning> = Vec::new();
    let mut i: usize = 0;
    assert(edit_views(edits@) =~= Seq::empty());
    assert(warning_views(warnings@) =~= Seq::empty());
    while i < found.len()
        invariant
            i <= found@.len(),
            all == groups_of(found@),
            expected == expected_views(blocks@),
            blocks_planned(source@, all, expected, i as int) == Ok::<_, TransformErrorV>(
                Plan {
                    edits: edit_views(edits@),
                    visited: visited@,
                    warnings: warning_views(warnings@),
                },
            ),
        decreases found.len() - i,
    {
        let groups = &found[i];
        assert(all[i as int] == groups@);
        let ghost plan = Plan {
            edits: edit_views(edits@),
            visited: visited@,
            warnings: warning_views(warnings@),
        };
        let (text, start, end) = match (text_of_group(source, groups, 1), span(groups, 0)) {
            (Some(text), Some((start, end))) => (text, start, end),
            _ => {
                proof {
                    lemma_blocks_planned_fails(source@, all, expected, i + 1, found@.len() as int);
                }
                return Err(TransformError::NoContent);
            },
        };
        let result = find_candidates(blocks, &visited, text);
        let ghost edits_before = edit_views(edits@);
        let ghost warnings_before = warning_views(warnings@);
        if result.len() == 0 {
            let unexpected = FoundPhpBlock::new_unexpected(start, end);
            warnings.push(BlockWarning::Unexpected { start, end });
            edits.push(Edit::new(start, end, String::new()));
            assert(edit_views(edits@) =~= edits_before.push((start, end, Seq::empty())));
            assert(warning_views(warnings@) =~= warnings_before.push(
                BlockWarningV::Unexpected { start, end },
            ));
        } else if result.len() > 1 {
            proof {
                lemma_blocks_planned_fails(source@, all, expected, i + 1, found@.len() as int);
            }
            return Err(TransformError::InvalidMatches { count: result.len(), start, end });
        } else {
            let at = result[0];
            let expected_block = &blocks[at];
            assert(expected[at as int] == expected_block@);
            let block = FoundPhpBlock::new(start, end);
            let moved = expected_block.expect_match(&block);
            let replaced = match expected_block.replace() {
                Ok(text) => text,
                Err(why) => {
                    proof {
                        lemma_blocks_planned_fails(
                            source@,
                            all,
                            expected,
                            i + 1,
                            found@.len() as int,
                        );
                    }
                    return Err(TransformError::ReplacerFailed(why));
                },
            };
            if moved {
                let range = match expected_block.range {
                    Some(r) => r,
                    None => (start, end),
                };
                warnings.push(
                    BlockWarning::Moved {
                        id: expected_block.id.clone(),
                        expected: range,
                        found: (start, end),
                    },
                );
                assert(warning_views(warnings@) =~= warnings_before.push(
                    BlockWarningV::Moved {
                        id: expected_block@.id,
                        expected: range,
                        found: (start, end),
                    },
                ));
            }
            edits.push(Edit::new(start, end, replaced));
            assert(edit_views(edits@) =~= edits_before.push((start, end, replaced@)));
            // Mark block as visited.
            visited.push(at);
        }
        i += 1;
    }
    Ok((edits, warnings))
}

/// Transforms the given `source` by replacing the blocks of PHP in it as the given
/// `blocks` say.
///
/// On success the page holds, in place of every block, what was planned for it. A page
/// that cannot be transformed stays as it is.
pub fn transform_blocks(source: &mut String, blocks: &Vec<ExpectedPhpBlock>) -> (r: Result<
    Vec<BlockWarning>,
    TransformError,
>)
    ensures
        match regex_found(PHP_REGEX@, old(source)@) {
            Some(found) => match blocks_planned(
                old(source)@,
                found,
                expected_views(blocks@),
                found.len() as int,
            ) {
                Ok(plan) => match r {
                    Ok(warnings) => warning_views(warnings@) == plan.warnings && applicable(
                        encode_utf8(old(source)@),
                        plan_splices(plan.edits),
                    ) && encode_utf8(final(source)@) == edited(
                        encode_utf8(old(source)@),
                        plan_splices(plan.edits),
                    ),
                    Err(e) => e@ == TransformErrorV::NotApplicable && !applicable(
                        encode_utf8(old(source)@),
                        plan_splices(plan.edits),
                    ) && final(source)@ == old(source)@,
                },
                Err(owed) => r matches Err(e) && e@ == owed && final(source)@ == old(source)@,
            },
            None => r matches Err(e) && e@ == TransformErrorV::BadPattern && final(source)@
                == old(source)@,
        },
{
    let found = match captures_all(PHP_REGEX, source.as_str()) {
        Some(f) => f,
        None => {
            return Err(TransformError::BadPattern);
        },
    };
    let (edits, warnings) = match plan_blocks(source.as_str(), &found, blocks) {
        Ok(out) => out,
        Err(e) => {
            return Err(e);
        },
    };
    assert(splices(edits@) =~= plan_splices(edit_views(edits@)));
    if try_apply(source, &edits) {
        Ok(warnings)
    } else {
        Err(TransformError::NotApplicable)
    }
}

/// The blocks that are expected in the script of the trial: the one that renders what
/// is common, which gives way to nothing, and the one that holds the data of the trial,
/// which gives way to `trial`.
pub open spec fn trial_blocks(trial: Result<Seq<char>, Seq<char>>) -> Seq<ExpectedPhpBlockV> {
    seq![
        ExpectedPhpBlockV {
            id: "common_render"@,
            range: None,
            detector: r"include\('common_render\.php'\);"@,
            replacer: Ok(Seq::empty()),
        },
        ExpectedPhpBlockV {
            id: "trial_data"@,
            range: None,
            detector: r"var trial_information;"@,
            replacer: trial,
        },
    ]
}

/// The blocks that are expected in the script of the trial.
pub fn expected_trial_blocks(trial: Replacement) -> (r: Vec<ExpectedPhpBlock>)
    ensures
        expected_views(r@) == trial_blocks(
            match trial {
                Replacement::Text(t) => Ok(t@),
                Replacement::Failed(why) => Err(why@),
                Replacement::Nothing => Ok(Seq::empty()),
            },
        ),
{
    let mut blocks: Vec<ExpectedPhpBlock> = Vec::new();
    blocks.push(
        ExpectedPhpBlock::new_rangeless(
            "common_render",
            r"include\('common_render\.php'\);",
            Replacement::Nothing,
        ),
    );
    blocks.push(ExpectedPhpBlock::new_rangeless("trial_data", r"var trial_information;", trial));
    assert(expected_views(blocks@) =~= trial_blocks(blocks@[1]@.replacer));
    blocks
}

/// What is said where the data of a case cannot be written.
pub const UNWRITABLE_CASE: &'static str = "The case cannot be written as JSON.";

/// What stands in place of the data of the trial: the data of `case` as JavaScript.
pub open spec fn trial_replacer(case: &Case) -> Result<Seq<char>, Seq<char>> {
    match case.spec_serialize_to_js() {
        Some(js) => Ok(js),
        None => Err(UNWRITABLE_CASE@),
    }
}

/// Transforms the blocks within the given `source` (that's assumed to be
/// `trial.js.php`): the data of the trial gives way to the data of `case`.
pub fn transform_trial_blocks(case: &Case, source: &mut String) -> (r: Result<
    Vec<BlockWarning>,
    TransformError,
>)
    ensures
        match regex_found(PHP_REGEX@, old(source)@) {
            Some(found) => match blocks_planned(
                old(source)@,
                found,
                trial_blocks(trial_replacer(case)),
                found.len() as int,
            ) {
                Ok(plan) => match r {
                    Ok(warnings) => warning_views(warnings@) == plan.warnings && applicable(
                        encode_utf8(old(source)@),
                        plan_splices(plan.edits),
                    ) && encode_utf8(final(source)@) == edited(
                        encode_utf8(old(source)@),
                        plan_splices(plan.edits),
                    ),
                    Err(e) => e@ == TransformErrorV::NotApplicable && !applicable(
                        encode_utf8(old(source)@),
                        plan_splices(plan.edits),
                    ) && final(source)@ == old(source)@,
                },
                Err(owed) => r matches Err(e) && e@ == owed && final(source)@ == old(source)@,
            },
            None => r matches Err(e) && e@ == TransformErrorV::BadPattern && final(source)@
                == old(source)@,
        },
{
    let trial = match case.serialize_to_js() {
        Some(js) => Replacement::Text(js),
        None => Replacement::Failed(UNWRITABLE_CASE.to_owned()),
    };
    let blocks = expected_trial_blocks(trial);
    transform_blocks(source, &blocks)
}

/// The blocks that are expected in the page of the player, each where it is known to
/// stand: what renders the common parts, the language, the scripts, the title, and the
/// heading.
pub open spec fn player_blocks(language: Seq<char>, scripts: Seq<char>, title: Seq<char>) -> Seq<
    ExpectedPhpBlockV,
> {
    seq![
        ExpectedPhpBlockV {
            id: "common_render"@,
            range: Some((1usize, 40usize)),
            detector: r"include\('common_render\.php'\);"@,
            replacer: Ok(Seq::empty()),
        },
        ExpectedPhpBlockV {
            id: "language"@,
            range: Some((224usize, 272usize)),
            detector: r"echo language_backend\(.*\)"@,
            replacer: Ok(language),
        },
        ExpectedPhpBlockV {
            id: "script"@,
            range: Some((276usize, 396usize)),
            detector: r"include\('bridge\.js\.php'\);"@,
            replacer: Ok(scripts),
        },
        ExpectedPhpBlockV {
            id: "title"@,
            range: Some((417usize, 530usize)),
            detector: r"echo 'Ace Attorney Online - Trial Player \(Loading\)';"@,
            replacer: Ok(title),
        },
        ExpectedPhpBlockV {
            id: "heading"@,
            range: None,
            detector: r"echo 'Loading trial \.\.\.';"@,
            replacer: Ok(title),
        },
    ]
}

/// The blocks that are expected in the page of the player.
pub fn expected_player_blocks(language: &str, scripts: &str, title: &str) -> (r: Vec<
    ExpectedPhpBlock,
>)
    ensures
        expected_views(r@) == player_blocks(language@, scripts@, title@),
{
    let mut blocks: Vec<ExpectedPhpBlock> = Vec::new();
    blocks.push(
        ExpectedPhpBlock::new(
            "common_render",
            1,
            40,
            r"include\('common_render\.php'\);",
            Replacement::Nothing,
        ),
    );
    blocks.push(
        ExpectedPhpBlock::new(
            "language",
            224,
            272,
            r"echo language_backend\(.*\)",
            Replacement::Text(language.to_owned()),
        ),
    );
    blocks.push(
        ExpectedPhpBlock::new(
            "script",
            276,
            396,
            r"include\('bridge\.js\.php'\);",
            Replacement::Text(scripts.to_owned()),
        ),
    );
    blocks.push(
        ExpectedPhpBlock::new(
            "title",
            417,
            530,
            r"echo 'Ace Attorney Online - Trial Player \(Loading\)';",
            Replacement::Text(title.to_owned()),
        ),
    );
    blocks.push(
        ExpectedPhpBlock::new_rangeless(
            "heading",
            r"echo 'Loading trial \.\.\.';",
            Replacement::Text(title.to_owned()),
        ),
    );
    assert(expected_views(blocks@) =~= player_blocks(language@, scripts@, title@));
    blocks
}

/// Transforms the blocks within the given `playertext` (that's assumed to be
/// `player.php`): they give way to the language, to the scripts, and to the title of the
/// case.
pub fn transform_player_blocks(playertext: &mut String, language: &str, scripts: &str, title: &str) -> (r:
    Result<Vec<BlockWarning>, TransformError>)
    ensures
        match regex_found(PHP_REGEX@, old(playertext)@) {
            Some(found) => match blocks_planned(
                old(playertext)@,
                found,
                player_blocks(language@, scripts@, title@),
                found.len() as int,
            ) {
                Ok(plan) => match r {
                    Ok(warnings) => warning_views(warnings@) == plan.warnings && applicable(
                        encode_utf8(old(playertext)@),
                        plan_splices(plan.edits),
                    ) && encode_utf8(final(playertext)@) == edited(
                        encode_utf8(old(playertext)@),
                        plan_splices(plan.edits),
                    ),
                    Err(e) => e@ == TransformErrorV::NotApplicable && !applicable(
                        encode_utf8(old(playertext)@),
                        plan_splices(plan.edits),
                    ) && final(playertext)@ == old(playertext)@,
                },
                Err(owed) => r matches Err(e) && e@ == owed && final(playertext)@ == old(
                    playertext,
                )@,
            },
            None => r matches Err(e) && e@ == TransformErrorV::BadPattern && final(playertext)@
                == old(playertext)@,
        },
{
    let blocks = expected_player_blocks(language, scripts, title);
    transform_blocks(playertext, &blocks)
}

} // verus!

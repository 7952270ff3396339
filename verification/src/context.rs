//! What a run decides between its steps: where the cases are written, which cases go
//! with them, and what is taken away when the run fails.

use crate::args::{Args, DownloadSequence, LogLevel};
use crate::case::{ids_of, Case, Sequence};
use crate::paths::{
    extension, extension_of, join_path, joined_path, last_part, set_extension, trim, trimmed,
    with_extension,
};
use crate::text::{
    chars_of, concat, concat3, decimal, decimal_string, find_from, find_last, first_occurrence,
    last_occurrence, lemma_last_occurrence_bounds, push_chars, push_decimal, str_eq,
};
use vstd::prelude::*;

verus! {

/// The total number of steps that a run needs to go through.
pub const MAX_STEPS: u8 = 8;

/// The output of a run before its cases are known: the one that was asked for; else,
/// for a single case, a directory named by its ID; and else the current directory.
pub open spec fn first_output(output: Option<Seq<char>>, case_ids: Seq<u32>) -> Seq<char> {
    match output {
        Some(o) => o,
        None => if case_ids.len() == 1 {
            decimal(case_ids[0] as nat)
        } else {
            "."@
        },
    }
}

/// The output of a run before its cases are known.
pub fn initial_output(output: Option<&str>, case_ids: &Vec<u32>) -> (r: String)
    ensures
        r@ == first_output(
            match output {
                Some(o) => Some(o@),
                None => None,
            },
            case_ids@,
        ),
{
    match output {
        Some(o) => o.to_owned(),
        None => {
            if case_ids.len() == 1 {
                // If there's just a single case, we can just put it in a directory with its
                // name. We don't know its name yet, so for now we'll use the ID.
                decimal_string(case_ids[0] as u64)
            } else {
                // If there's more than one, we put them in the current directory.
                ".".to_owned()
            }
        },
    }
}

/// Whether to hide the progress bar.
///
/// This is the case if more than information is logged, since then the progress bar
/// would just interfere with the many log messages.
pub fn should_hide_pb(log_level: LogLevel) -> (r: bool)
    ensures
        r == (log_level == LogLevel::Debug || log_level == LogLevel::Trace),
{
    match log_level {
        LogLevel::Debug => true,
        LogLevel::Trace => true,
        _ => false,
    }
}

/// The download was cancelled per user request.
#[derive(Debug, Clone, Copy, PartialEq, Eq, Structural)]
pub struct Cancelled;

/// Whether the user has to be asked if the other cases of a sequence are downloaded
/// too: only at a terminal, and only for a sequence of more than one case.
pub fn needs_confirmation(is_terminal: bool, sequence_len: usize) -> (r: bool)
    ensures
        r == (is_terminal && sequence_len > 1),
{
    is_terminal && sequence_len > 1
}

/// Whether the whole sequence is downloaded, where the user is to be asked: away from a
/// terminal it is not, and neither is a sequence of one case; else the answer of the
/// user counts, and a question that was left without answer cancels the download.
pub open spec fn asked_sequence(is_terminal: bool, sequence_len: nat, answer: Option<bool>) -> Result<
    bool,
    Cancelled,
> {
    if is_terminal && sequence_len > 1 {
        match answer {
            Some(choice) => Ok(choice),
            None => Err(Cancelled),
        }
    } else {
        Ok(false)
    }
}

/// Decides whether the whole sequence is downloaded, where the user is to be asked.
pub fn ask_sequence(is_terminal: bool, sequence_len: usize, answer: Option<bool>) -> (r: Result<
    bool,
    Cancelled,
>)
    ensures
        r == asked_sequence(is_terminal, sequence_len as nat, answer),
{
    if needs_confirmation(is_terminal, sequence_len) {
        match answer {
            Some(choice) => Ok(choice),
            None => Err(Cancelled),
        }
    } else {
        Ok(false)
    }
}

/// The cases that are downloaded besides `case`: those of the sequence that it is part
/// of, where the whole sequence is downloaded.
pub open spec fn additional(
    sequence: Option<Sequence>,
    mode: DownloadSequence,
    is_terminal: bool,
    answer: Option<bool>,
) -> Result<Seq<u32>, Cancelled> {
    match sequence {
        Some(s) => match mode {
            DownloadSequence::Every => Ok(ids_of(s.spec_list())),
            DownloadSequence::Single => Ok(Seq::empty()),
            DownloadSequence::Ask => match asked_sequence(
                is_terminal,
                s.spec_list().len(),
                answer,
            ) {
                Ok(true) => Ok(ids_of(s.spec_list())),
                Ok(false) => Ok(Seq::empty()),
                Err(e) => Err(e),
            },
        },
        None => Ok(Seq::empty()),
    }
}

/// Retrieves additional cases that should be downloaded if the given `case` is part of a
/// sequence. `answer` is what the user said when asked, if the user was asked.
pub fn additional_cases(case: &Case, mode: DownloadSequence, is_terminal: bool, answer: Option<bool>) -> (r:
    Result<Vec<u32>, Cancelled>)
    ensures
        match (r, additional(case.case_information.sequence, mode, is_terminal, answer)) {
            (Ok(ids), Ok(owed)) => ids@ == owed,
            (Err(_), Err(_)) => true,
            _ => false,
        },
{
    // Check if the user wants to download the whole sequence this case is contained in.
    if let Some(sequence) = &case.case_information.sequence {
        let download = match mode {
            DownloadSequence::Every => true,
            DownloadSequence::Single => false,
            DownloadSequence::Ask => match ask_sequence(is_terminal, sequence.len(), answer) {
                Ok(choice) => choice,
                Err(e) => {
                    return Err(e);
                },
            },
        };
        if download {
            return Ok(sequence.entry_ids());
        }
    }
    Ok(Vec::new())
}

/// Whether `ext` is `html`, in small or in capital letters.
pub open spec fn is_html(ext: Seq<char>) -> bool {
    ext.len() == 4 && (ext[0] == 'h' || ext[0] == 'H') && (ext[1] == 't' || ext[1] == 'T') && (
    ext[2] == 'm' || ext[2] == 'M') && (ext[3] == 'l' || ext[3] == 'L')
}

fn is_html_extension(ext: &str) -> (r: bool)
    ensures
        r == is_html(ext@),
{
    let c = chars_of(ext);
    c.len() == 4 && (c[0] == 'h' || c[0] == 'H') && (c[1] == 't' || c[1] == 'T') && (c[2] == 'm'
        || c[2] == 'M') && (c[3] == 'l' || c[3] == 'L')
}

/// Whether all the cases of `cases` are part of one sequence.
pub open spec fn one_sequence(cases: Seq<Case>) -> bool {
    cases.len() > 0 && forall|i: int|
        0 <= i < cases.len() ==> (#[trigger] cases[i]).case_information.sequence is Some
            && cases[i].case_information.sequence->0.same_as(
            &cases[0].case_information.sequence->0,
        )
}

fn all_one_sequence(cases: &Vec<Case>) -> (r: bool)
    ensures
        r == one_sequence(cases@),
{
    if cases.len() == 0 {
        return false;
    }
    let first = match &cases[0].case_information.sequence {
        Some(s) => s,
        None => {
            return false;
        },
    };
    let mut i: usize = 0;
    while i < cases.len()
        invariant
            i <= cases@.len(),
            cases@.len() > 0,
            cases@[0].case_information.sequence == Some(*first),
            forall|k: int|
                0 <= k < i ==> (#[trigger] cases@[k]).case_information.sequence is Some
                    && cases@[k].case_information.sequence->0.same_as(first),
        decreases cases.len() - i,
    {
        match &cases[i].case_information.sequence {
            Some(s) => {
                if !s.same(first) {
                    return false;
                }
            },
            None => {
                return false;
            },
        }
        i += 1;
    }
    true
}

/// What is known when the cases are known and their output is settled.
pub struct OutputSetting {
    /// The output that was asked for.
    pub original: Option<Seq<char>>,
    /// The output as it stands.
    pub output: Seq<char>,
    /// Whether everything goes into a single file.
    pub one_file: bool,
    /// Whether the output as it stands is a directory that is there.
    pub output_is_dir: bool,
    /// Whether names keep to the rules of Windows.
    pub windows_names: bool,
}

/// The output of the run, now that its cases `cases` are known: a single case without
/// an output that was asked for goes by its title; a single case that goes into a file
/// gets a file that ends in `.html`, in the directory that was asked for where it is
/// one; cases of one sequence go below the title of the sequence; and any other cases
/// go into the current directory. Any other output stays as it stands.
pub open spec fn settled_output(cases: Seq<Case>, s: OutputSetting) -> Seq<char> {
    let one_case = cases.len() == 1;
    if one_case && s.original is None {
        if s.one_file {
            cases[0].spec_filename(s.windows_names) + ".html"@
        } else {
            cases[0].spec_filename(s.windows_names)
        }
    } else if one_case && s.one_file && !(extension(s.output) matches Some(ext) && is_html(ext)) {
        with_extension(
            if s.output_is_dir {
                joined_path(s.output, cases[0].spec_filename(s.windows_names))
            } else {
                s.output
            },
            "html"@,
        )
    } else if !one_case && s.original is None && one_sequence(cases) {
        trimmed(cases[0].case_information.sequence->0.spec_title())
    } else if !one_case && s.original is None {
        "."@
    } else {
        s.output
    }
}

/// The file that the player of `case` is written to, below the output `output`.
pub open spec fn case_file(output: Seq<char>, case: Case, one_case: bool, one_file: bool, windows_names: bool) -> Seq<
    char,
> {
    if one_case && one_file {
        output
    } else if one_case {
        joined_path(output, "index.html"@)
    } else if one_file {
        joined_path(output, case.spec_filename(windows_names) + ".html"@)
    } else {
        joined_path(joined_path(output, case.spec_filename(windows_names)), "index.html"@)
    }
}

/// The file of each case of `cases` below `output`, under the ID of the case.
pub open spec fn case_files(cases: Seq<Case>, output: Seq<char>, one_file: bool, windows_names: bool) -> Seq<
    (u32, Seq<char>),
> {
    Seq::new(
        cases.len(),
        |i: int|
            (
                cases[i].case_information.id,
                case_file(output, cases[i], cases.len() == 1, one_file, windows_names),
            ),
    )
}

/// The output of a run, and the file of each of its cases.
#[derive(Debug)]
pub struct Outputs {
    /// The output directory, or the file of a single case.
    pub output: String,
    /// The file of each case, under its ID.
    pub case_output_mapping: Vec<(u32, String)>,
}

/// Settles the output of the run and the file of each case, now that the cases are
/// known.
pub fn update_output_paths(
    cases: &Vec<Case>,
    original_output: Option<&str>,
    output: &str,
    one_file: bool,
    output_is_dir: bool,
    windows_names: bool,
) -> (r: Outputs)
    ensures
        r.output@ == settled_output(
            cases@,
            OutputSetting {
                original: match original_output {
                    Some(o) => Some(o@),
                    None => None,
                },
                output: output@,
                one_file,
                output_is_dir,
                windows_names,
            },
        ),
        crate::inlining::mapping_views(r.case_output_mapping@) == case_files(
            cases@,
            r.output@,
            one_file,
            windows_names,
        ),
{
    let one_case = cases.len() == 1;
    let settled: String = if one_case && original_output.is_none() {
        // We need to update the output name, now that we know the title.
        let mut name = cases[0].filename(windows_names);
        if one_file {
            name.append(".html");
        }
        name
    } else if one_case && one_file && !(match extension_of(output) {
        Some(ext) => is_html_extension(ext.as_str()),
        None => false,
    }) {
        let base = if output_is_dir {
            join_path(output, cases[0].filename(windows_names).as_str())
        } else {
            output.to_owned()
        };
        set_extension(base.as_str(), "html")
    } else if !one_case && original_output.is_none() && all_one_sequence(cases) {
        // All downloaded cases are part of a sequence.
        match &cases[0].case_information.sequence {
            Some(sequence) => trim(sequence.title()),
            None => ".".to_owned(),
        }
    } else if !one_case && original_output.is_none() {
        // Downloaded cases are not part of a single sequence. We'll put them in the
        // current directory.
        ".".to_owned()
    } else {
        output.to_owned()
    };
    let mut mapping: Vec<(u32, String)> = Vec::new();
    let mut i: usize = 0;
    while i < cases.len()
        invariant
            i <= cases@.len(),
            one_case == (cases@.len() == 1),
            mapping@.len() == i,
            forall|k: int|
                0 <= k < i ==> (#[trigger] mapping@[k]).0 == cases@[k].case_information.id
                    && mapping@[k].1@ == case_file(
                    settled@,
                    cases@[k],
                    one_case,
                    one_file,
                    windows_names,
                ),
        decreases cases.len() - i,
    {
        let case = &cases[i];
        let file = if one_case && one_file {
            settled.clone()
        } else if one_case {
            join_path(settled.as_str(), "index.html")
        } else if one_file {
            let mut name = case.filename(windows_names);
            name.append(".html");
            join_path(settled.as_str(), name.as_str())
        } else {
            let dir = join_path(settled.as_str(), case.filename(windows_names).as_str());
            join_path(dir.as_str(), "index.html")
        };
        mapping.push((case.id(), file));
        i += 1;
    }
    assert(crate::inlining::mapping_views(mapping@) =~= case_files(
        cases@,
        settled@,
        one_file,
        windows_names,
    ));
    Outputs { output: settled, case_output_mapping: mapping }
}

/// The directory that `path` lies in: what stands before its last `/`, which is `/`
/// itself for a file right below the root, and nothing for a name without a directory.
pub open spec fn parent(path: Seq<char>) -> Option<Seq<char>> {
    match last_occurrence(path, seq!['/'], path.len() as int) {
        Some(at) => if at == 0 {
            if path.len() > 1 {
                Some(seq!['/'])
            } else {
                None
            }
        } else if 0 < at <= path.len() {
            Some(path.subrange(0, at))
        } else {
            None
        },
        None => if path.len() > 0 {
            Some(Seq::empty())
        } else {
            None
        },
    }
}

/// The directory that `path` lies in.
pub fn parent_of(path: &str) -> (r: Option<String>)
    ensures
        match r {
            Some(dir) => parent(path@) == Some(dir@),
            None => parent(path@) is None,
        },
{
    let chars = chars_of(path);
    let slash = vec!['/'];
    assert(slash@ =~= seq!['/']);
    match find_last(&chars, &slash) {
        Some(at) => {
            proof {
                lemma_last_occurrence_bounds(chars@, slash@, chars@.len() as int);
            }
            if at == 0 {
                if chars.len() > 1 {
                    let mut dir = String::new();
                    push_chars(&mut dir, &chars, 0, 1);
                    assert(dir@ =~= seq!['/']);
                    Some(dir)
                } else {
                    None
                }
            } else {
                let mut dir = String::new();
                push_chars(&mut dir, &chars, 0, at);
                Some(dir)
            }
        },
        None => {
            if chars.len() > 0 {
                Some(String::new())
            } else {
                None
            }
        },
    }
}

/// The root of the file system is never removed.
#[derive(Debug, Clone, Copy, PartialEq, Eq, Structural)]
pub struct RefusedRoot;

/// What is removed of the cases whose files are `mapping` before `upto`: the file of each
/// case where everything goes into a single file, and else the directory that its file
/// lies in.
pub open spec fn removed_cases(mapping: Seq<(u32, Seq<char>)>, one_html_file: bool, upto: int) -> Seq<
    Seq<char>,
>
    decreases upto,
{
    if upto <= 0 {
        Seq::empty()
    } else {
        let before = removed_cases(mapping, one_html_file, upto - 1);
        if one_html_file {
            before.push(mapping[upto - 1].1)
        } else {
            match parent(mapping[upto - 1].1) {
                Some(dir) => before.push(dir),
                None => before,
            }
        }
    }
}

/// What is removed when the run fails: the output itself where one case was asked for,
/// and else what was written for each case. Nothing is removed where the output is the
/// root of the file system.
pub open spec fn removed(
    output: Seq<char>,
    case_count: nat,
    mapping: Seq<(u32, Seq<char>)>,
    one_html_file: bool,
) -> Result<Seq<Seq<char>>, RefusedRoot> {
    if output == "/"@ {
        Err(RefusedRoot)
    } else if case_count == 1 {
        Ok(seq![output])
    } else {
        Ok(removed_cases(mapping, one_html_file, mapping.len() as int))
    }
}

/// Names all of the data that a run has created in the output directory, which is
/// removed when the run fails.
pub fn cleanup_data(output: &str, case_count: usize, mapping: &Vec<(u32, String)>, one_html_file: bool) -> (r:
    Result<Vec<String>, RefusedRoot>)
    ensures
        match (
            r,
            removed(
                output@,
                case_count as nat,
                crate::inlining::mapping_views(mapping@),
                one_html_file,
            ),
        ) {
            (Ok(list), Ok(owed)) => crate::text::string_views(list@) == owed,
            (Err(_), Err(_)) => true,
            _ => false,
        },
{
    if str_eq(output, "/") {
        return Err(RefusedRoot);
    }
    let mut out: Vec<String> = Vec::new();
    if case_count == 1 {
        out.push(output.to_owned());
        assert(crate::text::string_views(out@) =~= seq![output@]);
        return Ok(out);
    }
    let ghost views = crate::inlining::mapping_views(mapping@);
    let mut i: usize = 0;
    assert(crate::text::string_views(out@) =~= Seq::<Seq<char>>::empty());
    // Otherwise, we will remove the cases individually.
    while i < mapping.len()
        invariant
            i <= mapping@.len(),
            views == crate::inlining::mapping_views(mapping@),
            crate::text::string_views(out@) == removed_cases(views, one_html_file, i as int),
        decreases mapping.len() - i,
    {
        assert(views[i as int] == (mapping@[i as int].0, mapping@[i as int].1@));
        let ghost before = crate::text::string_views(out@);
        if one_html_file {
            // Only need to delete the single file.
            out.push(mapping[i].1.clone());
            assert(crate::text::string_views(out@) =~= before.push(mapping@[i as int].1@));
        } else if let Some(dir) = parent_of(mapping[i].1.as_str()) {
            // Need to delete both the assets folder and the index.html from the parent
            // directory.
            out.push(dir);
            assert(crate::text::string_views(out@) =~= before.push(dir@));
        }
        i += 1;
    }
    Ok(out)
}

/// What the step that downloads the assets of `num_cases` cases is called.
pub open spec fn download_step(num_cases: nat) -> Seq<char> {
    "Downloading case assets"@ + if num_cases == 1 {
        Seq::empty()
    } else {
        " for "@ + decimal(num_cases) + " cases"@
    } + "... (This may take a while)"@
}

/// What the step that downloads the assets of `num_cases` cases is called.
pub fn download_step_text(num_cases: usize) -> (r: String)
    ensures
        r@ == download_step(num_cases as nat),
{
    let mut text = "Downloading case assets".to_owned();
    if num_cases != 1 {
        text.append(" for ");
        push_decimal(&mut text, num_cases as u64);
        text.append(" cases");
    }
    text.append("... (This may take a while)");
    text
}

/// What is said when the cases are written: where a single case went, or how many
/// cases went where.
pub open spec fn success(num_cases: nat, last_file: Seq<char>, output: Seq<char>) -> Seq<char> {
    if num_cases == 1 {
        "Case successfully written to \""@ + last_file + "\"!"@
    } else {
        decimal(num_cases) + " cases successfully written to "@ + if output == "."@ {
            "current directory"@
        } else {
            "directory \""@ + output + "\""@
        } + "!"@
    }
}

/// What is said when the cases are written.
pub fn success_message(num_cases: usize, last_file: &str, output: &str) -> (r: String)
    ensures
        r@ == success(num_cases as nat, last_file@, output@),
{
    if num_cases == 1 {
        concat3("Case successfully written to \"", last_file, "\"!")
    } else {
        let mut text = decimal_string(num_cases as u64);
        text.append(" cases successfully written to ");
        if str_eq(output, ".") {
            text.append("current directory");
        } else {
            text.append("directory \"");
            text.append(output);
            text.append("\"");
        }
        text.append("!");
        text
    }
}

/// The referrer that makes photobucket hand out an image without a watermark.
pub const PHOTOBUCKET_REFERER: &'static str = "https://photobucket.com/";

/// Whether a request gets the referrer that makes photobucket hand out an image without
/// a watermark: where that fix is wanted, and the request goes to photobucket.
pub open spec fn wants_referer(fix_photobucket: bool, host: Option<Seq<char>>) -> bool {
    fix_photobucket && match host {
        Some(h) => first_occurrence(h, "photobucket.com"@, 0) is Some,
        None => false,
    }
}

/// Whether a request gets the referrer that makes photobucket hand out an image without
/// a watermark.
pub fn needs_referer(fix_photobucket: bool, host: Option<&str>) -> (r: bool)
    ensures
        r == wants_referer(
            fix_photobucket,
            match host {
                Some(h) => Some(h@),
                None => None,
            },
        ),
{
    if !fix_photobucket {
        return false;
    }
    match host {
        Some(h) => {
            let hay = chars_of(h);
            let needle = chars_of("photobucket.com");
            find_from(&hay, &needle, 0).is_some()
        },
        None => false,
    }
}

/// The address that a request for `url` goes to through the proxy `proxy`: the address
/// behind that of the proxy. Without a proxy there is none.
pub fn proxied_url(proxy: Option<&str>, url: &str) -> (r: Option<String>)
    ensures
        match (r, proxy) {
            (Some(target), Some(p)) => target@ == p@ + url@,
            (None, None) => true,
            _ => false,
        },
{
    match proxy {
        Some(p) => Some(concat(p, url)),
        None => None,
    }
}

/// Whether what is there already stands in the way of the file `player_file` of a case:
/// the file itself, or, where the assets go beside it, a directory of assets that holds
/// something.
pub fn blocks_output(is_file: bool, one_html_file: bool, assets_filled: bool) -> (r: bool)
    ensures
        r == (is_file || (!one_html_file && assets_filled)),
{
    is_file || (!one_html_file && assets_filled)
}

/// What is said where the output of a case is there already: it names the directory of
/// the file of the case, and the file itself where it has none.
pub open spec fn already_there(player_file: Seq<char>) -> Seq<char> {
    "Output at \""@ + match parent(player_file) {
        Some(dir) => dir,
        None => player_file,
    } + "\" already exists. Please remove it or use --replace-existing."@
}

/// What is said where the output of a case is there already.
pub fn existing_output_message(player_file: &str) -> (r: String)
    ensures
        r@ == already_there(player_file@),
{
    let place = match parent_of(player_file) {
        Some(dir) => dir,
        None => player_file.to_owned(),
    };
    concat3(
        "Output at \"",
        place.as_str(),
        "\" already exists. Please remove it or use --replace-existing.",
    )
}

/// What is said where the player could not be written to `output_path`.
pub fn write_failed_message(output_path: &str) -> (r: String)
    ensures
        r@ == "Could not write player to file "@ + output_path@
            + ". Please check your permissions."@,
{
    concat3("Could not write player to file ", output_path, ". Please check your permissions.")
}

/// The directory that the asset at `path` is written into: the one that the file lies
/// in, which is called `assets`. Of any other path, nothing.
pub open spec fn asset_dir(path: Seq<char>) -> Option<Seq<char>> {
    match parent(path) {
        Some(dir) => if last_part(dir) == "assets"@ {
            Some(dir)
        } else {
            None
        },
        None => None,
    }
}

/// The directory that is made before the asset at `path` is written into it.
pub fn asset_directory(path: &str) -> (r: Option<String>)
    ensures
        match r {
            Some(dir) => asset_dir(path@) == Some(dir@),
            None => asset_dir(path@) is None,
        },
{
    match parent_of(path) {
        Some(dir) => {
            let name = crate::fetch::last_part_of(dir.as_str());
            if str_eq(name.as_str(), "assets") {
                Some(dir)
            } else {
                None
            }
        },
        None => None,
    }
}

/// The cases of `cases` before `upto`, each ID once: of two cases of one ID, the first.
pub open spec fn distinct(cases: Seq<Case>, upto: int) -> Seq<Case>
    decreases upto,
{
    if upto <= 0 {
        Seq::empty()
    } else {
        let before = distinct(cases, upto - 1);
        if holds_id(before, cases[upto - 1].case_information.id) {
            before
        } else {
            before.push(cases[upto - 1])
        }
    }
}

/// Whether a case of `cases` has the ID `id`.
pub open spec fn holds_id(cases: Seq<Case>, id: u32) -> bool {
    exists|k: int| 0 <= k < cases.len() && (#[trigger] cases[k]).case_information.id == id
}

fn has_case(cases: &Vec<Case>, id: u32) -> (r: bool)
    ensures
        r == holds_id(cases@, id),
{
    let mut k: usize = 0;
    while k < cases.len()
        invariant
            k <= cases@.len(),
            forall|j: int| 0 <= j < k ==> (#[trigger] cases@[j]).case_information.id != id,
        decreases cases.len() - k,
    {
        if cases[k].id() == id {
            return true;
        }
        k += 1;
    }
    false
}

/// Takes each case of `cases` once: a case that was asked for and is part of a sequence
/// that was asked for too is read twice, and written once.
pub fn distinct_cases(cases: Vec<Case>) -> (r: Vec<Case>)
    ensures
        r@ == distinct(cases@, cases@.len() as int),
{
    let ghost all = cases@;
    let mut queue = cases;
    let mut out: Vec<Case> = Vec::new();
    while queue.len() > 0
        invariant
            queue@.len() <= all.len(),
            queue@ == all.subrange(all.len() - queue@.len(), all.len() as int),
            out@ == distinct(all, all.len() - queue@.len()),
        decreases queue.len(),
    {
        let ghost at = all.len() - queue@.len();
        let case = queue.remove(0);
        assert(case == all[at]);
        if !has_case(&out, case.id()) {
            out.push(case);
        }
        assert(queue@ =~= all.subrange(at + 1, all.len() as int));
    }
    out
}

/// The steps of a run, and its two ends.
#[derive(Debug, Clone, Copy, PartialEq, Eq, Structural)]
pub enum Stage {
    /// The information on the cases is read.
    CaseInfos,
    /// The configuration of the site is read.
    SiteConfig,
    /// The assets of the cases are downloaded.
    CaseData,
    /// The player is read.
    Player,
    /// The scripts of the player are read.
    Scripts,
    /// What the player refers to beside its scripts is read.
    Sources,
    /// The userscripts are read and put behind the player.
    Userscripts,
    /// The case at this place among the cases is written.
    Writing(usize),
    /// Every case is written.
    Finished,
    /// A step has failed.
    Failed,
}

/// The number under which the step `stage` is shown; the two ends are no steps.
pub open spec fn step_of(stage: Stage) -> Option<u8> {
    match stage {
        Stage::CaseInfos => Some(1),
        Stage::SiteConfig => Some(2),
        Stage::CaseData => Some(3),
        Stage::Player => Some(4),
        Stage::Scripts => Some(5),
        Stage::Sources => Some(6),
        Stage::Userscripts => Some(7),
        Stage::Writing(_) => Some(8),
        Stage::Finished => None,
        Stage::Failed => None,
    }
}

/// What the step `stage` is called, for `num_cases` cases, where `title` is the title of
/// the case that is written.
pub open spec fn step_name(stage: Stage, num_cases: nat, title: Seq<char>) -> Option<Seq<char>> {
    match stage {
        Stage::CaseInfos => Some("Retrieving case information..."@),
        Stage::SiteConfig => Some("Retrieving site configuration..."@),
        Stage::CaseData => Some(download_step(num_cases)),
        Stage::Player => Some("Retrieving player..."@),
        Stage::Scripts => Some("Retrieving player scripts..."@),
        Stage::Sources => Some("Retrieving additional external player sources..."@),
        Stage::Userscripts => Some("Applying userscripts..."@),
        Stage::Writing(_) => Some("Writing case \""@ + title + "\" to disk..."@),
        Stage::Finished => None,
        Stage::Failed => None,
    }
}

/// What is left behind when the progress of the step `stage` ends well; nothing for a
/// step that shows no progress of its own.
pub open spec fn finish_name(stage: Stage) -> Option<Seq<char>> {
    match stage {
        Stage::CaseInfos => Some("All case information retrieved."@),
        Stage::CaseData => Some("Case data downloaded."@),
        Stage::Scripts => Some("Player scripts retrieved."@),
        Stage::Sources => Some("All player sources downloaded."@),
        Stage::Userscripts => Some("Userscripts retrieved."@),
        _ => None,
    }
}

/// The stage that follows `stage` when it ends well, with `num_cases` cases to write.
pub open spec fn following(stage: Stage, num_cases: nat) -> Stage {
    match stage {
        Stage::CaseInfos => Stage::SiteConfig,
        Stage::SiteConfig => Stage::CaseData,
        Stage::CaseData => Stage::Player,
        Stage::Player => Stage::Scripts,
        Stage::Scripts => Stage::Sources,
        Stage::Sources => Stage::Userscripts,
        Stage::Userscripts => if num_cases > 0 {
            Stage::Writing(0)
        } else {
            Stage::Finished
        },
        Stage::Writing(at) => if at + 1 < num_cases {
            Stage::Writing((at + 1) as usize)
        } else {
            Stage::Finished
        },
        Stage::Finished => Stage::Finished,
        Stage::Failed => Stage::Failed,
    }
}

/// Whether what was written is taken away when the step `stage` fails: from the
/// download of the assets on, which is the first step that writes.
pub open spec fn cleans_up(stage: Stage) -> bool {
    match stage {
        Stage::CaseData => true,
        Stage::Player => true,
        Stage::Scripts => true,
        Stage::Sources => true,
        Stage::Userscripts => true,
        Stage::Writing(_) => true,
        _ => false,
    }
}

/// What a step is shown as.
#[derive(Debug)]
pub struct StepShown {
    /// The number of the step.
    pub step: u8,
    /// What the step is called.
    pub text: String,
    /// Whether the progress bar stays hidden.
    pub hidden: bool,
}

/// The main context of a run: what it was asked for, where it writes, and how far it is.
#[derive(Debug)]
pub struct MainContext {
    /// What the run was asked for.
    pub args: Args,
    /// The IDs of the cases to download.
    pub case_ids: Vec<u32>,
    /// The output directory for the cases, or the file of a single case.
    pub output: String,
    /// Mapping from case ID to output file.
    pub case_output_mapping: Vec<(u32, String)>,
    /// The number of cases that are written.
    pub num_cases: usize,
    /// Whether the names of files keep to the rules of Windows.
    pub windows_names: bool,
    /// How far the run is.
    pub stage: Stage,
}

/// The output that was asked for in `args`.
pub open spec fn asked_output(args: Args) -> Option<Seq<char>> {
    match args.output {
        Some(o) => Some(o@),
        None => None,
    }
}

impl MainContext {
    /// Creates a new main context from the given `args`: the run stands before its
    /// first step, and nothing is known of its cases but their IDs.
    pub fn new(args: Args, windows_names: bool) -> (r: MainContext)
        ensures
            r.args == args,
            r.windows_names == windows_names,
            r.case_ids@ == args.cases@,
            r.output@ == first_output(asked_output(args), args.cases@),
            r.case_output_mapping@.len() == 0,
            r.num_cases == args.cases@.len(),
            r.stage == Stage::CaseInfos,
    {
        let case_ids = args.cases.clone();
        let asked: Option<&str> = match &args.output {
            Some(o) => Some(o.as_str()),
            None => None,
        };
        let output = initial_output(asked, &case_ids);
        let num_cases = case_ids.len();
        MainContext {
            args,
            case_ids,
            output,
            case_output_mapping: Vec::new(),
            num_cases,
            windows_names,
            stage: Stage::CaseInfos,
        }
    }

    /// How the stage that the run is at is shown, where `title` is the title of the case
    /// that is written; nothing at the ends of the run.
    pub fn show_step(&self, title: &str) -> (r: Option<StepShown>)
        ensures
            match r {
                Some(shown) => step_of(self.stage) == Some(shown.step) && step_name(
                    self.stage,
                    self.num_cases as nat,
                    title@,
                ) == Some(shown.text@) && shown.hidden == (self.args.log_level == LogLevel::Debug
                    || self.args.log_level == LogLevel::Trace),
                None => step_of(self.stage) is None,
            },
    {
        let hidden = should_hide_pb(self.args.log_level);
        let (step, text): (u8, String) = match self.stage {
            Stage::CaseInfos => (1, "Retrieving case information...".to_owned()),
            Stage::SiteConfig => (2, "Retrieving site configuration...".to_owned()),
            Stage::CaseData => (3, download_step_text(self.num_cases)),
            Stage::Player => (4, "Retrieving player...".to_owned()),
            Stage::Scripts => (5, "Retrieving player scripts...".to_owned()),
            Stage::Sources => (6, "Retrieving additional external player sources...".to_owned()),
            Stage::Userscripts => (7, "Applying userscripts...".to_owned()),
            Stage::Writing(_) => (8, concat3("Writing case \"", title, "\" to disk...")),
            Stage::Finished => {
                return None;
            },
            Stage::Failed => {
                return None;
            },
        };
        Some(StepShown { step, text, hidden })
    }

    /// What is left behind when the progress of the stage that the run is at ends well.
    pub fn finish_text(&self) -> (r: Option<&'static str>)
        ensures
            match r {
                Some(text) => finish_name(self.stage) == Some(text@),
                None => finish_name(self.stage) is None,
            },
    {
        match self.stage {
            Stage::CaseInfos => Some("All case information retrieved."),
            Stage::CaseData => Some("Case data downloaded."),
            Stage::Scripts => Some("Player scripts retrieved."),
            Stage::Sources => Some("All player sources downloaded."),
            Stage::Userscripts => Some("Userscripts retrieved."),
            _ => None,
        }
    }

    /// Settles the output of the run and the file of each case, now that the cases are
    /// known. `output_is_dir` says whether the output as it stands is a directory that
    /// is there.
    pub fn update_output_paths(&mut self, cases: &Vec<Case>, output_is_dir: bool)
        ensures
            final(self).output@ == settled_output(
                cases@,
                OutputSetting {
                    original: asked_output(old(self).args),
                    output: old(self).output@,
                    one_file: old(self).args.one_html_file,
                    output_is_dir,
                    windows_names: old(self).windows_names,
                },
            ),
            crate::inlining::mapping_views(final(self).case_output_mapping@)
                == crate::inlining::mapping_views(old(self).case_output_mapping@) + case_files(
                cases@,
                final(self).output@,
                old(self).args.one_html_file,
                old(self).windows_names,
            ),
            final(self).num_cases == cases@.len(),
            final(self).args == old(self).args,
            final(self).case_ids == old(self).case_ids,
            final(self).windows_names == old(self).windows_names,
            final(self).stage == old(self).stage,
    {
        let asked: Option<&str> = match &self.args.output {
            Some(o) => Some(o.as_str()),
            None => None,
        };
        let settled = update_output_paths(
            cases,
            asked,
            self.output.as_str(),
            self.args.one_html_file,
            output_is_dir,
            self.windows_names,
        );
        let ghost before = crate::inlining::mapping_views(self.case_output_mapping@);
        let mut more = settled.case_output_mapping;
        let ghost added = crate::inlining::mapping_views(more@);
        self.case_output_mapping.append(&mut more);
        assert(crate::inlining::mapping_views(self.case_output_mapping@) =~= before + added);
        self.output = settled.output;
        self.num_cases = cases.len();
    }

    /// The file that the case `case_id` is written to, once the output is settled.
    pub fn output_of(&self, case_id: u32) -> (r: Option<&str>)
        ensures
            match r {
                Some(file) => crate::site::looked_up(
                    crate::inlining::mapping_views(self.case_output_mapping@),
                    case_id,
                ) == Some(file@),
                None => crate::site::looked_up(
                    crate::inlining::mapping_views(self.case_output_mapping@),
                    case_id,
                ) is None,
            },
    {
        let ghost views = crate::inlining::mapping_views(self.case_output_mapping@);
        let mut i: usize = 0;
        while i < self.case_output_mapping.len()
            invariant
                i <= self.case_output_mapping@.len(),
                views == crate::inlining::mapping_views(self.case_output_mapping@),
                forall|k: int| 0 <= k < i ==> !crate::site::under::<u32, Seq<char>>(case_id)(#[trigger] views[k]),
            decreases self.case_output_mapping.len() - i,
        {
            if self.case_output_mapping[i].0 == case_id {
                proof {
                    crate::seqs::lemma_first_place_found(
                        views,
                        crate::site::under::<u32, Seq<char>>(case_id),
                        i as int,
                    );
                }
                return Some(self.case_output_mapping[i].1.as_str());
            }
            i += 1;
        }
        proof {
            crate::seqs::lemma_first_place_missing(views, crate::site::under::<u32, Seq<char>>(case_id));
        }
        None
    }

    /// Names all of the data that the run has created, which is removed when it fails.
    pub fn cleanup_data(&self) -> (r: Result<Vec<String>, RefusedRoot>)
        ensures
            match (
                r,
                removed(
                    self.output@,
                    self.case_ids@.len(),
                    crate::inlining::mapping_views(self.case_output_mapping@),
                    self.args.one_html_file,
                ),
            ) {
                (Ok(list), Ok(owed)) => crate::text::string_views(list@) == owed,
                (Err(_), Err(_)) => true,
                _ => false,
            },
    {
        cleanup_data(
            self.output.as_str(),
            self.case_ids.len(),
            &self.case_output_mapping,
            self.args.one_html_file,
        )
    }

    /// Takes note of how the step that the run is at has ended, and says whether what
    /// was written is now taken away. A step that ends well leads to the next one, and
    /// the last case that is written to the end of the run; a step that fails ends the
    /// run, and what was written is taken away from the download of the assets on.
    pub fn completed(&mut self, succeeded: bool) -> (clean: bool)
        ensures
            final(self).stage == if succeeded {
                following(old(self).stage, old(self).num_cases as nat)
            } else {
                Stage::Failed
            },
            clean == (!succeeded && cleans_up(old(self).stage)),
            final(self).args == old(self).args,
            final(self).case_ids == old(self).case_ids,
            final(self).output == old(self).output,
            final(self).case_output_mapping == old(self).case_output_mapping,
            final(self).num_cases == old(self).num_cases,
            final(self).windows_names == old(self).windows_names,
    {
        if !succeeded {
            let clean = match self.stage {
                Stage::CaseData => true,
                Stage::Player => true,
                Stage::Scripts => true,
                Stage::Sources => true,
                Stage::Userscripts => true,
                Stage::Writing(_) => true,
                _ => false,
            };
            self.stage = Stage::Failed;
            return clean;
        }
        let next = match self.stage {
            Stage::CaseInfos => Stage::SiteConfig,
            Stage::SiteConfig => Stage::CaseData,
            Stage::CaseData => Stage::Player,
            Stage::Player => Stage::Scripts,
            Stage::Scripts => Stage::Sources,
            Stage::Sources => Stage::Userscripts,
            Stage::Userscripts => if self.num_cases > 0 {
                Stage::Writing(0)
            } else {
                Stage::Finished
            },
            Stage::Writing(at) => if at < self.num_cases && at + 1 < self.num_cases {
                Stage::Writing(at + 1)
            } else {
                Stage::Finished
            },
            Stage::Finished => Stage::Finished,
            Stage::Failed => Stage::Failed,
        };
        self.stage = next;
        false
    }

    /// What is said when the run has written its cases, of which the last went to
    /// `last_file`.
    pub fn success_message(&self, last_file: &str) -> (r: String)
        ensures
            r@ == success(self.num_cases as nat, last_file@, self.output@),
    {
        success_message(self.num_cases, last_file, self.output.as_str())
    }
}

/// What is said of the cases that were found, where `described` describes each.
pub open spec fn identified(described: Seq<Seq<char>>) -> Seq<char> {
    if described.len() == 1 {
        "Case identified as: "@ + bulleted(described, 1)
    } else {
        "Cases identified as:\n"@ + bulleted(described, described.len() as int)
    }
}

/// The descriptions of `described` before `upto`, each behind a bullet and on a line of
/// its own.
pub open spec fn bulleted(described: Seq<Seq<char>>, upto: int) -> Seq<char>
    decreases upto,
{
    if upto <= 0 {
        Seq::empty()
    } else if upto == 1 {
        "\u{2022} "@ + described[0]
    } else {
        bulleted(described, upto - 1) + "\n\u{2022} "@ + described[upto - 1]
    }
}

/// What is said of the cases that were found.
pub fn identified_message(described: &Vec<String>) -> (r: String)
    ensures
        r@ == identified(crate::text::string_views(described@)),
{
    let ghost views = crate::text::string_views(described@);
    let mut text = if described.len() == 1 {
        "Case identified as: ".to_owned()
    } else {
        "Cases identified as:\n".to_owned()
    };
    let ghost head = text@;
    let mut i: usize = 0;
    while i < described.len()
        invariant
            i <= described@.len(),
            views == crate::text::string_views(described@),
            text@ == head + bulleted(views, i as int),
        decreases described.len() - i,
    {
        assert(views[i as int] == described@[i as int]@);
        if i > 0 {
            text.append("\n");
        }
        text.append("\u{2022} ");
        text.append(described[i].as_str());
        proof {
            reveal_strlit("\n");
            reveal_strlit("\u{2022} ");
            reveal_strlit("\n\u{2022} ");
            assert("\n"@ + "\u{2022} "@ =~= "\n\u{2022} "@);
            assert(text@ =~= head + bulleted(views, i + 1));
        }
        i += 1;
    }
    text
}

} // verus!

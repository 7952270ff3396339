//! Options that configure a run.

use crate::patterns::{find_first, first_found, group_text, text_of_group, CASE_REGEX};
use crate::seqs::unique;
use crate::text::{concat3, parse_u32, parse_u32_spec};
use vstd::prelude::*;

verus! {

/// How to handle insecure HTTP requests.
#[derive(Debug, Clone, Copy, PartialEq, Eq, Structural, Hash)]
pub enum HttpHandling {
    /// Fail when an insecure HTTP request is encountered.
    Disallow,
    /// Allow insecure HTTP requests.
    AllowInsecure,
    /// Try redirecting insecure HTTP requests to HTTPS.
    RedirectToHttps,
}

impl Default for HttpHandling {
    fn default() -> (r: Self)
        ensures
            r == HttpHandling::RedirectToHttps,
    {
        HttpHandling::RedirectToHttps
    }
}

/// Whether to download every case in a sequence if the given case is part of one.
#[derive(Debug, Clone, Copy, PartialEq, Eq, Structural, Hash)]
pub enum DownloadSequence {
    /// Automatically download every case in the sequence.
    Every,
    /// Only download the cases that are passed.
    Single,
    /// Ask first (if in an interactive terminal, otherwise don't download the sequence).
    Ask,
}

impl Default for DownloadSequence {
    fn default() -> (r: Self)
        ensures
            r == DownloadSequence::Ask,
    {
        DownloadSequence::Ask
    }
}

/// Which userscripts to apply to the downloaded case.
#[derive(Debug, Clone, Copy, PartialEq, Eq, Structural, Hash)]
pub enum Userscripts {
    /// Apply all userscripts.
    All,
    /// Changes the fonts of nametags to use a proper pixelized font.
    AltNametag,
    /// Adds a backlog button to see past dialog.
    Backlog,
    /// Improves the layout (e.g., enlarging and centering the main screens).
    BetterLayout,
    /// Adds extensive keyboard controls.
    KeyboardControls,
    /// Apply no userscript.
    NoScripts,
}

impl Default for Userscripts {
    fn default() -> (r: Self)
        ensures
            r == Userscripts::NoScripts,
    {
        Userscripts::NoScripts
    }
}

/// Where the alternative nametag script lives.
pub const ALT_NAMETAG_URL: &'static str =
    "https://beyondtimeaxis.github.io/misc/aaoaltnametags.user.js";

/// Where the backlog script lives.
pub const BACKLOG_URL: &'static str = "https://beyondtimeaxis.github.io/misc/aaobacklog.user.js";

/// Where the layout script lives.
pub const BETTER_LAYOUT_URL: &'static str =
    "https://beyondtimeaxis.github.io/misc/aaobetterlayout.user.js";

/// Where the keyboard controls script lives.
pub const KEYBOARD_CONTROLS_URL: &'static str =
    "https://gist.github.com/falko17/965207b1f1f0496ff5f0cb41d8e827f2/raw/aaokeyboard.user.js";

/// What `validate_combination` answers when `All` stands beside other scripts.
pub const ALL_CONFLICT: &'static str =
    "Can't specify any other scripts when including all of them anyway";

/// What `validate_combination` answers when `NoScripts` stands beside other scripts.
pub const NONE_CONFLICT: &'static str = "Can't specify any other scripts when including none";

/// The texts of a sequence of string slices.
pub open spec fn texts(s: Seq<&'static str>) -> Seq<Seq<char>> {
    Seq::new(s.len(), |i: int| s[i]@)
}

/// The URLs of every selection in `scripts`, one after the other.
pub open spec fn concat_urls(scripts: Seq<Userscripts>) -> Seq<Seq<char>>
    decreases scripts.len(),
{
    if scripts.len() == 0 {
        Seq::empty()
    } else {
        concat_urls(scripts.drop_last()) + scripts.last().spec_urls()
    }
}

/// Whether `scripts` names `which`.
pub open spec fn selects(scripts: Seq<Userscripts>, which: Userscripts) -> bool {
    scripts.contains(which)
}

fn contains_script(scripts: &[Userscripts], which: Userscripts) -> (r: bool)
    ensures
        r == selects(scripts@, which),
{
    let mut i: usize = 0;
    while i < scripts.len()
        invariant
            i <= scripts.len(),
            forall|k: int| 0 <= k < i ==> scripts@[k] != which,
        decreases scripts.len() - i,
    {
        if scripts[i] == which {
            return true;
        }
        i += 1;
    }
    false
}

fn contains_text(known: &Vec<&'static str>, url: &'static str) -> (r: bool)
    ensures
        r == texts(known@).contains(url@),
{
    let mut i: usize = 0;
    while i < known.len()
        invariant
            i <= known.len(),
            forall|k: int| 0 <= k < i ==> texts(known@)[k] != url@,
        decreases known.len() - i,
    {
        if crate::text::str_eq(known[i], url) {
            assert(texts(known@)[i as int] == url@);
            return true;
        }
        i += 1;
    }
    false
}

impl Userscripts {
    /// The URLs of the scripts that this selection stands for, in the order in which
    /// they are loaded.
    pub open spec fn spec_urls(self) -> Seq<Seq<char>> {
        match self {
            Userscripts::AltNametag => seq![ALT_NAMETAG_URL@],
            Userscripts::Backlog => seq![BACKLOG_URL@],
            Userscripts::BetterLayout => seq![BETTER_LAYOUT_URL@],
            Userscripts::KeyboardControls => seq![KEYBOARD_CONTROLS_URL@],
            Userscripts::All => seq![
                ALT_NAMETAG_URL@,
                BACKLOG_URL@,
                BETTER_LAYOUT_URL@,
                KEYBOARD_CONTROLS_URL@,
            ],
            Userscripts::NoScripts => Seq::empty(),
        }
    }

    /// Returns the URLs pointing to the corresponding userscripts.
    pub fn urls(&self) -> (r: Vec<&'static str>)
        ensures
            texts(r@) == self.spec_urls(),
    {
        let mut r: Vec<&'static str> = Vec::new();
        match self {
            Userscripts::AltNametag => {
                r.push(ALT_NAMETAG_URL);
            },
            Userscripts::Backlog => {
                r.push(BACKLOG_URL);
            },
            Userscripts::BetterLayout => {
                r.push(BETTER_LAYOUT_URL);
            },
            Userscripts::KeyboardControls => {
                r.push(KEYBOARD_CONTROLS_URL);
            },
            Userscripts::All => {
                r.push(ALT_NAMETAG_URL);
                r.push(BACKLOG_URL);
                r.push(BETTER_LAYOUT_URL);
                r.push(KEYBOARD_CONTROLS_URL);
            },
            Userscripts::NoScripts => {},
        }
        assert(texts(r@) =~= self.spec_urls());
        r
    }

    /// Returns all URLs belonging to the given collection of `scripts`: those of each
    /// selection in turn, each URL once, where it first occurs.
    pub fn all_urls(scripts: &[Userscripts]) -> (r: Vec<&'static str>)
        ensures
            texts(r@) == unique(concat_urls(scripts@)),
    {
        let mut r: Vec<&'static str> = Vec::new();
        let mut i: usize = 0;
        while i < scripts.len()
            invariant
                i <= scripts.len(),
                texts(r@) == unique(concat_urls(scripts@.take(i as int))),
            decreases scripts.len() - i,
        {
            let urls = scripts[i].urls();
            let ghost done = concat_urls(scripts@.take(i as int));
            let mut j: usize = 0;
            while j < urls.len()
                invariant
                    j <= urls.len(),
                    texts(r@) == unique(done + texts(urls@).take(j as int)),
                decreases urls.len() - j,
            {
                let url = urls[j];
                let ghost read = done + texts(urls@).take(j as int);
                let ghost next = done + texts(urls@).take(j + 1);
                assert(next.drop_last() =~= read);
                assert(next.last() == url@);
                if !contains_text(&r, url) {
                    let ghost before = texts(r@);
                    r.push(url);
                    assert(texts(r@) =~= before.push(url@));
                }
                j += 1;
            }
            assert(texts(urls@).take(urls.len() as int) =~= texts(urls@));
            assert(scripts@.take(i + 1).drop_last() =~= scripts@.take(i as int));
            i += 1;
        }
        assert(scripts@.take(scripts.len() as int) =~= scripts@);
        r
    }

    /// What `validate_combination` answers for `scripts`: `All` or `NoScripts` may only
    /// stand alone.
    pub open spec fn spec_validate(scripts: Seq<Userscripts>) -> Result<(), Seq<char>> {
        if selects(scripts, Userscripts::All) && scripts.len() > 1 {
            Err(ALL_CONFLICT@)
        } else if selects(scripts, Userscripts::NoScripts) && scripts.len() > 1 {
            Err(NONE_CONFLICT@)
        } else {
            Ok(())
        }
    }

    /// Ensures that the given `scripts` are a valid combination.
    pub fn validate_combination(scripts: &[Userscripts]) -> (r: Result<(), String>)
        ensures
            match (r, Self::spec_validate(scripts@)) {
                (Ok(()), Ok(())) => true,
                (Err(said), Err(owed)) => said@ == owed,
                _ => false,
            },
    {
        if contains_script(scripts, Userscripts::All) && scripts.len() > 1 {
            Err(ALL_CONFLICT.to_owned())
        } else if contains_script(scripts, Userscripts::NoScripts) && scripts.len() > 1 {
            Err(NONE_CONFLICT.to_owned())
        } else {
            Ok(())
        }
    }
}

/// The minimum level messages have to have to be logged.
#[derive(Debug, Clone, Copy, PartialEq, Eq, Structural, Hash)]
pub enum LogLevel {
    /// Nothing is logged.
    Off,
    /// Errors only.
    Error,
    /// Warnings, and what is above them.
    Warn,
    /// Information, and what is above it.
    Info,
    /// Messages for debugging, and what is above them.
    Debug,
    /// Everything.
    Trace,
}

/// Arguments that configure how a run goes.
#[derive(Debug)]
pub struct Args {
    /// The IDs of the cases that shall be downloaded.
    pub cases: Vec<u32>,
    /// The output directory (or filename, for a single file) for the case.
    ///
    /// If this is not passed, the title and the ID of the case are used. If multiple
    /// cases are downloaded, they are all put under this directory (which, by default,
    /// is the current directory).
    pub output: Option<String>,
    /// The branch or commit name of the player that shall be used.
    pub player_version: String,
    /// The language to download the player in.
    pub language: String,
    /// Whether to continue when an asset for the case could not be downloaded.
    pub continue_on_asset_error: bool,
    /// Whether to replace any existing output files.
    pub replace_existing: bool,
    /// Whether to download all trials contained in a sequence (if the given case is part
    /// of a sequence).
    pub sequence: DownloadSequence,
    /// Whether to output only a single HTML file, with the assets embedded as data URLs.
    pub one_html_file: bool,
    /// Whether to apply any userscripts to the downloaded case.
    pub with_userscripts: Vec<Userscripts>,
    /// How many concurrent downloads to use.
    pub concurrent_downloads: usize,
    /// How many times to retry downloads if they fail, in addition to the first try.
    pub retries: u32,
    /// The maximum time to wait for the connect phase of network requests (in seconds).
    /// A value of 0 means that no timeout will be applied.
    pub connect_timeout: u64,
    /// The maximum time to wait for the read phase of network requests (in seconds). A
    /// value of 0 means that no timeout will be applied.
    pub read_timeout: u64,
    /// How to handle insecure HTTP requests.
    pub http_handling: HttpHandling,
    /// Whether to disable the use of HTML5 audio.
    pub disable_html5_audio: bool,
    /// Whether to disable the automatic fixing of photobucket watermarks.
    pub disable_photobucket_fix: bool,
    /// Partial URL pointing to a proxy that all requests should be routed through. The
    /// actual request URL is appended to it.
    pub proxy: Option<String>,
    /// The minimum level messages have to have to be logged.
    pub log_level: LogLevel,
}

/// What is answered for a case ID in a URL that no `u32` holds.
pub const INVALID_CASE_NUMBER: &'static str = "Case ID in given URL is not a valid number!";

/// What is answered for `case` where it is neither an ID nor the URL of a case.
pub open spec fn unparsable_case(case: Seq<char>) -> Seq<char> {
    "Could not parse case ID from input \""@ + case
        + "\". Please provide a valid case URL or ID."@
}

/// The ID of the case that `case` names: `case` itself where it is a number, and else
/// the number in the URL of a case.
pub open spec fn accepted_case(case: Seq<char>) -> Result<u32, Seq<char>> {
    match parse_u32_spec(case) {
        Some(id) => Ok(id),
        None => match first_found(CASE_REGEX@, case) {
            Some(groups) => match group_text(case, groups, 1) {
                Some(digits) => match parse_u32_spec(digits) {
                    Some(id) => Ok(id),
                    None => Err(INVALID_CASE_NUMBER@),
                },
                None => Err(INVALID_CASE_NUMBER@),
            },
            None => Err(unparsable_case(case)),
        },
    }
}

impl Args {
    /// Parses the given `case` into its ID.
    pub fn accept_case(case: &str) -> (r: Result<u32, String>)
        ensures
            match (r, accepted_case(case@)) {
                (Ok(id), Ok(owed)) => id == owed,
                (Err(said), Err(owed)) => said@ == owed,
                _ => false,
            },
    {
        if let Some(id) = parse_u32(case) {
            return Ok(id);
        }
        match find_first(CASE_REGEX, case) {
            Some(groups) => match text_of_group(case, &groups, 1) {
                Some(digits) => match parse_u32(digits) {
                    Some(id) => Ok(id),
                    None => Err(INVALID_CASE_NUMBER.to_owned()),
                },
                None => Err(INVALID_CASE_NUMBER.to_owned()),
            },
            None => Err(
                concat3(
                    "Could not parse case ID from input \"",
                    case,
                    "\". Please provide a valid case URL or ID.",
                ),
            ),
        }
    }
}

} // verus!

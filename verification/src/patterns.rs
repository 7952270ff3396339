//! The patterns by which the pages and scripts of Ace Attorney Online are read. They are
//! regular expressions, and hold what is known of how the site writes its pages.

use crate::outside::{captures_all, groups_of, regex_found};
use crate::text::{slice, text_between};
use vstd::prelude::*;

verus! {

/// A block of PHP; its first group is what the block holds.
pub const PHP_REGEX: &'static str = r"(?s)<\?php(.*?)\?>";

// Old URL format: http://aceattorney.sparklin.org/jeu.php?id_proces=TRIAL_ID (but it could
// also use the english `player.php?trial_id` format).
// New URL format: https://aaonline.fr/player.php?trial_id=TRIAL_ID
/// The address of a case on the site; its first group is the ID of the case.
pub const CASE_REGEX: &'static str =
    r"https?://(?:(?:www\.)?aaonline\.fr|aceattorney\.sparklin\.org)/(?:player\.php\?trial_id|jeu\.php\?id_proces)=(\d+)";

/// The information on a case in its script; its first group is the information as
/// JSON, and takes no part where the site knows no such case.
pub const TRIAL_INFORMATION_REGEX: &'static str =
    r#"(?s)var trial_information(?: = JSON\.parse\("(.*?)"\))?;"#;

/// The data of a case in its script; its first group is the data as JSON.
pub const TRIAL_DATA_REGEX: &'static str = r#"(?s)var initial_trial_data = JSON\.parse\("(.*?)"\);"#;

/// The default profiles that have a startup animation; its first group holds them as
/// JSON.
pub const DEFAULT_PROFILES_STARTUP_REGEX: &'static str =
    r#"(?s)var default_profiles_startup = JSON\.parse\("(.*?)"\);"#;

/// The default places; its first group holds them as JSON.
pub const DEFAULT_PLACES_REGEX: &'static str = r"(?s)var default_places = (\{.*?\});";

/// The configuration of the site in the bridge script; its first group holds it as
/// JSON.
pub const CONFIG_REGEX: &'static str = r"(?s)var cfg = (\{.*?\});";

/// The declaration of a script module; its groups are the name of the module, what it
/// depends on, and its initialization.
pub const MODULE_REGEX: &'static str =
    r#"(?sm)Modules\.load\(new Object\(\{\s*name\s*:\s*['"](.*?)['"]\s*,\s*dependencies\s*:\s*(\[.*?\]),\s*init\s*:\s*function\(\)\s*\{(.*?)\}\s*^\}\)\);"#;

/// A link to a style sheet; its first group is the address of the style sheet.
pub const CSS_REGEX: &'static str =
    r#"<link rel="stylesheet" type="text/css" href="([^"]+\.css)"\s*/>"#;

/// The inclusion of a style sheet by a script; its first group is the name of the style
/// sheet.
pub const STYLE_INCLUDE_REGEX: &'static str = r#"includeStyle\(['"](.*?)['"]\);"#;

/// The request for the files of the language; its groups are the list of the files, and
/// what is done once they are there.
pub const LANGUAGE_INCLUDE_REGEX: &'static str =
    r"(?s)Languages\.requestFiles\(\[([^\]]*)\], function\(\)\{\s*(.*?)\s*\}\);";

/// The definition of the language.
pub const LANGUAGE_REGEX: &'static str = r"var lang = new Object\(\);";

/// A source that a style sheet names; its first group is the address of the source.
pub const CSS_SRC_REGEX: &'static str = r#"[:\s]url\("?([^")]*)"?\)"#;

/// A source that the page or a script names; the address is its first group for an
/// attribute, and its second for an assignment.
pub const SRC_REGEX: &'static str =
    r#"(?:src=["']([^"']+)["']|\.src\s*=\s*['"]([^'"]*?)['"])"#;

/// The inclusion of the script for sound; its first group is the configuration that
/// follows the inclusion.
pub const HOWLER_REGEX: &'static str =
    r"includeScript\('howler\.js/howler\.min', false, '', function\(\)\{([^}]*?)\}\);";

/// The function that answers for the address of a voice; its first group is the body
/// of the function.
pub const VOICE_REGEX: &'static str = r"(?s)function getVoiceUrl\(voice_id,\s*ext\)\s*\{(.*?)\}";

/// The function that answers for the address of a default sprite; its first group is
/// the body of the function.
pub const DEFAULT_SPRITES_REGEX: &'static str =
    r"(?s)getDefaultSpriteUrl\(base, sprite_id, status\)\s*\{(.*?)\}";

/// The place at which the player starts to load images ahead.
pub const PRELOAD_REGEX: &'static str = r"translateNode\(images_loading_label\);";

/// The tag for analytics.
pub const GOOGLE_ANALYTICS_REGEX: &'static str = r"(?s)<script>.*?UA-.*?</script>";

/// The making of the image of a psyche lock; its groups are, in their order, the path,
/// the type, the name and the ID.
pub const PSYCHE_LOCK_REGEX: &'static str =
    r#"generateImageElement\((?P<path>cfg\.picture_dir\s*\+\s*cfg\.locks_subdir\s*\+\s*(?P<type>[^+]*?\s*\+\s*)?['"](?P<name>[^'"]*?)\.gif\?id=['"](?P<id>.*?))\);"#;

/// The redirection to another case of a sequence; its groups are the ID of that case,
/// and the game that is handed on.
pub const REDIRECTION_REGEX: &'static str =
    r"window\.location\.href\s*=\s*'\?trial_id='\s*\+\s*([^+\s]+)\s*\+\s*'&(save_data=.*?);";

/// The query parameters of an address.
pub const REMOVE_QUERY_PARAMETERS_REGEX: &'static str = r"\?.*";

/// The file name in a header `Content-Disposition`; its first group is the name.
pub const CONTENT_DISPOSITION_FILENAME_REGEX: &'static str = r#"filename="([^"]*?)""#;

/// The code that gives an element the height of its image.
pub const GRAPHIC_ELEMENT_REGEX: &'static str =
    r#"\s+element\.style\.height\s*=\s*img\.height\s*\+\s*['"]px['"];"#;

/// Where the head of the page ends.
pub const HEAD_END_REGEX: &'static str = "</head>";

/// Where the page ends.
pub const HTML_END_REGEX: &'static str = "</html>";

/// The option of the script for sound that makes it load sounds ahead.
pub const PRELOAD_OPTION_REGEX: &'static str = "preload: true";

/// What is said when the site writes its pages otherwise than is known here.
pub const UPDATE_MESSAGE: &'static str =
    "This means a new player has been released and the script needs to be updated.";

/// The byte offsets of the group `group` of a match, where the match has such a group
/// and the group took part in it.
pub open spec fn span_of(groups: Seq<Option<(usize, usize)>>, group: int) -> Option<(usize, usize)> {
    if 0 <= group < groups.len() {
        groups[group]
    } else {
        None
    }
}

/// The text of the group `group` of a match in `text`.
pub open spec fn group_text(text: Seq<char>, groups: Seq<Option<(usize, usize)>>, group: int) -> Option<
    Seq<char>,
> {
    match span_of(groups, group) {
        Some((start, end)) => text_between(text, start, end),
        None => None,
    }
}

/// The byte offsets of the group `group` of a match.
pub fn span(groups: &Vec<Option<(usize, usize)>>, group: usize) -> (r: Option<(usize, usize)>)
    ensures
        r == span_of(groups@, group as int),
{
    if group < groups.len() {
        groups[group]
    } else {
        None
    }
}

/// The text of the group `group` of a match in `text`.
pub fn text_of_group<'a>(text: &'a str, groups: &Vec<Option<(usize, usize)>>, group: usize) -> (r:
    Option<&'a str>)
    ensures
        match r {
            Some(part) => group_text(text@, groups@, group as int) == Some(part@),
            None => group_text(text@, groups@, group as int) is None,
        },
{
    match span(groups, group) {
        Some((start, end)) => slice(text, start, end),
        None => None,
    }
}

/// The first match of `pattern` in `text`, where there is one.
pub open spec fn first_found(pattern: Seq<char>, text: Seq<char>) -> Option<
    Seq<Option<(usize, usize)>>,
> {
    match regex_found(pattern, text) {
        Some(found) => if found.len() > 0 {
            Some(found[0])
        } else {
            None
        },
        None => None,
    }
}

/// The first match of `pattern` in `text`, where there is one.
pub fn find_first(pattern: &str, text: &str) -> (r: Option<Vec<Option<(usize, usize)>>>)
    ensures
        match r {
            Some(groups) => first_found(pattern@, text@) == Some(groups@) && groups@.len() > 0
                && groups@[0] is Some,
            None => first_found(pattern@, text@) is None,
        },
{
    match captures_all(pattern, text) {
        Some(found) => {
            let mut found = found;
            if found.len() > 0 {
                assert(groups_of(found@)[0] == found@[0]@);
                Some(found.remove(0))
            } else {
                None
            }
        },
        None => None,
    }
}

/// Whether `pattern` matches somewhere in `text`.
pub open spec fn matches_somewhere(pattern: Seq<char>, text: Seq<char>) -> bool {
    first_found(pattern, text) is Some
}

/// Whether `pattern` matches somewhere in `text`.
pub fn is_match(pattern: &str, text: &str) -> (r: bool)
    ensures
        r == matches_somewhere(pattern@, text@),
{
    find_first(pattern, text).is_some()
}

} // verus!

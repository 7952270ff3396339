//! The script of the player: the modules put together, with what stands around them.

use crate::modules::{
    assembly_order, module_views, order_modules, sentinels, JsModule, JsModuleV,
    MissingDependencies,
};
use crate::patterns::{find_first, first_found, MODULE_REGEX};
use crate::text::{concat, replace_all, replaced, slice, text_between};
use vstd::prelude::*;
use vstd::utf8::encode_utf8;

verus! {

/// Why the modules could not be put together.
#[derive(Debug, Clone, Copy, PartialEq, Eq, Structural)]
pub enum CombineError {
    /// The modules that are left wait for one another, or for a module that is not
    /// there.
    MissingDependencies,
    /// The script of a module does not declare it as modules are known to be declared.
    FormatChanged,
}

/// `content` with a line break in place of the first match of the pattern by which a
/// module declares itself.
pub open spec fn without_declaration(content: Seq<char>) -> Option<Seq<char>> {
    match first_found(MODULE_REGEX@, content) {
        Some(groups) => match groups[0] {
            Some((start, end)) => match (
                text_between(content, 0, start),
                text_between(content, end, encode_utf8(content).len() as usize),
            ) {
                (Some(head), Some(tail)) => Some(head + "\n"@ + tail),
                _ => None,
            },
            None => None,
        },
        None => None,
    }
}

/// What a module adds to the script: a comment that names it, its initialization as a
/// function that is run once every script is loaded, and its content without its
/// declaration and without the call that reports it as complete.
pub open spec fn module_piece(m: JsModuleV) -> Option<Seq<char>> {
    match without_declaration(m.content) {
        Some(body) => Some(
            "// "@ + m.name + ".js\n\n"@ + "initScripts.push(() => {"@ + m.init + "});\n"@
                + replaced(body, "Modules.complete('"@ + m.name + "')"@, "\n"@),
        ),
        None => None,
    }
}

/// The script of the modules of `order` before `upto`: one module after the other. After
/// each module, what was written so far is changed to speak of `SoundHowler` as a
/// property of the window.
pub open spec fn combined(order: Seq<JsModuleV>, upto: int) -> Option<Seq<char>>
    decreases upto,
{
    if upto <= 0 {
        Some(Seq::empty())
    } else {
        match combined(order, upto - 1) {
            Some(text) => match module_piece(order[upto - 1]) {
                Some(piece) => Some(
                    replaced(text + piece, "SoundHowler."@, "window.SoundHowler."@),
                ),
                None => None,
            },
            None => None,
        }
    }
}

/// The script that the modules `modules` make, put together in the order that their
/// dependencies ask for.
pub open spec fn script_of(modules: Seq<JsModuleV>) -> Result<Seq<char>, CombineError> {
    match assembly_order(modules, sentinels()) {
        Ok(order) => match combined(order, order.len() as int) {
            Some(text) => Ok(text),
            None => Err(CombineError::FormatChanged),
        },
        Err(_) => Err(CombineError::MissingDependencies),
    }
}

fn piece_of(module: &JsModule) -> (r: Option<String>)
    ensures
        match r {
            Some(piece) => module_piece(module@) == Some(piece@),
            None => module_piece(module@) is None,
        },
{
    let content = module.content.as_str();
    let groups = match find_first(MODULE_REGEX, content) {
        Some(g) => g,
        None => {
            return None;
        },
    };
    let (start, end) = match groups[0] {
        Some(span) => span,
        None => {
            return None;
        },
    };
    let (head, tail) = match (slice(content, 0, start), slice(content, end, content.len())) {
        (Some(head), Some(tail)) => (head, tail),
        _ => {
            return None;
        },
    };
    let mut body = concat(head, "\n");
    body.append(tail);
    // We start with a comment identifying this module to make debugging easier.
    let mut piece = concat("// ", module.name.as_str());
    piece.append(".js\n\n");
    // Then its init function. This needs to be an actual function (or lambda) because it
    // may contain `return` statements. It is run after every script has been loaded.
    piece.append("initScripts.push(() => {");
    piece.append(module.init.as_str());
    piece.append("});\n");
    // And finally, the module content itself (without the module declaration).
    let mut complete = concat("Modules.complete('", module.name.as_str());
    complete.append("')");
    let cleaned = replace_all(body.as_str(), complete.as_str(), "\n");
    piece.append(cleaned.as_str());
    Some(piece)
}

/// Combines the given `modules` into JavaScript code such that the modules are loaded in
/// the correct order, with all dependencies satisfied.
pub fn combine_js_modules(modules: Vec<JsModule>) -> (r: Result<String, CombineError>)
    ensures
        match (r, script_of(module_views(modules@))) {
            (Ok(text), Ok(owed)) => text@ == owed,
            (Err(e), Err(owed)) => e == owed,
            _ => false,
        },
{
    let order = match order_modules(modules) {
        Ok(o) => o,
        Err(_) => {
            return Err(CombineError::MissingDependencies);
        },
    };
    let ghost views = module_views(order@);
    let mut mod_text = String::new();
    let mut i: usize = 0;
    while i < order.len()
        invariant
            i <= order@.len(),
            views == module_views(order@),
            assembly_order(module_views(modules@), sentinels()) == Ok::<_, MissingDependencies>(
                views,
            ),
            combined(views, i as int) == Some(mod_text@),
        decreases order.len() - i,
    {
        assert(views[i as int] == order@[i as int]@);
        match piece_of(&order[i]) {
            Some(piece) => {
                mod_text.append(piece.as_str());
                // The following is necessary due to some naming conflicts that otherwise
                // occur.
                mod_text = replace_all(mod_text.as_str(), "SoundHowler.", "window.SoundHowler.");
            },
            None => {
                assert(combined(views, i + 1) is None);
                proof {
                    lemma_combined_fails(views, i + 1, views.len() as int);
                }
                return Err(CombineError::FormatChanged);
            },
        }
        i += 1;
    }
    Ok(mod_text)
}

proof fn lemma_combined_fails(order: Seq<JsModuleV>, at: int, upto: int)
    requires
        at <= upto,
        combined(order, at) is None,
    ensures
        combined(order, upto) is None,
    decreases upto - at,
{
    if at < upto {
        lemma_combined_fails(order, at, upto - 1);
    }
}

/// The address of the script that the modules share, in the version `player_version`
/// of the player.
pub fn common_js_url(player_version: &str) -> (r: String)
    ensures
        r@ == crate::modules::BITBUCKET_URL@ + "/"@ + player_version@ + "/Javascript/common.js"@,
{
    let mut url = concat(crate::modules::BITBUCKET_URL, "/");
    url.append(player_version);
    url.append("/Javascript/common.js");
    url
}

/// The script of the player: the paths of the site as `cfg`, a function that answers
/// for the version of any file, the common script, the modules, and at the end the
/// call of every initialization once the page is loaded.
pub open spec fn player_script(config: Seq<char>, common_js: Seq<char>, modules: Seq<char>) -> Seq<
    char,
> {
    "var cfg = "@ + config
        + ";\nfunction getFileVersion(path_components)\n{\n    // We are not using file versions here.\n\t\treturn '';\n}\n"@
        + common_js + "\n\nlet initScripts = [];\n"@ + modules
        + "\nwindow.addEventListener('load', function() {\n    // Execute all init functions in order.\n    initScripts.forEach((x) => x());\n}, false);\n"@
}

/// The script of the player.
pub fn retrieve_player_scripts(config: &str, common_js: &str, modules: &str) -> (r: String)
    ensures
        r@ == player_script(config@, common_js@, modules@),
{
    let mut script = concat("var cfg = ", config);
    script.append(
        ";\nfunction getFileVersion(path_components)\n{\n    // We are not using file versions here.\n\t\treturn '';\n}\n",
    );
    script.append(common_js);
    script.append("\n\nlet initScripts = [];\n");
    script.append(modules);
    script.append(
        "\nwindow.addEventListener('load', function() {\n    // Execute all init functions in order.\n    initScripts.forEach((x) => x());\n}, false);\n",
    );
    script
}

} // verus!

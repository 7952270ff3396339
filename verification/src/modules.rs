//! The script modules of the player: which are fetched, and in which order they are put
//! together.

use crate::json::{json_views, JsonV};
use crate::outside::{json_read, read_json};
use crate::patterns::{find_first, first_found, group_text, text_of_group, MODULE_REGEX};
use crate::seqs::{chosen, gathered, lemma_gathered_fails, unique};
use crate::site::AAONLINE_BASE;
use crate::text::{concat, replace_all, replaced, str_eq, string_views};
use vstd::prelude::*;

verus! {

/// Where the sources of the player are kept.
pub const BITBUCKET_URL: &'static str =
    "https://bitbucket.org/AceAttorneyOnline/aao-game-creation-engine/raw/";

/// The module that every other module is found from.
pub const ENTRY_MODULE: &'static str = "player";

/// The name that stands for the document being read, and for no module: it is always
/// taken as loaded.
pub const DOM_LOADED: &'static str = "dom_loaded";

/// The name that stands for the page being loaded, and for no module: it is always taken
/// as loaded.
pub const PAGE_LOADED: &'static str = "page_loaded";

/// Whether `name` stands for an event of the page.
pub open spec fn is_sentinel(name: Seq<char>) -> bool {
    name == DOM_LOADED@ || name == PAGE_LOADED@
}

/// The address of the script of the module `name`, in the version `player_version` of
/// the player: the default data as the site renders it, and any other module from the
/// sources.
pub open spec fn module_url(name: Seq<char>, player_version: Seq<char>) -> Seq<char> {
    if name == "default_data"@ {
        AAONLINE_BASE@ + "/default_data.js.php"@
    } else if name == "trial"@ {
        BITBUCKET_URL@ + "/"@ + player_version + "/trial.js.php"@
    } else {
        BITBUCKET_URL@ + "/"@ + player_version + "/Javascript/"@ + name + ".js"@
    }
}

/// The address of the script of the module `name`.
pub fn retrieve_js_text_url(name: &str, player_version: &str) -> (r: String)
    ensures
        r@ == module_url(name@, player_version@),
{
    if str_eq(name, "default_data") {
        // This is a special case: we can not use the source code here and need the
        // rendered version, since this is a PHP file.
        concat(AAONLINE_BASE, "/default_data.js.php")
    } else if str_eq(name, "trial") {
        // This one is also a PHP file, but we don't need the PHP-generated data as we
        // already retrieved it previously.
        let mut url = concat(BITBUCKET_URL, "/");
        url.append(player_version);
        url.append("/trial.js.php");
        url
    } else {
        let mut url = concat(BITBUCKET_URL, "/");
        url.append(player_version);
        url.append("/Javascript/");
        url.append(name);
        url.append(".js");
        url
    }
}

/// A JavaScript module for the player.
#[derive(Debug)]
pub struct JsModule {
    /// The name of the module.
    pub name: String,
    /// The names of modules that this module depends on, each once.
    pub deps: Vec<String>,
    /// The initialization code of the module.
    pub init: String,
    /// The contents of this module.
    pub content: String,
}

/// What a [`JsModule`] holds.
pub struct JsModuleV {
    pub name: Seq<char>,
    pub deps: Seq<Seq<char>>,
    pub init: Seq<char>,
    pub content: Seq<char>,
}

impl View for JsModule {
    type V = JsModuleV;

    open spec fn view(&self) -> JsModuleV {
        JsModuleV {
            name: self.name@,
            deps: string_views(self.deps@),
            init: self.init@,
            content: self.content@,
        }
    }
}

/// What the modules of `modules` hold.
pub open spec fn module_views(modules: Seq<JsModule>) -> Seq<JsModuleV> {
    Seq::new(modules.len(), |i: int| modules[i]@)
}

/// Why the script of a module could not be read.
#[derive(Debug, Clone, Copy, PartialEq, Eq, Structural)]
pub enum ModuleError {
    /// The script does not declare a module as modules are known to be declared.
    FormatChanged,
    /// The script declares another module than the one that was asked for.
    NameMismatch,
    /// The dependencies of the module cannot be read.
    BadDependencies,
    /// The dependencies of the module are no array.
    DependenciesNotArray,
    /// The dependencies of the module hold something other than names.
    DependencyNotString,
}

/// The name that an entry of the dependencies holds.
pub open spec fn dependency_name(entry: JsonV, at: int) -> Result<Seq<Seq<char>>, ModuleError> {
    match entry.text() {
        Some(name) => Ok(seq![name]),
        None => Err(ModuleError::DependencyNotString),
    }
}

/// The names that the dependencies `text` hold, each once: `text` is an array of
/// names, written with either kind of quote.
pub open spec fn dependencies(text: Seq<char>) -> Result<Seq<Seq<char>>, ModuleError> {
    match json_read(replaced(text, "'"@, "\""@)) {
        Some(value) => match value.items() {
            Some(items) => match gathered(
                items,
                |e: JsonV, i: int| dependency_name(e, i),
                items.len() as int,
            ) {
                Ok(names) => Ok(unique(names)),
                Err(e) => Err(e),
            },
            None => Err(ModuleError::DependenciesNotArray),
        },
        None => Err(ModuleError::BadDependencies),
    }
}

/// The module `name` as its script `text` declares it.
pub open spec fn module_read(name: Seq<char>, text: Seq<char>) -> Result<JsModuleV, ModuleError> {
    match first_found(MODULE_REGEX@, text) {
        Some(groups) => match (
            group_text(text, groups, 1),
            group_text(text, groups, 2),
            group_text(text, groups, 3),
        ) {
            (Some(declared), Some(deps), Some(init)) => if declared != name {
                Err(ModuleError::NameMismatch)
            } else {
                match dependencies(deps) {
                    Ok(names) => Ok(JsModuleV { name, deps: names, init, content: text }),
                    Err(e) => Err(e),
                }
            },
            _ => Err(ModuleError::FormatChanged),
        },
        None => Err(ModuleError::FormatChanged),
    }
}

fn contains_name(names: &Vec<String>, name: &str) -> (r: bool)
    ensures
        r == string_views(names@).contains(name@),
{
    let mut i: usize = 0;
    while i < names.len()
        invariant
            i <= names@.len(),
            forall|k: int| 0 <= k < i ==> (#[trigger] string_views(names@)[k]) != name@,
        decreases names.len() - i,
    {
        if str_eq(names[i].as_str(), name) {
            assert(string_views(names@)[i as int] == name@);
            return true;
        }
        i += 1;
    }
    false
}

/// Reads the names that the dependencies `text` hold.
pub fn read_dependencies(text: &str) -> (r: Result<Vec<String>, ModuleError>)
    ensures
        match (r, dependencies(text@)) {
            (Ok(names), Ok(owed)) => string_views(names@) == owed,
            (Err(e), Err(owed)) => e == owed,
            _ => false,
        },
{
    let quoted = replace_all(text, "'", "\"");
    let value = match read_json(quoted.as_str()) {
        Some(v) => v,
        None => {
            return Err(ModuleError::BadDependencies);
        },
    };
    let items = match value.as_array() {
        Some(items) => items,
        None => {
            return Err(ModuleError::DependenciesNotArray);
        },
    };
    let ghost each = |e: JsonV, i: int| dependency_name(e, i);
    let ghost mut all: Seq<Seq<char>> = Seq::empty();
    let mut names: Vec<String> = Vec::new();
    let mut i: usize = 0;
    assert(string_views(names@) =~= unique(all));
    while i < items.len()
        invariant
            i <= items@.len(),
            each == |e: JsonV, i: int| dependency_name(e, i),
            value@.items() == Some(json_views(items@)),
            json_read(replaced(text@, "'"@, "\""@)) == Some(value@),
            gathered(json_views(items@), each, i as int) == Ok::<_, ModuleError>(all),
            string_views(names@) == unique(all),
        decreases items.len() - i,
    {
        assert(json_views(items@)[i as int] == items@[i as int]@);
        match items[i].as_str() {
            Some(name) => {
                proof {
                    let next = all + seq![name@];
                    assert(next.drop_last() =~= all);
                    assert(next.last() == name@);
                    all = next;
                }
                if !contains_name(&names, name) {
                    let ghost before = string_views(names@);
                    names.push(name.to_owned());
                    assert(string_views(names@) =~= before.push(name@));
                }
            },
            None => {
                assert(gathered(json_views(items@), each, i + 1) is Err);
                proof {
                    lemma_gathered_fails(json_views(items@), each, i + 1, items@.len() as int);
                }
                return Err(ModuleError::DependencyNotString);
            },
        }
        i += 1;
    }
    Ok(names)
}

/// Reads the module `name` from its script `text`.
pub fn read_module(name: String, text: String) -> (r: Result<JsModule, ModuleError>)
    ensures
        match (r, module_read(name@, text@)) {
            (Ok(module), Ok(owed)) => module@ == owed,
            (Err(e), Err(owed)) => e == owed,
            _ => false,
        },
{
    let groups = match find_first(MODULE_REGEX, text.as_str()) {
        Some(g) => g,
        None => {
            return Err(ModuleError::FormatChanged);
        },
    };
    let (declared, dep_text, init) = match (
        text_of_group(text.as_str(), &groups, 1),
        text_of_group(text.as_str(), &groups, 2),
        text_of_group(text.as_str(), &groups, 3),
    ) {
        (Some(a), Some(b), Some(c)) => (a, b, c),
        _ => {
            return Err(ModuleError::FormatChanged);
        },
    };
    if !str_eq(declared, name.as_str()) {
        return Err(ModuleError::NameMismatch);
    }
    let deps = match read_dependencies(dep_text) {
        Ok(d) => d,
        Err(e) => {
            return Err(e);
        },
    };
    let init = init.to_owned();
    Ok(JsModule { name, deps, init, content: text })
}

/// The names of the modules of `modules`.
pub open spec fn module_names(modules: Seq<JsModuleV>) -> Seq<Seq<char>> {
    Seq::new(modules.len(), |i: int| modules[i].name)
}

/// Whether the module `name` is still to be fetched: it stands for no event of the
/// page, and is not among the modules that are `fetched`.
pub open spec fn to_fetch(fetched: Seq<Seq<char>>) -> spec_fn(Seq<char>) -> bool {
    |name: Seq<char>| !is_sentinel(name) && !fetched.contains(name)
}

/// Whether the module `name` is not among those that were `known` before the round.
pub open spec fn unknown(known: Seq<Seq<char>>) -> spec_fn(Seq<char>) -> bool {
    |name: Seq<char>| !known.contains(name)
}

/// The names that the modules of `modules` before `upto` depend on, one module after the
/// other.
pub open spec fn all_dependencies(modules: Seq<JsModuleV>, upto: int) -> Seq<Seq<char>>
    decreases upto,
{
    if upto <= 0 {
        Seq::empty()
    } else {
        all_dependencies(modules, upto - 1) + modules[upto - 1].deps
    }
}

/// The names that a round of discovery leaves to be fetched: what the modules `found`
/// in this round depend on, but for the modules that were `known` before it, each name
/// once.
pub open spec fn next_targets(found: Seq<JsModuleV>, known: Seq<Seq<char>>) -> Seq<Seq<char>> {
    let deps = all_dependencies(found, found.len() as int);
    unique(chosen(deps, unknown(known), deps.len() as int))
}

/// Finds the modules of the player: the one that everything starts from, and whatever
/// the modules that are found depend on, round by round.
#[derive(Debug)]
pub struct ModuleResolver {
    /// The modules that were fetched.
    modules: Vec<JsModule>,
    /// The names that were asked for and are not looked at yet.
    targets: Vec<String>,
}

/// What a [`ModuleResolver`] holds.
pub struct ModuleResolverV {
    pub modules: Seq<JsModuleV>,
    pub targets: Seq<Seq<char>>,
}

impl View for ModuleResolver {
    type V = ModuleResolverV;

    closed spec fn view(&self) -> ModuleResolverV {
        ModuleResolverV {
            modules: module_views(self.modules@),
            targets: string_views(self.targets@),
        }
    }
}

fn fetched_already(modules: &Vec<JsModule>, name: &str) -> (r: bool)
    ensures
        r == module_names(module_views(modules@)).contains(name@),
{
    let mut i: usize = 0;
    while i < modules.len()
        invariant
            i <= modules@.len(),
            forall|k: int|
                0 <= k < i ==> (#[trigger] module_names(module_views(modules@))[k]) != name@,
        decreases modules.len() - i,
    {
        if str_eq(modules[i].name.as_str(), name) {
            assert(module_names(module_views(modules@))[i as int] == name@);
            return true;
        }
        i += 1;
    }
    false
}

impl ModuleResolver {
    /// A resolver that has fetched nothing, and asks for the entry module.
    pub fn new() -> (r: ModuleResolver)
        ensures
            r@ == (ModuleResolverV { modules: Seq::empty(), targets: seq![ENTRY_MODULE@] }),
    {
        let mut targets: Vec<String> = Vec::new();
        targets.push(ENTRY_MODULE.to_owned());
        let r = ModuleResolver { modules: Vec::new(), targets };
        assert(module_views(r.modules@) =~= Seq::empty());
        assert(string_views(r.targets@) =~= seq![ENTRY_MODULE@]);
        r
    }

    /// The names to fetch in the next round: those that were asked for, but for the
    /// events of the page and the modules that were fetched. With nothing to fetch the
    /// discovery is over. The names that were asked for are looked at now, and none is
    /// left.
    pub fn frontier(&mut self) -> (r: Vec<String>)
        ensures
            string_views(r@) == chosen(
                old(self)@.targets,
                to_fetch(module_names(old(self)@.modules)),
                old(self)@.targets.len() as int,
            ),
            final(self)@ == (ModuleResolverV { targets: Seq::empty(), ..old(self)@ }),
    {
        let mut targets: Vec<String> = Vec::new();
        core::mem::swap(&mut targets, &mut self.targets);
        let ghost all = string_views(targets@);
        let ghost keep = to_fetch(module_names(module_views(self.modules@)));
        let mut out: Vec<String> = Vec::new();
        let mut i: usize = 0;
        assert(string_views(out@) =~= chosen(all, keep, 0));
        while i < targets.len()
            invariant
                i <= targets@.len(),
                all == string_views(targets@),
                keep == to_fetch(module_names(module_views(self.modules@))),
                string_views(out@) == chosen(all, keep, i as int),
            decreases targets.len() - i,
        {
            let name = targets[i].as_str();
            assert(all[i as int] == name@);
            if !str_eq(name, DOM_LOADED) && !str_eq(name, PAGE_LOADED) && !fetched_already(
                &self.modules,
                name,
            ) {
                let ghost before = string_views(out@);
                out.push(name.to_owned());
                assert(string_views(out@) =~= before.push(name@));
            }
            i += 1;
        }
        assert(string_views(self.targets@) =~= Seq::empty());
        out
    }

    /// Takes in the modules `found` that a round has fetched: what they depend on, and
    /// was not fetched before this round, is asked for, each name once.
    pub fn fetched(&mut self, found: Vec<JsModule>)
        ensures
            final(self)@ == (ModuleResolverV {
                modules: old(self)@.modules + module_views(found@),
                targets: old(self)@.targets + next_targets(
                    module_views(found@),
                    module_names(old(self)@.modules),
                ),
            }),
    {
        let ghost views = module_views(found@);
        let ghost known = module_names(module_views(self.modules@));
        let ghost keep = unknown(known);
        let ghost mut deps: Seq<Seq<char>> = Seq::empty();
        let ghost mut picked: Seq<Seq<char>> = Seq::empty();
        let mut fresh: Vec<String> = Vec::new();
        let mut i: usize = 0;
        assert(string_views(fresh@) =~= unique(picked));
        while i < found.len()
            invariant
                i <= found@.len(),
                views == module_views(found@),
                known == module_names(module_views(self.modules@)),
                keep == unknown(known),
                *self == *old(self),
                deps == all_dependencies(views, i as int),
                picked == chosen(deps, keep, deps.len() as int),
                string_views(fresh@) == unique(picked),
            decreases found.len() - i,
        {
            let module = &found[i];
            assert(views[i as int] == module@);
            let ghost module_deps = string_views(module.deps@);
            let mut j: usize = 0;
            let ghost start = deps;
            while j < module.deps.len()
                invariant
                    j <= module.deps@.len(),
                    module_deps == string_views(module.deps@),
                    known == module_names(module_views(self.modules@)),
                    keep == unknown(known),
                    *self == *old(self),
                    deps == start + module_deps.take(j as int),
                    picked == chosen(deps, keep, deps.len() as int),
                    string_views(fresh@) == unique(picked),
                decreases module.deps.len() - j,
            {
                let dep = module.deps[j].as_str();
                proof {
                    let next = start + module_deps.take(j + 1);
                    assert(next =~= deps.push(dep@));
                    assert(next.drop_last() =~= deps);
                    lemma_chosen_prefix(next, keep, deps.len() as int);
                    assert(next.take(deps.len() as int) =~= deps);
                    deps = next;
                }
                if !fetched_already(&self.modules, dep) {
                    proof {
                        let grown = picked.push(dep@);
                        assert(grown.drop_last() =~= picked);
                        picked = grown;
                    }
                    if !contains_name(&fresh, dep) {
                        let ghost before = string_views(fresh@);
                        fresh.push(dep.to_owned());
                        assert(string_views(fresh@) =~= before.push(dep@));
                    }
                }
                j += 1;
            }
            assert(module_deps.take(module.deps@.len() as int) =~= module_deps);
            i += 1;
        }
        let ghost targets_before = string_views(self.targets@);
        let ghost modules_before = module_views(self.modules@);
        let ghost added = string_views(fresh@);
        let mut fresh = fresh;
        self.targets.append(&mut fresh);
        let mut found = found;
        self.modules.append(&mut found);
        assert(string_views(self.targets@) =~= targets_before + added);
        assert(module_views(self.modules@) =~= modules_before + views);
    }

    /// Whether names are left that were asked for and not looked at.
    pub fn has_targets(&self) -> (r: bool)
        ensures
            r == (self@.targets.len() > 0),
    {
        self.targets.len() > 0
    }

    /// The modules that were fetched, in the order in which they were taken in.
    pub fn into_modules(self) -> (r: Vec<JsModule>)
        ensures
            module_views(r@) == self@.modules,
    {
        self.modules
    }
}

/// The names that are loaded before any module is: the two events of the page.
pub open spec fn sentinels() -> Set<Seq<char>> {
    Set::new(|name: Seq<char>| is_sentinel(name))
}

/// Whether everything that the module `m` depends on is among the names `satisfied`.
pub open spec fn ready(m: JsModuleV, satisfied: Set<Seq<char>>) -> bool {
    forall|i: int| 0 <= i < m.deps.len() ==> satisfied.contains(#[trigger] m.deps[i])
}

/// What one pass over the modules `rest` gives.
pub struct Pass {
    /// The modules that the pass has put out, in their order.
    pub emitted: Seq<JsModuleV>,
    /// The modules that have to wait for another pass, in their order.
    pub kept: Seq<JsModuleV>,
    /// The names that are loaded after the pass.
    pub satisfied: Set<Seq<char>>,
}

/// One pass over the modules of `rest`, in their order: a module is put out when all it
/// depends on is loaded, and its name counts as loaded from then on, for the modules
/// behind it as well.
pub open spec fn pass(rest: Seq<JsModuleV>, satisfied: Set<Seq<char>>) -> Pass
    decreases rest.len(),
{
    if rest.len() == 0 {
        Pass { emitted: Seq::empty(), kept: Seq::empty(), satisfied }
    } else if ready(rest[0], satisfied) {
        let after = pass(rest.drop_first(), satisfied.insert(rest[0].name));
        Pass { emitted: seq![rest[0]] + after.emitted, ..after }
    } else {
        let after = pass(rest.drop_first(), satisfied);
        Pass { kept: seq![rest[0]] + after.kept, ..after }
    }
}

/// The modules that are left wait for one another, or for a module that is not there.
#[derive(Debug, Clone, Copy, PartialEq, Eq, Structural)]
pub struct MissingDependencies;

/// The order in which the modules `modules` are put together, where the names
/// `satisfied` are loaded already: pass after pass over those that are left, until none
/// is left. A pass that puts out nothing while modules are left ends it all.
pub open spec fn assembly_order(modules: Seq<JsModuleV>, satisfied: Set<Seq<char>>) -> Result<
    Seq<JsModuleV>,
    MissingDependencies,
>
    decreases modules.len(),
{
    if modules.len() == 0 {
        Ok(Seq::empty())
    } else {
        let p = pass(modules, satisfied);
        if p.emitted.len() == 0 || p.kept.len() >= modules.len() {
            Err(MissingDependencies)
        } else {
            match assembly_order(p.kept, p.satisfied) {
                Ok(rest) => Ok(p.emitted + rest),
                Err(e) => Err(e),
            }
        }
    }
}

/// The names that `names` holds.
pub open spec fn name_set(names: Seq<Seq<char>>) -> Set<Seq<char>> {
    Set::new(|name: Seq<char>| names.contains(name))
}

fn is_ready(module: &JsModule, satisfied: &Vec<String>) -> (r: bool)
    ensures
        r == ready(module@, name_set(string_views(satisfied@))),
{
    let mut i: usize = 0;
    while i < module.deps.len()
        invariant
            i <= module.deps@.len(),
            forall|k: int|
                0 <= k < i ==> name_set(string_views(satisfied@)).contains(
                    #[trigger] module@.deps[k],
                ),
        decreases module.deps.len() - i,
    {
        assert(module@.deps[i as int] == module.deps@[i as int]@);
        if !contains_name(satisfied, module.deps[i].as_str()) {
            return false;
        }
        i += 1;
    }
    true
}

fn one_pass(rest: Vec<JsModule>, satisfied: &mut Vec<String>) -> (r: (Vec<JsModule>, Vec<JsModule>))
    ensures
        module_views(r.0@) == pass(
            module_views(rest@),
            name_set(string_views(old(satisfied)@)),
        ).emitted,
        module_views(r.1@) == pass(
            module_views(rest@),
            name_set(string_views(old(satisfied)@)),
        ).kept,
        name_set(string_views(final(satisfied)@)) == pass(
            module_views(rest@),
            name_set(string_views(old(satisfied)@)),
        ).satisfied,
{
    let ghost all = module_views(rest@);
    let ghost start = name_set(string_views(satisfied@));
    let mut queue = rest;
    let mut emitted: Vec<JsModule> = Vec::new();
    let mut kept: Vec<JsModule> = Vec::new();
    proof {
        lemma_pass_unstarted(all, start);
        assert(all.skip(0) =~= all);
        assert(module_views(emitted@) =~= Seq::empty());
        assert(module_views(kept@) =~= Seq::empty());
    }
    while queue.len() > 0
        invariant
            all == module_views(rest@),
            start == name_set(string_views(old(satisfied)@)),
            queue@.len() <= all.len(),
            module_views(queue@) == all.skip(all.len() - queue@.len()),
            pass(all, start) == joined_pass(
                module_views(emitted@),
                module_views(kept@),
                pass(module_views(queue@), name_set(string_views(satisfied@))),
            ),
        decreases queue@.len(),
    {
        let ghost rest_views = module_views(queue@);
        let ghost now = name_set(string_views(satisfied@));
        let ghost e = module_views(emitted@);
        let ghost k = module_views(kept@);
        let module = queue.remove(0);
        assert(rest_views[0] == module@);
        assert(module_views(queue@) =~= rest_views.drop_first());
        assert(rest_views.drop_first() =~= all.skip(all.len() - queue@.len()));
        if is_ready(&module, satisfied) {
            // All satisfied, can be entered and removed from the modules.
            let ghost before = string_views(satisfied@);
            satisfied.push(module.name.clone());
            assert(string_views(satisfied@) =~= before.push(module@.name));
            assert(name_set(string_views(satisfied@)) =~= now.insert(module@.name)) by {
                assert forall|n: Seq<char>|
                    name_set(before.push(module@.name)).contains(n) == now.insert(
                        module@.name,
                    ).contains(n) by {
                    if before.push(module@.name).contains(n) {
                        let i = choose|i: int|
                            0 <= i < before.push(module@.name).len() && before.push(
                                module@.name,
                            )[i] == n;
                        if i < before.len() {
                            assert(before[i] == n);
                        }
                    }
                    if before.contains(n) {
                        let i = choose|i: int| 0 <= i < before.len() && before[i] == n;
                        assert(before.push(module@.name)[i] == n);
                    }
                    if n == module@.name {
                        assert(before.push(module@.name)[before.len() as int] == n);
                    }
                }
            }
            emitted.push(module);
            assert(module_views(emitted@) =~= e.push(rest_views[0]));
            proof {
                let after = pass(rest_views.drop_first(), now.insert(rest_views[0].name));
                assert(e.push(rest_views[0]) + after.emitted =~= e + (seq![rest_views[0]]
                    + after.emitted));
            }
        } else {
            // Dependencies not yet satisfied, we'll try again later.
            kept.push(module);
            assert(module_views(kept@) =~= k.push(rest_views[0]));
            proof {
                let after = pass(rest_views.drop_first(), now);
                assert(k.push(rest_views[0]) + after.kept =~= k + (seq![rest_views[0]]
                    + after.kept));
            }
        }
    }
    proof {
        assert(module_views(queue@) =~= Seq::<JsModuleV>::empty());
        assert(module_views(emitted@) + Seq::<JsModuleV>::empty() =~= module_views(emitted@));
        assert(module_views(kept@) + Seq::<JsModuleV>::empty() =~= module_views(kept@));
    }
    (emitted, kept)
}

/// A pass that is under way: what was put out and kept so far, before what the pass
/// over the rest gives.
pub open spec fn joined_pass(emitted: Seq<JsModuleV>, kept: Seq<JsModuleV>, rest: Pass) -> Pass {
    Pass { emitted: emitted + rest.emitted, kept: kept + rest.kept, satisfied: rest.satisfied }
}

/// A pass that has put out and kept nothing yet gives what the pass over all gives.
proof fn lemma_pass_unstarted(all: Seq<JsModuleV>, start: Set<Seq<char>>)
    ensures
        pass(all, start) == joined_pass(Seq::empty(), Seq::empty(), pass(all.skip(0), start)),
{
    assert(all.skip(0) =~= all);
    let p = pass(all, start);
    assert(Seq::<JsModuleV>::empty() + p.emitted =~= p.emitted);
    assert(Seq::<JsModuleV>::empty() + p.kept =~= p.kept);
}

/// The length of what a pass puts out and keeps is the number of modules it went over.
pub proof fn lemma_pass_lengths(rest: Seq<JsModuleV>, satisfied: Set<Seq<char>>)
    ensures
        pass(rest, satisfied).emitted.len() + pass(rest, satisfied).kept.len() == rest.len(),
    decreases rest.len(),
{
    if rest.len() > 0 {
        if ready(rest[0], satisfied) {
            lemma_pass_lengths(rest.drop_first(), satisfied.insert(rest[0].name));
        } else {
            lemma_pass_lengths(rest.drop_first(), satisfied);
        }
    }
}

/// Puts the modules `modules` in the order in which they are put together.
pub fn order_modules(modules: Vec<JsModule>) -> (r: Result<Vec<JsModule>, MissingDependencies>)
    ensures
        match (r, assembly_order(module_views(modules@), sentinels())) {
            (Ok(order), Ok(owed)) => module_views(order@) == owed,
            (Err(_), Err(_)) => true,
            _ => false,
        },
{
    let mut satisfied: Vec<String> = Vec::new();
    satisfied.push(PAGE_LOADED.to_owned());
    satisfied.push(DOM_LOADED.to_owned());
    proof {
        let names = string_views(satisfied@);
        assert(names =~= seq![PAGE_LOADED@, DOM_LOADED@]);
        assert(name_set(names) =~= sentinels()) by {
            assert forall|n: Seq<char>| name_set(names).contains(n) == sentinels().contains(
                n,
            ) by {
                if names.contains(n) {
                    let i = choose|i: int| 0 <= i < names.len() && names[i] == n;
                    assert(i == 0 || i == 1);
                }
                if n == PAGE_LOADED@ {
                    assert(names[0] == n);
                }
                if n == DOM_LOADED@ {
                    assert(names[1] == n);
                }
            }
        }
    }
    let ghost all = module_views(modules@);
    let mut remaining = modules;
    let mut ordered: Vec<JsModule> = Vec::new();
    assert(module_views(ordered@) =~= Seq::<JsModuleV>::empty());
    while remaining.len() > 0
        invariant
            all == module_views(modules@),
            assembly_order(all, sentinels()) == match assembly_order(
                module_views(remaining@),
                name_set(string_views(satisfied@)),
            ) {
                Ok(rest) => Ok::<_, MissingDependencies>(module_views(ordered@) + rest),
                Err(e) => Err(e),
            },
        decreases remaining@.len(),
    {
        let ghost before = module_views(remaining@);
        let ghost now = name_set(string_views(satisfied@));
        let ghost done = module_views(ordered@);
        let previously_unsatisfied = remaining.len();
        let (emitted, kept) = one_pass(remaining, &mut satisfied);
        proof {
            lemma_pass_lengths(before, now);
        }
        if emitted.len() == 0 || kept.len() >= previously_unsatisfied {
            return Err(MissingDependencies);
        }
        let ghost added = module_views(emitted@);
        let mut emitted = emitted;
        ordered.append(&mut emitted);
        assert(module_views(ordered@) =~= done + added);
        remaining = kept;
        proof {
            match assembly_order(module_views(remaining@), name_set(string_views(satisfied@))) {
                Ok(rest) => {
                    assert(done + (added + rest) =~= (done + added) + rest);
                },
                Err(_) => {},
            }
        }
    }
    assert(module_views(ordered@) + Seq::<JsModuleV>::empty() =~= module_views(ordered@));
    Ok(ordered)
}

/// What is chosen of a sequence does not depend on what stands behind the part that is
/// looked at.
pub proof fn lemma_chosen_prefix<A>(s: Seq<A>, keep: spec_fn(A) -> bool, upto: int)
    requires
        0 <= upto <= s.len(),
    ensures
        chosen(s, keep, upto) == chosen(s.take(upto), keep, upto),
    decreases upto,
{
    if upto > 0 {
        lemma_chosen_prefix(s, keep, upto - 1);
        lemma_chosen_prefix(s.take(upto), keep, upto - 1);
        assert(s.take(upto).take(upto - 1) =~= s.take(upto - 1));
        lemma_chosen_prefix(s.take(upto - 1), keep, upto - 1);
        assert(s.take(upto)[upto - 1] == s[upto - 1]);
    }
}

} // verus!

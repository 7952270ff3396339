use aaoffline::modules::{
    order_modules, read_dependencies, read_module, retrieve_js_text_url, JsModule,
    MissingDependencies, ModuleError, ModuleResolver,
};
use aaoffline::scripts::{combine_js_modules, retrieve_player_scripts, CombineError};

fn module(name: &str, deps: &[&str]) -> JsModule {
    JsModule {
        name: name.to_string(),
        deps: deps.iter().map(|d| d.to_string()).collect(),
        init: String::new(),
        content: script(name, deps, "", ""),
    }
}

fn script(name: &str, deps: &[&str], init: &str, body: &str) -> String {
    let deps: Vec<String> = deps.iter().map(|d| format!("'{d}'")).collect();
    format!(
        "\"use strict\";\nModules.load(new Object({{\n\tname : '{name}',\n\tdependencies : [{}],\n\tinit : function() {{{init}}}\n}}));\n{body}\nModules.complete('{name}');\n",
        deps.join(", ")
    )
}

fn names(modules: &[JsModule]) -> Vec<String> {
    modules.iter().map(|m| m.name.clone()).collect()
}

fn follows_dependencies(order: &[JsModule]) -> bool {
    order.iter().enumerate().all(|(at, m)| {
        m.deps.iter().all(|d| {
            d == "dom_loaded" || d == "page_loaded" || order[..at].iter().any(|e| &e.name == d)
        })
    })
}

#[test]
fn each_module_stands_behind_what_it_depends_on() {
    let modules = vec![
        module("player", &["trial", "sound", "page_loaded"]),
        module("trial", &["events", "dom_loaded"]),
        module("sound", &["events", "trial"]),
        module("events", &[]),
        module("display", &["player"]),
    ];
    let order = order_modules(modules).unwrap();
    assert_eq!(names(&order), vec!["events", "trial", "sound", "player", "display"]);
    assert!(follows_dependencies(&order));
}

#[test]
fn order_holds_for_every_order_of_arrival() {
    let deps: [(&str, &[&str]); 4] =
        [("a", &[]), ("b", &["a"]), ("c", &["a", "b"]), ("d", &["c", "dom_loaded"])];
    let arrivals: [[usize; 4]; 6] =
        [[0, 1, 2, 3], [3, 2, 1, 0], [1, 3, 0, 2], [2, 0, 3, 1], [3, 0, 1, 2], [1, 0, 3, 2]];
    for arrival in arrivals {
        let modules: Vec<JsModule> = arrival.iter().map(|&i| module(deps[i].0, deps[i].1)).collect();
        let order = order_modules(modules).unwrap();
        assert_eq!(order.len(), 4);
        assert!(follows_dependencies(&order), "{arrival:?}");
        assert_eq!(names(&order), vec!["a", "b", "c", "d"]);
    }
}

#[test]
fn modules_that_are_ready_keep_their_order() {
    let order = order_modules(vec![module("b", &[]), module("a", &[]), module("c", &["a"])]).unwrap();
    assert_eq!(names(&order), vec!["b", "a", "c"]);
}

#[test]
fn no_modules_are_put_in_order() {
    assert_eq!(order_modules(Vec::new()).map(|o| o.len()), Ok(0));
}

#[test]
fn cycle_fails() {
    let modules = vec![module("a", &["b"]), module("b", &["c"]), module("c", &["a"])];
    assert_eq!(order_modules(modules).err(), Some(MissingDependencies));
}

#[test]
fn cycle_beside_sound_modules_fails() {
    let modules = vec![module("ok", &[]), module("a", &["b", "ok"]), module("b", &["a"])];
    assert_eq!(order_modules(modules).err(), Some(MissingDependencies));
}

#[test]
fn module_that_depends_on_itself_fails() {
    assert_eq!(order_modules(vec![module("a", &["a"])]).err(), Some(MissingDependencies));
}

#[test]
fn dependency_that_is_not_there_fails() {
    let modules = vec![module("a", &[]), module("b", &["a", "gone"])];
    assert_eq!(order_modules(modules).err(), Some(MissingDependencies));
}

#[test]
fn address_of_a_module() {
    assert_eq!(retrieve_js_text_url("default_data", "master"), "https://aaonline.fr/default_data.js.php");
    assert_eq!(
        retrieve_js_text_url("trial", "master"),
        "https://bitbucket.org/AceAttorneyOnline/aao-game-creation-engine/raw//master/trial.js.php"
    );
    assert_eq!(
        retrieve_js_text_url("player", "v1.2"),
        "https://bitbucket.org/AceAttorneyOnline/aao-game-creation-engine/raw//v1.2/Javascript/player.js"
    );
}

#[test]
fn dependencies_are_read_once_each() {
    assert_eq!(
        read_dependencies("['trial', \"sound\", 'trial']"),
        Ok(vec!["trial".to_string(), "sound".to_string()])
    );
    assert_eq!(read_dependencies("[]"), Ok(Vec::new()));
    assert_eq!(read_dependencies("['a', 1]"), Err(ModuleError::DependencyNotString));
    assert_eq!(read_dependencies("{'a': 1}"), Err(ModuleError::DependenciesNotArray));
    assert_eq!(read_dependencies("['a',"), Err(ModuleError::BadDependencies));
}

#[test]
fn module_is_read_from_its_script() {
    let text = script("player", &["trial", "dom_loaded"], "\n\t\tstart();\n\t", "function start() {}");
    let m = read_module("player".to_string(), text.clone()).unwrap();
    assert_eq!(m.name, "player");
    assert_eq!(m.deps, vec!["trial", "dom_loaded"]);
    assert_eq!(m.init, "\n\t\tstart();\n\t");
    assert_eq!(m.content, text);
}

#[test]
fn script_of_another_module_is_refused() {
    let text = script("player", &[], "", "");
    assert_eq!(read_module("trial".to_string(), text).err(), Some(ModuleError::NameMismatch));
}

#[test]
fn script_without_a_declaration_is_refused() {
    let r = read_module("player".to_string(), "function start() {}".to_string());
    assert_eq!(r.err(), Some(ModuleError::FormatChanged));
}

#[test]
fn script_with_unreadable_dependencies_is_refused() {
    let text = script("player", &[], "", "").replace("[]", "[nothing]");
    assert_eq!(read_module("player".to_string(), text).err(), Some(ModuleError::BadDependencies));
}

#[test]
fn modules_are_found_round_by_round() {
    let mut resolver = ModuleResolver::new();
    assert!(resolver.has_targets());
    assert_eq!(resolver.frontier(), vec!["player"]);
    assert!(!resolver.has_targets());
    resolver.fetched(vec![module("player", &["trial", "sound", "dom_loaded", "trial"])]);
    assert!(resolver.has_targets());
    assert_eq!(resolver.frontier(), vec!["trial", "sound"]);
    resolver.fetched(vec![module("trial", &["player", "events"]), module("sound", &["events", "page_loaded"])]);
    assert_eq!(resolver.frontier(), vec!["events"]);
    resolver.fetched(vec![module("events", &["dom_loaded"])]);
    // Only the events of the page are left: nothing more is fetched.
    assert!(resolver.frontier().is_empty());
    assert!(!resolver.has_targets());
    assert_eq!(names(&resolver.into_modules()), vec!["player", "trial", "sound", "events"]);
}

#[test]
fn modules_are_combined_in_order() {
    let a = JsModule {
        name: "a".to_string(),
        deps: vec!["b".to_string()],
        init: "initA();".to_string(),
        content: script("a", &["b"], "initA();", "function initA() { SoundHowler.play(); }"),
    };
    let b = JsModule {
        name: "b".to_string(),
        deps: Vec::new(),
        init: String::new(),
        content: script("b", &[], "", "var b = 1;"),
    };
    let combined = combine_js_modules(vec![a, b]).unwrap();
    assert_eq!(
        combined,
        "// b.js\n\ninitScripts.push(() => {});\n\"use strict\";\n\n\nvar b = 1;\n\n;\n\
         // a.js\n\ninitScripts.push(() => {initA();});\n\"use strict\";\n\n\n\
         function initA() { window.SoundHowler.play(); }\n\n;\n"
    );
}

#[test]
fn modules_that_wait_for_one_another_are_not_combined() {
    let r = combine_js_modules(vec![module("a", &["b"]), module("b", &["a"])]);
    assert_eq!(r.err(), Some(CombineError::MissingDependencies));
}

#[test]
fn module_without_declaration_is_not_combined() {
    let mut m = module("a", &[]);
    m.content = "var a = 1;".to_string();
    assert_eq!(combine_js_modules(vec![m]).err(), Some(CombineError::FormatChanged));
}

#[test]
fn script_of_the_player_is_put_together() {
    assert_eq!(
        retrieve_player_scripts("{\"a\":1}", "var common;", "var modules;"),
        "var cfg = {\"a\":1};\nfunction getFileVersion(path_components)\n{\n    // We are not using file versions here.\n\t\treturn '';\n}\nvar common;\n\nlet initScripts = [];\nvar modules;\nwindow.addEventListener('load', function() {\n    // Execute all init functions in order.\n    initScripts.forEach((x) => x());\n}, false);\n"
    );
}

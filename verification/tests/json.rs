use aaoffline::json::{index_of_token, tokens_of, Json};

fn text(s: &str) -> Json {
    Json::Text(s.to_string())
}

fn number(n: i64) -> Json {
    Json::Number(n.to_string())
}

fn object(fields: Vec<(&str, Json)>) -> Json {
    Json::Object(fields.into_iter().map(|(k, v)| (k.to_string(), v)).collect())
}

fn show(j: &Json) -> String {
    format!("{j:?}")
}

fn sample() -> Json {
    object(vec![
        ("title", text("Turnabout")),
        ("count", number(3)),
        ("open", Json::Bool(true)),
        ("nothing", Json::Null),
        ("list", Json::Array(vec![number(0), object(vec![("icon", text("a.png"))])])),
        ("a/b", text("slash")),
        ("m~n", text("tilde")),
    ])
}

#[test]
fn values_are_read_by_kind() {
    assert_eq!(text("x").as_str(), Some("x"));
    assert_eq!(number(1).as_str(), None);
    assert_eq!(Json::Bool(false).as_bool(), Some(false));
    assert_eq!(text("true").as_bool(), None);
    assert_eq!(number(-12).as_i64(), Some(-12));
    assert_eq!(Json::Number("1.5".to_string()).as_i64(), None);
    assert_eq!(text("12").as_i64(), None);
    assert!(number(1).is_number());
    assert!(!text("1").is_number());
    assert!(Json::Null.is_null());
    assert!(!Json::Bool(false).is_null());
    assert!(sample().is_object());
    assert!(!Json::Array(Vec::new()).is_object());
    assert_eq!(Json::Array(vec![Json::Null]).as_array().map(Vec::len), Some(1));
    assert!(sample().as_array().is_none());
}

#[test]
fn fields_are_read_by_name() {
    let j = sample();
    assert_eq!(j.text_of("title"), Some("Turnabout".to_string()));
    assert_eq!(j.text_of("count"), None);
    assert_eq!(j.text_of("missing"), None);
    assert_eq!(j.integer_of("count"), Some(3));
    assert_eq!(j.integer_of("title"), None);
    assert_eq!(j.flag_of("open"), Some(true));
    assert_eq!(j.flag_of("nothing"), None);
    assert_eq!(j.items_of("list").map(Vec::len), Some(2));
    assert!(j.items_of("title").is_none());
    assert!(j.contains_key("nothing"));
    assert!(!j.contains_key("missing"));
    assert!(j.get("missing").is_none());
    assert!(number(1).get("title").is_none());
}

#[test]
fn first_field_of_a_name_counts() {
    let j = object(vec![("a", number(1)), ("a", number(2))]);
    assert_eq!(j.integer_of("a"), Some(1));
    let j = j.with_field("a", number(3));
    assert_eq!(show(&j), show(&object(vec![("a", number(3)), ("a", number(2))])));
}

#[test]
fn copy_is_the_same_document() {
    let j = sample();
    assert_eq!(show(&j.duplicate()), show(&j));
}

#[test]
fn field_is_replaced_or_added() {
    let j = object(vec![("a", number(1))]).with_field("b", number(2)).with_field("a", text("x"));
    assert_eq!(show(&j), show(&object(vec![("a", text("x")), ("b", number(2))])));
    assert_eq!(show(&number(1).with_field("a", Json::Null)), show(&number(1)));
}

#[test]
fn item_is_replaced_in_place() {
    let j = Json::Array(vec![number(1), number(2)]).with_item(1, text("x"));
    assert_eq!(show(&j), show(&Json::Array(vec![number(1), text("x")])));
    let j = j.with_item(2, text("y"));
    assert_eq!(show(&j), show(&Json::Array(vec![number(1), text("x")])));
    assert_eq!(show(&text("a").with_item(0, Json::Null)), show(&text("a")));
}

#[test]
fn pointer_is_split_into_tokens() {
    assert_eq!(tokens_of(""), Some(Vec::new()));
    assert_eq!(tokens_of("/"), Some(vec![String::new()]));
    assert_eq!(tokens_of("/a/0/b"), Some(vec!["a".to_string(), "0".to_string(), "b".to_string()]));
    assert_eq!(tokens_of("/a~1b/m~0n"), Some(vec!["a/b".to_string(), "m~n".to_string()]));
    assert_eq!(tokens_of("/~01"), Some(vec!["~1".to_string()]));
    assert_eq!(tokens_of("a/b"), None);
}

#[test]
fn token_names_an_index() {
    assert_eq!(index_of_token("0"), Some(0));
    assert_eq!(index_of_token("17"), Some(17));
    assert_eq!(index_of_token("017"), None);
    assert_eq!(index_of_token("+1"), None);
    assert_eq!(index_of_token("-1"), None);
    assert_eq!(index_of_token(""), None);
    assert_eq!(index_of_token("a"), None);
    assert_eq!(index_of_token("99999999999999999999999999"), None);
}

#[test]
fn value_is_put_where_the_pointer_leads() {
    let (j, found) = sample().put("/list/1/icon", text("assets/a-1.png"));
    assert!(found);
    assert_eq!(
        j.items_of("list").unwrap()[1].text_of("icon"),
        Some("assets/a-1.png".to_string())
    );
    assert_eq!(j.text_of("title"), Some("Turnabout".to_string()));
    let (j, found) = j.put("/a~1b", number(5));
    assert!(found);
    assert_eq!(j.integer_of("a/b"), Some(5));
    let (j, found) = j.put("/m~0n", number(6));
    assert!(found);
    assert_eq!(j.integer_of("m~n"), Some(6));
}

#[test]
fn pointer_that_leads_nowhere_changes_nothing() {
    for pointer in ["/missing", "/list/2", "/list/01", "/list/x", "/title/0", "list", "/list/1/icon/x"] {
        let (j, found) = sample().put(pointer, text("changed"));
        assert!(!found, "{pointer}");
        assert_eq!(show(&j), show(&sample()), "{pointer}");
    }
}

#[test]
fn empty_pointer_names_the_whole_document() {
    let (j, found) = sample().put("", number(1));
    assert!(found);
    assert_eq!(show(&j), show(&number(1)));
}

#[test]
fn texts_of_an_array_of_strings() {
    assert_eq!(
        Json::Array(vec![text("a"), text("b")]).strings(),
        Some(vec!["a".to_string(), "b".to_string()])
    );
    assert_eq!(Json::Array(Vec::new()).strings(), Some(Vec::new()));
    assert_eq!(Json::Array(vec![text("a"), number(1)]).strings(), None);
    assert_eq!(text("a").strings(), None);
}

#[test]
fn objects_are_merged_field_by_field() {
    let a = object(vec![
        ("keep", number(1)),
        ("over", number(2)),
        ("deep", object(vec![("x", number(1)), ("y", number(2))])),
        ("stays", text("s")),
    ]);
    let b = object(vec![
        ("over", text("new")),
        ("deep", object(vec![("y", number(3)), ("z", number(4))])),
        ("stays", Json::Null),
        ("added", Json::Bool(true)),
    ]);
    let owed = object(vec![
        ("keep", number(1)),
        ("over", text("new")),
        ("deep", object(vec![("x", number(1)), ("y", number(3)), ("z", number(4))])),
        ("stays", text("s")),
        ("added", Json::Bool(true)),
    ]);
    assert_eq!(show(&a.merge(b)), show(&owed));
}

#[test]
fn anything_but_two_objects_gives_way_when_merged() {
    assert_eq!(show(&number(1).merge(text("b"))), show(&text("b")));
    assert_eq!(show(&sample().merge(number(2))), show(&number(2)));
    assert_eq!(show(&number(1).merge(object(vec![("a", Json::Null)]))), show(&object(vec![("a", Json::Null)])));
    let nested = object(vec![("a", number(1))]).merge(object(vec![("a", object(vec![("b", Json::Null)]))]));
    assert_eq!(show(&nested), show(&object(vec![("a", object(vec![("b", Json::Null)]))])));
}

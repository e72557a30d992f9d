use ion_shell::directory_stack::DirectoryStack;
use ion_shell::ranges::{Index, Range, Select};
use ion_shell::shell::{Environment, Shell};
use ion_shell::value::{Entry, KeyMap, Value};

fn s(text: &str) -> String {
    text.to_string()
}

fn strs(items: &[&str]) -> Vec<String> {
    items.iter().map(|x| x.to_string()).collect()
}

fn shell() -> Shell {
    let mut shell = Shell::new(Environment { home: Some(s("/home/user")), pwd: Some(s("/tmp")) }, 100);
    shell.variables.set("FOO", Value::Str(s("bar baz")));
    shell.variables.set(
        "ARRAY",
        Value::Array(vec![Value::Str(s("a")), Value::Str(s("b c")), Value::Str(s("d")), Value::Str(s("e"))]),
    );
    let mut map = KeyMap::new();
    map.insert(s("one"), Value::Str(s("first value")));
    map.insert(s("two"), Value::Array(vec![Value::Str(s("x y")), Value::Str(s("z"))]));
    map.insert(s("1"), Value::Str(s("uno")));
    map.insert(s("-1"), Value::Str(s("last")));
    shell.variables.set("MAP", Value::KeyMap(map));
    shell.variables.set("OLDPWD", Value::Str(s("/var")));
    shell.directory_stack = DirectoryStack { dirs: strs(&["/a", "/b", "/c", "/d"]) };
    shell
}

#[test]
fn string_of_question_mark_is_previous_status() {
    let mut sh = shell();
    assert_eq!(sh.string("?"), Some(s("0")));
    sh.previous_status = 127;
    assert_eq!(sh.string("?"), Some(s("127")));
    sh.previous_status = -3;
    assert_eq!(sh.string("?"), Some(s("-3")));
    sh.previous_status = i32::MIN;
    assert_eq!(sh.string("?"), Some(s("-2147483648")));
}

#[test]
fn string_looks_up_scalars_only() {
    let sh = shell();
    assert_eq!(sh.string("FOO"), Some(s("bar baz")));
    assert_eq!(sh.string("ARRAY"), None);
    assert_eq!(sh.string("MISSING"), None);
}

#[test]
fn array_all_yields_every_element_in_order() {
    let sh = shell();
    assert_eq!(sh.array("ARRAY", &Select::All), Some(strs(&["a", "b c", "d", "e"])));
}

#[test]
fn array_index_forward_and_backward() {
    let sh = shell();
    assert_eq!(sh.array("ARRAY", &Select::Index(Index::Forward(1))), Some(strs(&["b c"])));
    assert_eq!(sh.array("ARRAY", &Select::Index(Index::Backward(0))), Some(strs(&["e"])));
    assert_eq!(sh.array("ARRAY", &Select::Index(Index::Backward(3))), Some(strs(&["a"])));
    assert_eq!(sh.array("ARRAY", &Select::Index(Index::Forward(4))), None);
    assert_eq!(sh.array("ARRAY", &Select::Index(Index::Backward(4))), None);
}

#[test]
fn forward_index_equals_mirrored_backward_index() {
    let sh = shell();
    for i in 0..4usize {
        assert_eq!(
            sh.array("ARRAY", &Select::Index(Index::Forward(i))),
            sh.array("ARRAY", &Select::Index(Index::Backward(4 - 1 - i)))
        );
    }
}

#[test]
fn array_range_is_half_open_and_clamped() {
    let sh = shell();
    let r = Range::exclusive(Index::Forward(1), Index::Forward(3));
    assert_eq!(sh.array("ARRAY", &Select::Range(r)), Some(strs(&["b c", "d"])));
    let r = Range::inclusive(Index::Forward(1), Index::Forward(3));
    assert_eq!(sh.array("ARRAY", &Select::Range(r)), Some(strs(&["b c", "d", "e"])));
    let r = Range::exclusive(Index::Forward(2), Index::Forward(100));
    assert_eq!(sh.array("ARRAY", &Select::Range(r)), Some(strs(&["d", "e"])));
    let r = Range::from(Index::Forward(2));
    assert_eq!(sh.array("ARRAY", &Select::Range(r)), Some(strs(&["d", "e"])));
    let r = Range::to(Index::Backward(0));
    assert_eq!(sh.array("ARRAY", &Select::Range(r)), Some(strs(&["a", "b c", "d"])));
    let r = Range::exclusive(Index::Forward(2), Index::Forward(2));
    assert_eq!(sh.array("ARRAY", &Select::Range(r)), Some(strs(&[])));
}

#[test]
fn array_range_starting_behind_the_end_is_empty() {
    let sh = shell();
    let r = Range::exclusive(Index::Forward(4), Index::Forward(9));
    assert_eq!(sh.array("ARRAY", &Select::Range(r)), None);
    let r = Range::inclusive(Index::Forward(7), Index::Forward(usize::MAX));
    assert_eq!(sh.array("ARRAY", &Select::Range(r)), None);
    let r = Range::exclusive(Index::Forward(3), Index::Forward(1));
    assert_eq!(sh.array("ARRAY", &Select::Range(r)), None);
}

#[test]
fn array_key_on_array_is_unresolved() {
    let sh = shell();
    assert_eq!(sh.array("ARRAY", &Select::Key(s("one"))), None);
    assert_eq!(sh.array("FOO", &Select::All), None);
}

#[test]
fn map_all_interleaves_keys_and_values() {
    let sh = shell();
    assert_eq!(
        sh.array("MAP", &Select::All),
        Some(strs(&["one", "first value", "two", "x", "y", "z", "1", "uno", "-1", "last"]))
    );
}

#[test]
fn map_key_returns_value_or_empty_string() {
    let sh = shell();
    assert_eq!(sh.array("MAP", &Select::Key(s("one"))), Some(strs(&["first value"])));
    assert_eq!(sh.array("MAP", &Select::Key(s("two"))), Some(strs(&["x y z"])));
    assert_eq!(sh.array("MAP", &Select::Key(s("absent"))), Some(strs(&[""])));
}

#[test]
fn map_index_is_read_as_key() {
    let sh = shell();
    assert_eq!(sh.array("MAP", &Select::Index(Index::Forward(1))), Some(strs(&["uno"])));
    assert_eq!(sh.array("MAP", &Select::Index(Index::Backward(0))), Some(strs(&["last"])));
    assert_eq!(sh.array("MAP", &Select::Index(Index::Forward(7))), Some(strs(&[""])));
    assert_eq!(sh.array("MAP", &Select::Index(Index::Backward(usize::MAX))), Some(strs(&[""])));
    let r = Range::from(Index::Forward(0));
    assert_eq!(sh.array("MAP", &Select::Range(r)), None);
}

#[test]
fn map_keys_and_values_follow_insertion_order() {
    let sh = shell();
    assert_eq!(sh.map_keys("MAP", &Select::All), Some(strs(&["one", "two", "1", "-1"])));
    assert_eq!(sh.map_values("MAP", &Select::All), Some(strs(&["first value", "x y z", "uno", "last"])));
    let r = Range::exclusive(Index::Forward(1), Index::Forward(3));
    assert_eq!(sh.map_keys("MAP", &Select::Range(r)), Some(strs(&["two", "1"])));
    assert_eq!(sh.map_values("MAP", &Select::Range(r)), Some(strs(&["x y z", "uno"])));
    assert_eq!(sh.map_keys("MAP", &Select::Index(Index::Backward(0))), Some(strs(&["-1"])));
    assert_eq!(sh.map_values("MAP", &Select::Index(Index::Forward(0))), Some(strs(&["first value"])));
    let r = Range::exclusive(Index::Forward(4), Index::Forward(5));
    assert_eq!(sh.map_keys("MAP", &Select::Range(r)), None);
    assert_eq!(sh.map_keys("MAP", &Select::Key(s("one"))), None);
    assert_eq!(sh.map_keys("ARRAY", &Select::All), None);
    assert_eq!(sh.map_values("FOO", &Select::All), None);
}

#[test]
fn absent_name_expands_to_nothing_twice() {
    let sh = shell();
    for _ in 0..2 {
        assert_eq!(sh.string("NOPE"), None);
        assert_eq!(sh.array("NOPE", &Select::All), None);
        assert_eq!(sh.array("NOPE", &Select::Index(Index::Forward(0))), None);
        assert_eq!(sh.map_keys("NOPE", &Select::All), None);
        assert_eq!(sh.map_values("NOPE", &Select::All), None);
    }
    assert_eq!(sh.variables.vars.len(), 4);
}

#[test]
fn tilde_requires_leading_tilde() {
    let sh = shell();
    assert_eq!(sh.tilde("foo"), None);
    assert_eq!(sh.tilde(""), None);
    assert_eq!(sh.tilde("a~"), None);
}

#[test]
fn tilde_home() {
    let sh = shell();
    assert_eq!(sh.tilde("~"), Some(s("/home/user")));
    assert_eq!(sh.tilde("~/docs"), Some(s("/home/user/docs")));
    assert_eq!(sh.tilde("~$x"), Some(s("/home/user$x")));
    let bare = Shell::new(Environment { home: None, pwd: None }, 100);
    assert_eq!(bare.tilde("~/docs"), None);
}

#[test]
fn tilde_plus_is_working_directory() {
    let sh = shell();
    assert_eq!(sh.tilde("~+/foo"), Some(s("/tmp/foo")));
    assert_eq!(sh.tilde("~+"), Some(s("/tmp")));
    let bare = Shell::new(Environment { home: None, pwd: None }, 100);
    assert_eq!(bare.tilde("~+/foo"), Some(s("?/foo")));
}

#[test]
fn tilde_minus_is_previous_directory() {
    let sh = shell();
    assert_eq!(sh.tilde("~-/x"), Some(s("/var/x")));
    let bare = Shell::new(Environment { home: None, pwd: None }, 100);
    assert_eq!(bare.tilde("~-/x"), None);
}

#[test]
fn tilde_number_indexes_directory_stack() {
    let sh = shell();
    assert_eq!(sh.tilde("~2"), Some(s("/b")));
    assert_eq!(sh.tilde("~0"), Some(s("/d")));
    assert_eq!(sh.tilde("~+1"), Some(s("/c")));
    assert_eq!(sh.tilde("~-1"), Some(s("/b")));
    assert_eq!(sh.tilde("~-0"), Some(s("/a")));
    assert_eq!(sh.tilde("~2/rest"), Some(s("/b/rest")));
    assert_eq!(sh.tilde("~1/foo"), Some(s("/c/foo")));
    assert_eq!(sh.tilde("~-1$x"), Some(s("/b$x")));
    assert_eq!(sh.tilde("~+0/"), Some(s("/d/")));
    assert_eq!(sh.tilde("~9/foo"), None);
    assert_eq!(sh.tilde("~4"), None);
    assert_eq!(sh.tilde("~-4"), None);
    assert_eq!(sh.tilde("~++1"), Some(s("/c")));
    assert_eq!(sh.tilde("~007"), None);
    assert_eq!(sh.tilde("~003"), Some(s("/a")));
}

#[test]
fn tilde_unknown_user_is_passed_through() {
    let sh = shell();
    assert_eq!(sh.tilde("~nobody/x"), None);
    assert_eq!(sh.tilde("~--1"), None);
    assert_eq!(sh.tilde("~99999999999999999999999999"), None);
}

#[test]
fn value_text_joins_with_spaces() {
    let v = Value::Array(vec![
        Value::Str(s("a")),
        Value::Array(vec![Value::Str(s("b")), Value::Str(s("c"))]),
        Value::Array(vec![]),
        Value::Str(s("d")),
    ]);
    assert_eq!(v.to_text(), "a b c  d");
    let map = KeyMap {
        entries: vec![
            Entry { key: s("k"), value: Value::Str(s("v w")) },
            Entry { key: s("l"), value: Value::Str(s("x")) },
        ],
    };
    assert_eq!(Value::KeyMap(map).to_text(), "v w x");
    assert_eq!(Value::Array(vec![]).to_text(), "");
}

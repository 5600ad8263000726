use poem_marshal::{get_crate_name, get_description, get_summary_and_description};
use poem_marshal::{RenameRule, RenameRuleExt, RenameTarget};

fn owned(lines: &[&str]) -> Vec<String> {
    lines.iter().map(|s| s.to_string()).collect()
}

#[test]
fn rename_pascal_case() {
    assert_eq!(RenameRule::Pascal.rename("foo_bar"), "FooBar");
    assert_eq!(RenameRule::Pascal.rename("fooBar"), "FooBar");
    assert_eq!(RenameRule::Pascal.rename("FOO_BAR"), "FooBar");
}

#[test]
fn rename_camel_case() {
    assert_eq!(RenameRule::Camel.rename("foo_bar"), "fooBar");
    assert_eq!(RenameRule::Camel.rename("FooBar"), "fooBar");
    assert_eq!(RenameRule::Camel.rename("foo"), "foo");
}

#[test]
fn rename_snake_case() {
    assert_eq!(RenameRule::Snake.rename("fooBar"), "foo_bar");
    assert_eq!(RenameRule::Snake.rename("FooBar"), "foo_bar");
    assert_eq!(RenameRule::Snake.rename("foo_bar"), "foo_bar");
}

#[test]
fn rename_screaming_snake_case() {
    assert_eq!(RenameRule::ScreamingSnake.rename("fooBar"), "FOO_BAR");
    assert_eq!(RenameRule::ScreamingSnake.rename("foo_bar"), "FOO_BAR");
}

#[test]
fn rename_lower_and_upper() {
    assert_eq!(RenameRule::Lower.rename("FooBar"), "foobar");
    assert_eq!(RenameRule::Upper.rename("fooBar"), "FOOBAR");
}

#[test]
fn rename_idempotent_on_representatives() {
    let rules = [
        RenameRule::Lower,
        RenameRule::Upper,
        RenameRule::Pascal,
        RenameRule::Camel,
        RenameRule::Snake,
        RenameRule::ScreamingSnake,
    ];
    let idents = ["fooBar", "FooBar", "foo_bar"];
    for rule in rules {
        for ident in idents {
            let once = rule.rename(ident);
            let twice = rule.rename(once.as_str());
            assert_eq!(twice, once, "rule {:?} not idempotent on {}", rule, ident);
        }
    }
}

#[test]
fn rename_target_defaults() {
    assert_eq!(RenameTarget::Type.rename("my_type"), "MyType");
    assert_eq!(RenameTarget::EnumItem.rename("myItem"), "MY_ITEM");
    assert_eq!(RenameTarget::Field.rename("my_field"), "myField");
    assert_eq!(RenameTarget::Argument.rename("my_arg"), "myArg");
}

#[test]
fn rename_rule_ext_override_and_fallback() {
    let none: Option<RenameRule> = None;
    let some: Option<RenameRule> = Some(RenameRule::Snake);
    assert_eq!(none.rename("my_field", RenameTarget::Field), "myField");
    assert_eq!(some.rename("myField", RenameTarget::Field), "my_field");
}

#[test]
fn description_joins_trimmed_lines() {
    let docs = owned(&[" Hello ", "", "World"]);
    assert_eq!(get_description(&docs), Some("Hello\n\nWorld".to_string()));
    assert_eq!(get_description(&owned(&[])), None);
    assert_eq!(get_description(&owned(&["  ", ""])), None);
}

#[test]
fn summary_is_first_nonempty_line() {
    let docs = owned(&["", " A short summary. ", "", "More detail,", "and more."]);
    let (summary, description) = get_summary_and_description(&docs);
    assert_eq!(summary, Some("A short summary.".to_string()));
    assert_eq!(description, Some("More detail,\nand more.".to_string()));
    let (s2, d2) = get_summary_and_description(&owned(&["only one line"]));
    assert_eq!(s2, Some("only one line".to_string()));
    assert_eq!(d2, None);
}

#[test]
fn crate_name_resolution() {
    assert_eq!(get_crate_name(true, &Some("other".to_string())), "crate");
    assert_eq!(get_crate_name(false, &Some("poem_core".to_string())), "poem_core");
    assert_eq!(get_crate_name(false, &None), "poem");
}

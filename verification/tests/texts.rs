use local_git_hub::text::{
    chars_of, contains_char, contains_text, has_suffix, join, precedes, same_chars, same_text,
};
use std::path::Path;

fn chars(s: &str) -> Vec<char> {
    s.chars().collect()
}

#[test]
fn chars_are_read_in_order() {
    assert_eq!(chars_of("héllo"), vec!['h', 'é', 'l', 'l', 'o']);
    assert_eq!(chars_of(""), Vec::<char>::new());
}

#[test]
fn joining_puts_one_separator() {
    assert_eq!(join("/tmp/hub", "proj.git"), "/tmp/hub/proj.git");
    assert_eq!(join("/tmp/hub/", "proj.git"), "/tmp/hub/proj.git");
    assert_eq!(join("", "proj.git"), "proj.git");
    assert_eq!(join("/", "proj.git"), "/proj.git");
    assert_eq!(join("hub", ""), "hub/");
    assert_eq!(join("", ""), "");
}

#[test]
fn joining_an_absolute_path_gives_that_path() {
    assert_eq!(join("/tmp/hub", "/etc/x.git"), "/etc/x.git");
    assert_eq!(join("", "/x"), "/x");
}

#[test]
fn joining_agrees_with_std_paths() {
    let bases = ["/tmp/hub", "/tmp/hub/", "", "/", "rel", "rel/dir", "."];
    let names = ["proj.git", "", "/abs.git", "a b.git", "é.git", ".git", ".local-git-hub"];
    for base in bases {
        for name in names {
            let expected = Path::new(base).join(name);
            assert_eq!(Some(join(base, name).as_str()), expected.to_str());
        }
    }
}

#[test]
fn suffixes_are_recognised() {
    assert!(has_suffix(&chars("proj.git"), &chars(".git")));
    assert!(has_suffix(&chars(".git"), &chars(".git")));
    assert!(has_suffix(&chars("anything"), &chars("")));
    assert!(!has_suffix(&chars("git"), &chars(".git")));
    assert!(!has_suffix(&chars("proj.gits"), &chars(".git")));
    assert!(!has_suffix(&chars("proj.Git"), &chars(".git")));
}

#[test]
fn occurrences_are_found_anywhere() {
    assert!(contains_text(&chars("myproject.git"), &chars("proj")));
    assert!(contains_text(&chars("myproject.git"), &chars("my")));
    assert!(contains_text(&chars("myproject.git"), &chars(".git")));
    assert!(contains_text(&chars("myproject.git"), &chars("")));
    assert!(contains_text(&chars(""), &chars("")));
    assert!(contains_text(&chars("aab"), &chars("ab")));
    assert!(!contains_text(&chars("myproject.git"), &chars("projx")));
    assert!(!contains_text(&chars("ab"), &chars("abc")));
    assert!(!contains_text(&chars(""), &chars("a")));
}

#[test]
fn characters_are_found() {
    assert!(contains_char(&chars("a/b"), '/'));
    assert!(!contains_char(&chars("ab"), '/'));
    assert!(!contains_char(&chars(""), '/'));
}

#[test]
fn equal_texts_are_told_from_others() {
    assert!(same_text("proj.git", "proj.git"));
    assert!(same_text("", ""));
    assert!(!same_text("proj.git", "proj.gif"));
    assert!(!same_text("proj", "proj.git"));
    assert!(same_chars(&chars("ab"), &chars("ab")));
    assert!(!same_chars(&chars("ab"), &chars("ba")));
}

#[test]
fn order_is_that_of_strings() {
    let samples = ["", "a", "A", "ab", "abc", "abd", "b", "a.git", "a-b.git", "é", "z", "zé", "日本", "10", "9"];
    for x in samples {
        for y in samples {
            assert_eq!(precedes(&chars(x), &chars(y)), x < y, "{:?} before {:?}", x, y);
        }
    }
}

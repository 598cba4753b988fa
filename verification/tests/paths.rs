use bin::path::{file_name, join};
use std::path::Path;

fn name_of(path: &str) -> Option<Vec<u8>> {
    file_name(&path.as_bytes().to_vec())
}

fn joined(base: &str, name: &str) -> Vec<u8> {
    join(&base.as_bytes().to_vec(), &name.as_bytes().to_vec())
}

/// Every string over the given letters, up to the given length.
fn strings_over(letters: &[char], longest: usize) -> Vec<String> {
    let mut all = vec![String::new()];
    let mut last = vec![String::new()];
    for _ in 0..longest {
        let mut next = Vec::new();
        for stem in &last {
            for letter in letters {
                let mut longer = stem.clone();
                longer.push(*letter);
                next.push(longer);
            }
        }
        all.extend(next.iter().cloned());
        last = next;
    }
    all
}

#[test]
fn file_name_is_the_last_component() {
    assert_eq!(name_of("/tmp/src/tool"), Some(b"tool".to_vec()));
    assert_eq!(name_of("tool"), Some(b"tool".to_vec()));
    assert_eq!(name_of("a/b/c.txt"), Some(b"c.txt".to_vec()));
    assert_eq!(name_of("./tool"), Some(b"tool".to_vec()));
    assert_eq!(name_of("/nonexistent"), Some(b"nonexistent".to_vec()));
}

#[test]
fn file_name_sets_trailing_separators_and_dots_aside() {
    assert_eq!(name_of("/tmp/src/"), Some(b"src".to_vec()));
    assert_eq!(name_of("/tmp/src///"), Some(b"src".to_vec()));
    assert_eq!(name_of("/tmp/src/."), Some(b"src".to_vec()));
    assert_eq!(name_of("/tmp/src/./"), Some(b"src".to_vec()));
    assert_eq!(name_of("/tmp/src/././/"), Some(b"src".to_vec()));
}

#[test]
fn file_name_keeps_dots_inside_a_name() {
    assert_eq!(name_of(".hidden"), Some(b".hidden".to_vec()));
    assert_eq!(name_of("a/b."), Some(b"b.".to_vec()));
    assert_eq!(name_of("..."), Some(b"...".to_vec()));
    assert_eq!(name_of("a/..b"), Some(b"..b".to_vec()));
}

#[test]
fn file_name_of_a_path_without_one_is_none() {
    assert_eq!(name_of(""), None);
    assert_eq!(name_of("/"), None);
    assert_eq!(name_of("//"), None);
    assert_eq!(name_of("."), None);
    assert_eq!(name_of("./"), None);
    assert_eq!(name_of("/."), None);
    assert_eq!(name_of(".."), None);
    assert_eq!(name_of("a/.."), None);
    assert_eq!(name_of("a/../"), None);
    assert_eq!(name_of("/tmp/.."), None);
}

#[test]
fn file_name_takes_bytes_that_are_no_text() {
    let path = vec![b'/', b'x', b'/', 0xff, 0xfe];
    assert_eq!(file_name(&path), Some(vec![0xff, 0xfe]));
}

#[test]
fn file_name_agrees_with_the_system_on_every_short_path() {
    let mut seen = 0;
    for path in strings_over(&['/', '.', 'a'], 7) {
        let expected = Path::new(&path)
            .file_name()
            .map(|name| name.to_str().unwrap().as_bytes().to_vec());
        assert_eq!(name_of(&path), expected, "path {:?}", path);
        seen += 1;
    }
    assert_eq!(seen, 3280);
}

#[test]
fn join_puts_a_separator_between() {
    assert_eq!(joined("/tmp/bin", "tool"), b"/tmp/bin/tool".to_vec());
    assert_eq!(joined("bin", "tool"), b"bin/tool".to_vec());
}

#[test]
fn join_adds_no_second_separator() {
    assert_eq!(joined("/tmp/bin/", "tool"), b"/tmp/bin/tool".to_vec());
    assert_eq!(joined("/", "tool"), b"/tool".to_vec());
}

#[test]
fn join_with_an_empty_side() {
    assert_eq!(joined("", "tool"), b"tool".to_vec());
    assert_eq!(joined("/tmp/bin", ""), b"/tmp/bin/".to_vec());
    assert_eq!(joined("", ""), b"".to_vec());
}

#[test]
fn join_lets_a_rooted_name_stand_alone() {
    assert_eq!(joined("/tmp/bin", "/usr/bin/tool"), b"/usr/bin/tool".to_vec());
    assert_eq!(joined("", "/tool"), b"/tool".to_vec());
}

#[test]
fn join_agrees_with_the_system_on_every_short_pair() {
    let sides = strings_over(&['/', '.', 'a'], 4);
    let mut seen = 0;
    for base in &sides {
        for name in &sides {
            let expected = Path::new(base).join(name).to_str().unwrap().as_bytes().to_vec();
            assert_eq!(joined(base, name), expected, "base {:?} name {:?}", base, name);
            seen += 1;
        }
    }
    assert_eq!(seen, 121 * 121);
}

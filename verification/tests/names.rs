use quickvm::names::{sanitize_base, sanitize_name, unique_path};

fn owned(names: &[&str]) -> Vec<String> {
    names.iter().map(|n| n.to_string()).collect()
}

#[test]
fn sanitize_keeps_plain_name() {
    assert_eq!(sanitize_name("report.txt"), "report.txt");
}

#[test]
fn sanitize_strips_path_components() {
    assert_eq!(sanitize_name("../../etc/passwd"), "passwd");
    assert_eq!(sanitize_name("a/b/c.txt"), "c.txt");
}

#[test]
fn sanitize_backslash_safe_on_both_platforms() {
    let got = sanitize_name("..\\windows\\evil.exe");
    if std::path::MAIN_SEPARATOR == '\\' {
        assert_eq!(got, "evil.exe");
    } else {
        assert_eq!(got, "..\\windows\\evil.exe");
    }
    assert!(!got.contains('/'));
    assert_ne!(got, "..");
}

#[test]
fn sanitize_degenerate_inputs_become_unnamed() {
    assert_eq!(sanitize_name(""), "unnamed");
    assert_eq!(sanitize_name(".."), "unnamed");
}

#[test]
fn sanitize_preserves_unicode() {
    assert_eq!(sanitize_name("報告 🎉.txt"), "報告 🎉.txt");
}

#[test]
fn sanitize_takes_the_last_component() {
    assert_eq!(sanitize_name("a/b/"), "b");
    assert_eq!(sanitize_name("a/b/."), "b");
    assert_eq!(sanitize_name("a/b//./"), "b");
    assert_eq!(sanitize_name("a/.."), "unnamed");
    assert_eq!(sanitize_name("a/../"), "unnamed");
    assert_eq!(sanitize_name("a/../."), "unnamed");
    assert_eq!(sanitize_name("/"), "unnamed");
    assert_eq!(sanitize_name("."), "unnamed");
    assert_eq!(sanitize_name("./"), "unnamed");
    assert_eq!(sanitize_name("/."), "unnamed");
    assert_eq!(sanitize_name("./a"), "a");
    assert_eq!(sanitize_name("/etc"), "etc");
    assert_eq!(sanitize_name("..."), "...");
    assert_eq!(sanitize_name(".hidden"), ".hidden");
    assert_eq!(sanitize_name("x/ "), " ");
}

#[test]
fn sanitize_is_idempotent() {
    for name in ["report.txt", "../../etc/passwd", "", "..", "a/b/", "報告 🎉.txt"] {
        let once = sanitize_name(name);
        assert_eq!(sanitize_name(&once), once);
    }
}

#[test]
fn sanitize_of_a_base_name() {
    assert_eq!(sanitize_base(Some("a".to_string())), "a");
    assert_eq!(sanitize_base(Some(String::new())), "unnamed");
    assert_eq!(sanitize_base(Some("..".to_string())), "unnamed");
    assert_eq!(sanitize_base(Some(".".to_string())), "unnamed");
    assert_eq!(sanitize_base(Some("a/b".to_string())), "unnamed");
    assert_eq!(sanitize_base(Some("..a".to_string())), "..a");
    assert_eq!(sanitize_base(None), "unnamed");
}

#[test]
fn unique_path_returns_original_when_free() {
    assert_eq!(unique_path(&"a.txt".to_string(), &vec![]), "a.txt");
}

#[test]
fn unique_path_suffixes_on_conflict() {
    assert_eq!(unique_path(&"a.txt".to_string(), &owned(&["a.txt"])), "a (1).txt");
}

#[test]
fn unique_path_increments_until_free() {
    let taken = owned(&["a.txt", "a (1).txt"]);
    assert_eq!(unique_path(&"a.txt".to_string(), &taken), "a (2).txt");
}

#[test]
fn unique_path_conflict_without_extension() {
    assert_eq!(unique_path(&"data".to_string(), &owned(&["data"])), "data (1)");
}

#[test]
fn unique_path_splits_at_the_last_dot() {
    let again = |name: &str| unique_path(&name.to_string(), &owned(&[name]));
    assert_eq!(again("a.tar.gz"), "a.tar (1).gz");
    assert_eq!(again(".hidden"), ".hidden (1)");
    assert_eq!(again(".hidden.txt"), ".hidden (1).txt");
    assert_eq!(again("ends."), "ends (1).");
    assert_eq!(again("報告 🎉.txt"), "報告 🎉 (1).txt");
    assert_eq!(again("..."), ".. (1).");
    assert_eq!(again(".."), "unnamed (1)");
}

#[test]
fn unique_path_takes_a_gap() {
    let taken = owned(&["a", "a (2)", "a (1)", "a (4)", "b"]);
    assert_eq!(unique_path(&"a".to_string(), &taken), "a (3)");
}

#[test]
fn unique_path_counts_in_decimal() {
    let mut taken = owned(&["a"]);
    for i in 1..120 {
        taken.push(format!("a ({i})"));
    }
    assert_eq!(unique_path(&"a".to_string(), &taken), "a (120)");
}

#[test]
fn names_stay_in_the_directory() {
    for path in ["/etc/passwd", "../..", "a/../..", "..//", "./../x", "//a", "", ".", "a/./b/.."] {
        let name = sanitize_name(path);
        assert!(!name.is_empty() && !name.contains('/') && name != "." && name != "..", "{path}");
    }
}

#[test]
fn unique_path_numbers_the_last_component() {
    let again = |name: &str| unique_path(&name.to_string(), &owned(&[name]));
    assert_eq!(again("x/a.txt"), "a (1).txt");
    assert_eq!(again("x.y/data"), "data (1)");
    assert_eq!(again("x/a.txt/."), "a (1).txt");
    assert_eq!(again("foo/.."), "unnamed (1)");
    assert_eq!(again("/"), "unnamed (1)");
    assert_eq!(unique_path(&"x/a.txt".to_string(), &vec![]), "x/a.txt");
    let taken = owned(&["x/a.txt", "a (1).txt"]);
    assert_eq!(unique_path(&"x/a.txt".to_string(), &taken), "a (2).txt");
}

#[test]
fn sanitize_with_a_colon_or_two_separators() {
    let windows = std::path::MAIN_SEPARATOR == '\\';
    assert_eq!(sanitize_name("a:b.txt"), if windows { "b.txt" } else { "a:b.txt" });
    assert_eq!(sanitize_name("C:dir/x"), "x");
    assert_eq!(sanitize_name("report: final.txt"), "report: final.txt");
    if !windows {
        assert_eq!(sanitize_name("//x"), "x");
    }
}

#[test]
fn only_the_last_component_counts() {
    for prefix in ["a", "..", "/etc", "C:", "x//.", "a:b", "報告"] {
        for name in ["b", "c.txt", ".hidden", "..."] {
            assert_eq!(sanitize_name(&format!("{prefix}/{name}")), name);
        }
    }
}

#[test]
fn shares_give_their_last_component_or_none() {
    for (path, last) in [("//a/b", "b"), ("//a", "a"), ("//a/b/c.txt", "c.txt"), ("//a/b/..", "b")] {
        let name = sanitize_name(path);
        assert!(name == "unnamed" || name == last, "{path}");
    }
    if std::path::MAIN_SEPARATOR == '/' {
        assert_eq!(sanitize_name("//a/b"), "b");
    }
}

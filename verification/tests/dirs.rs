use amoxide::dirs::relative_path;

fn parts(v: &[&str]) -> Vec<String> {
    v.iter().map(|s| s.to_string()).collect()
}

#[test]
fn relative_path_up_one_level() {
    let r = relative_path(&parts(&["/", "a", "b", "c"]), &parts(&["/", "a", "b", ".aliases"]));
    assert_eq!(r, parts(&["..", ".aliases"]));
}

#[test]
fn relative_path_same_directory() {
    let r = relative_path(&parts(&["/", "a", "b"]), &parts(&["/", "a", "b", ".aliases"]));
    assert_eq!(r, parts(&[".aliases"]));
}

#[test]
fn relative_path_disjoint_and_identical() {
    let r = relative_path(&parts(&["/", "x", "y"]), &parts(&["/", "a"]));
    assert_eq!(r, parts(&["..", "..", "a"]));
    let r = relative_path(&parts(&["/", "a"]), &parts(&["/", "a"]));
    assert!(r.is_empty());
}

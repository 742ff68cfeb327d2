use permcheck::walk::{Entry, Visit, Walker};

fn entry(path: &str, is_dir: bool) -> Entry {
    Entry { path: path.to_string(), is_dir }
}

fn take(w: &mut Walker) -> Visit {
    w.next_visit().expect("a pending visit")
}

#[test]
fn empty_directory_gives_one_visit() {
    let mut w = Walker::new("/d".to_string(), true);
    let root = take(&mut w);
    assert_eq!((root.path.as_str(), root.depth, root.is_dir, root.is_last), ("/d", 0, true, false));
    w.enter(&root, Some(Vec::new()));
    assert!(w.is_done());
    assert!(w.next_visit().is_none());
}

#[test]
fn single_file_is_last_child() {
    let mut w = Walker::new("/d".to_string(), true);
    let root = take(&mut w);
    w.enter(&root, Some(vec![entry("/d/a.txt", false)]));
    let a = take(&mut w);
    assert_eq!((a.path.as_str(), a.depth, a.is_dir, a.is_last), ("/d/a.txt", 1, false, true));
    w.enter(&a, None);
    assert!(w.is_done());
}

#[test]
fn preorder_in_listing_order() {
    let mut w = Walker::new("/r".to_string(), true);
    let mut seen: Vec<(String, usize, bool)> = Vec::new();
    while let Some(v) = w.next_visit() {
        seen.push((v.path.clone(), v.depth, v.is_last));
        let listing = match v.path.as_str() {
            "/r" => Some(vec![entry("/r/s", true), entry("/r/b", false), entry("/r/t", true)]),
            "/r/s" => Some(vec![entry("/r/s/x", false), entry("/r/s/y", false)]),
            "/r/t" => None,
            _ => Some(vec![entry("/ignored", false)]),
        };
        w.enter(&v, listing);
    }
    let expected: Vec<(String, usize, bool)> = vec![
        ("/r".to_string(), 0, false),
        ("/r/s".to_string(), 1, false),
        ("/r/s/x".to_string(), 2, false),
        ("/r/s/y".to_string(), 2, true),
        ("/r/b".to_string(), 1, false),
        ("/r/t".to_string(), 1, true),
    ];
    assert_eq!(seen, expected);
}

#[test]
fn untraversable_directory_still_lists_when_enumerable() {
    let mut w = Walker::new("/d".to_string(), true);
    let root = take(&mut w);
    w.enter(&root, Some(vec![entry("/d/locked", true)]));
    let locked = take(&mut w);
    assert!(locked.is_dir && locked.is_last && locked.depth == 1);
    w.enter(&locked, Some(vec![entry("/d/locked/inner", false)]));
    let inner = take(&mut w);
    assert_eq!((inner.path.as_str(), inner.depth, inner.is_last), ("/d/locked/inner", 2, true));
}

#[test]
fn file_root_has_no_children() {
    let mut w = Walker::new("/etc/hosts".to_string(), false);
    let root = take(&mut w);
    assert!(!root.is_dir);
    w.enter(&root, Some(vec![entry("/etc/hosts/x", false)]));
    assert!(w.is_done());
}

#[test]
fn repeated_runs_visit_identically() {
    let run = || {
        let mut w = Walker::new("/r".to_string(), true);
        let mut out: Vec<(String, usize, bool)> = Vec::new();
        while let Some(v) = w.next_visit() {
            out.push((v.path.clone(), v.depth, v.is_last));
            let listing = if v.path == "/r" {
                Some(vec![entry("/r/a", false), entry("/r/b", true)])
            } else {
                Some(Vec::new())
            };
            w.enter(&v, listing);
        }
        out
    };
    assert_eq!(run(), run());
}

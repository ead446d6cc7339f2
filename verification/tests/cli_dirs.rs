use namelint::collect_cli_dirs::{requested_dirs, DirRequest};

fn shown(r: &[DirRequest]) -> Vec<String> {
    r.iter()
        .map(|d| match d {
            DirRequest::Current => "<cwd>".to_string(),
            DirRequest::Path(p) => p.clone(),
        })
        .collect()
}

#[test]
fn no_paths_means_current_dir() {
    assert_eq!(shown(&requested_dirs(None)), vec!["<cwd>"]);
    assert_eq!(shown(&requested_dirs(Some(vec![]))), vec!["<cwd>"]);
}

#[test]
fn dot_means_current_dir() {
    let r = requested_dirs(Some(vec![".".to_string(), "src".to_string(), "./x".to_string(), " .".to_string()]));
    assert_eq!(shown(&r), vec!["<cwd>", "src", "./x", " ."]);
}

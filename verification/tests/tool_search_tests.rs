use ti_toolbox_core::tool_search::{sorted_entries, tool_search, ToolListing, ToolSearchProgress};
use ti_toolbox_core::tools::DirEntryFacts;

fn dir(parent: &str, name: &str) -> DirEntryFacts {
    DirEntryFacts { name: name.into(), path: format!(r"{parent}\{name}"), is_file: false, is_dir: true }
}

fn file(parent: &str, name: &str) -> DirEntryFacts {
    DirEntryFacts { name: name.into(), path: format!(r"{parent}\{name}"), is_file: true, is_dir: false }
}

/// Runs the search over a fixed tree, listing directories as the library
/// asks for them; returns the result and the directories listed, in order.
fn run(
    root: &str,
    depth: u8,
    tree: &dyn Fn(&str) -> Result<Vec<DirEntryFacts>, String>,
) -> (Result<Option<String>, String>, Vec<String>) {
    let mut listings: Vec<ToolListing> = Vec::new();
    loop {
        match tool_search(root, "UV4.exe", depth, &listings) {
            ToolSearchProgress::Done(r) => return (r, listings.iter().map(|l| l.dir.clone()).collect()),
            ToolSearchProgress::List(d) => {
                let entries = tree(&d);
                listings.push(ToolListing { dir: d, entries });
            }
        }
    }
}

fn tree(d: &str) -> Result<Vec<DirEntryFacts>, String> {
    match d {
        r"D:\k" => Ok(vec![dir(r"D:\k", "b"), dir(r"D:\k", "a"), file(r"D:\k", "readme.txt")]),
        r"D:\k\a" => Ok(vec![dir(r"D:\k\a", "deep")]),
        r"D:\k\b" => Ok(vec![file(r"D:\k\b", "uv4.exe")]),
        r"D:\k\a\deep" => Ok(vec![file(r"D:\k\a\deep", "UV4.exe")]),
        r"D:\locked" => Err("denied".into()),
        _ => Ok(vec![]),
    }
}

#[test]
fn takes_the_shallowest_match_in_name_order() {
    let (found, listed) = run(r"D:\k", 2, &tree);
    assert_eq!(found, Ok(Some(r"D:\k\b\uv4.exe".to_string())));
    assert_eq!(listed, [r"D:\k", r"D:\k\a", r"D:\k\b"]);
}

#[test]
fn stops_at_the_chosen_depth() {
    let (found, listed) = run(r"D:\k", 0, &tree);
    assert_eq!(found, Ok(None));
    assert_eq!(listed, [r"D:\k"]);
}

#[test]
fn reports_an_unreadable_root_and_skips_unreadable_subdirectories() {
    let (found, _) = run(r"D:\locked", 2, &tree);
    assert_eq!(found, Err(r"无法搜索工具目录 D:\locked：denied".to_string()));
    let with_locked = |d: &str| match d {
        r"D:\k\a" => Err("denied".to_string()),
        other => tree(other),
    };
    let (found, _) = run(r"D:\k", 2, &with_locked);
    assert_eq!(found, Ok(Some(r"D:\k\b\uv4.exe".to_string())));
}

#[test]
fn sorts_entries_by_name() {
    let sorted = sorted_entries(&vec![file("D:", "b"), file("D:", "B"), file("D:", "a")]);
    let names: Vec<_> = sorted.iter().map(|e| e.name.as_str()).collect();
    assert_eq!(names, ["B", "a", "b"]);
}

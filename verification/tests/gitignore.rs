//! The managed block in `.gitignore`.

use xen::gitignore::{reconcile, render_block, replace_block, BEGIN, END};
use xen::store::{SharedConfig, SharedRepo};
use xen::textmap::TextMap;

fn cfg(entries: &[(&str, &str)]) -> SharedConfig {
    let mut repos = TextMap::new();
    for (name, at) in entries {
        repos.insert(
            name.to_string(),
            SharedRepo {
                at: Some(at.to_string()),
                ..Default::default()
            },
        );
    }
    SharedConfig { repos }
}

#[test]
fn block_is_sorted_and_bracketed() {
    let c = cfg(&[
        ("research", "OSS/research"),
        ("parseltongue", "OSS/parseltongue"),
    ]);
    let b = render_block(&c);
    let p = b.find("/OSS/parseltongue/").unwrap();
    let r = b.find("/OSS/research/").unwrap();
    assert!(p < r, "expected alphabetical order:\n{b}");
    assert!(b.starts_with(BEGIN));
    assert!(b.trim_end().ends_with(END));
}

#[test]
fn append_preserves_user_lines() {
    let existing = "target/\n*.log\n";
    let block = render_block(&cfg(&[("foo", "foo")]));
    let out = replace_block(existing, &block);
    assert!(out.starts_with("target/\n*.log\n"));
    assert!(out.contains(BEGIN));
    assert!(out.contains("/foo/"));
}

#[test]
fn replace_in_place_keeps_lines_around_block() {
    let v1 = render_block(&cfg(&[("foo", "foo")]));
    let combined = format!("target/\n\n{v1}# user note\n");
    let v2 = render_block(&cfg(&[("foo", "foo"), ("bar", "bar")]));
    let out = replace_block(&combined, &v2);
    assert!(out.starts_with("target/\n"));
    assert!(out.contains("# user note"));
    assert!(out.contains("/bar/"));
    assert!(out.contains("/foo/"));
}

#[test]
fn idempotent_when_unchanged() {
    let block = render_block(&cfg(&[("foo", "foo/bar")]));
    let once = replace_block("", &block);
    let twice = replace_block(&once, &block);
    assert_eq!(once, twice);
}

#[test]
fn missing_markers_means_hands_off() {
    // Without markers there is no block to find, and a block is appended.
    let user_only = "target/\n*.log\n";
    let block = render_block(&cfg(&[("foo", "foo")]));
    let out = replace_block(user_only, &block);
    assert!(out.contains(BEGIN));
}

#[test]
fn the_block_reads_exactly_so() {
    let mut c = cfg(&[("b", "/services//api/"), ("a", "zeta"), ("c", "zeta")]);
    c.repos.insert("bare".to_string(), SharedRepo::default());
    assert_eq!(
        render_block(&c),
        "# xen-managed: BEGIN — do not edit (run xen to update)\n\
         /bare/\n/services//api/\n/zeta/\n# xen-managed: END\n"
    );
    assert_eq!(render_block(&cfg(&[])), format!("{BEGIN}\n{END}\n"));
}

#[test]
fn appending_leaves_one_blank_line() {
    assert_eq!(replace_block("", "B\n"), "B\n");
    assert_eq!(replace_block("x", "B\n"), "x\n\nB\n");
    assert_eq!(replace_block("x\n", "B\n"), "x\n\nB\n");
}

#[test]
fn replacing_swallows_the_newline_of_the_old_block() {
    let old = format!("a\n{BEGIN}\n/x/\n{END}\nb\n");
    assert_eq!(replace_block(&old, "B\n"), "a\nB\nb\n");
    let old = format!("a\n{BEGIN}\n/x/\n{END}");
    assert_eq!(replace_block(&old, "B\n"), "a\nB\n");
    let old = format!("{BEGIN}\n{END} trailing\n");
    assert_eq!(replace_block(&old, "B\n"), "B\n trailing\n");
}

#[test]
fn a_dangling_marker_gets_a_new_block_behind_it() {
    let broken = format!("{BEGIN}\n/x/\n");
    let block = render_block(&cfg(&[("foo", "foo")]));
    let once = replace_block(&broken, &block);
    assert_eq!(once, format!("{broken}\n{block}"));
    // From here on there is one block, and it is stable.
    let twice = replace_block(&once, &block);
    assert_eq!(twice, block);
    assert_eq!(replace_block(&twice, &block), block);
}

#[test]
fn reconcile_writes_only_what_changes() {
    let c = cfg(&[("foo", "foo")]);
    let first = reconcile("target/\n", &c).unwrap();
    assert_eq!(first, format!("target/\n\n{BEGIN}\n/foo/\n{END}\n"));
    assert_eq!(reconcile(&first, &c), None);
    let gone = reconcile(&first, &cfg(&[])).unwrap();
    assert_eq!(gone, format!("target/\n\n{BEGIN}\n{END}\n"));
}

use workspace_ops::listing::{
    build_listing_message, format_listing_table, listing_item, listing_next_steps, listing_page_args, sort_listing_items,
};

fn names(items: &[workspace_ops::listing::ListingItem]) -> Vec<String> {
    items.iter().map(|i| i.name.clone().unwrap()).collect()
}

#[test]
fn sort_listing_items_puts_directories_first() {
    let mut items = vec![
        listing_item("z.txt".to_string(), "file", Some(1)),
        listing_item("src".to_string(), "directory", None),
        listing_item("a.txt".to_string(), "file", Some(2)),
        listing_item("lib".to_string(), "directory", None),
    ];
    sort_listing_items(&mut items);
    assert_eq!(names(&items), vec!["lib", "src", "a.txt", "z.txt"]);
}

#[test]
fn format_listing_table_includes_icons_and_sizes() {
    let items = vec![
        listing_item("src".to_string(), "directory", None),
        listing_item("main.db".to_string(), "file", Some(512)),
    ];
    let table = format_listing_table(&items);
    assert!(table.contains("| Type | Name | Size |"));
    assert!(table.contains("📁 dir"));
    assert!(table.contains("📄 file"));
    assert!(table.contains("`src`"));
    assert!(table.contains("`main.db`"));
    assert!(table.contains("512B"));
    assert!(table.contains("| - |"));
}

#[test]
fn build_listing_message_empty_and_with_suffix() {
    let empty = build_listing_message(".", &[], 0, 0, 100, None);
    assert!(empty.contains("empty"));
    assert!(!empty.contains("| Type |"));

    let items = vec![listing_item("a.txt".to_string(), "file", Some(10))];
    let msg = build_listing_message(".", &items, 1, 0, 100, Some("(attached container, showing 1 of 1)"));
    assert!(msg.contains("attached container"));
    assert!(msg.contains("| Type | Name | Size |"));
    assert!(msg.contains("10B"));
}

#[test]
fn sort_orders_other_entries_with_files_by_name() {
    let mut items = vec![
        listing_item("b-link".to_string(), "other", None),
        listing_item("c.txt".to_string(), "file", Some(3)),
        listing_item("a.txt".to_string(), "file", Some(1)),
        listing_item("zeta".to_string(), "directory", None),
        listing_item("Alpha".to_string(), "directory", None),
    ];
    sort_listing_items(&mut items);
    // upper case sorts before lower case, as in byte order
    assert_eq!(names(&items), vec!["Alpha", "zeta", "a.txt", "b-link", "c.txt"]);
}

#[test]
fn sort_keeps_order_of_equal_entries_and_handles_empty() {
    let mut none: Vec<workspace_ops::listing::ListingItem> = Vec::new();
    sort_listing_items(&mut none);
    assert!(none.is_empty());

    let mut items = vec![
        listing_item("same".to_string(), "file", Some(1)),
        listing_item("same".to_string(), "file", Some(2)),
    ];
    sort_listing_items(&mut items);
    assert_eq!(items[0].size, Some(1));
    assert_eq!(items[1].size, Some(2));
}

#[test]
fn listing_page_arguments_are_clamped() {
    assert_eq!(listing_page_args(None, None), (100, 0));
    assert_eq!(listing_page_args(Some(0), Some(5)), (1, 5));
    assert_eq!(listing_page_args(Some(9999), Some(200_000)), (500, 100_000));
}

#[test]
fn listing_next_steps_for_empty_and_full() {
    assert_eq!(
        listing_next_steps("docs", true),
        vec!["Use writeFile with {\"path\": \"docs/filename.txt\", \"content\": \"...\"} to create a file"]
    );
    let full = listing_next_steps("docs", false);
    assert_eq!(full[0], "Use readFile('docs/filename') to read a file");
    assert_eq!(full.len(), 3);
}

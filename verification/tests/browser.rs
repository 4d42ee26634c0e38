use gameboy_core::browser::list_folders;

fn names(list: &[&str]) -> Vec<String> {
    list.iter().map(|n| String::from(*n)).collect()
}

#[test]
fn hidden_folders_left_out_and_rest_sorted() {
    let listed = list_folders(names(&["zelda", ".git", "Alpha", "beta", ".cache", "alpha"]));
    assert_eq!(listed, names(&["Alpha", "alpha", "beta", "zelda"]));
}

#[test]
fn empty_folder_lists_nothing() {
    assert!(list_folders(Vec::new()).is_empty());
    assert!(list_folders(names(&[".only"])).is_empty());
}

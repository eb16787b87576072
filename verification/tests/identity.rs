use std::borrow::Cow;
use std::collections::hash_map::DefaultHasher;
use std::collections::HashMap;
use std::hash::{Hash, Hasher};
use std::path::{Path, PathBuf};
use svg_core::handle::{Data, Handle};
use svg_core::id::{Id, IdSource};

const SQUARE: &str = "<svg xmlns='http://www.w3.org/2000/svg' width='10' height='20'/>";

fn hash_of<T: Hash>(value: &T) -> u64 {
    let mut hasher = DefaultHasher::new();
    value.hash(&mut hasher);
    hasher.finish()
}

fn tree() -> usvg::Tree {
    usvg::Tree::from_str(SQUARE, &usvg::Options::default()).unwrap()
}

#[test]
fn same_path_gives_one_cache_entry() {
    let first = Handle::from_path(PathBuf::from("icon.svg"));
    let second = Handle::from_path(PathBuf::from("icon.svg"));
    assert_eq!(first.id(), second.id());
    let mut cache: HashMap<Id, u32> = HashMap::new();
    cache.insert(first.id(), 1);
    cache.insert(second.id(), 2);
    assert_eq!(cache.len(), 1);
    assert_eq!(cache[&first.id()], 2);
}

#[test]
fn same_bytes_give_two_cache_entries() {
    let bytes = SQUARE.as_bytes();
    let mut ids = IdSource::new();
    let first = Handle::from_memory(Cow::Borrowed(bytes), &mut ids);
    let second = Handle::from_memory(Cow::Borrowed(bytes), &mut ids);
    assert_ne!(first.id(), second.id());
    assert!(first != second);
    let mut cache: HashMap<Id, u32> = HashMap::new();
    cache.insert(first.id(), 1);
    cache.insert(second.id(), 2);
    assert_eq!(cache.len(), 2);
}

#[test]
fn a_source_numbers_what_it_issues() {
    let mut ids = IdSource::new();
    assert_eq!(Id::unique(&mut ids), Id::Unique(0));
    assert_eq!(Id::unique(&mut ids), Id::Unique(1));
    assert_eq!(Id::unique(&mut ids), Id::Unique(2));
    let mut other = IdSource::default();
    assert_eq!(Id::unique(&mut other), Id::Unique(0));
}

#[test]
fn a_source_starts_again_after_its_last_number() {
    let mut ids = IdSource::resumed(u64::MAX - 1);
    assert_eq!(Id::unique(&mut ids), Id::Unique(u64::MAX - 1));
    assert_eq!(Id::unique(&mut ids), Id::Unique(u64::MAX));
    assert_eq!(Id::unique(&mut ids), Id::Unique(0));
    assert_eq!(Id::unique(&mut ids), Id::Unique(1));
}

#[test]
fn handles_made_in_turn_differ_also_where_the_source_starts_again() {
    let mut ids = IdSource::resumed(u64::MAX);
    let first = Handle::from_memory(Cow::Borrowed(b"abc"), &mut ids);
    let second = Handle::from_memory(Cow::Borrowed(b"abc"), &mut ids);
    assert_eq!(first.id(), Id::Unique(u64::MAX));
    assert_eq!(second.id(), Id::Unique(0));
    assert!(first != second);
}

#[test]
fn a_resumed_source_goes_on_counting() {
    let mut ids = IdSource::resumed(41);
    let handle = Handle::from_memory(Cow::Borrowed(b"abc"), &mut ids);
    assert_eq!(handle.id(), Id::Unique(41));
    assert_eq!(Id::unique(&mut ids), Id::Unique(42));
}

#[test]
fn a_path_leaves_the_source_alone() {
    let mut ids = IdSource::new();
    let at_path = Handle::from_data(Data::Path(PathBuf::from("icon.svg")), &mut ids);
    assert_eq!(at_path.id(), Id::from_path(&PathBuf::from("icon.svg")));
    let in_memory = Handle::from_data(Data::Bytes(Cow::Owned(vec![1, 2, 3])), &mut ids);
    assert_eq!(in_memory.id(), Id::Unique(0));
    let parsed = Handle::from_data(Data::Tree(tree()), &mut ids);
    assert_eq!(parsed.id(), Id::Unique(1));
}

#[test]
fn from_path_keeps_the_path_as_given() {
    let handle = Handle::from_path(PathBuf::from("assets//icon.svg"));
    assert!(matches!(handle.data(), Data::Path(path) if path == Path::new("assets//icon.svg")));
    assert_eq!(handle.id(), Id::from_path(&PathBuf::from("assets/icon.svg")));
}

#[test]
fn from_memory_keeps_the_bytes() {
    let mut ids = IdSource::new();
    let owned = Handle::from_memory(Cow::Owned(vec![7, 8, 9]), &mut ids);
    assert!(matches!(owned.data(), Data::Bytes(bytes) if bytes.as_ref() == [7, 8, 9]));
    let borrowed = Handle::from_memory(Cow::Borrowed(b"abc"), &mut ids);
    assert!(matches!(borrowed.data(), Data::Bytes(Cow::Borrowed(bytes)) if *bytes == b"abc"));
    assert_eq!(owned.id(), Id::Unique(0));
    assert_eq!(borrowed.id(), Id::Unique(1));
}

#[test]
fn from_tree_keeps_the_document() {
    let mut ids = IdSource::new();
    let first = Handle::from_tree(tree(), &mut ids);
    let second = Handle::from_tree(tree(), &mut ids);
    assert_ne!(first.id(), second.id());
    match first.data() {
        Data::Tree(tree) => {
            assert_eq!(tree.size().width(), 10.0);
            assert_eq!(tree.size().height(), 20.0);
        }
        _ => panic!("the payload is the document"),
    }
}

#[test]
fn a_clone_is_the_same_resource() {
    let mut ids = IdSource::new();
    let handle = Handle::from_memory(Cow::Owned(vec![1, 2, 3, 4]), &mut ids);
    let copy = handle.clone();
    assert_eq!(copy.id(), handle.id());
    assert!(copy == handle);
    assert!(std::ptr::eq(copy.data(), handle.data()));
    assert!(matches!(copy.data(), Data::Bytes(bytes) if bytes.as_ref() == [1, 2, 3, 4]));
    drop(handle);
    assert!(matches!(copy.data(), Data::Bytes(bytes) if bytes.as_ref() == [1, 2, 3, 4]));
    let at_path = Handle::from_path(PathBuf::from("icon.svg"));
    let again = at_path.clone();
    assert_eq!(again.id(), at_path.id());
    assert!(matches!(again.data(), Data::Path(path) if path == Path::new("icon.svg")));
}

#[test]
fn equal_ids_make_equal_handles_whatever_the_payload() {
    let mut one = IdSource::new();
    let mut other = IdSource::new();
    let in_memory = Handle::from_memory(Cow::Borrowed(b"abc"), &mut one);
    let parsed = Handle::from_tree(tree(), &mut other);
    assert_eq!(in_memory.id(), parsed.id());
    assert!(in_memory == parsed);
    assert_eq!(hash_of(&in_memory), hash_of(&parsed));
}

#[test]
fn a_handle_hashes_as_its_id() {
    let handle = Handle::from_path(PathBuf::from("icon.svg"));
    assert_eq!(hash_of(&handle), hash_of(&handle.id()));
    let mut ids = IdSource::new();
    let first = Handle::from_memory(Cow::Borrowed(b"abc"), &mut ids);
    let second = Handle::from_memory(Cow::Borrowed(b"abc"), &mut ids);
    assert_eq!(hash_of(&first), hash_of(&Id::Unique(0)));
    assert_ne!(hash_of(&first), hash_of(&second));
}

#[test]
fn different_paths_make_different_handles() {
    let first = Handle::from_path(PathBuf::from("icon.svg"));
    let second = Handle::from_path(PathBuf::from("logo.svg"));
    assert!(first != second);
    assert_ne!(first.id(), second.id());
}

#[test]
fn anything_that_turns_into_text_turns_into_a_handle() {
    let from_str: Handle = "icon.svg".into();
    let from_string: Handle = Handle::from(String::from("icon.svg"));
    let from_path: Handle = Handle::from(Path::new("icon.svg"));
    let from_path_buf: Handle = Handle::from(PathBuf::from("icon.svg"));
    let direct = Handle::from_path(PathBuf::from("icon.svg"));
    assert!(from_str == direct);
    assert!(from_string == direct);
    assert!(from_path == direct);
    assert!(from_path_buf == direct);
    assert_eq!(from_str.id(), Id::Path(0x651c_c43f_7124_9d00));
    assert!(matches!(from_str.data(), Data::Path(path) if path == Path::new("icon.svg")));
    assert!(matches!(from_string.data(), Data::Path(path) if path == Path::new("icon.svg")));
}

#[test]
fn a_payload_describes_itself_without_its_content() {
    let mut ids = IdSource::new();
    assert_eq!(Data::Path(PathBuf::from("icon.svg")).describe(), "Path(\"icon.svg\")");
    assert_eq!(Data::Path(PathBuf::from("a/icon.svg")).describe(), "Path(\"a/icon.svg\")");
    assert_eq!(Data::Bytes(Cow::Borrowed(b"<svg/>")).describe(), "Bytes(...)");
    assert_eq!(Handle::from_tree(tree(), &mut ids).data().describe(), "Tree(...)");
}

fn shared_between_threads<T: Send + Sync>() {}

#[test]
fn handles_can_be_shared_between_threads() {
    shared_between_threads::<Handle>();
    shared_between_threads::<Data>();
    shared_between_threads::<Id>();
}

#[test]
fn handles_show_their_parts() {
    let handle = Handle::from_path(PathBuf::from("icon.svg"));
    let shown = format!("{:?}", handle);
    assert!(shown.contains("icon.svg"));
    assert!(shown.contains("Path"));
}

#[test]
fn a_path_is_described_as_debug_writes_it() {
    let paths = [
        "icon.svg", "", "a b/c.svg", "it's.svg", "say \"hi\".svg", "back\\slash", "tab\there",
        "line\nbreak", "ic\u{f4}ne.svg", "\u{301}accent", "nul\0", "/root/./x//y/",
    ];
    for path in paths {
        let path = PathBuf::from(path);
        assert_eq!(Data::Path(path.clone()).describe(), format!("Path({:?})", path));
    }
}

#[test]
fn a_described_path_stands_between_the_brackets() {
    assert_eq!(Data::describe_path("\"icon.svg\""), "Path(\"icon.svg\")");
    assert_eq!(Data::describe_path(""), "Path()");
    assert_eq!(Data::describe_path("x"), "Path(x)");
}

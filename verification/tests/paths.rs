use std::path::{Path, PathBuf};
use svg_core::digest::{digest_of, OFFSET_BASIS, PRIME};
use svg_core::id::Id;
use svg_core::path::normalize;

#[test]
fn digest_of_nothing_is_the_offset_basis() {
    assert_eq!(digest_of(b""), 0xcbf2_9ce4_8422_2325);
    assert_eq!(digest_of(b""), OFFSET_BASIS);
}

#[test]
fn digest_of_one_byte_is_one_step() {
    let expected = (OFFSET_BASIS ^ 0x61).wrapping_mul(PRIME);
    assert_eq!(digest_of(b"a"), expected);
    assert_eq!(digest_of(b"a"), 0xaf63_dc4c_8601_ec8c);
}

#[test]
fn digest_of_known_texts() {
    assert_eq!(digest_of(b"foobar"), 0x8594_4171_f739_67e8);
    assert_eq!(digest_of(b"icon.svg"), 0x651c_c43f_7124_9d00);
    assert_eq!(digest_of(b"/a/b"), 0x363e_289c_b38e_e0cc);
}

#[test]
fn digest_tells_a_changed_byte() {
    assert_ne!(digest_of(b"icon.svg"), digest_of(b"icon.svh"));
    assert_ne!(digest_of(b"icon.svg"), digest_of(b"jcon.svg"));
}

#[test]
fn normal_form_of_plain_paths_is_the_path() {
    assert_eq!(normalize(b"icon.svg"), b"icon.svg".to_vec());
    assert_eq!(normalize(b"a/b"), b"a/b".to_vec());
    assert_eq!(normalize(b"/a/b"), b"/a/b".to_vec());
    assert_eq!(normalize(b"../a"), b"../a".to_vec());
    assert_eq!(normalize(b"a/.."), b"a/..".to_vec());
    assert_eq!(normalize(b".a"), b".a".to_vec());
    assert_eq!(normalize(b"a."), b"a.".to_vec());
    assert_eq!(normalize(b".."), b"..".to_vec());
}

#[test]
fn normal_form_of_the_empty_path_is_empty() {
    assert_eq!(normalize(b""), Vec::<u8>::new());
}

#[test]
fn normal_form_keeps_the_root() {
    assert_eq!(normalize(b"/"), b"/".to_vec());
    assert_eq!(normalize(b"//"), b"/".to_vec());
    assert_eq!(normalize(b"/."), b"/".to_vec());
    assert_eq!(normalize(b"/./a"), b"/a".to_vec());
    assert_eq!(normalize(b"///a"), b"/a".to_vec());
}

#[test]
fn normal_form_drops_repeated_and_trailing_separators() {
    assert_eq!(normalize(b"a//b"), b"a/b".to_vec());
    assert_eq!(normalize(b"a//b/"), b"a/b".to_vec());
    assert_eq!(normalize(b"a/b///"), b"a/b".to_vec());
}

#[test]
fn normal_form_drops_dots_but_a_leading_one() {
    assert_eq!(normalize(b"a/./b"), b"a/b".to_vec());
    assert_eq!(normalize(b"/a/b/."), b"/a/b".to_vec());
    assert_eq!(normalize(b"."), b".".to_vec());
    assert_eq!(normalize(b"./"), b".".to_vec());
    assert_eq!(normalize(b"./."), b".".to_vec());
    assert_eq!(normalize(b".//."), b".".to_vec());
    assert_eq!(normalize(b"./a"), b"./a".to_vec());
    assert_ne!(normalize(b"./a"), normalize(b"a"));
}

#[test]
fn normal_form_is_its_own_normal_form() {
    let paths: [&[u8]; 10] = [
        b"", b"/", b".", b"./a//b/./c/", b"/x/./y//", b"a/../b", b"//", b"./.", b"a", b"/.//",
    ];
    for path in paths {
        let once = normalize(path);
        assert_eq!(normalize(&once), once);
    }
}

#[test]
fn normal_forms_agree_where_the_standard_library_finds_paths_equal() {
    let paths = [
        "", "/", "//", ".", "./", "./a", "a", "a/", "a/.", "a/./b", "a//b", "a/b", "a/b/",
        "/a/b", "/a//b/.", "/./a/b", "../a", "a/..", "..", "./..", "/..", "a/b/c", "a/./b/./c/.",
        ".a", "a.", "./.a", "/.", "b/a",
    ];
    for p in paths {
        for q in paths {
            let same = normalize(p.as_bytes()) == normalize(q.as_bytes());
            assert_eq!(same, Path::new(p) == Path::new(q), "{:?} and {:?}", p, q);
        }
    }
}

fn id_at(path: &str) -> Id {
    Id::from_path(&PathBuf::from(path))
}

#[test]
fn id_of_bytes_is_the_digest_of_their_normal_form() {
    assert_eq!(Id::from_bytes(b"icon.svg"), Id::Path(0x651c_c43f_7124_9d00));
    assert_eq!(Id::from_bytes(b"/a//b/."), Id::Path(0x363e_289c_b38e_e0cc));
    assert_eq!(Id::from_bytes(b""), Id::Path(0xcbf2_9ce4_8422_2325));
    assert_eq!(Id::from_bytes(b"a//b"), Id::Path(digest_of(b"a/b")));
}

#[test]
fn id_of_a_path_is_the_digest_of_its_normal_form() {
    assert_eq!(id_at("icon.svg"), Id::Path(0x651c_c43f_7124_9d00));
    assert_eq!(id_at("/a//b/."), Id::Path(0x363e_289c_b38e_e0cc));
    assert_eq!(id_at(""), Id::Path(0xcbf2_9ce4_8422_2325));
}

#[test]
fn id_of_a_path_is_that_of_its_bytes() {
    for path in ["icon.svg", "a/./b//c/", "/", "", "./x", "ic\u{f4}ne.svg"] {
        assert_eq!(id_at(path), Id::from_bytes(path.as_bytes()));
    }
}

#[test]
fn id_of_a_path_goes_by_the_normal_form() {
    assert_eq!(id_at("assets//icon.svg"), id_at("assets/./icon.svg"));
    assert_eq!(id_at("assets/icon.svg/"), id_at("assets/icon.svg"));
    assert_ne!(id_at("assets/icon.svg"), id_at("/assets/icon.svg"));
    assert_ne!(id_at("a/icon.svg"), id_at("b/icon.svg"));
}

#[test]
fn id_of_a_path_takes_every_byte() {
    let expected = digest_of("ic\u{f4}ne.svg".as_bytes());
    assert_eq!(id_at("ic\u{f4}ne.svg"), Id::Path(expected));
    assert_ne!(id_at("ic\u{f4}ne.svg"), id_at("icone.svg"));
}

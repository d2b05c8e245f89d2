use std::io::Write;

use deepmath::data_retrieve::outcome::PipelineError;
use deepmath::data_retrieve::unarchive::{
    decompress, plan_extraction, resolve_components, resolve_path, split_path, ArchiveEntry,
    ExtractedEntry,
};

fn names(list: &[&str]) -> Vec<Vec<u8>> {
    list.iter().map(|name| name.as_bytes().to_vec()).collect()
}

fn file(path: &str, contents: &[u8]) -> ArchiveEntry {
    ArchiveEntry { path: path.as_bytes().to_vec(), is_dir: false, contents: contents.to_vec() }
}

fn dir(path: &str) -> ArchiveEntry {
    ArchiveEntry { path: path.as_bytes().to_vec(), is_dir: true, contents: Vec::new() }
}

fn raw_header(path: &[u8], size: u64, kind: tar::EntryType) -> tar::Header {
    let mut header = tar::Header::new_gnu();
    header.as_old_mut().name[..path.len()].copy_from_slice(path);
    header.set_size(size);
    header.set_mode(0o644);
    header.set_entry_type(kind);
    header.set_cksum();
    header
}

fn tarball(entries: &[(&[u8], &[u8], bool)]) -> Vec<u8> {
    let mut builder = tar::Builder::new(Vec::new());
    for (path, contents, is_dir) in entries {
        let kind = if *is_dir { tar::EntryType::Directory } else { tar::EntryType::Regular };
        let header = raw_header(path, contents.len() as u64, kind);
        builder.append(&header, *contents).unwrap();
    }
    builder.into_inner().unwrap()
}

fn gzip(bytes: &[u8]) -> Vec<u8> {
    let mut encoder = flate2::write::GzEncoder::new(Vec::new(), flate2::Compression::default());
    encoder.write_all(bytes).unwrap();
    encoder.finish().unwrap()
}

#[test]
fn split_keeps_empty_pieces() {
    assert_eq!(split_path(b"a/b"), names(&["a", "b"]));
    assert_eq!(split_path(b""), names(&[""]));
    assert_eq!(split_path(b"/"), names(&["", ""]));
    assert_eq!(split_path(b"/a//b/"), names(&["", "a", "", "b", ""]));
    assert_eq!(split_path(b"prim_fwd/train.txt"), names(&["prim_fwd", "train.txt"]));
}

#[test]
fn resolve_keeps_ordinary_names() {
    assert_eq!(resolve_path(b"prim_fwd/train.txt"), Some(names(&["prim_fwd", "train.txt"])));
    assert_eq!(resolve_path(b"a"), Some(names(&["a"])));
}

#[test]
fn resolve_drops_empty_and_dot_pieces() {
    assert_eq!(resolve_path(b"./a//b/./c/"), Some(names(&["a", "b", "c"])));
    assert_eq!(resolve_path(b"/etc/passwd"), Some(names(&["etc", "passwd"])));
    assert_eq!(resolve_path(b""), Some(names(&[])));
    assert_eq!(resolve_path(b"."), Some(names(&[])));
    assert_eq!(resolve_path(b"///"), Some(names(&[])));
}

#[test]
fn resolve_follows_parent_pieces_inside() {
    assert_eq!(resolve_path(b"a/../b"), Some(names(&["b"])));
    assert_eq!(resolve_path(b"a/b/../../c"), Some(names(&["c"])));
    assert_eq!(resolve_path(b"a/.."), Some(names(&[])));
}

#[test]
fn resolve_rejects_an_escape() {
    assert_eq!(resolve_path(b"../evil"), None);
    assert_eq!(resolve_path(b".."), None);
    assert_eq!(resolve_path(b"a/../../evil"), None);
    assert_eq!(resolve_path(b"/../evil"), None);
    assert_eq!(resolve_path(b"a/../../a/evil"), None);
}

#[test]
fn resolve_takes_other_dotted_names_as_ordinary() {
    assert_eq!(resolve_path(b"..."), Some(names(&["..."])));
    assert_eq!(resolve_path(b".hidden/..data"), Some(names(&[".hidden", "..data"])));
    assert_eq!(resolve_path(b"a./.b"), Some(names(&["a.", ".b"])));
}

#[test]
fn resolve_components_walks_the_pieces() {
    assert_eq!(resolve_components(&names(&["a", "", ".", "b"])), Some(names(&["a", "b"])));
    assert_eq!(resolve_components(&names(&["a", "..", ".."])), None);
    assert_eq!(resolve_components(&names(&[])), Some(names(&[])));
}

#[test]
fn plan_has_one_entry_for_each_archive_entry() {
    let archive = vec![dir("prim_fwd/"), file("prim_fwd/train.txt", b"x+1"), file("b", b"")];
    let plan = plan_extraction(archive).unwrap();
    assert_eq!(
        plan,
        vec![
            ExtractedEntry { components: names(&["prim_fwd"]), is_dir: true, contents: vec![] },
            ExtractedEntry {
                components: names(&["prim_fwd", "train.txt"]),
                is_dir: false,
                contents: b"x+1".to_vec(),
            },
            ExtractedEntry { components: names(&["b"]), is_dir: false, contents: vec![] },
        ]
    );
}

#[test]
fn plan_of_nothing_is_empty() {
    assert_eq!(plan_extraction(vec![]), Ok(vec![]));
}

#[test]
fn plan_leaves_out_the_target_directory_itself() {
    let plan = plan_extraction(vec![dir("./"), file("a", b"1")]).unwrap();
    assert_eq!(plan.len(), 1);
    assert_eq!(plan[0].components, names(&["a"]));
}

#[test]
fn plan_rejects_an_archive_with_an_escaping_entry() {
    let archive = vec![file("good.txt", b"1"), file("../evil.txt", b"2"), file("more.txt", b"3")];
    assert_eq!(plan_extraction(archive), Err(PipelineError::PathTraversalError));
    let archive = vec![file("a/../../evil.txt", b"2")];
    assert_eq!(plan_extraction(archive), Err(PipelineError::PathTraversalError));
}

#[test]
fn plan_keeps_every_name_ordinary() {
    let archive = vec![file("a/./b/../c", b"1"), dir("/x//y/"), file("k/../k/./v", b"2")];
    let plan = plan_extraction(archive).unwrap();
    for entry in &plan {
        assert!(!entry.components.is_empty());
        for name in &entry.components {
            assert!(!name.is_empty());
            assert_ne!(name.as_slice(), b".");
            assert_ne!(name.as_slice(), b"..");
            assert!(!name.contains(&b'/'));
        }
    }
    assert_eq!(plan[0].components, names(&["a", "c"]));
    assert_eq!(plan[1].components, names(&["x", "y"]));
    assert_eq!(plan[2].components, names(&["k", "v"]));
}

#[test]
fn decompress_unpacks_a_gzipped_tarball() {
    let tar = tarball(&[
        (b"prim_fwd/", b"", true),
        (b"prim_fwd/train.txt", b"sin(x)\tcos(x)\n", false),
        (b"prim_fwd/valid.txt", b"", false),
    ]);
    let plan = decompress(&gzip(&tar)).unwrap();
    assert_eq!(
        plan,
        vec![
            ExtractedEntry { components: names(&["prim_fwd"]), is_dir: true, contents: vec![] },
            ExtractedEntry {
                components: names(&["prim_fwd", "train.txt"]),
                is_dir: false,
                contents: b"sin(x)\tcos(x)\n".to_vec(),
            },
            ExtractedEntry {
                components: names(&["prim_fwd", "valid.txt"]),
                is_dir: false,
                contents: vec![],
            },
        ]
    );
}

#[test]
fn decompress_keeps_contents_byte_for_byte() {
    let contents: Vec<u8> = (0..2000u32).map(|i| (i * 7 % 256) as u8).collect();
    let tar = tarball(&[(b"blob.bin", &contents, false)]);
    let plan = decompress(&gzip(&tar)).unwrap();
    assert_eq!(plan.len(), 1);
    assert_eq!(plan[0].contents, contents);
}

#[test]
fn decompress_of_an_empty_tarball_is_empty() {
    assert_eq!(decompress(&gzip(&tarball(&[]))), Ok(vec![]));
}

#[test]
fn decompress_rejects_what_is_not_gzip() {
    assert_eq!(decompress(b"plain text, not gzip"), Err(PipelineError::CorruptArchiveError));
    assert_eq!(decompress(b""), Err(PipelineError::CorruptArchiveError));
    let tar = tarball(&[(b"a", b"1", false)]);
    assert_eq!(decompress(&tar), Err(PipelineError::CorruptArchiveError));
}

#[test]
fn decompress_rejects_a_truncated_stream() {
    let packed = gzip(&tarball(&[(b"a.txt", b"some contents of a file", false)]));
    assert_eq!(decompress(&packed[..packed.len() / 2]), Err(PipelineError::CorruptArchiveError));
}

#[test]
fn decompress_rejects_what_is_not_a_tarball() {
    let packed = gzip(&[0x55u8; 1024]);
    assert_eq!(decompress(&packed), Err(PipelineError::CorruptArchiveError));
}

#[test]
fn decompress_rejects_a_truncated_tarball() {
    let tar = tarball(&[(b"a.txt", &[7u8; 2000], false)]);
    let packed = gzip(&tar[..1000]);
    assert_eq!(decompress(&packed), Err(PipelineError::CorruptArchiveError));
}

#[test]
fn decompress_rejects_path_traversal() {
    let tar = tarball(&[(b"ok.txt", b"1", false), (b"../outside.txt", b"2", false)]);
    assert_eq!(decompress(&gzip(&tar)), Err(PipelineError::PathTraversalError));
    let tar = tarball(&[(b"a/../../outside.txt", b"2", false)]);
    assert_eq!(decompress(&gzip(&tar)), Err(PipelineError::PathTraversalError));
}

#[test]
fn split_pieces_join_back_to_the_path() {
    for path in [&b""[..], b"/", b"a", b"a/b", b"/a//b/", b"../x/./y", b"prim_fwd/train.txt"] {
        let pieces = split_path(path);
        assert_eq!(pieces.join(&b'/'), path.to_vec());
        assert!(pieces.iter().all(|piece| !piece.contains(&b'/')));
    }
}

use std::io::{Cursor, Read, Write};

use expurgator::archive::{pack_archive, pack_nested, MAX_NESTING};
use expurgator::error::PackError;

fn zip_of(entries: &[(&str, Option<&[u8]>)]) -> Vec<u8> {
    let mut writer = zip::ZipWriter::new(Cursor::new(Vec::new()));
    let options = zip::write::SimpleFileOptions::default()
        .compression_method(zip::CompressionMethod::Deflated)
        .unix_permissions(0o644);
    for (name, content) in entries {
        match content {
            Some(bytes) => {
                writer.start_file(*name, options).unwrap();
                writer.write_all(bytes).unwrap();
            }
            None => writer.add_directory(*name, options).unwrap(),
        }
    }
    writer.finish().unwrap().into_inner()
}

fn zip_entries(bytes: &[u8]) -> Vec<(String, Vec<u8>)> {
    let mut archive = zip::ZipArchive::new(Cursor::new(bytes.to_vec())).unwrap();
    let mut found = Vec::new();
    for i in 0..archive.len() {
        let mut file = archive.by_index(i).unwrap();
        let mut content = Vec::new();
        file.read_to_end(&mut content).unwrap();
        found.push((file.name().unwrap().into_owned(), content));
    }
    found
}

fn tar_of(entries: &[(&str, Option<&[u8]>)]) -> Vec<u8> {
    let mut builder = tar::Builder::new(Vec::new());
    for (name, content) in entries {
        let mut header = tar::Header::new_gnu();
        header.set_mode(0o644);
        match content {
            Some(bytes) => {
                header.set_entry_type(tar::EntryType::Regular);
                header.set_size(bytes.len() as u64);
                builder.append_data(&mut header, *name, *bytes).unwrap();
            }
            None => {
                header.set_entry_type(tar::EntryType::Directory);
                header.set_size(0);
                builder.append_data(&mut header, *name, std::io::empty()).unwrap();
            }
        }
    }
    builder.into_inner().unwrap()
}

fn tar_entries<R: Read>(reader: R) -> Vec<(String, Vec<u8>)> {
    let mut archive = tar::Archive::new(reader);
    let mut found = Vec::new();
    for entry in archive.entries().unwrap() {
        let mut entry = entry.unwrap();
        let path = entry.path().unwrap().to_string_lossy().into_owned();
        let mut content = Vec::new();
        entry.read_to_end(&mut content).unwrap();
        found.push((path, content));
    }
    found
}

fn gzip(bytes: &[u8]) -> Vec<u8> {
    let mut encoder = flate2::write::GzEncoder::new(Vec::new(), flate2::Compression::new(6));
    encoder.write_all(bytes).unwrap();
    encoder.finish().unwrap()
}

fn names(entries: &[(String, Vec<u8>)]) -> Vec<&str> {
    entries.iter().map(|(name, _)| name.as_str()).collect()
}

#[test]
fn zip_without_the_listed_entry() {
    let input = zip_of(&[("a.txt", Some(b"alpha")), ("b/b.txt", Some(b"beta"))]);
    let mut filters = vec![String::from("b/b.txt")];
    let mut skips = 0;
    let output = pack_archive(input, &mut filters, 6, &mut skips).unwrap();
    let entries = zip_entries(&output);
    assert_eq!(names(&entries), vec!["a.txt"]);
    assert_eq!(entries[0].1, b"alpha");
    assert!(filters.is_empty());
}

#[test]
fn zip_entry_named_by_its_last_components() {
    let input = zip_of(&[("a.txt", Some(b"alpha")), ("b/b.txt", Some(b"beta"))]);
    let mut filters = vec![String::from("b.txt")];
    let mut skips = 0;
    let output = pack_archive(input, &mut filters, 6, &mut skips).unwrap();
    assert_eq!(names(&zip_entries(&output)), vec!["a.txt"]);
}

#[test]
fn zip_with_empty_filter_list_keeps_everything() {
    let input =
        zip_of(&[("a.txt", Some(b"alpha")), ("dir/", None), ("dir/b.txt", Some(b"beta"))]);
    let mut filters = Vec::new();
    let mut skips = 0;
    let output = pack_archive(input.clone(), &mut filters, 6, &mut skips).unwrap();
    assert_eq!(zip_entries(&output), zip_entries(&input));
}

#[test]
fn gzipped_tar_without_the_listed_entry() {
    let input = gzip(&tar_of(&[("x", Some(b"ex")), ("y", Some(b"why")), ("dir/", None)]));
    let mut filters = vec![String::from("y")];
    let mut skips = 0;
    let output = pack_archive(input, &mut filters, 6, &mut skips).unwrap();
    assert_eq!(&output[..2], &[0x1f, 0x8b]);
    let entries = tar_entries(flate2::read::GzDecoder::new(&output[..]));
    assert_eq!(names(&entries), vec!["x", "dir/"]);
    assert_eq!(entries[0].1, b"ex");
}

#[test]
fn plain_tar_with_empty_filter_list_keeps_everything() {
    let input = tar_of(&[("x", Some(b"ex")), ("dir/", None), ("dir/y", Some(b"why"))]);
    let mut filters = Vec::new();
    let mut skips = 0;
    let output = pack_archive(input.clone(), &mut filters, 6, &mut skips).unwrap();
    assert_eq!(tar_entries(&output[..]), tar_entries(&input[..]));
}

#[test]
fn one_specifier_removes_one_entry() {
    let input = zip_of(&[("one/n.txt", Some(b"1")), ("two/n.txt", Some(b"2"))]);
    let mut filters = vec![String::from("n.txt")];
    let mut skips = 0;
    let output = pack_archive(input, &mut filters, 6, &mut skips).unwrap();
    let entries = zip_entries(&output);
    assert_eq!(names(&entries), vec!["two/n.txt"]);
    assert_eq!(entries[0].1, b"2");
}

#[test]
fn nested_zip_is_rewritten_with_the_specifiers_under_its_path() {
    let inner = zip_of(&[("p", Some(b"pea")), ("inner.zip/q", Some(b"queue"))]);
    let input = zip_of(&[("inner.zip", Some(&inner)), ("q", Some(b"outer"))]);
    let mut filters = vec![String::from("inner.zip/q")];
    let mut skips = 0;
    let output = pack_archive(input, &mut filters, 6, &mut skips).unwrap();
    let entries = zip_entries(&output);
    assert_eq!(names(&entries), vec!["inner.zip", "q"]);
    assert_eq!(entries[1].1, b"outer");
    assert_eq!(names(&zip_entries(&entries[0].1)), vec!["p"]);
    assert!(filters.is_empty());
}

#[test]
fn nested_zip_entries_are_held_against_whole_specifiers() {
    let inner = zip_of(&[("p", Some(b"pea")), ("q", Some(b"queue"))]);
    let input = zip_of(&[("inner.zip", Some(&inner))]);
    let mut filters = vec![String::from("inner.zip/q")];
    let mut skips = 0;
    let output = pack_archive(input, &mut filters, 6, &mut skips).unwrap();
    let entries = zip_entries(&output);
    assert_eq!(names(&entries), vec!["inner.zip"]);
    assert_eq!(names(&zip_entries(&entries[0].1)), vec!["p", "q"]);
    assert!(filters.is_empty());
}

#[test]
fn nested_archive_without_specifiers_is_left_as_it_is() {
    let inner = zip_of(&[("p", Some(b"pea"))]);
    let input = zip_of(&[("inner.zip", Some(&inner))]);
    let mut filters = vec![String::from("other")];
    let mut skips = 0;
    let output = pack_archive(input, &mut filters, 6, &mut skips).unwrap();
    let entries = zip_entries(&output);
    assert_eq!(entries[0].1, inner);
    assert_eq!(filters, vec![String::from("other")]);
}

#[test]
fn nested_tar_in_tar_gets_its_size_corrected() {
    let inner = tar_of(&[("keep", Some(b"k")), ("deep/inner.tar/drop", Some(&[7u8; 3000]))]);
    let input = tar_of(&[("deep/inner.tar", Some(&inner))]);
    let mut filters = vec![String::from("deep/inner.tar/drop")];
    let mut skips = 0;
    let output = pack_archive(input, &mut filters, 6, &mut skips).unwrap();
    let entries = tar_entries(&output[..]);
    assert_eq!(names(&entries), vec!["deep/inner.tar"]);
    assert!(entries[0].1.len() < inner.len());
    assert_eq!(names(&tar_entries(&entries[0].1[..])), vec!["keep"]);
}

#[test]
fn nesting_deeper_than_allowed_is_refused() {
    let inner = zip_of(&[("inner.zip/q", Some(b"queue"))]);
    let input = zip_of(&[("inner.zip", Some(&inner))]);
    let mut filters = vec![String::from("inner.zip/q")];
    let mut skips = 0;
    let res = pack_nested(input, &mut filters, 6, &mut skips, 0);
    assert!(matches!(res, Err(PackError::NestingTooDeep)));
    assert!(MAX_NESTING > 0);
}

fn tar_with_broken_second_entry() -> Vec<u8> {
    let mut bytes = tar_of(&[("x", Some(b"ex")), ("y", Some(b"why"))]);
    bytes[1024] ^= 0x55;
    bytes
}

#[test]
fn malformed_tar_entry_is_skipped_when_allowed() {
    let mut filters = Vec::new();
    let mut skips = 1;
    let output =
        pack_archive(tar_with_broken_second_entry(), &mut filters, 6, &mut skips).unwrap();
    assert_eq!(names(&tar_entries(&output[..])), vec!["x"]);
    assert_eq!(skips, 0);
}

#[test]
fn malformed_tar_entry_ends_the_run_when_not_allowed() {
    let mut filters = Vec::new();
    let mut skips = 0;
    let res = pack_archive(tar_with_broken_second_entry(), &mut filters, 6, &mut skips);
    assert!(matches!(res, Err(PackError::MalformedEntry)));
}

#[test]
fn buffer_that_is_no_archive_is_refused() {
    let mut filters = Vec::new();
    let mut skips = 0;
    let res = pack_archive(vec![0xFF, 0xD8, 0xFF, 0xAA], &mut filters, 6, &mut skips);
    assert!(matches!(res, Err(PackError::UnsupportedFileType(None))));
    let res = pack_archive(Vec::new(), &mut filters, 6, &mut skips);
    assert!(matches!(res, Err(PackError::UnsupportedFileType(None))));
}

#[test]
fn archive_of_another_kind_is_refused_with_its_media_type() {
    let mut filters = Vec::new();
    let mut skips = 0;
    let rar = vec![0x52, 0x61, 0x72, 0x21, 0x1A, 0x07, 0x00, 0x00];
    match pack_archive(rar, &mut filters, 6, &mut skips) {
        Err(PackError::UnsupportedFileType(Some(mime))) => {
            assert_eq!(mime, "application/vnd.rar")
        }
        other => panic!("unexpected: {:?}", other),
    }
}

#[test]
fn broken_container_is_refused() {
    let mut filters = Vec::new();
    let mut skips = 0;
    let mut broken = vec![0x50, 0x4B, 0x03, 0x04];
    broken.extend_from_slice(&[0u8; 64]);
    let res = pack_archive(broken, &mut filters, 6, &mut skips);
    assert!(matches!(res, Err(PackError::ContainerFailure)));
}

#[test]
fn broken_codec_stream_is_refused() {
    let mut filters = Vec::new();
    let mut skips = 0;
    let mut packed = gzip(&tar_of(&[("x", Some(b"ex"))]));
    packed.truncate(packed.len() / 2);
    let res = pack_archive(packed, &mut filters, 6, &mut skips);
    assert!(matches!(res, Err(PackError::CodecFailure)));
}

#[test]
fn tar_entry_too_large_for_memory_is_refused() {
    let mut header = tar::Header::new_gnu();
    header.set_path("huge").unwrap();
    header.set_mode(0o644);
    header.set_entry_type(tar::EntryType::Regular);
    header.set_size(1u64 << 63);
    header.set_cksum();
    let mut input = header.as_bytes().to_vec();
    input.extend_from_slice(&[0u8; 1024]);
    let mut filters = Vec::new();
    let mut skips = 0;
    let res = pack_archive(input, &mut filters, 6, &mut skips);
    assert!(matches!(res, Err(PackError::EntryTooLarge)));
}

fn tar_with_link_and_unknown_type() -> Vec<u8> {
    let mut builder = tar::Builder::new(Vec::new());
    let mut file = tar::Header::new_gnu();
    file.set_mode(0o644);
    file.set_entry_type(tar::EntryType::Regular);
    file.set_size(2);
    builder.append_data(&mut file, "target", &b"ex"[..]).unwrap();
    let mut link = tar::Header::new_gnu();
    link.set_mode(0o777);
    link.set_entry_type(tar::EntryType::Symlink);
    link.set_size(0);
    builder.append_link(&mut link, "link", "target").unwrap();
    let mut odd = tar::Header::new_gnu();
    odd.set_mode(0o644);
    odd.set_entry_type(tar::EntryType::new(b'V'));
    odd.set_size(0);
    builder.append_data(&mut odd, "label", std::io::empty()).unwrap();
    builder.into_inner().unwrap()
}

#[test]
fn tar_links_keep_their_targets_and_unknown_types_are_left_out() {
    let mut filters = Vec::new();
    let mut skips = 0;
    let output =
        pack_archive(tar_with_link_and_unknown_type(), &mut filters, 6, &mut skips).unwrap();
    let mut archive = tar::Archive::new(&output[..]);
    let mut found = Vec::new();
    for entry in archive.entries().unwrap() {
        let entry = entry.unwrap();
        let path = entry.path().unwrap().to_string_lossy().into_owned();
        let target = entry.link_name().unwrap().map(|t| t.to_string_lossy().into_owned());
        found.push((path, entry.header().entry_type(), target));
    }
    assert_eq!(
        found,
        vec![
            (String::from("target"), tar::EntryType::Regular, None),
            (String::from("link"), tar::EntryType::Symlink, Some(String::from("target"))),
        ]
    );
}

#[test]
fn tar_directory_comes_back_as_a_directory() {
    let input = tar_of(&[("dir/", None)]);
    let mut filters = Vec::new();
    let mut skips = 0;
    let output = pack_archive(input, &mut filters, 6, &mut skips).unwrap();
    let mut archive = tar::Archive::new(&output[..]);
    let entry = archive.entries().unwrap().next().unwrap().unwrap();
    assert_eq!(entry.header().entry_type(), tar::EntryType::Directory);
    assert_eq!(entry.header().size().unwrap(), 0);
    assert_eq!(entry.header().mode().unwrap(), 0o644);
}

#[test]
fn zip_entries_keep_method_permissions_and_time() {
    let mut writer = zip::ZipWriter::new(Cursor::new(Vec::new()));
    let stamp = zip::DateTime::from_date_and_time(2001, 2, 3, 4, 5, 6).unwrap();
    let options = zip::write::SimpleFileOptions::default()
        .compression_method(zip::CompressionMethod::Deflated)
        .last_modified_time(stamp)
        .unix_permissions(0o640);
    writer.start_file("a.txt", options).unwrap();
    writer.write_all(b"alpha").unwrap();
    let input = writer.finish().unwrap().into_inner();
    let mut filters = Vec::new();
    let mut skips = 0;
    let output = pack_archive(input, &mut filters, 9, &mut skips).unwrap();
    let mut archive = zip::ZipArchive::new(Cursor::new(output)).unwrap();
    let file = archive.by_index(0).unwrap();
    assert_eq!(file.compression(), zip::CompressionMethod::Deflated);
    assert_eq!(file.unix_mode().map(|mode| mode & 0o777), Some(0o640));
    assert_eq!(file.last_modified(), Some(stamp));
}

#[test]
fn same_input_gives_the_same_output() {
    let input = zip_of(&[("a.txt", Some(b"alpha")), ("dir/", None)]);
    let mut filters = Vec::new();
    let mut skips = 0;
    let first = pack_archive(input.clone(), &mut filters, 6, &mut skips).unwrap();
    let second = pack_archive(input, &mut filters, 6, &mut skips).unwrap();
    assert_eq!(first, second);
}

#[test]
fn stored_zip_entries_come_back_stored() {
    let mut writer = zip::ZipWriter::new(Cursor::new(Vec::new()));
    let options = zip::write::SimpleFileOptions::default()
        .compression_method(zip::CompressionMethod::Stored)
        .unix_permissions(0o644);
    writer.start_file("kept.bin", options).unwrap();
    writer.write_all(b"as it is").unwrap();
    writer.start_file("gone.bin", options).unwrap();
    writer.write_all(b"gone").unwrap();
    let input = writer.finish().unwrap().into_inner();
    let mut filters = vec![String::from("gone.bin")];
    let mut skips = 0;
    let output = pack_archive(input, &mut filters, 6, &mut skips).unwrap();
    let mut archive = zip::ZipArchive::new(Cursor::new(output)).unwrap();
    assert_eq!(archive.len(), 1);
    let mut file = archive.by_index(0).unwrap();
    assert_eq!(file.compression(), zip::CompressionMethod::Stored);
    let mut content = Vec::new();
    file.read_to_end(&mut content).unwrap();
    assert_eq!(content, b"as it is");
}

#[test]
fn zip_entry_that_is_no_directory_is_written_back_as_a_file() {
    let mut writer = zip::ZipWriter::new(Cursor::new(Vec::new()));
    let options = zip::write::SimpleFileOptions::default()
        .compression_method(zip::CompressionMethod::Deflated);
    writer.add_symlink("link", "target", options).unwrap();
    let input = writer.finish().unwrap().into_inner();
    let mut filters = Vec::new();
    let mut skips = 0;
    let output = pack_archive(input, &mut filters, 6, &mut skips).unwrap();
    let entries = zip_entries(&output);
    assert_eq!(names(&entries), vec!["link"]);
    assert_eq!(entries[0].1, b"target");
}

#[test]
fn tar_link_without_a_link_name_points_to_its_own_path() {
    let mut link = tar::Header::new_gnu();
    link.set_path("lonely").unwrap();
    link.set_mode(0o777);
    link.set_entry_type(tar::EntryType::Symlink);
    link.set_size(0);
    link.set_cksum();
    let mut input = link.as_bytes().to_vec();
    input.extend_from_slice(&[0u8; 1024]);
    let mut filters = Vec::new();
    let mut skips = 0;
    let output = pack_archive(input, &mut filters, 6, &mut skips).unwrap();
    let mut archive = tar::Archive::new(&output[..]);
    let entry = archive.entries().unwrap().next().unwrap().unwrap();
    assert_eq!(entry.header().entry_type(), tar::EntryType::Symlink);
    assert_eq!(entry.path().unwrap().to_string_lossy(), "lonely");
    assert_eq!(entry.link_name().unwrap().unwrap().to_string_lossy(), "lonely");
}

#[test]
fn zip_entry_without_a_valid_time_gets_the_first_day_of_1980() {
    let mut input = zip_of(&[("a.txt", Some(b"alpha"))]);
    for i in 10..14 {
        input[i] = 0;
    }
    let central = (0..input.len() - 4)
        .find(|&i| input[i..i + 4] == [0x50, 0x4B, 0x01, 0x02])
        .unwrap();
    for i in central + 12..central + 16 {
        input[i] = 0;
    }
    {
        let mut archive = zip::ZipArchive::new(Cursor::new(input.clone())).unwrap();
        assert_eq!(archive.by_index(0).unwrap().last_modified(), None);
    }
    let mut filters = Vec::new();
    let mut skips = 0;
    let output = pack_archive(input, &mut filters, 6, &mut skips).unwrap();
    let mut archive = zip::ZipArchive::new(Cursor::new(output)).unwrap();
    let file = archive.by_index(0).unwrap();
    assert_eq!(file.last_modified(), Some(zip::DateTime::default()));
    assert_eq!(file.last_modified().map(|t| (t.year(), t.month(), t.day())), Some((1980, 1, 1)));
}

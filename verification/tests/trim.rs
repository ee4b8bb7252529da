use docker_image_tool::archive::read_tar_layers;
use docker_image_tool::cli::ToolArgs;
use docker_image_tool::error::{ConflictError, ParseError, TrimError};
use docker_image_tool::trim::{output_path, trim_image};
use std::io::Read;

fn archive_of(files: &[(&str, &[u8])]) -> Vec<u8> {
    let mut builder = tar::Builder::new(Vec::new());
    for (name, data) in files {
        let mut header = tar::Header::new_gnu();
        header.set_path(name).unwrap();
        header.set_size(data.len() as u64);
        header.set_mode(0o644);
        header.set_cksum();
        builder.append(&header, *data).unwrap();
    }
    builder.into_inner().unwrap()
}

fn listing(archive: &[u8]) -> Vec<(String, Vec<u8>, Vec<u8>)> {
    let mut reader = tar::Archive::new(archive);
    let mut out = Vec::new();
    for entry in reader.entries().unwrap() {
        let mut entry = entry.unwrap();
        let name = entry.path().unwrap().display().to_string();
        let header = entry.header().as_bytes().to_vec();
        let mut data = Vec::new();
        entry.read_to_end(&mut data).unwrap();
        out.push((name, header, data));
    }
    out
}

fn names(archive: &[u8]) -> Vec<String> {
    listing(archive).into_iter().map(|e| e.0).collect()
}

fn manifest_of(digests: &[&str]) -> String {
    let layers: Vec<String> = digests
        .iter()
        .map(|d| format!("\"sha256:{}\"", d))
        .collect();
    format!(
        "[{{\"RootFS\": {{\"Type\": \"layers\", \"Layers\": [{}]}}}}]",
        layers.join(", ")
    )
}

fn image() -> Vec<u8> {
    archive_of(&[
        ("index.json", b"{\"schemaVersion\": 2}"),
        ("blobs/sha256/aa", &[1u8; 700]),
        ("blobs/sha256/bb", &[2u8; 10]),
        ("blobs/sha256/cc", &[3u8; 1024]),
    ])
}

#[test]
fn test_trim_image_with_real_files() {
    let input = image();
    let result = trim_image(&input, &manifest_of(&["aa"]));
    assert!(result.is_ok());

    let output = result.unwrap();
    assert!(!output.is_empty());

    let original_size = input.len();
    let trimmed_size = output.len();
    assert!(trimmed_size <= original_size);
}

#[test]
fn test_trim_image_default_output() {
    let tar_str = "work/image.tar";
    let expected_output = "work/image_trimmed.tar";

    let result = trim_image(&image(), &manifest_of(&["aa"]));
    assert!(result.is_ok());

    assert_eq!(output_path(tar_str, None), expected_output);
    let args = ToolArgs {
        file_path: vec!["work/layers.json".to_string(), tar_str.to_string()],
        output: None,
    };
    assert_eq!(args.plan().unwrap().output_path, expected_output);
}

#[test]
fn trim_drops_the_layers_that_the_reference_holds() {
    let input = image();
    let output = trim_image(&input, &manifest_of(&["aa"])).unwrap();
    assert_eq!(
        names(&output),
        vec!["index.json", "blobs/sha256/bb", "blobs/sha256/cc"]
    );
    assert!(output.len() < input.len());
    let before = listing(&input);
    let after = listing(&output);
    assert_eq!(after[0], before[0]);
    assert_eq!(after[1], before[2]);
    assert_eq!(after[2], before[3]);
}

#[test]
fn trim_keeps_everything_when_the_reference_holds_other_layers() {
    let input = image();
    let output = trim_image(&input, &manifest_of(&["zz"])).unwrap();
    assert_eq!(listing(&output), listing(&input));
    assert_eq!(output, input);
    let present = read_tar_layers(&output).unwrap();
    assert_eq!(present.len(), 3);
    assert!(present.contains("aa") && present.contains("bb") && present.contains("cc"));
}

#[test]
fn trim_of_an_archive_without_blobs_changes_nothing() {
    let input = archive_of(&[
        ("index.json", b"{}"),
        ("oci-layout", b"{\"imageLayoutVersion\": \"1.0.0\"}"),
        ("blobs/sha512/aa", b"other algorithm"),
    ]);
    for manifest in [
        manifest_of(&[]),
        manifest_of(&["aa"]),
        manifest_of(&["aa", "bb"]),
    ] {
        let output = trim_image(&input, &manifest).unwrap();
        assert_eq!(listing(&output), listing(&input));
    }
}

#[test]
fn trim_leaves_no_blob_when_the_reference_holds_them_all() {
    let input = image();
    let output = trim_image(&input, &manifest_of(&["cc", "aa", "bb", "dd"])).unwrap();
    assert_eq!(names(&output), vec!["index.json"]);
    assert!(read_tar_layers(&output).unwrap().is_empty());
}

#[test]
fn trim_reports_the_manifest_before_the_archive() {
    let broken = vec![1u8; 700];
    assert!(matches!(
        trim_image(&broken, "not json"),
        Err(TrimError::Parse(ParseError::InvalidJson(_)))
    ));
    assert_eq!(
        trim_image(&broken, "[{}]"),
        Err(TrimError::Parse(ParseError::LayersNotArray))
    );
    assert_eq!(
        trim_image(&broken, r#"[{"RootFS": {"Layers": [1]}}]"#),
        Err(TrimError::Parse(ParseError::LayerNotString))
    );
    assert!(matches!(
        trim_image(&broken, &manifest_of(&["aa"])),
        Err(TrimError::ArchiveFormat(_))
    ));
}

#[test]
fn trim_twice_gives_the_same_archive() {
    let input = image();
    let manifest = manifest_of(&["bb"]);
    let once = trim_image(&input, &manifest).unwrap();
    let twice = trim_image(&once, &manifest).unwrap();
    assert_eq!(once, twice);
}

#[test]
fn output_path_stands_beside_the_input() {
    assert_eq!(output_path("image.tar", None), "image_trimmed.tar");
    assert_eq!(
        output_path("/data/in/image.tar", None),
        "/data/in/image_trimmed.tar"
    );
    assert_eq!(output_path("a.tar.d/x.tar", None), "a.tar.d/x_trimmed.tar");
    assert_eq!(output_path(".tar", None), "_trimmed.tar");
    assert_eq!(output_path("image.tgz", None), "trimmed.tar");
    assert_eq!(output_path("", None), "trimmed.tar");
    assert_eq!(output_path("image.tar", Some("out/small.tar")), "out/small.tar");
    assert_eq!(output_path("image", Some("")), "");
}

#[test]
fn plan_settles_inputs_and_output() {
    let args = ToolArgs {
        file_path: vec!["layers.json".to_string(), "dir/image.tar".to_string()],
        output: None,
    };
    let plan = args.plan().unwrap();
    assert_eq!(plan.image_path, "dir/image.tar");
    assert_eq!(plan.manifest_path, "layers.json");
    assert_eq!(plan.output_path, "dir/image_trimmed.tar");
    let args = ToolArgs {
        file_path: vec!["layers.json".to_string(), "dir/image.tar".to_string()],
        output: Some("elsewhere.tar".to_string()),
    };
    assert_eq!(args.plan().unwrap().output_path, "elsewhere.tar");
    let args = ToolArgs {
        file_path: vec!["layers.json".to_string()],
        output: Some("elsewhere.tar".to_string()),
    };
    assert_eq!(
        args.plan().unwrap_err(),
        TrimError::Conflict(ConflictError::NoArchive)
    );
}

#[test]
fn trim_refuses_an_archive_with_sparse_extension_blocks() {
    let mut header = tar::Header::new_gnu();
    header.set_path("big").unwrap();
    header.set_entry_type(tar::EntryType::GNUSparse);
    header.set_size(u64::MAX - 1023);
    header.as_gnu_mut().unwrap().set_is_extended(true);
    header.set_cksum();
    let mut archive = header.as_bytes().to_vec();
    archive.extend_from_slice(&[0u8; 512]);
    assert!(matches!(
        trim_image(&archive, &manifest_of(&["aa"])),
        Err(TrimError::ArchiveFormat(_))
    ));
}

use docker_image_tool::cli::identify_files;
use docker_image_tool::error::{ConflictError, TrimError};

#[test]
fn test_identify_files_success() {
    let files = vec!["image.tar".to_string(), "layers.json".to_string()];
    let (img, json) = identify_files(&files).unwrap();
    assert_eq!(img, "image.tar");
    assert_eq!(json, "layers.json");
}

#[test]
fn test_identify_files_extra_files() {
    let files = vec![
        "image.tar".to_string(),
        "layers.json".to_string(),
        "readme.txt".to_string(),
    ];
    let (img, json) = identify_files(&files).unwrap();
    assert_eq!(img, "image.tar");
    assert_eq!(json, "layers.json");
}

#[test]
fn test_identify_files_multiple_tar() {
    let files = vec![
        "image1.tar".to_string(),
        "image2.tar".to_string(),
        "layers.json".to_string(),
    ];
    let result = identify_files(&files);
    assert!(result.is_err());
    assert!(result.unwrap_err().message().contains("多个 .tar 文件"));
}

#[test]
fn test_identify_files_multiple_json() {
    let files = vec![
        "image.tar".to_string(),
        "layers1.json".to_string(),
        "layers2.json".to_string(),
    ];
    let result = identify_files(&files);
    assert!(result.is_err());
    assert!(result.unwrap_err().message().contains("多个 .json 文件"));
}

#[test]
fn test_identify_files_no_tar() {
    let files = vec!["layers.json".to_string()];
    let result = identify_files(&files);
    assert!(result.is_err());
    assert!(result.unwrap_err().message().contains("未提供 .tar 镜像文件"));
}

#[test]
fn test_identify_files_no_json() {
    let files = vec!["image.tar".to_string()];
    let result = identify_files(&files);
    assert!(result.is_err());
    assert!(result.unwrap_err().message().contains("未提供 .json 层列表文件"));
}

#[test]
fn test_identify_files_empty() {
    let files: Vec<String> = vec![];
    let result = identify_files(&files);
    assert!(result.is_err());
    assert!(result.unwrap_err().message().contains("未提供 .tar 或 .json 文件"));
}

#[test]
fn the_second_file_of_a_kind_that_comes_first_decides() {
    let files = vec![
        "a.json".to_string(),
        "a.tar".to_string(),
        "b.json".to_string(),
        "b.tar".to_string(),
    ];
    assert_eq!(
        identify_files(&files),
        Err(TrimError::Conflict(ConflictError::MultipleManifests))
    );
    let files = vec![
        "a.tar".to_string(),
        "b.tar".to_string(),
        "a.json".to_string(),
        "b.json".to_string(),
    ];
    assert_eq!(
        identify_files(&files),
        Err(TrimError::Conflict(ConflictError::MultipleArchives))
    );
}

#[test]
fn a_suffix_must_match_to_the_letter() {
    let files = vec![
        "image.TAR".to_string(),
        "tar".to_string(),
        ".tar".to_string(),
        "x.json.bak".to_string(),
        ".json".to_string(),
    ];
    assert_eq!(
        identify_files(&files),
        Ok((".tar".to_string(), ".json".to_string()))
    );
}

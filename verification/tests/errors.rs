use liblis::error::{LisError, RequiredField};
use liblis::project::{file_error, FileStage};

#[test]
fn fields_have_labels() {
    assert_eq!(RequiredField::Name.label(), "Project Name");
    assert_eq!(RequiredField::ApplicationName.label(), "Application Name");
    assert_eq!(RequiredField::Version.label(), "Version");
    assert_eq!(RequiredField::Author.label(), "Author");
    assert_eq!(RequiredField::Description.label(), "Description");
    assert_eq!(RequiredField::PackageName.label(), "Package Name");
}

#[test]
fn errors_read_as_text() {
    let io = LisError::Io {
        context: "Failed to read project file".to_string(),
        path: "/p/x.lisproj".to_string(),
        cause: "No such file".to_string(),
    };
    assert_eq!(io.message(), "Failed to read project file (/p/x.lisproj): No such file");
    assert_eq!(LisError::Format { detail: "bad".to_string() }.message(), "bad");
    assert_eq!(LisError::Extraction { detail: "corrupt".to_string() }.message(), "corrupt");
    assert_eq!(
        LisError::Validation { missing: vec![] }.message(),
        "Please fill in all required fields:"
    );
    assert_eq!(
        LisError::Validation { missing: vec![RequiredField::Version] }.message(),
        "Please fill in all required fields:\n\u{2022} Version is required"
    );
}

#[test]
fn each_stage_of_saving_and_loading_a_project_has_its_error() {
    assert_eq!(
        file_error(FileStage::Serialize, "/p", "c"),
        LisError::Format { detail: "Failed to serialize project: c".to_string() }
    );
    assert_eq!(
        file_error(FileStage::Deserialize, "/p", "c"),
        LisError::Format { detail: "Failed to deserialize project: c".to_string() }
    );
    assert_eq!(
        file_error(FileStage::Write, "/p", "c"),
        LisError::Io {
            context: "Failed to write project file".to_string(),
            path: "/p".to_string(),
            cause: "c".to_string()
        }
    );
    assert_eq!(
        file_error(FileStage::Read, "/p", "c"),
        LisError::Io {
            context: "Failed to read project file".to_string(),
            path: "/p".to_string(),
            cause: "c".to_string()
        }
    );
}

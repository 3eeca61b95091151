use tedana_core::bids::images::extract_echo_nifti_file_paths;
use tedana_core::bids::metadata::{
    choose_metadata, extract_bold_metadata, extract_echo_number, extract_file_metadata,
    is_metadata_name, EchoNum, BoldMetadata,
};
use tedana_core::bids::scan::{
    entry_is_session, entry_is_subject, BidsScan, Directory, Entry, Listing, SessionEntry,
    SessionListing, SessionScan, SubjectEntry, SubjectListing, SubjectScan,
};
use tedana_core::bids::structure::{extract_bids_structure, extract_sessions, extract_subject};
use tedana_core::bids::validation::{
    validate_bids_directory, validate_func_directory, validate_subject_directory,
};

fn file_with(directory: &str, name: &str, content: Option<&str>) -> Entry {
    Entry::Found {
        name: name.to_string(),
        path: format!("{}/{}", directory, name),
        is_dir: false,
        content: content.map(|text| text.to_string()),
    }
}

fn file(directory: &str, name: &str) -> Entry {
    file_with(directory, name, Some("{\"EchoTime\": 0.0142, \"TaskName\": \"rest\"}"))
}

fn broken_json(directory: &str, name: &str) -> Entry {
    file_with(directory, name, Some("{\"EchoTime\": 0.0142,"))
}

fn folder(directory: &str, name: &str) -> Entry {
    Entry::Found {
        name: name.to_string(),
        path: format!("{}/{}", directory, name),
        is_dir: true,
        content: None,
    }
}

fn unreadable(message: &str) -> Entry {
    Entry::Unreadable { message: message.to_string() }
}

fn read(path: &str, entries: Vec<Entry>) -> Directory {
    Directory { path: path.to_string(), listing: Listing::Read { entries } }
}

fn failed(path: &str, is_dir: bool, message: &str) -> Directory {
    let message = message.to_string();
    let listing = if is_dir {
        Listing::Unreadable { message }
    } else {
        Listing::NotADirectory { message }
    };
    Directory { path: path.to_string(), listing }
}

fn absent(path: &str) -> Directory {
    failed(path, false, "No such file or directory (os error 2)")
}

fn func_of(directory: &str, names: &[&str]) -> Directory {
    let func = format!("{}/func", directory);
    let entries = names.iter().map(|name| file(&func, name)).collect();
    read(&func, entries)
}

fn session(name: &str, directory: &str, names: &[&str]) -> SessionScan {
    SessionScan {
        name: name.to_string(),
        directory: directory.to_string(),
        func: func_of(directory, names),
    }
}

fn bare(name: &str, directory: &str) -> SessionScan {
    SessionScan {
        name: name.to_string(),
        directory: directory.to_string(),
        func: absent(&format!("{}/func", directory)),
    }
}

fn session_entry(is_dir: bool, session: SessionScan) -> SessionEntry {
    SessionEntry::Found { is_dir, session }
}

fn subject(name: &str, sessions: Vec<SessionScan>) -> SubjectScan {
    let path = format!("/data/{}", name);
    SubjectScan {
        whole: bare(name, &path),
        listing: SessionListing::Read {
            entries: sessions.into_iter().map(|found| session_entry(true, found)).collect(),
        },
    }
}

fn unread_subject(name: &str, message: &str) -> SubjectScan {
    let path = format!("/data/{}", name);
    SubjectScan {
        whole: bare(name, &path),
        listing: SessionListing::Failed { message: message.to_string() },
    }
}

fn whole_subject(name: &str, names: &[&str]) -> SubjectScan {
    let path = format!("/data/{}", name);
    let func = format!("{}/func", path);
    SubjectScan {
        whole: session(name, &path, names),
        listing: SessionListing::Read {
            entries: vec![
                session_entry(true, bare("func", &func)),
                session_entry(false, bare("ses-readme.txt", &format!("{}/ses-readme.txt", path))),
            ],
        },
    }
}

fn subject_entry(is_dir: bool, subject: SubjectScan) -> SubjectEntry {
    SubjectEntry::Found { is_dir, subject }
}

fn dataset(subjects: Vec<SubjectScan>) -> BidsScan {
    let mut entries = vec![
        subject_entry(false, unread_subject("sub-00", "Not a directory (os error 20)")),
        subject_entry(true, whole_subject("derivatives", &COMPLETE)),
    ];
    for found in subjects {
        entries.push(SubjectEntry::Unreadable { message: "Input/output error".to_string() });
        entries.push(subject_entry(true, found));
    }
    BidsScan { path: "/data".to_string(), listing: SubjectListing::Read { entries } }
}

fn root(listing: SubjectListing) -> BidsScan {
    BidsScan { path: "/data".to_string(), listing }
}

const COMPLETE: [&str; 4] = [
    "sub-01_task-rest_echo-2_bold.nii.gz",
    "sub-01_task-rest_echo-1_bold.nii.gz",
    "sub-01_task-rest_echo-1_bold.json",
    "sub-01_task-rest_echo-2_bold.json",
];

#[test]
fn subjects_are_the_sub_directories() {
    assert!(entry_is_subject(&subject_entry(true, subject("sub-02", vec![]))));
    assert!(entry_is_subject(&subject_entry(true, subject("sub-", vec![]))));
    assert!(!entry_is_subject(&subject_entry(false, subject("sub-03", vec![]))));
    assert!(!entry_is_subject(&subject_entry(true, subject("derivatives", vec![]))));
    assert!(!entry_is_subject(&subject_entry(true, subject("xsub-04", vec![]))));
    assert!(!entry_is_subject(&SubjectEntry::Unreadable { message: "no".to_string() }));
}

#[test]
fn sessions_are_the_ses_directories() {
    assert!(entry_is_session(&session_entry(true, bare("ses-b", "/data/sub-01/ses-b"))));
    assert!(!entry_is_session(&session_entry(false, bare("ses-c", "/data/sub-01/ses-c"))));
    assert!(!entry_is_session(&session_entry(true, bare("anat", "/data/sub-01/anat"))));
    assert!(!entry_is_session(&SessionEntry::Unreadable { message: "no".to_string() }));
    let mut scan = subject(
        "sub-01",
        vec![bare("ses-b", "/data/sub-01/ses-b"), bare("anat", "/data/sub-01/anat")],
    );
    if let SessionListing::Read { entries } = &mut scan.listing {
        entries.push(session_entry(false, bare("ses-c", "/data/sub-01/ses-c")));
        entries.push(SessionEntry::Unreadable { message: "Input/output error".to_string() });
        entries.push(session_entry(true, bare("ses-a", "/data/sub-01/ses-a")));
    }
    assert_eq!(extract_sessions(&scan), Ok(vec!["ses-b".to_string(), "ses-a".to_string()]));
}

#[test]
fn subject_without_sessions_is_its_own_session() {
    assert_eq!(extract_sessions(&whole_subject("sub-01", &COMPLETE)), Ok(vec![String::new()]));
    assert_eq!(extract_sessions(&subject("sub-01", vec![])), Ok(vec![String::new()]));
}

#[test]
fn sessions_of_unread_subject_are_a_complaint() {
    let scan = unread_subject("sub-01", "Permission denied (os error 13)");
    assert_eq!(
        extract_sessions(&scan),
        Err("Failed to read subject directory \"/data/sub-01\": Permission denied (os error 13)"
            .to_string())
    );
}

#[test]
fn func_directory_with_metadata_and_images_is_valid() {
    assert_eq!(validate_func_directory(&session("", "/data/sub-01", &COMPLETE)), Ok(()));
    let plain = session("", "/d", &["a_bold.json", "a_bold.nii"]);
    assert_eq!(validate_func_directory(&plain), Ok(()));
}

#[test]
fn missing_func_directory_is_a_complaint() {
    let mut scan = session("ses-1", "/data/sub-01/ses-1", &COMPLETE);
    scan.func = failed("/data/sub-01/ses-1/func", false, "No such file or directory (os error 2)");
    assert_eq!(
        validate_func_directory(&scan),
        Err("No 'func' directory found in \"/data/sub-01/ses-1\"".to_string())
    );
}

#[test]
fn complaint_quotes_the_path() {
    let mut scan = session("", "/da\"ta/sub\\01", &[]);
    scan.func = failed("/da\"ta/sub\\01/func", false, "gone");
    assert_eq!(
        validate_func_directory(&scan),
        Err("No 'func' directory found in \"/da\\\"ta/sub\\\\01\"".to_string())
    );
}

#[test]
fn unread_func_directory_is_a_complaint() {
    let mut scan = session("", "/data/sub-01", &COMPLETE);
    scan.func = failed("/data/sub-01/func", true, "Permission denied (os error 13)");
    assert_eq!(
        validate_func_directory(&scan),
        Err("Permission denied (os error 13)".to_string())
    );
}

#[test]
fn func_directory_without_bold_files_is_a_complaint() {
    let scan = session("", "/data/sub-01", &["notes.txt", "sub-01_T1w.nii.gz"]);
    assert_eq!(
        validate_func_directory(&scan),
        Err("No '_bold.json', '_bold.nii', or '_bold.nii.gz' files found in \"/data/sub-01/func\""
            .to_string())
    );
    assert_eq!(
        validate_func_directory(&session("", "/data/sub-01", &[])),
        Err("No '_bold.json', '_bold.nii', or '_bold.nii.gz' files found in \"/data/sub-01/func\""
            .to_string())
    );
}

#[test]
fn func_directory_with_one_kind_only_is_a_complaint() {
    let expected = Err(
        "Missing required '_bold.json' or '_bold.nii'/'_bold.nii.gz' files in \"/data/sub-01/func\""
            .to_string(),
    );
    assert_eq!(validate_func_directory(&session("", "/data/sub-01", &["a_bold.json"])), expected);
    assert_eq!(validate_func_directory(&session("", "/data/sub-01", &["a_bold.nii"])), expected);
    assert_eq!(validate_func_directory(&session("", "/data/sub-01", &["a_bold.nii.gz"])), expected);
}

#[test]
fn unreadable_entries_do_not_count_in_validation() {
    let mut scan = session("", "/data/sub-01", &["a_bold.json"]);
    if let Listing::Read { entries } = &mut scan.func.listing {
        entries.push(unreadable("Input/output error"));
        entries.push(file("/data/sub-01/func", "a_bold.nii"));
    }
    assert_eq!(validate_func_directory(&scan), Ok(()));
}

#[test]
fn subject_is_valid_when_every_session_is() {
    let scan = subject(
        "sub-01",
        vec![
            session("ses-1", "/data/sub-01/ses-1", &COMPLETE),
            session("ses-2", "/data/sub-01/ses-2", &COMPLETE),
        ],
    );
    assert_eq!(validate_subject_directory(&scan), Ok(()));
}

#[test]
fn subject_reports_its_first_failing_session() {
    let scan = subject(
        "sub-01",
        vec![
            session("ses-1", "/data/sub-01/ses-1", &COMPLETE),
            session("ses-2", "/data/sub-01/ses-2", &["x_bold.json"]),
            session("ses-3", "/data/sub-01/ses-3", &[]),
        ],
    );
    assert_eq!(
        validate_subject_directory(&scan),
        Err("Missing required '_bold.json' or '_bold.nii'/'_bold.nii.gz' files in \"/data/sub-01/ses-2/func\""
            .to_string())
    );
}

#[test]
fn unread_subject_is_a_complaint() {
    let scan = unread_subject("sub-01", "Permission denied");
    assert_eq!(validate_subject_directory(&scan), Err("Permission denied".to_string()));
}

#[test]
fn valid_dataset_is_compatible() {
    let scan = dataset(vec![whole_subject("sub-01", &COMPLETE), whole_subject("sub-02", &COMPLETE)]);
    assert_eq!(validate_bids_directory(&scan), Ok("This directory is BIDS-compatible".to_string()));
}

#[test]
fn root_that_is_no_directory_is_a_complaint() {
    let scan = root(SubjectListing::NotADirectory);
    assert_eq!(
        validate_bids_directory(&scan),
        Err("The provided path is not a directory".to_string())
    );
}

#[test]
fn unread_root_is_a_complaint() {
    let scan = root(SubjectListing::Unreadable {
        message: "Permission denied (os error 13)".to_string(),
    });
    assert_eq!(validate_bids_directory(&scan), Err("Permission denied (os error 13)".to_string()));
}

#[test]
fn dataset_without_subjects_is_a_complaint() {
    assert_eq!(
        validate_bids_directory(&dataset(vec![])),
        Err("No sub-* directories found".to_string())
    );
    let empty = root(SubjectListing::Read { entries: vec![] });
    assert_eq!(validate_bids_directory(&empty), Err("No sub-* directories found".to_string()));
}

#[test]
fn dataset_reports_its_first_failing_subject() {
    let scan = dataset(vec![
        whole_subject("sub-01", &COMPLETE),
        whole_subject("sub-02", &[]),
        whole_subject("sub-03", &["a_bold.nii"]),
    ]);
    assert_eq!(
        validate_bids_directory(&scan),
        Err("No '_bold.json', '_bold.nii', or '_bold.nii.gz' files found in \"/data/sub-02/func\""
            .to_string())
    );
}

#[test]
fn echo_images_are_listed_sorted() {
    let scan = session(
        "",
        "/data/sub-01",
        &[
            "sub-01_echo-3_bold.nii.gz",
            "sub-01_echo-1_bold.nii.gz",
            "sub-01_echo-1_bold.json",
            "sub-01_echo-2_bold.nii",
            "sub-01_echo-6_bold.nii.gz",
            "sub-01_echo-0_bold.nii.gz",
            "sub-01_echo-2_bold.nii.gz.bak",
            "echo-1_bold.nii",
            "sub-01_echo-4_run-1_bold.nii.gz",
            "sub-01_echo-5_boldXnii",
            "sub-01_T1w.nii.gz",
        ],
    );
    assert_eq!(
        extract_echo_nifti_file_paths(&scan),
        Ok(vec![
            "/data/sub-01/func/sub-01_echo-1_bold.nii.gz".to_string(),
            "/data/sub-01/func/sub-01_echo-2_bold.nii".to_string(),
            "/data/sub-01/func/sub-01_echo-3_bold.nii.gz".to_string(),
            "/data/sub-01/func/sub-01_echo-4_run-1_bold.nii.gz".to_string(),
        ])
    );
}

#[test]
fn echo_images_of_empty_func_directory_are_none() {
    assert_eq!(extract_echo_nifti_file_paths(&session("", "/d", &[])), Ok(Vec::new()));
}

#[test]
fn echo_images_of_unread_func_directory_are_a_complaint() {
    let mut scan = session("", "/data/sub-01", &[]);
    scan.func = failed("/data/sub-01/func", false, "No such file or directory (os error 2)");
    assert_eq!(
        extract_echo_nifti_file_paths(&scan),
        Err("Failed to read func directory \"/data/sub-01/func\": No such file or directory (os error 2)"
            .to_string())
    );
}

#[test]
fn unreadable_entry_ends_the_listing_of_echo_images() {
    let mut scan = session("", "/data/sub-01", &["sub-01_echo-1_bold.nii.gz"]);
    if let Listing::Read { entries } = &mut scan.func.listing {
        entries.push(unreadable("first failure"));
        entries.push(file("/data/sub-01/func", "sub-01_echo-2_bold.nii.gz"));
        entries.push(unreadable("second failure"));
    }
    assert_eq!(
        extract_echo_nifti_file_paths(&scan),
        Err("Failed to read directory entry: first failure".to_string())
    );
    assert_eq!(
        extract_bold_metadata(&scan).map(|files| files.len()),
        Err("Failed to read directory entry: first failure".to_string())
    );
}

#[test]
fn echo_number_is_read_from_the_path() {
    assert_eq!(extract_echo_number("/data/sub-01/func/sub-01_echo-2_bold.json"), Some(EchoNum(2)));
    assert_eq!(extract_echo_number("echo-12"), Some(EchoNum(12)));
    assert_eq!(extract_echo_number("echo-007x"), Some(EchoNum(7)));
    assert_eq!(extract_echo_number("echo-255"), Some(EchoNum(255)));
    assert_eq!(extract_echo_number("/data/echo-7/sub-01_echo-2_bold.json"), Some(EchoNum(7)));
    assert_eq!(extract_echo_number("echo-x_echo-3"), Some(EchoNum(3)));
}

#[test]
fn echo_number_is_missing_where_the_path_names_none() {
    assert_eq!(extract_echo_number("/data/sub-01/func/sub-01_bold.json"), None);
    assert_eq!(extract_echo_number("echo-"), None);
    assert_eq!(extract_echo_number("echo-256"), None);
    assert_eq!(extract_echo_number("echo-300_echo-2"), None);
    assert_eq!(extract_echo_number("echo-٣"), None);
    assert_eq!(extract_echo_number(""), None);
}

#[test]
fn metadata_names_are_recognised() {
    assert!(is_metadata_name("sub-01_task-rest_echo-1_bold.json"));
    assert!(is_metadata_name("x_echo-5_bold.json"));
    assert!(!is_metadata_name("x_echo-6_bold.json"));
    assert!(!is_metadata_name("x_echo-1_bold.nii"));
    assert!(!is_metadata_name("x_echo-1_bold.json.bak"));
    assert!(!is_metadata_name("x_echo-1_boldXjson"));
    assert!(!is_metadata_name("echo-1_bold.json"));
}

#[test]
fn entry_is_taken_as_metadata_file() {
    let taken = extract_file_metadata(&file("/f", "a_echo-3_bold.json")).unwrap();
    assert_eq!(taken.echo_num, EchoNum(3));
    assert_eq!(taken.path, "/f/a_echo-3_bold.json");
    assert_eq!(taken.document, "{\"EchoTime\": 0.0142, \"TaskName\": \"rest\"}");
    assert_eq!(taken.task_name, Some("rest".to_string()));
    assert_eq!(taken.skull_stripped, None);
    assert_eq!(taken.slice_timing_corrected, None);
    assert!(extract_file_metadata(&broken_json("/f", "a_echo-3_bold.json")).is_none());
    assert!(extract_file_metadata(&file_with("/f", "a_echo-3_bold.json", None)).is_none());
    assert!(extract_file_metadata(&file_with("/f", "a_echo-3_bold.json", Some(""))).is_none());
    assert!(extract_file_metadata(&file_with("/f", "a_echo-3_bold.json", Some("[1, 2]"))).is_some());
    assert!(extract_file_metadata(&file_with("/f", "a_echo-3_bold.json", Some("null"))).is_some());
    assert!(extract_file_metadata(&file_with("/f", "a_echo-3_bold.json", Some("{} x"))).is_none());
    assert!(extract_file_metadata(&file("/f", "a_echo-3_bold.nii")).is_none());
    assert!(extract_file_metadata(&unreadable("no")).is_none());
}

fn meta(echo: u8, path: &str) -> BoldMetadata {
    BoldMetadata {
        echo_num: EchoNum(echo),
        skull_stripped: None,
        slice_timing_corrected: Some(echo % 2 == 0),
        task_name: Some(format!("task-{}", path)),
        path: path.to_string(),
        document: "{}".to_string(),
    }
}

fn chosen(files: &[BoldMetadata]) -> Vec<(u8, String)> {
    files.iter().map(|found| (found.echo_num.0, found.path.clone())).collect()
}

#[test]
fn one_metadata_file_per_echo_in_rising_order() {
    let files = vec![
        meta(3, "c"),
        meta(1, "a1"),
        meta(255, "z"),
        meta(1, "a2"),
        meta(0, "o"),
        meta(3, "c2"),
    ];
    assert_eq!(
        chosen(&choose_metadata(&files)),
        vec![
            (0, "o".to_string()),
            (1, "a1".to_string()),
            (3, "c".to_string()),
            (255, "z".to_string()),
        ]
    );
    assert!(choose_metadata(&Vec::new()).is_empty());
}

#[test]
fn metadata_of_session_skips_what_cannot_be_used() {
    let func = "/data/sub-01/func";
    let mut scan = session("", "/data/sub-01", &[]);
    scan.func = read(
        func,
        vec![
            file(func, "run-2_echo-2_bold.json"),
            broken_json(func, "run-1_echo-1_bold.json"),
            file(func, "run-2_echo-1_bold.json"),
            file(func, "run-3_echo-1_bold.json"),
            file(func, "run-1_echo-2_bold.nii.gz"),
            file(func, "run-1_echo-9_bold.json"),
            file(func, "notes.json"),
        ],
    );
    let files = extract_bold_metadata(&scan).unwrap();
    assert_eq!(
        chosen(&files),
        vec![
            (1, format!("{}/run-2_echo-1_bold.json", func)),
            (2, format!("{}/run-2_echo-2_bold.json", func)),
        ]
    );
}

#[test]
fn metadata_of_session_without_func_directory_is_a_complaint() {
    let mut scan = session("ses-1", "/data/sub-01/ses-1", &[]);
    scan.func = failed("/data/sub-01/ses-1/func", false, "No such file or directory (os error 2)");
    assert_eq!(
        extract_bold_metadata(&scan).map(|files| files.len()),
        Err("No 'func' directory found in \"/data/sub-01/ses-1\"".to_string())
    );
    scan.func = failed("/data/sub-01/ses-1/func", true, "Permission denied");
    assert_eq!(
        extract_bold_metadata(&scan).map(|files| files.len()),
        Err("Failed to read func directory \"/data/sub-01/ses-1/func\": Permission denied"
            .to_string())
    );
}

#[test]
fn structure_lists_subjects_sessions_and_metadata() {
    let first = subject(
        "sub-01",
        vec![
            session("ses-1", "/data/sub-01/ses-1", &COMPLETE),
            session("ses-2", "/data/sub-01/ses-2", &["b_echo-1_bold.nii", "b_echo-3_bold.json"]),
        ],
    );
    let second = whole_subject("sub-02", &["c_echo-2_bold.nii.gz", "c_echo-5_bold.json"]);
    let structure = extract_bids_structure(&dataset(vec![first, second])).unwrap();
    assert_eq!(
        chosen(&structure.metadata),
        vec![
            (1, "/data/sub-01/ses-1/func/sub-01_task-rest_echo-1_bold.json".to_string()),
            (2, "/data/sub-01/ses-1/func/sub-01_task-rest_echo-2_bold.json".to_string()),
        ]
    );
    assert_eq!(structure.subjects.len(), 2);
    assert_eq!(structure.subjects[0].id, 0);
    assert_eq!(structure.subjects[0].name, "sub-01");
    assert_eq!(structure.subjects[0].sessions.len(), 2);
    assert_eq!(structure.subjects[0].sessions[0].sub_id, 0);
    assert_eq!(structure.subjects[0].sessions[0].name, "ses-1");
    assert_eq!(
        structure.subjects[0].sessions[0].echo_nifti_file_paths,
        vec![
            "/data/sub-01/ses-1/func/sub-01_task-rest_echo-1_bold.nii.gz",
            "/data/sub-01/ses-1/func/sub-01_task-rest_echo-2_bold.nii.gz",
        ]
    );
    assert_eq!(structure.subjects[0].sessions[1].name, "ses-2");
    assert_eq!(
        structure.subjects[0].sessions[1].echo_nifti_file_paths,
        vec!["/data/sub-01/ses-2/func/b_echo-1_bold.nii"]
    );
    assert_eq!(structure.subjects[1].id, 1);
    assert_eq!(structure.subjects[1].name, "sub-02");
    assert_eq!(structure.subjects[1].sessions.len(), 1);
    assert_eq!(structure.subjects[1].sessions[0].sub_id, 1);
    assert_eq!(structure.subjects[1].sessions[0].name, "");
    assert_eq!(
        structure.subjects[1].sessions[0].echo_nifti_file_paths,
        vec!["/data/sub-02/func/c_echo-2_bold.nii.gz"]
    );
}

#[test]
fn metadata_comes_from_the_first_subject_that_has_any() {
    let first = subject(
        "sub-01",
        vec![
            session("ses-1", "/data/sub-01/ses-1", &["a_echo-1_bold.nii"]),
            session("ses-2", "/data/sub-01/ses-2", &["a_echo-4_bold.json"]),
        ],
    );
    let second = whole_subject("sub-02", &["c_echo-5_bold.json", "c_echo-2_bold.json"]);
    let third = whole_subject("sub-03", &["d_echo-1_bold.json"]);
    let structure = extract_bids_structure(&dataset(vec![first, second, third])).unwrap();
    assert_eq!(
        chosen(&structure.metadata),
        vec![
            (2, "/data/sub-02/func/c_echo-2_bold.json".to_string()),
            (5, "/data/sub-02/func/c_echo-5_bold.json".to_string()),
        ]
    );
    assert_eq!(structure.subjects.len(), 3);
}

#[test]
fn structure_of_dataset_without_subjects_is_empty() {
    let structure = extract_bids_structure(&dataset(vec![])).unwrap();
    assert!(structure.metadata.is_empty());
    assert!(structure.subjects.is_empty());
}

#[test]
fn structure_complains_about_the_root() {
    let scan = root(SubjectListing::NotADirectory);
    assert_eq!(
        extract_bids_structure(&scan).map(|_| ()),
        Err("Provided path is not a directory: /data".to_string())
    );
    let scan = root(SubjectListing::Unreadable { message: "Permission denied".to_string() });
    assert_eq!(
        extract_bids_structure(&scan).map(|_| ()),
        Err("Failed to read directory /data: Permission denied".to_string())
    );
}

#[test]
fn structure_complains_about_the_first_failure() {
    let mut broken = whole_subject("sub-02", &[]);
    broken.whole.func = failed("/data/sub-02/func", false, "No such file or directory");
    let unread = unread_subject("sub-03", "Permission denied");
    let scan = dataset(vec![whole_subject("sub-01", &COMPLETE), broken, unread]);
    assert_eq!(
        extract_bids_structure(&scan).map(|_| ()),
        Err("Failed to read func directory \"/data/sub-02/func\": No such file or directory"
            .to_string())
    );
    let unread = unread_subject("sub-01", "Permission denied");
    let scan = dataset(vec![unread, whole_subject("sub-02", &COMPLETE)]);
    assert_eq!(
        extract_bids_structure(&scan).map(|_| ()),
        Err("Failed to read subject directory \"/data/sub-01\": Permission denied".to_string())
    );
}

#[test]
fn echo_numbers_are_ordered_by_value() {
    assert!(EchoNum(1) < EchoNum(2));
    assert!(EchoNum(10) > EchoNum(9));
    assert_eq!(EchoNum(3), EchoNum(3));
    let copy = EchoNum(4);
    let other = copy;
    assert_eq!(copy, other);
}

#[test]
fn metadata_fields_are_read_from_the_document() {
    let text = "{\"TaskName\": \"n-back\", \"SkullStripped\": false, \"SliceTimingCorrected\": true, \"EchoTime\": 0.03}";
    let taken = extract_file_metadata(&file_with("/f", "a_echo-2_bold.json", Some(text))).unwrap();
    assert_eq!(taken.echo_num, EchoNum(2));
    assert_eq!(taken.task_name, Some("n-back".to_string()));
    assert_eq!(taken.skull_stripped, Some(false));
    assert_eq!(taken.slice_timing_corrected, Some(true));
}

#[test]
fn metadata_fields_of_another_kind_are_missing() {
    let text = "{\"TaskName\": 3, \"SkullStripped\": \"false\", \"SliceTimingCorrected\": null}";
    let taken = extract_file_metadata(&file_with("/f", "a_echo-2_bold.json", Some(text))).unwrap();
    assert_eq!(taken.task_name, None);
    assert_eq!(taken.skull_stripped, None);
    assert_eq!(taken.slice_timing_corrected, None);
    let list = extract_file_metadata(&file_with("/f", "a_echo-2_bold.json", Some("[true]"))).unwrap();
    assert_eq!(list.task_name, None);
    assert_eq!(list.skull_stripped, None);
}

#[test]
fn chosen_metadata_keeps_its_fields() {
    let files = vec![meta(2, "b"), meta(1, "a")];
    let kept = choose_metadata(&files);
    assert_eq!(kept[0].task_name, Some("task-a".to_string()));
    assert_eq!(kept[0].slice_timing_corrected, Some(false));
    assert_eq!(kept[1].task_name, Some("task-b".to_string()));
    assert_eq!(kept[1].slice_timing_corrected, Some(true));
    assert_eq!(kept[1].skull_stripped, None);
    assert_eq!(kept[1].document, "{}");
}

#[test]
fn subject_without_sessions_is_judged_by_its_own_func_directory() {
    let empty = subject("sub-01", vec![]);
    assert_eq!(
        validate_subject_directory(&empty),
        Err("No 'func' directory found in \"/data/sub-01\"".to_string())
    );
    assert_eq!(validate_subject_directory(&whole_subject("sub-01", &COMPLETE)), Ok(()));
    assert_eq!(
        validate_subject_directory(&whole_subject("sub-01", &["a_bold.json"])),
        Err("Missing required '_bold.json' or '_bold.nii'/'_bold.nii.gz' files in \"/data/sub-01/func\""
            .to_string())
    );
}

#[test]
fn subject_with_sessions_is_not_judged_by_its_own_func_directory() {
    let mut scan = subject("sub-01", vec![session("ses-1", "/data/sub-01/ses-1", &COMPLETE)]);
    scan.whole.func = absent("/data/sub-01/func");
    assert_eq!(validate_subject_directory(&scan), Ok(()));
    scan.whole.func = func_of("/data/sub-01", &COMPLETE);
    if let SessionListing::Read { entries } = &mut scan.listing {
        entries.push(session_entry(true, bare("ses-2", "/data/sub-01/ses-2")));
    }
    assert_eq!(
        validate_subject_directory(&scan),
        Err("No 'func' directory found in \"/data/sub-01/ses-2\"".to_string())
    );
}

#[test]
fn every_sub_directory_of_the_root_is_validated() {
    let scan = dataset(vec![whole_subject("sub-01", &COMPLETE), subject("sub-02", vec![])]);
    assert_eq!(
        validate_bids_directory(&scan),
        Err("No 'func' directory found in \"/data/sub-02\"".to_string())
    );
}

#[test]
fn structure_names_the_sub_directories_in_order() {
    let scan = dataset(vec![
        whole_subject("sub-b", &COMPLETE),
        whole_subject("sub-a", &[]),
        subject("sub-c", vec![session("ses-2", "/data/sub-c/ses-2", &[])]),
    ]);
    let structure = extract_bids_structure(&scan).unwrap();
    let found: Vec<(usize, &str, Vec<&str>)> = structure
        .subjects
        .iter()
        .map(|s| (s.id, s.name.as_str(), s.sessions.iter().map(|x| x.name.as_str()).collect()))
        .collect();
    assert_eq!(
        found,
        vec![(0, "sub-b", vec![""]), (1, "sub-a", vec![""]), (2, "sub-c", vec!["ses-2"])]
    );
}

#[test]
fn subject_without_anything_below_it_cannot_be_extracted() {
    let extracted = extract_subject(&subject("sub-01", vec![]), 0, Vec::new());
    assert_eq!(
        extracted.map(|_| ()),
        Err("Failed to read func directory \"/data/sub-01/func\": No such file or directory (os error 2)"
            .to_string())
    );
    let (found, held) = extract_subject(&whole_subject("sub-01", &COMPLETE), 4, Vec::new()).unwrap();
    assert_eq!((found.id, found.name.as_str(), found.sessions.len()), (4, "sub-01", 1));
    assert_eq!(found.sessions[0].sub_id, 4);
    assert_eq!(held.len(), 2);
}

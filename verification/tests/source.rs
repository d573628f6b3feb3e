use std::sync::Arc;

use mib_rs::source::{
    has_valid_extension, memory_label, CandidateId, SourceCandidate, SourceConfig, SourceOrigin,
};

#[test]
fn extension_check() {
    let ext_set: Vec<String> = vec!["".to_string(), ".mib".to_string(), ".smi".to_string()];
    assert!(has_valid_extension("IF-MIB", &ext_set));
    assert!(has_valid_extension("test.mib", &ext_set));
    assert!(has_valid_extension("test.MIB", &ext_set));
    assert!(!has_valid_extension("test.txt", &ext_set));
}

#[test]
fn candidate_retains_shared_bytes_and_independent_metadata() {
    let bytes: Arc<[u8]> = Arc::from(&b"contents"[..]);
    let candidate = SourceCandidate::new(
        CandidateId::new("document-42"),
        SourceOrigin::custom("workspace", "buffer-42"),
        "ACME-MIB (modified)",
        Arc::clone(&bytes),
    );

    assert_eq!(candidate.identity().as_str(), "document-42");
    assert_eq!(
        candidate.origin(),
        &SourceOrigin::custom("workspace", "buffer-42")
    );
    assert_eq!(candidate.label(), "ACME-MIB (modified)");
    assert_eq!(candidate.bytes().as_ptr(), bytes.as_ptr());
    assert!(Arc::ptr_eq(candidate.shared_bytes(), &bytes));
}

#[test]
fn scoped_identity_names_position_and_length() {
    let id = CandidateId::new("doc");
    assert_eq!(id.scoped(12).as_str(), "12:3:doc");
    let candidate = SourceCandidate::new(
        CandidateId::new("é"),
        SourceOrigin::memory("X"),
        "label",
        Arc::from(&b"x"[..]),
    )
    .with_scoped_identity(0);
    assert_eq!(candidate.identity().as_str(), "0:2:é");
    assert_eq!(candidate.label(), "label");
}

#[test]
fn configured_extensions_are_normalized() {
    let config = SourceConfig::default().with_extensions(&["MIB", ".TXT", ""]);
    assert_eq!(config.extensions(), &[".mib".to_string(), ".txt".to_string(), "".to_string()]);
    let defaults = SourceConfig::default();
    assert_eq!(defaults.extensions().len(), 5);
    assert!(has_valid_extension("dir/IF-MIB.my", defaults.extensions()));
    assert!(!has_valid_extension("dir/.hidden.c", defaults.extensions()));
}

#[test]
fn memory_labels_name_the_module() {
    assert_eq!(memory_label("DISPLAY-NAME"), "<memory:DISPLAY-NAME>");
}

#[test]
fn candidate_id_conversions_keep_the_text() {
    let s = "IF-MIB.txt";
    assert_eq!(CandidateId::new(s).as_str(), s);
    assert_eq!(CandidateId::from(s).as_str(), s);
    assert_eq!(CandidateId::from(s.to_string()).as_str(), s);
}

#[test]
fn extension_of_plain_file_names() {
    let ext_set: Vec<String> = vec!["".to_string(), ".mib".to_string()];
    assert!(has_valid_extension(".mib", &ext_set));
    assert!(has_valid_extension("..", &ext_set));
    assert!(has_valid_extension("a.b.MIB", &ext_set));
    assert!(!has_valid_extension("a.mib.txt", &ext_set));
    assert!(!has_valid_extension("trailing.", &ext_set));
}

#[test]
fn built_in_non_file_sources_use_typed_origins() {
    let memory = mib_rs::source::memory("DISPLAY-NAME".to_string(), b"bytes".to_vec());
    let bytes = memory.find("DISPLAY-NAME").unwrap();
    let memory_candidate =
        mib_rs::source::memory_candidate("DISPLAY-NAME", std::sync::Arc::from(bytes));
    assert_eq!(
        memory_candidate.origin(),
        &mib_rs::source::SourceOrigin::memory("DISPLAY-NAME")
    );
    assert_eq!(memory_candidate.label(), "<memory:DISPLAY-NAME>");
    assert_eq!(memory_candidate.identity().as_str(), "DISPLAY-NAME");
    assert_eq!(memory_candidate.bytes(), b"bytes");
}

#[test]
fn memory_source_lists_single_module() {
    let src = mib_rs::source::memory(
        "MY-MIB".to_string(),
        b"MY-MIB DEFINITIONS ::= BEGIN END".to_vec(),
    );
    assert_eq!(src.list_modules(), vec!["MY-MIB"]);
}

#[test]
fn memory_modules_last_entry_wins_and_names_sorted() {
    let src = mib_rs::source::memory_modules(vec![
        ("ZETA-MIB".to_string(), b"z1".to_vec()),
        ("ALPHA-MIB".to_string(), b"a".to_vec()),
        ("ZETA-MIB".to_string(), b"z2".to_vec()),
        ("BETA-MIB".to_string(), b"b".to_vec()),
    ]);
    assert_eq!(src.list_modules(), vec!["ALPHA-MIB", "BETA-MIB", "ZETA-MIB"]);
    assert_eq!(src.find("ZETA-MIB"), Some(b"z2".as_slice()));
    assert_eq!(src.find("ALPHA-MIB"), Some(b"a".as_slice()));
    assert_eq!(src.find("GAMMA-MIB"), None);
}

#[test]
fn chain_answers_with_first_provider_scoped_and_lists_names_once() {
    assert!(matches!(
        mib_rs::source::chain_step(0, None),
        mib_rs::source::ChainStep::Next
    ));
    let candidate = mib_rs::source::memory_candidate("A-MIB", Arc::from(b"x".as_slice()));
    match mib_rs::source::chain_step(2, Some(candidate)) {
        mib_rs::source::ChainStep::Found(c) => {
            assert_eq!(c.identity().as_str(), "2:5:A-MIB");
            assert_eq!(c.label(), "<memory:A-MIB>");
        }
        mib_rs::source::ChainStep::Next => panic!("expected a candidate"),
    }
    let names = mib_rs::source::chain_modules(vec![
        vec!["B-MIB".to_string(), "A-MIB".to_string()],
        vec!["A-MIB".to_string(), "C-MIB".to_string()],
    ]);
    assert_eq!(names, vec!["B-MIB", "A-MIB", "C-MIB"]);
}

use rvk::objects::document::DocumentType;

#[test]
fn test_document_type() {
    assert_eq!(1, i64::from(DocumentType::Text));
    assert_eq!(DocumentType::Archive, 2.into());
}

#[test]
fn every_number_has_its_document_type() {
    let kinds = [
        (1, DocumentType::Text),
        (2, DocumentType::Archive),
        (3, DocumentType::Gif),
        (4, DocumentType::Image),
        (5, DocumentType::Audio),
        (6, DocumentType::Video),
        (7, DocumentType::Ebook),
        (8, DocumentType::Other),
    ];
    for (number, kind) in kinds {
        assert_eq!(DocumentType::from(number), kind);
        assert_eq!(i64::from(kind), number);
    }
}

#[test]
fn unknown_numbers_are_other_documents() {
    assert_eq!(DocumentType::from(0), DocumentType::Other);
    assert_eq!(DocumentType::from(-1), DocumentType::Other);
    assert_eq!(DocumentType::from(9), DocumentType::Other);
    assert_eq!(DocumentType::from(i64::MAX), DocumentType::Other);
    assert_eq!(DocumentType::from(i64::MIN), DocumentType::Other);
}

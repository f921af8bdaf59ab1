use anonydcm::record::rename;
use anonydcm::record::status_line;
use anonydcm::record::value_fits;
use anonydcm::record::Failure;
use anonydcm::record::FileOutcome;
use anonydcm::record::Status;
use anonydcm::record::PATIENT_NAME_ELEMENT;
use anonydcm::record::PATIENT_NAME_GROUP;
use anonydcm::record::VALUE_LENGTH_LIMIT;
use dicom::dictionary_std::tags;
use dicom::dictionary_std::uids;
use dicom::object::mem::InMemElement;
use dicom::object::FileMetaTableBuilder;
use dicom::object::InMemDicomObject;
use dicom::object::Tag;

fn sample_record() -> InMemDicomObject {
    let mut obj = InMemDicomObject::new_empty();
    obj.put_element(InMemElement::new(tags::SOP_CLASS_UID, dicom::core::VR::UI, uids::CT_IMAGE_STORAGE));
    obj.put_element(InMemElement::new(
        tags::SOP_INSTANCE_UID,
        dicom::core::VR::UI,
        "2.25.60156688944589400766024286894543900794",
    ));
    obj.put_element(InMemElement::new(tags::PATIENT_NAME, dicom::core::VR::PN, "Doe^John"));
    obj.put_element(InMemElement::new(tags::PATIENT_ID, dicom::core::VR::LO, "ID-0042"));
    obj.put_element(InMemElement::new(tags::STUDY_DATE, dicom::core::VR::DA, "20200131"));
    obj.put_element(InMemElement::new(tags::MODALITY, dicom::core::VR::CS, "CT"));
    obj.put_element(InMemElement::new(
        tags::PIXEL_DATA,
        dicom::core::VR::OB,
        dicom::core::PrimitiveValue::from(vec![1u8, 2, 3, 4, 250, 251, 252, 253]),
    ));
    obj
}

fn patient_name_of(obj: &InMemDicomObject) -> String {
    obj.element(tags::PATIENT_NAME).unwrap().to_raw_str().unwrap().to_string()
}

fn same_but_for_the_patient_name(before: &InMemDicomObject, after: &InMemDicomObject) -> bool {
    let kept = before.iter().filter(|e| e.header().tag != tags::PATIENT_NAME).all(|e| {
        after.get(e.header().tag) == Some(e)
    });
    let nothing_new = after.iter().all(|e| {
        e.header().tag == tags::PATIENT_NAME || before.get(e.header().tag).is_some()
    });
    kept && nothing_new
}

#[test]
fn the_patient_name_is_the_attribute_0010_0010() {
    assert_eq!(Tag(PATIENT_NAME_GROUP, PATIENT_NAME_ELEMENT), tags::PATIENT_NAME);
}

#[test]
fn the_length_limit_is_the_undefined_length() {
    assert_eq!(VALUE_LENGTH_LIMIT, 0xFFFF_FFFF);
}

#[test]
fn a_value_fits_below_the_length_limit() {
    assert!(value_fits(0));
    assert!(value_fits(64));
    assert!(value_fits(0xFFFF_FFFE));
    assert!(!value_fits(0xFFFF_FFFF));
    assert!(!value_fits(usize::MAX));
}

#[test]
fn rename_with_the_empty_name_clears_the_field() {
    let mut obj = sample_record();
    let outcome = rename(&mut obj, "/data/patient1/img1.dcm", "");
    assert_eq!(
        outcome,
        FileOutcome { path: "/data/patient1/img1.dcm".to_string(), status: Status::Anonymized }
    );
    assert_eq!(patient_name_of(&obj), "");
    assert_eq!(obj.element(tags::PATIENT_NAME).unwrap().vr(), dicom::core::VR::PN);
}

#[test]
fn rename_with_a_name_sets_exactly_that_name() {
    let mut obj = sample_record();
    let outcome = rename(&mut obj, "img1.dcm", "sub1");
    assert_eq!(outcome, FileOutcome { path: "img1.dcm".to_string(), status: Status::Renamed });
    assert_eq!(patient_name_of(&obj), "sub1");
    assert_eq!(obj.element(tags::PATIENT_NAME).unwrap().vr(), dicom::core::VR::PN);
}

#[test]
fn rename_keeps_the_name_letter_for_letter() {
    for name in ["John Brown", " sub1 ", "Müller^Jürgen", "a\\b", "x", "^^^^", "sub1\0"] {
        let mut obj = sample_record();
        let outcome = rename(&mut obj, "f.dcm", name);
        assert_eq!(outcome.status, Status::Renamed);
        assert_eq!(patient_name_of(&obj), name);
    }
}

#[test]
fn rename_changes_the_record() {
    let before = sample_record();
    let mut obj = before.clone();
    rename(&mut obj, "f.dcm", "sub1");
    assert_ne!(obj, before);
    assert_ne!(patient_name_of(&obj), patient_name_of(&before));
}

#[test]
fn rename_touches_no_other_element() {
    for name in ["", "sub1"] {
        let before = sample_record();
        let mut obj = before.clone();
        rename(&mut obj, "f.dcm", name);
        assert!(same_but_for_the_patient_name(&before, &obj));
        assert_eq!(obj.iter().count(), before.iter().count());
        assert_eq!(obj.element(tags::PATIENT_ID).unwrap().to_raw_str().unwrap(), "ID-0042");
        assert_eq!(obj.element(tags::STUDY_DATE).unwrap().to_raw_str().unwrap(), "20200131");
        assert_eq!(
            obj.element(tags::PIXEL_DATA).unwrap().to_bytes().unwrap().to_vec(),
            vec![1u8, 2, 3, 4, 250, 251, 252, 253]
        );
    }
}

#[test]
fn rename_adds_the_field_where_there_was_none() {
    let mut before = sample_record();
    before.remove_element(tags::PATIENT_NAME);
    let mut obj = before.clone();
    let outcome = rename(&mut obj, "f.dcm", "sub1");
    assert_eq!(outcome.status, Status::Renamed);
    assert_eq!(patient_name_of(&obj), "sub1");
    assert_eq!(obj.iter().count(), before.iter().count() + 1);
    assert!(same_but_for_the_patient_name(&before, &obj));
}

#[test]
fn rename_of_an_empty_record() {
    let mut obj = InMemDicomObject::new_empty();
    let outcome = rename(&mut obj, "", "");
    assert_eq!(outcome, FileOutcome { path: String::new(), status: Status::Anonymized });
    assert_eq!(patient_name_of(&obj), "");
    assert_eq!(obj.iter().count(), 1);
}

#[test]
fn rename_twice_keeps_the_last_name() {
    let mut obj = sample_record();
    rename(&mut obj, "f.dcm", "first");
    rename(&mut obj, "f.dcm", "second");
    assert_eq!(patient_name_of(&obj), "second");
    rename(&mut obj, "f.dcm", "");
    assert_eq!(patient_name_of(&obj), "");
}

#[test]
fn rename_survives_encoding_and_decoding() {
    let first = sample_record()
        .with_meta(FileMetaTableBuilder::new().transfer_syntax(uids::EXPLICIT_VR_LITTLE_ENDIAN))
        .unwrap();
    let mut input: Vec<u8> = Vec::new();
    first.write_all(&mut input).unwrap();

    let mut decoded = dicom::object::from_reader(&input[..]).unwrap();
    let before: InMemDicomObject = (*decoded).clone();
    let outcome = rename(&mut *decoded, "img1.dcm", "sub1");
    assert_eq!(outcome.status, Status::Renamed);
    let mut output: Vec<u8> = Vec::new();
    decoded.write_all(&mut output).unwrap();

    let again = dicom::object::from_reader(&output[..]).unwrap();
    assert_eq!(patient_name_of(&again), "sub1");
    assert!(same_but_for_the_patient_name(&before, &again));
    assert_eq!(again.meta(), decoded.meta());
    assert_eq!(again.meta().transfer_syntax(), first.meta().transfer_syntax());
}

#[test]
fn status_line_says_what_was_done() {
    assert_eq!(status_line("img1.dcm", Status::Anonymized), "img1.dcm anonymized!");
    assert_eq!(status_line("img1.dcm", Status::Renamed), "img1.dcm renamed!");
    assert_eq!(status_line("img1.dcm", Status::Failed(Failure::NameTooLong)), "img1.dcm failed!");
    assert_eq!(status_line("", Status::Renamed), " renamed!");
}

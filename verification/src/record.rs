//! The decoded record and the one field of it that a run rewrites.
//!
//! A record is a data set of the `dicom` crate, held in memory. The contracts
//! see it as a map from tags to elements, [`elements`]; of an element they see
//! its value representation and its text. Reading a record from a file and
//! writing it to one is left to the caller.

use vstd::prelude::*;
use dicom::dictionary_std::StandardDataDictionary;
use dicom::object::mem::InMemElement;
use dicom::object::InMemDicomObject;
use dicom::object::Tag;

verus! {

/// `dicom::object::InMemDicomObject`, a data set held in memory. Nothing is
/// known of a value of it but what [`elements`] names.
#[verifier::external_type_specification]
#[verifier::external_body]
#[verifier::reject_recursive_types(D)]
pub struct ExInMemDicomObject<D>(InMemDicomObject<D>);

/// `dicom::dictionary_std::StandardDataDictionary`, the unit type that stands
/// for the standard's attribute dictionary.
#[verifier::external_type_specification]
#[verifier::external_body]
pub struct ExStandardDataDictionary(StandardDataDictionary);

/// The group number of the patient's name, the attribute (0010,0010).
pub const PATIENT_NAME_GROUP: u16 = 0x0010;

/// The element number of the patient's name, the attribute (0010,0010).
pub const PATIENT_NAME_ELEMENT: u16 = 0x0010;

/// The length in bytes that no value reaches: an element holds the length of its
/// value in 32 bits and keeps the largest of them for "undefined".
pub const VALUE_LENGTH_LIMIT: usize = 0xFFFF_FFFF;

/// What the contracts say of one data element.
pub struct Element {
    /// The two letters of its value representation, as `VR::to_string` gives them.
    pub vr: Seq<char>,
    /// Its value as raw text, as `DataElement::to_raw_str` gives it, with
    /// nothing trimmed; `None` where the value is a sequence of items or of
    /// pixel fragments, which has no text.
    pub text: Option<Seq<char>>,
}

/// Why a record was left as it was.
#[derive(Clone, Copy, Debug, PartialEq, Eq, Structural)]
pub enum Failure {
    /// The new name has `VALUE_LENGTH_LIMIT` bytes or more: no element holds it.
    NameTooLong,
}

/// How a file came out of a run.
#[derive(Clone, Copy, Debug, PartialEq, Eq, Structural)]
pub enum Status {
    /// The patient's name was cleared.
    Anonymized,
    /// The patient's name was replaced by another.
    Renamed,
    /// Nothing was done to the record.
    Failed(Failure),
}

/// A file and how it came out.
#[derive(Clone, Debug, PartialEq, Eq)]
pub struct FileOutcome {
    pub path: String,
    pub status: Status,
}

/// What a data set holds: its elements by their tags, group number first, with
/// one entry for each element.
pub uninterp spec fn elements(obj: InMemDicomObject<StandardDataDictionary>) -> Map<
    (u16, u16),
    Element,
>;

/// The tag of the patient's name.
pub open spec fn patient_name_tag() -> (u16, u16) {
    (PATIENT_NAME_GROUP, PATIENT_NAME_ELEMENT)
}

/// A person's name as an element: `text` under the value representation PN.
pub open spec fn person_name(text: Seq<char>) -> Element {
    Element { vr: seq!['P', 'N'], text: Some(text) }
}

/// The elements of a record once the patient's name is set to `new_name`.
pub open spec fn renamed(before: Map<(u16, u16), Element>, new_name: Seq<char>) -> Map<
    (u16, u16),
    Element,
> {
    before.insert(patient_name_tag(), person_name(new_name))
}

/// Whether an element can hold `new_name`: its length in bytes is under
/// [`VALUE_LENGTH_LIMIT`].
pub open spec fn fits(new_name: &str) -> bool {
    new_name.len() < VALUE_LENGTH_LIMIT
}

/// How a file comes out when the patient's name is set to `new_name`.
pub open spec fn classify(new_name: Seq<char>) -> Status {
    if new_name.len() == 0 {
        Status::Anonymized
    } else {
        Status::Renamed
    }
}

/// How a file comes out of a rename to `new_name`.
pub open spec fn status_of(new_name: &str) -> Status {
    if fits(new_name) {
        classify(new_name@)
    } else {
        Status::Failed(Failure::NameTooLong)
    }
}

/// The line that reports a file of the name `file_name`.
pub open spec fn status_line_text(file_name: Seq<char>, status: Status) -> Seq<char> {
    match status {
        Status::Anonymized => file_name + " anonymized!"@,
        Status::Renamed => file_name + " renamed!"@,
        Status::Failed(_) => file_name + " failed!"@,
    }
}

/// Text takes at least one byte for each character, and at most four.
pub proof fn lemma_encoded_length(chars: Seq<char>)
    ensures
        chars.len() <= vstd::utf8::encode_utf8(chars).len() <= 4 * chars.len(),
    decreases chars.len(),
{
    if chars.len() > 0 {
        lemma_encoded_length(chars.drop_first());
    }
}

/// A name of fewer than 2^30 characters fits.
pub proof fn lemma_short_name_fits(new_name: &str)
    requires
        4 * new_name@.len() < VALUE_LENGTH_LIMIT,
    ensures
        fits(new_name),
{
    lemma_encoded_length(new_name@);
}

/// A rename to the empty name does not fail: the file comes out anonymized, and
/// the record holds the patient's name with an empty text.
pub proof fn lemma_empty_name_anonymizes(before: Map<(u16, u16), Element>, new_name: &str)
    requires
        new_name@.len() == 0,
    ensures
        status_of(new_name) == Status::Anonymized,
        renamed(before, new_name@).contains_key(patient_name_tag()),
        renamed(before, new_name@)[patient_name_tag()] == person_name(Seq::empty()),
{
    lemma_short_name_fits(new_name);
    assert(new_name@ == Seq::<char>::empty());
}

/// A rename to a name that is not empty, and that an element can hold, leaves
/// the file renamed, and the record holds the patient's name with exactly the
/// text of the new name.
pub proof fn lemma_name_renames(before: Map<(u16, u16), Element>, new_name: &str)
    requires
        new_name@.len() > 0,
        fits(new_name),
    ensures
        status_of(new_name) == Status::Renamed,
        renamed(before, new_name@).contains_key(patient_name_tag()),
        renamed(before, new_name@)[patient_name_tag()] == person_name(new_name@),
        renamed(before, new_name@)[patient_name_tag()].text == Some(new_name@),
{
}

/// A rename touches no element but the patient's name: every other tag is held
/// after it exactly when it was held before, with the same element.
pub proof fn lemma_renamed_keeps_others(
    before: Map<(u16, u16), Element>,
    new_name: Seq<char>,
    tag: (u16, u16),
)
    requires
        tag != patient_name_tag(),
    ensures
        renamed(before, new_name).contains_key(tag) == before.contains_key(tag),
        renamed(before, new_name)[tag] == before[tag],
{
}

/// Whether an element can hold a value of `length` bytes.
pub fn value_fits(length: usize) -> (b: bool)
    ensures
        b == (length < VALUE_LENGTH_LIMIT),
{
    length < VALUE_LENGTH_LIMIT
}

/// Calls `InMemDicomObject::put_element` with the element that
/// `InMemElement::new` makes of the tag (`group`, `element`), the value
/// representation PN and the text `value`. The element takes the place of the
/// one that the data set held under that tag, if any; all others stay. Making
/// the element panics on a value of `VALUE_LENGTH_LIMIT` bytes (modulo 2^32).
#[verifier::external_body]
fn put_person_name(
    obj: &mut InMemDicomObject<StandardDataDictionary>,
    group: u16,
    element: u16,
    value: &str,
)
    requires
        value.len() < VALUE_LENGTH_LIMIT,
    ensures
        elements(*final(obj)) == elements(*old(obj)).insert((group, element), person_name(value@)),
{
    obj.put_element(InMemElement::new(Tag(group, element), dicom::core::VR::PN, value));
}

/// Sets the patient's name of the record to `new_name` and says how the file
/// at `dicom_path` comes out: anonymized where the new name is empty, renamed
/// where it is not. No other element of the record changes. A name that no
/// element can hold fails, and the record stays as it was.
pub fn rename(
    obj: &mut InMemDicomObject<StandardDataDictionary>,
    dicom_path: &str,
    new_name: &str,
) -> (outcome: FileOutcome)
    ensures
        outcome.path@ == dicom_path@,
        outcome.status == status_of(new_name),
        fits(new_name) ==> elements(*final(obj)) == renamed(elements(*old(obj)), new_name@),
        !fits(new_name) ==> *final(obj) == *old(obj),
{
    let status = if !value_fits(new_name.len()) {
        Status::Failed(Failure::NameTooLong)
    } else {
        put_person_name(obj, PATIENT_NAME_GROUP, PATIENT_NAME_ELEMENT, new_name);
        if new_name.is_empty() {
            Status::Anonymized
        } else {
            Status::Renamed
        }
    };
    FileOutcome { path: dicom_path.to_owned(), status }
}

/// The line that reports a file: its name, then what was done to it.
pub fn status_line(file_name: &str, status: Status) -> (line: String)
    ensures
        line@ == status_line_text(file_name@, status),
{
    let mut line = file_name.to_owned();
    match status {
        Status::Anonymized => line.append(" anonymized!"),
        Status::Renamed => line.append(" renamed!"),
        Status::Failed(_) => line.append(" failed!"),
    }
    line
}

} // verus!

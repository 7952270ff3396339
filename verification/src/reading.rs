//! Reading a case from the script in which the site hands it out.

use crate::case::{Case, CaseInformation, Sequence, SequenceEntry};
use crate::json::{json_views, Json, JsonV};
use crate::patterns::{TRIAL_DATA_REGEX, TRIAL_INFORMATION_REGEX};
use crate::player::{escaped_json, retrieve_escaped_json, ReadError};
use crate::site::AAONLINE_BASE;
use crate::text::{
    concat, concat3, decimal, decimal_string, parse_i64, parse_i64_spec, push_decimal,
};
use vstd::prelude::*;

verus! {

/// The address of the script that holds the case `case_id`.
pub open spec fn script_url(case_id: u32) -> Seq<char> {
    AAONLINE_BASE@ + "/trial.js.php?trial_id="@ + decimal(case_id as nat)
}

/// The address of the script that holds the case `case_id`.
pub fn case_script_url(case_id: u32) -> (r: String)
    ensures
        r@ == script_url(case_id),
{
    let mut url = concat(AAONLINE_BASE, "/trial.js.php?trial_id=");
    push_decimal(&mut url, case_id as u64);
    url
}

/// The number of `v`, where it is a whole number that a `u32` holds.
pub open spec fn count(v: JsonV) -> Option<u32> {
    match v.integer() {
        Some(n) => if 0 <= n <= u32::MAX {
            Some(n as u32)
        } else {
            None
        },
        None => None,
    }
}

fn count_of(v: &Json, key: &str) -> (r: Option<u32>)
    ensures
        r == count(v@.member(key@)),
{
    match v.integer_of(key) {
        Some(n) => {
            if 0 <= n && n <= 4294967295 {
                Some(n as u32)
            } else {
                None
            }
        },
        None => None,
    }
}

/// The seconds that `v` holds: a whole number, or text that spells one.
pub open spec fn stamp(v: JsonV) -> Option<i64> {
    match v {
        JsonV::Number(n) => parse_i64_spec(n),
        JsonV::Text(t) => parse_i64_spec(t),
        _ => None,
    }
}

fn stamp_of(v: &Json, key: &str) -> (r: Option<i64>)
    ensures
        r == stamp(v@.member(key@)),
{
    match v.get(key) {
        Some(held) => match held {
            Json::Number(n) => parse_i64(n.as_str()),
            Json::Text(t) => parse_i64(t.as_str()),
            _ => None,
        },
        None => None,
    }
}

/// What an entry of a sequence holds: the ID of its case, and its title.
pub type EntryV = (u32, Seq<char>);

/// What a sequence holds: its title, and its entries.
pub type SequenceV = (Seq<char>, Seq<EntryV>);

/// What `entry` holds.
pub open spec fn entry_view(entry: SequenceEntry) -> EntryV {
    (entry.spec_id(), entry.spec_title())
}

/// What the entries of `list` hold.
pub open spec fn entry_views(list: Seq<SequenceEntry>) -> Seq<EntryV> {
    Seq::new(list.len(), |i: int| entry_view(list[i]))
}

/// What `sequence` holds.
pub open spec fn sequence_view(sequence: Sequence) -> SequenceV {
    (sequence.spec_title(), entry_views(sequence.spec_list()))
}

/// The entry that the document `v` describes: an object with the ID of a case under
/// `id` and its title under `title`.
pub open spec fn entry_read(v: JsonV) -> Option<EntryV> {
    match (count(v.member("id"@)), v.member("title"@).text()) {
        (Some(id), Some(title)) => Some((id, title)),
        _ => None,
    }
}

/// The entries that the documents `items` describe, where each describes one.
pub open spec fn entries_read(items: Seq<JsonV>) -> Option<Seq<EntryV>> {
    if forall|i: int| 0 <= i < items.len() ==> entry_read(#[trigger] items[i]) is Some {
        Some(Seq::new(items.len(), |i: int| entry_read(items[i])->0))
    } else {
        None
    }
}

/// The sequence that the document `v` describes: an object with a title under `title`
/// and an array of entries under `list`.
pub open spec fn sequence_read(v: JsonV) -> Option<SequenceV> {
    match (v.member("title"@).text(), v.member("list"@).items()) {
        (Some(title), Some(items)) => match entries_read(items) {
            Some(list) => Some((title, list)),
            None => None,
        },
        _ => None,
    }
}

/// What the information on a case holds.
pub struct InformationV {
    pub author: Seq<char>,
    pub author_id: u32,
    pub can_read: bool,
    pub can_write: bool,
    pub format: Seq<char>,
    pub id: u32,
    pub language: Seq<char>,
    pub last_edit_date: i64,
    pub sequence: Option<SequenceV>,
    pub title: Seq<char>,
}

/// What `information` holds.
pub open spec fn information_view(information: CaseInformation) -> InformationV {
    InformationV {
        author: information.author@,
        author_id: information.author_id,
        can_read: information.can_read,
        can_write: information.can_write,
        format: information.format@,
        id: information.id,
        language: information.language@,
        last_edit_date: information.last_edit_date,
        sequence: match information.sequence {
            Some(s) => Some(sequence_view(s)),
            None => None,
        },
        title: information.title@,
    }
}

/// The sequence under `sequence` in the document `v`: none where the field is missing or
/// `null`. The outer value is nothing where the field describes no sequence.
pub open spec fn sequence_field(v: JsonV) -> Option<Option<SequenceV>> {
    if v.member("sequence"@) is Null {
        Some(None)
    } else {
        match sequence_read(v.member("sequence"@)) {
            Some(s) => Some(Some(s)),
            None => None,
        }
    }
}

/// Whether the document `v` holds each field of the information on a case, of the kind
/// that the field is of.
pub open spec fn holds_information(v: JsonV) -> bool {
    &&& v.member("author"@).text() is Some
    &&& count(v.member("author_id"@)) is Some
    &&& v.member("can_read"@).flag() is Some
    &&& v.member("can_write"@).flag() is Some
    &&& v.member("format"@).text() is Some
    &&& count(v.member("id"@)) is Some
    &&& v.member("language"@).text() is Some
    &&& stamp(v.member("last_edit_date"@)) is Some
    &&& sequence_field(v) is Some
    &&& v.member("title"@).text() is Some
}

/// The information on a case that the document `v` describes: an object with each field
/// of the information under its name. Fields beside these do not count.
pub open spec fn information_read(v: JsonV) -> Option<InformationV> {
    if holds_information(v) {
        Some(
            InformationV {
                author: v.member("author"@).text()->0,
                author_id: count(v.member("author_id"@))->0,
                can_read: v.member("can_read"@).flag()->0,
                can_write: v.member("can_write"@).flag()->0,
                format: v.member("format"@).text()->0,
                id: count(v.member("id"@))->0,
                language: v.member("language"@).text()->0,
                last_edit_date: stamp(v.member("last_edit_date"@))->0,
                sequence: sequence_field(v)->0,
                title: v.member("title"@).text()->0,
            },
        )
    } else {
        None
    }
}

impl SequenceEntry {
    /// Reads an entry from the document that describes it.
    pub fn from_json(value: &Json) -> (r: Option<SequenceEntry>)
        ensures
            match r {
                Some(entry) => entry_read(value@) == Some(entry_view(entry)),
                None => entry_read(value@) is None,
            },
    {
        let id = count_of(value, "id");
        let title = value.text_of("title");
        match (id, title) {
            (Some(id), Some(title)) => Some(SequenceEntry::new(id, title)),
            _ => None,
        }
    }
}

impl Sequence {
    /// Reads a sequence from the document that describes it.
    pub fn from_json(value: &Json) -> (r: Option<Sequence>)
        ensures
            match r {
                Some(sequence) => sequence_read(value@) == Some(sequence_view(sequence)),
                None => sequence_read(value@) is None,
            },
    {
        let title = match value.text_of("title") {
            Some(t) => t,
            None => {
                return None;
            },
        };
        let items = match value.items_of("list") {
            Some(items) => items,
            None => {
                return None;
            },
        };
        let mut list: Vec<SequenceEntry> = Vec::new();
        let mut i: usize = 0;
        while i < items.len()
            invariant
                i <= items@.len(),
                list@.len() == i,
                value@.member("title"@).text() == Some(title@),
                value@.member("list"@).items() == Some(json_views(items@)),
                forall|k: int|
                    0 <= k < i ==> entry_read(#[trigger] json_views(items@)[k]) == Some(
                        entry_view(list@[k]),
                    ),
            decreases items.len() - i,
        {
            match SequenceEntry::from_json(&items[i]) {
                Some(entry) => {
                    list.push(entry);
                },
                None => {
                    assert(entry_read(json_views(items@)[i as int]) is None);
                    return None;
                },
            }
            i += 1;
        }
        assert(entries_read(json_views(items@)) is Some);
        assert(entries_read(json_views(items@))->0 =~= entry_views(list@));
        Some(Sequence::new(title, list))
    }
}

impl CaseInformation {
    /// Reads the information on a case from the document that describes it.
    pub fn from_json(value: &Json) -> (r: Option<CaseInformation>)
        ensures
            match r {
                Some(information) => information_read(value@) == Some(
                    information_view(information),
                ),
                None => information_read(value@) is None,
            },
    {
        let author = value.text_of("author");
        let author_id = count_of(value, "author_id");
        let can_read = value.flag_of("can_read");
        let can_write = value.flag_of("can_write");
        let format = value.text_of("format");
        let id = count_of(value, "id");
        let language = value.text_of("language");
        let last_edit_date = stamp_of(value, "last_edit_date");
        let title = value.text_of("title");
        let sequence: Option<Option<Sequence>> = match value.get("sequence") {
            Some(held) => {
                if held.is_null() {
                    Some(None)
                } else {
                    match Sequence::from_json(held) {
                        Some(s) => Some(Some(s)),
                        None => None,
                    }
                }
            },
            None => Some(None),
        };
        match (author, author_id, can_read, can_write, format) {
            (Some(author), Some(author_id), Some(can_read), Some(can_write), Some(format)) => {
                match (id, language, last_edit_date, sequence, title) {
                    (Some(id), Some(language), Some(last_edit_date), Some(sequence), Some(title)) => {
                        Some(
                            CaseInformation {
                                author,
                                author_id,
                                can_read,
                                can_write,
                                format,
                                id,
                                language,
                                last_edit_date,
                                sequence,
                                title,
                            },
                        )
                    },
                    _ => None,
                }
            },
            _ => None,
        }
    }
}

/// Why a case could not be read.
#[derive(Debug, Clone, Copy, PartialEq, Eq, Structural)]
pub enum CaseError {
    /// The site knows no case of the ID that was asked for.
    NotFound,
    /// The script of the case could not be read.
    Unreadable(ReadError),
}

/// What is said of a case `case_id` that the site does not know.
pub open spec fn not_found(case_id: u32) -> Seq<char> {
    "The case with given ID "@ + decimal(case_id as nat) + " could not be found!"@
}

/// What is said of a case `case_id` that the site does not know.
pub fn not_found_message(case_id: u32) -> (r: String)
    ensures
        r@ == not_found(case_id),
{
    concat3("The case with given ID ", decimal_string(case_id as u64).as_str(), " could not be found!")
}

/// The case that `script` holds: its information, and then its data. A script that holds
/// the place of the information and nothing in it is that of a case which the site does
/// not know.
pub open spec fn case_read(script: Seq<char>) -> Result<(InformationV, JsonV), CaseError> {
    match escaped_json(TRIAL_INFORMATION_REGEX@, script) {
        Err(ReadError::RegexNotMatched) => Err(CaseError::NotFound),
        Err(e) => Err(CaseError::Unreadable(e)),
        Ok(described) => match information_read(described) {
            None => Err(CaseError::Unreadable(ReadError::Malformed)),
            Some(information) => match escaped_json(TRIAL_DATA_REGEX@, script) {
                Err(e) => Err(CaseError::Unreadable(e)),
                Ok(data) => Ok((information, data)),
            },
        },
    }
}

impl Case {
    /// Reads a case from the script in which the site hands it out.
    pub fn from_script(script: &str) -> (r: Result<Case, CaseError>)
        ensures
            match (r, case_read(script@)) {
                (Ok(case), Ok(owed)) => information_view(case.case_information) == owed.0
                    && case.case_data@ == owed.1,
                (Err(e), Err(owed)) => e == owed,
                _ => false,
            },
    {
        let described = match retrieve_escaped_json(TRIAL_INFORMATION_REGEX, script) {
            Ok(d) => d,
            Err(ReadError::RegexNotMatched) => {
                return Err(CaseError::NotFound);
            },
            Err(e) => {
                return Err(CaseError::Unreadable(e));
            },
        };
        let case_information = match CaseInformation::from_json(&described) {
            Some(i) => i,
            None => {
                return Err(CaseError::Unreadable(ReadError::Malformed));
            },
        };
        let case_data = match retrieve_escaped_json(TRIAL_DATA_REGEX, script) {
            Ok(d) => d,
            Err(e) => {
                return Err(CaseError::Unreadable(e));
            },
        };
        Ok(Case { case_information, case_data })
    }
}

} // verus!

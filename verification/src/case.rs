//! A case, the sequence it may belong to, and what it uses of the default data.

use crate::collector::CollectError;
use crate::json::{field_views, json_views, Json, JsonV};
use crate::outside::{json_written, sanitize, sanitized, write_json};
use crate::seqs::{gathered, lemma_gathered_fails};
use crate::text::{
    concat, decimal, decimal_string, push_decimal, signed_decimal, signed_decimal_string, str_eq,
};
use vstd::prelude::*;

verus! {

/// An entry (case) in a sequence.
#[derive(Debug)]
pub struct SequenceEntry {
    /// The ID of the case.
    id: u32,
    /// The title of the case.
    title: String,
}

impl SequenceEntry {
    /// The entry for the case `id`, which is called `title`.
    pub fn new(id: u32, title: String) -> (r: SequenceEntry)
        ensures
            r.spec_id() == id,
            r.spec_title() == title@,
    {
        SequenceEntry { id, title }
    }

    /// The ID of the case.
    pub closed spec fn spec_id(&self) -> u32 {
        self.id
    }

    /// The title of the case.
    pub closed spec fn spec_title(&self) -> Seq<char> {
        self.title@
    }

    /// The ID of the case.
    pub fn id(&self) -> (r: u32)
        ensures
            r == self.spec_id(),
    {
        self.id
    }

    /// The title of the case.
    pub fn title(&self) -> (r: &str)
        ensures
            r@ == self.spec_title(),
    {
        self.title.as_str()
    }

    /// The entry as a JSON document.
    pub open spec fn json(&self) -> JsonV {
        JsonV::Object(
            seq![
                ("id"@, JsonV::Number(decimal(self.spec_id() as nat))),
                ("title"@, JsonV::Text(self.spec_title())),
            ],
        )
    }

    /// The entry as a JSON document.
    pub fn to_json(&self) -> (r: Json)
        ensures
            r@ == self.json(),
    {
        let mut fields: Vec<(String, Json)> = Vec::new();
        fields.push(("id".to_owned(), Json::Number(decimal_string(self.id as u64))));
        fields.push(("title".to_owned(), Json::Text(self.title.clone())));
        assert(field_views(fields@) =~= seq![
            ("id"@, JsonV::Number(decimal(self.spec_id() as nat))),
            ("title"@, JsonV::Text(self.spec_title())),
        ]);
        Json::Object(fields)
    }
}

/// The IDs of the cases of `list`, in their order.
pub open spec fn ids_of(list: Seq<SequenceEntry>) -> Seq<u32> {
    Seq::new(list.len(), |i: int| list[i].spec_id())
}

/// The entries of `list` as JSON documents.
pub open spec fn entries_json(list: Seq<SequenceEntry>) -> Seq<JsonV> {
    Seq::new(list.len(), |i: int| list[i].json())
}

/// A sequence of connected cases.
#[derive(Debug)]
pub struct Sequence {
    /// The title of the sequence.
    title: String,
    /// The list of entries in the sequence.
    list: Vec<SequenceEntry>,
}

impl Sequence {
    /// The sequence `title` of the cases `list`.
    pub fn new(title: String, list: Vec<SequenceEntry>) -> (r: Sequence)
        ensures
            r.spec_title() == title@,
            r.spec_list() == list@,
    {
        Sequence { title, list }
    }

    /// The title of the sequence.
    pub closed spec fn spec_title(&self) -> Seq<char> {
        self.title@
    }

    /// The entries of the sequence.
    pub closed spec fn spec_list(&self) -> Seq<SequenceEntry> {
        self.list@
    }

    /// The title of the sequence.
    pub fn title(&self) -> (r: &str)
        ensures
            r@ == self.spec_title(),
    {
        self.title.as_str()
    }

    /// The number of cases in the sequence.
    pub fn len(&self) -> (r: usize)
        ensures
            r == self.spec_list().len(),
    {
        self.list.len()
    }

    /// Returns a list of case IDs in this sequence.
    pub fn entry_ids(&self) -> (r: Vec<u32>)
        ensures
            r@ == ids_of(self.spec_list()),
    {
        let mut r: Vec<u32> = Vec::new();
        let mut i: usize = 0;
        while i < self.list.len()
            invariant
                i <= self.list@.len(),
                r@ == ids_of(self.list@.take(i as int)),
            decreases self.list.len() - i,
        {
            r.push(self.list[i].id());
            assert(ids_of(self.list@.take(i + 1)) =~= ids_of(self.list@.take(i as int)).push(
                self.list@[i as int].spec_id(),
            ));
            i += 1;
        }
        assert(self.list@.take(self.list@.len() as int) =~= self.list@);
        r
    }

    /// Whether the two are the same sequence: they have one title, and the same cases in
    /// the same order.
    pub open spec fn same_as(&self, other: &Sequence) -> bool {
        self.spec_title() == other.spec_title() && self.spec_list().len()
            == other.spec_list().len() && forall|i: int|
            0 <= i < self.spec_list().len() ==> (#[trigger] self.spec_list()[i]).spec_id()
                == other.spec_list()[i].spec_id() && self.spec_list()[i].spec_title()
                == other.spec_list()[i].spec_title()
    }

    /// Whether the two are the same sequence.
    pub fn same(&self, other: &Sequence) -> (r: bool)
        ensures
            r == self.same_as(other),
    {
        if !str_eq(self.title.as_str(), other.title.as_str()) || self.list.len()
            != other.list.len() {
            return false;
        }
        let mut i: usize = 0;
        while i < self.list.len()
            invariant
                i <= self.list@.len(),
                self.list@.len() == other.list@.len(),
                forall|k: int|
                    0 <= k < i ==> (#[trigger] self.list@[k]).spec_id() == other.list@[k].spec_id()
                        && self.list@[k].spec_title() == other.list@[k].spec_title(),
            decreases self.list.len() - i,
        {
            if self.list[i].id() != other.list[i].id() || !str_eq(
                self.list[i].title(),
                other.list[i].title(),
            ) {
                return false;
            }
            i += 1;
        }
        true
    }

    /// The sequence as a JSON document.
    pub open spec fn json(&self) -> JsonV {
        JsonV::Object(
            seq![
                ("list"@, JsonV::Array(entries_json(self.spec_list()))),
                ("title"@, JsonV::Text(self.spec_title())),
            ],
        )
    }

    /// The sequence as a JSON document.
    pub fn to_json(&self) -> (r: Json)
        ensures
            r@ == self.json(),
    {
        let mut items: Vec<Json> = Vec::new();
        let mut i: usize = 0;
        while i < self.list.len()
            invariant
                i <= self.list@.len(),
                items@.len() == i,
                forall|k: int| 0 <= k < i ==> (#[trigger] items@[k])@ == self.list@[k].json(),
            decreases self.list.len() - i,
        {
            items.push(self.list[i].to_json());
            i += 1;
        }
        assert(json_views(items@) =~= entries_json(self.spec_list()));
        let mut fields: Vec<(String, Json)> = Vec::new();
        fields.push(("list".to_owned(), Json::Array(items)));
        fields.push(("title".to_owned(), Json::Text(self.title.clone())));
        assert(field_views(fields@) =~= seq![
            ("list"@, JsonV::Array(entries_json(self.spec_list()))),
            ("title"@, JsonV::Text(self.spec_title())),
        ]);
        Json::Object(fields)
    }
}

/// Represents the information of a case.
#[derive(Debug)]
pub struct CaseInformation {
    /// The name of the author of the case.
    pub author: String,
    /// The ID of the author of the case.
    pub author_id: u32,
    /// Whether the case can be read by the current user.
    pub can_read: bool,
    /// Whether the case can be written to by the current user.
    pub can_write: bool,
    /// The format of the case.
    pub format: String,
    /// The ID of the case.
    pub id: u32,
    /// The language of the case.
    pub language: String,
    /// The date the case was last edited, in seconds since 1970.
    pub last_edit_date: i64,
    /// The sequence the case is contained in, if any.
    pub sequence: Option<Sequence>,
    /// The title of the case.
    pub title: String,
}

impl CaseInformation {
    /// The information as a JSON document: its fields by name, in the order of their
    /// names.
    pub open spec fn json(&self) -> JsonV {
        JsonV::Object(
            seq![
                ("author"@, JsonV::Text(self.author@)),
                ("author_id"@, JsonV::Number(decimal(self.author_id as nat))),
                ("can_read"@, JsonV::Bool(self.can_read)),
                ("can_write"@, JsonV::Bool(self.can_write)),
                ("format"@, JsonV::Text(self.format@)),
                ("id"@, JsonV::Number(decimal(self.id as nat))),
                ("language"@, JsonV::Text(self.language@)),
                ("last_edit_date"@, JsonV::Number(signed_decimal(self.last_edit_date as int))),
                (
                    "sequence"@,
                    match self.sequence {
                        Some(s) => s.json(),
                        None => JsonV::Null,
                    },
                ),
                ("title"@, JsonV::Text(self.title@)),
            ],
        )
    }

    /// The information as a JSON document.
    pub fn to_json(&self) -> (r: Json)
        ensures
            r@ == self.json(),
    {
        let mut fields: Vec<(String, Json)> = Vec::new();
        fields.push(("author".to_owned(), Json::Text(self.author.clone())));
        fields.push(("author_id".to_owned(), Json::Number(decimal_string(self.author_id as u64))));
        fields.push(("can_read".to_owned(), Json::Bool(self.can_read)));
        fields.push(("can_write".to_owned(), Json::Bool(self.can_write)));
        fields.push(("format".to_owned(), Json::Text(self.format.clone())));
        fields.push(("id".to_owned(), Json::Number(decimal_string(self.id as u64))));
        fields.push(("language".to_owned(), Json::Text(self.language.clone())));
        fields.push(
            ("last_edit_date".to_owned(), Json::Number(signed_decimal_string(self.last_edit_date))),
        );
        let sequence = match &self.sequence {
            Some(s) => s.to_json(),
            None => Json::Null,
        };
        fields.push(("sequence".to_owned(), sequence));
        fields.push(("title".to_owned(), Json::Text(self.title.clone())));
        assert(field_views(fields@) =~= self.json()->Object_0);
        Json::Object(fields)
    }
}

/// The profile and the sprite that a character of a frame shows, where it names both.
pub open spec fn character_sprite(character: JsonV, at: int) -> Result<
    Seq<(i64, i64)>,
    CollectError,
> {
    if character is Number {
        Ok(Seq::empty())
    } else if !(character is Object) {
        Err(CollectError::Malformed)
    } else if character.member("profile_id"@) is Null || character.member("sprite_id"@) is Null {
        Ok(Seq::empty())
    } else {
        match (
            character.member("profile_id"@).integer(),
            character.member("sprite_id"@).integer(),
        ) {
            (Some(profile), Some(sprite)) => Ok(seq![(profile, sprite)]),
            _ => Err(CollectError::Malformed),
        }
    }
}

/// The profiles and sprites that the characters of a frame show.
pub open spec fn frame_sprites(frame: JsonV, at: int) -> Result<Seq<(i64, i64)>, CollectError> {
    if frame is Number {
        Ok(Seq::empty())
    } else if !(frame is Object) {
        Err(CollectError::Malformed)
    } else {
        match frame.member("characters"@).items() {
            Some(characters) => gathered(
                characters,
                |c: JsonV, j: int| character_sprite(c, j),
                characters.len() as int,
            ),
            None => Err(CollectError::Malformed),
        }
    }
}

/// The profiles and sprites that the frames of `data` show, in their order.
pub open spec fn used_sprites(data: JsonV) -> Result<Seq<(i64, i64)>, CollectError> {
    match data.member("frames"@).items() {
        Some(frames) => gathered(
            frames,
            |f: JsonV, i: int| frame_sprites(f, i),
            frames.len() as int,
        ),
        None => Err(CollectError::Malformed),
    }
}

/// The place that a frame shows, where it names one by a number.
pub open spec fn frame_place(frame: JsonV, at: int) -> Result<Seq<i64>, CollectError> {
    match frame.member("place"@).integer() {
        Some(place) => Ok(seq![place]),
        None => Ok(Seq::empty()),
    }
}

/// The places that the frames of `data` show, in their order.
pub open spec fn used_places(data: JsonV) -> Result<Seq<i64>, CollectError> {
    match data.member("frames"@).items() {
        Some(frames) => gathered(frames, |f: JsonV, i: int| frame_place(f, i), frames.len() as int),
        None => Err(CollectError::Malformed),
    }
}

fn frame_sprites_of(frame: &Json) -> (r: Result<Vec<(i64, i64)>, CollectError>)
    ensures
        match (r, frame_sprites(frame@, 0)) {
            (Ok(sprites), Ok(owed)) => sprites@ == owed,
            (Err(e), Err(owed)) => e == owed,
            _ => false,
        },
{
    let mut out: Vec<(i64, i64)> = Vec::new();
    if frame.is_number() {
        return Ok(out);
    }
    if !frame.is_object() {
        return Err(CollectError::Malformed);
    }
    let characters = match frame.items_of("characters") {
        Some(c) => c,
        None => {
            return Err(CollectError::Malformed);
        },
    };
    let ghost each = |c: JsonV, j: int| character_sprite(c, j);
    let mut j: usize = 0;
    while j < characters.len()
        invariant
            j <= characters@.len(),
            each == |c: JsonV, j: int| character_sprite(c, j),
            frame@.member("characters"@).items() == Some(json_views(characters@)),
            frame@ is Object,
            gathered(json_views(characters@), each, j as int) == Ok::<_, CollectError>(out@),
        decreases characters.len() - j,
    {
        let c = &characters[j];
        assert(json_views(characters@)[j as int] == c@);
        if c.is_number() {
            assert(out@ + Seq::<(i64, i64)>::empty() =~= out@);
        } else if !c.is_object() {
            proof {
                lemma_gathered_fails(json_views(characters@), each, j + 1, characters@.len() as int);
            }
            return Err(CollectError::Malformed);
        } else {
            let no_profile = match c.get("profile_id") {
                Some(v) => v.is_null(),
                None => true,
            };
            let no_sprite = match c.get("sprite_id") {
                Some(v) => v.is_null(),
                None => true,
            };
            if no_profile || no_sprite {
                assert(out@ + Seq::<(i64, i64)>::empty() =~= out@);
            } else {
                match (c.integer_of("profile_id"), c.integer_of("sprite_id")) {
                    (Some(profile), Some(sprite)) => {
                        let ghost before = out@;
                        out.push((profile, sprite));
                        assert(out@ =~= before + seq![(profile, sprite)]);
                    },
                    _ => {
                        proof {
                            lemma_gathered_fails(
                                json_views(characters@),
                                each,
                                j + 1,
                                characters@.len() as int,
                            );
                        }
                        return Err(CollectError::Malformed);
                    },
                }
            }
        }
        j += 1;
    }
    Ok(out)
}

/// A case for the Ace Attorney Online player.
#[derive(Debug)]
pub struct Case {
    /// Metadata about this case.
    pub case_information: CaseInformation,
    /// The data (i.e., contents) of this case.
    pub case_data: Json,
}

impl Case {
    /// Returns the ID of this case.
    pub fn id(&self) -> (r: u32)
        ensures
            r == self.case_information.id,
    {
        self.case_information.id
    }

    /// The name of the directory or file of the case: its title and its ID, cleaned for
    /// use as a file name.
    pub open spec fn spec_filename(&self, windows_names: bool) -> Seq<char> {
        sanitized(
            self.case_information.title@ + "_"@ + decimal(self.case_information.id as nat),
            windows_names,
        )
    }

    /// Returns the name under which the case is written: `<title>_<id>`, cleaned for use
    /// as a file name.
    pub fn filename(&self, windows_names: bool) -> (r: String)
        ensures
            r@ == self.spec_filename(windows_names),
    {
        let mut name = concat(self.case_information.title.as_str(), "_");
        push_decimal(&mut name, self.case_information.id as u64);
        sanitize(name.as_str(), windows_names)
    }

    /// Returns a list of character and sprite IDs for the sprites used in this case.
    pub fn get_used_sprites(&self) -> (r: Result<Vec<(i64, i64)>, CollectError>)
        ensures
            match (r, used_sprites(self.case_data@)) {
                (Ok(sprites), Ok(owed)) => sprites@ == owed,
                (Err(e), Err(owed)) => e == owed,
                _ => false,
            },
    {
        let frames = match self.case_data.items_of("frames") {
            Some(f) => f,
            None => {
                return Err(CollectError::Malformed);
            },
        };
        let ghost each = |f: JsonV, i: int| frame_sprites(f, i);
        let mut out: Vec<(i64, i64)> = Vec::new();
        let mut i: usize = 0;
        while i < frames.len()
            invariant
                i <= frames@.len(),
                each == |f: JsonV, i: int| frame_sprites(f, i),
                self.case_data@.member("frames"@).items() == Some(json_views(frames@)),
                gathered(json_views(frames@), each, i as int) == Ok::<_, CollectError>(out@),
            decreases frames.len() - i,
        {
            let frame = &frames[i];
            assert(json_views(frames@)[i as int] == frame@);
            match frame_sprites_of(frame) {
                Ok(more) => {
                    let mut more = more;
                    let ghost before = out@;
                    let ghost added = more@;
                    out.append(&mut more);
                    assert(out@ =~= before + added);
                },
                Err(e) => {
                    proof {
                        lemma_gathered_fails(json_views(frames@), each, i + 1, frames@.len() as int);
                    }
                    return Err(e);
                },
            }
            i += 1;
        }
        Ok(out)
    }

    /// Returns the places that the frames of this case show, in the order of the frames.
    pub fn get_used_places(&self) -> (r: Result<Vec<i64>, CollectError>)
        ensures
            match (r, used_places(self.case_data@)) {
                (Ok(places), Ok(owed)) => places@ == owed,
                (Err(e), Err(owed)) => e == owed,
                _ => false,
            },
    {
        let frames = match self.case_data.items_of("frames") {
            Some(f) => f,
            None => {
                return Err(CollectError::Malformed);
            },
        };
        let ghost each = |f: JsonV, i: int| frame_place(f, i);
        let mut out: Vec<i64> = Vec::new();
        let mut i: usize = 0;
        while i < frames.len()
            invariant
                i <= frames@.len(),
                each == |f: JsonV, i: int| frame_place(f, i),
                gathered(json_views(frames@), each, i as int) == Ok::<_, CollectError>(out@),
            decreases frames.len() - i,
        {
            let frame = &frames[i];
            assert(json_views(frames@)[i as int] == frame@);
            match frame.integer_of("place") {
                Some(place) => {
                    let ghost before = out@;
                    out.push(place);
                    assert(out@ =~= before + seq![place]);
                },
                None => {
                    assert(out@ + Seq::<i64>::empty() =~= out@);
                },
            }
            i += 1;
        }
        Ok(out)
    }

    /// The JavaScript that hands the case to the player: its information and its data,
    /// each as JSON. Nothing where one of them cannot be written.
    pub open spec fn spec_serialize_to_js(&self) -> Option<Seq<char>> {
        match (json_written(self.case_information.json()), json_written(self.case_data@)) {
            (Some(info), Some(data)) => Some(
                "var trial_information = "@ + info + ";\nvar initial_trial_data = "@ + data
                    + ";\n"@,
            ),
            _ => None,
        }
    }

    /// Serializes this case to JavaScript variables that are picked up by the case
    /// player.
    pub fn serialize_to_js(&self) -> (r: Option<String>)
        ensures
            match r {
                Some(js) => self.spec_serialize_to_js() == Some(js@),
                None => self.spec_serialize_to_js() is None,
            },
    {
        let info = match write_json(&self.case_information.to_json()) {
            Some(t) => t,
            None => {
                return None;
            },
        };
        let data = match write_json(&self.case_data) {
            Some(t) => t,
            None => {
                return None;
            },
        };
        let mut js = concat("var trial_information = ", info.as_str());
        js.append(";\nvar initial_trial_data = ");
        js.append(data.as_str());
        js.append(";\n");
        Some(js)
    }
}

} // verus!

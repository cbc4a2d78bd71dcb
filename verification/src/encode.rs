use vstd::prelude::*;
use crate::types::{ParsedRelease, PathInfo, PathModel, ReleaseModel};

verus! {

/// A value as a host runtime receives it.
#[derive(Clone, Debug, PartialEq, Eq)]
pub enum Value {
    Nil,
    Int(i64),
    Text(String),
    Ints(Vec<i64>),
    Texts(Vec<String>),
    Dict(Vec<(String, String)>),
}

/// The mathematical content of a `Value`.
pub enum ValueModel {
    Nil,
    Int(i64),
    Text(Seq<char>),
    Ints(Seq<i64>),
    Texts(Seq<Seq<char>>),
    Dict(Seq<(Seq<char>, Seq<char>)>),
}

impl View for Value {
    type V = ValueModel;

    open spec fn view(&self) -> ValueModel {
        match self {
            Value::Nil => ValueModel::Nil,
            Value::Int(n) => ValueModel::Int(*n),
            Value::Text(s) => ValueModel::Text(s@),
            Value::Ints(v) => ValueModel::Ints(v@),
            Value::Texts(v) => ValueModel::Texts(v.deep_view()),
            Value::Dict(v) => ValueModel::Dict(v.deep_view()),
        }
    }
}

/// One entry of an encoded record.
#[derive(Clone, Debug, PartialEq, Eq)]
pub struct Field {
    pub key: String,
    pub value: Value,
}

impl View for Field {
    type V = (Seq<char>, ValueModel);

    open spec fn view(&self) -> (Seq<char>, ValueModel) {
        (self.key@, self.value@)
    }
}

/// The entries of an encoded record, in order.
pub open spec fn fields_model(fields: Seq<Field>) -> Seq<(Seq<char>, ValueModel)> {
    Seq::new(fields.len(), |i: int| fields[i]@)
}

/// An absent text is `Nil`.
pub open spec fn text_or_nil(text: Option<Seq<char>>) -> ValueModel {
    match text {
        Some(s) => ValueModel::Text(s),
        None => ValueModel::Nil,
    }
}

/// An absent number is `Nil`.
pub open spec fn int_or_nil(number: Option<u32>) -> ValueModel {
    match number {
        Some(n) => ValueModel::Int(n as i64),
        None => ValueModel::Nil,
    }
}

/// The numbers of `s`, widened.
pub open spec fn widened(s: Seq<u32>) -> Seq<i64> {
    Seq::new(s.len(), |i: int| s[i] as i64)
}

/// The encoded form of a record: every field under its key, in a fixed
/// order; the episode title goes under `title_extra`, the kind under `type`.
pub open spec fn encoded_release(r: ReleaseModel) -> Seq<(Seq<char>, ValueModel)> {
    seq![
        ("release"@, ValueModel::Text(r.release)),
        ("title"@, ValueModel::Text(r.title)),
        ("title_extra"@, text_or_nil(r.episode_title)),
        ("group"@, text_or_nil(r.group)),
        ("year"@, int_or_nil(r.year)),
        ("date"@, text_or_nil(r.date)),
        ("season"@, int_or_nil(r.season)),
        ("episode"@, int_or_nil(r.episode)),
        ("episodes"@, ValueModel::Ints(widened(r.episodes))),
        ("disc"@, int_or_nil(r.disc)),
        ("flags"@, ValueModel::Texts(r.flags)),
        ("source"@, text_or_nil(r.source)),
        ("format"@, text_or_nil(r.format)),
        ("resolution"@, text_or_nil(r.resolution)),
        ("audio"@, text_or_nil(r.audio)),
        ("device"@, text_or_nil(r.device)),
        ("os"@, text_or_nil(r.os)),
        ("version"@, text_or_nil(r.version)),
        ("language"@, ValueModel::Dict(r.language)),
        ("tmdb_id"@, text_or_nil(r.tmdb_id)),
        ("tvdb_id"@, text_or_nil(r.tvdb_id)),
        ("imdb_id"@, text_or_nil(r.imdb_id)),
        ("edition"@, text_or_nil(r.edition)),
        ("hdr"@, text_or_nil(r.hdr)),
        ("streaming_provider"@, text_or_nil(r.streaming_provider)),
        ("type"@, ValueModel::Text(r.release_type.name_model())),
    ]
}

/// The keys of an encoded record, in order.
pub open spec fn keys_of_record(fields: Seq<(Seq<char>, ValueModel)>) -> Seq<Seq<char>> {
    Seq::new(fields.len(), |i: int| fields[i].0)
}

/// An encoded record has twenty-six entries and no key twice, so it can be
/// made into a map.
pub proof fn lemma_encoded_keys_distinct(r: ReleaseModel)
    ensures
        encoded_release(r).len() == 26,
        keys_of_record(encoded_release(r)).no_duplicates(),
{
    reveal_strlit("release");
    reveal_strlit("title");
    reveal_strlit("title_extra");
    reveal_strlit("group");
    reveal_strlit("year");
    reveal_strlit("date");
    reveal_strlit("season");
    reveal_strlit("episode");
    reveal_strlit("episodes");
    reveal_strlit("disc");
    reveal_strlit("flags");
    reveal_strlit("source");
    reveal_strlit("format");
    reveal_strlit("resolution");
    reveal_strlit("audio");
    reveal_strlit("device");
    reveal_strlit("os");
    reveal_strlit("version");
    reveal_strlit("language");
    reveal_strlit("tmdb_id");
    reveal_strlit("tvdb_id");
    reveal_strlit("imdb_id");
    reveal_strlit("edition");
    reveal_strlit("hdr");
    reveal_strlit("streaming_provider");
    reveal_strlit("type");
    let keys = keys_of_record(encoded_release(r));
    assert forall|i: int, j: int| 0 <= i < keys.len() && 0 <= j < keys.len() && i != j implies keys[i]
        != keys[j] by {
        if keys[i].len() == keys[j].len() {
            assert(keys[i][0] != keys[j][0] || keys[i][1] != keys[j][1] || keys[i][2] != keys[j][2]);
        }
    }
}

fn field(key: &str, value: Value) -> (f: Field)
    ensures
        f@ == (key@, value@),
{
    Field { key: String::from_str(key), value }
}

fn text_value(text: &Option<String>) -> (v: Value)
    ensures
        v@ == text_or_nil(text.deep_view()),
{
    match text {
        Some(s) => Value::Text(s.clone()),
        None => Value::Nil,
    }
}

fn int_value(number: Option<u32>) -> (v: Value)
    ensures
        v@ == int_or_nil(number),
{
    match number {
        Some(n) => Value::Int(n as i64),
        None => Value::Nil,
    }
}

fn ints_value(numbers: &Vec<u32>) -> (v: Value)
    ensures
        v@ == ValueModel::Ints(widened(numbers@)),
{
    let mut out: Vec<i64> = Vec::new();
    let mut i: usize = 0;
    while i < numbers.len()
        invariant
            i <= numbers.len(),
            out@ == widened(numbers@.take(i as int)),
        decreases numbers.len() - i,
    {
        out.push(numbers[i] as i64);
        i += 1;
        assert(out@ =~= widened(numbers@.take(i as int)));
    }
    assert(numbers@.take(i as int) =~= numbers@);
    Value::Ints(out)
}

/// A copy of a list of texts.
pub fn copy_texts(texts: &Vec<String>) -> (out: Vec<String>)
    ensures
        out.deep_view() == texts.deep_view(),
{
    let mut out: Vec<String> = Vec::new();
    let mut i: usize = 0;
    while i < texts.len()
        invariant
            i <= texts.len(),
            out.len() == i,
            forall|k: int| 0 <= k < i ==> out[k]@ == texts[k]@,
        decreases texts.len() - i,
    {
        out.push(texts[i].clone());
        i += 1;
    }
    assert(out.deep_view() =~= texts.deep_view());
    out
}

/// A copy of a list of pairs of texts.
pub fn copy_pairs(pairs: &Vec<(String, String)>) -> (out: Vec<(String, String)>)
    ensures
        out.deep_view() == pairs.deep_view(),
{
    let mut out: Vec<(String, String)> = Vec::new();
    let mut i: usize = 0;
    while i < pairs.len()
        invariant
            i <= pairs.len(),
            out.len() == i,
            forall|k: int| 0 <= k < i ==> out[k].deep_view() == pairs[k].deep_view(),
        decreases pairs.len() - i,
    {
        let key = pairs[i].0.clone();
        let name = pairs[i].1.clone();
        out.push((key, name));
        i += 1;
    }
    assert(out.deep_view() =~= pairs.deep_view());
    out
}

/// Encodes a record field by field.
pub fn serialize_parsed_release(parsed: &ParsedRelease) -> (fields: Vec<Field>)
    ensures
        fields_model(fields@) == encoded_release(parsed@),
{
    let mut fields: Vec<Field> = Vec::new();
    fields.push(field("release", Value::Text(parsed.release.clone())));
    fields.push(field("title", Value::Text(parsed.title.clone())));
    fields.push(field("title_extra", text_value(&parsed.episode_title)));
    fields.push(field("group", text_value(&parsed.group)));
    fields.push(field("year", int_value(parsed.year)));
    fields.push(field("date", text_value(&parsed.date)));
    fields.push(field("season", int_value(parsed.season)));
    fields.push(field("episode", int_value(parsed.episode)));
    fields.push(field("episodes", ints_value(&parsed.episodes)));
    fields.push(field("disc", int_value(parsed.disc)));
    fields.push(field("flags", Value::Texts(copy_texts(&parsed.flags))));
    fields.push(field("source", text_value(&parsed.source)));
    fields.push(field("format", text_value(&parsed.format)));
    fields.push(field("resolution", text_value(&parsed.resolution)));
    fields.push(field("audio", text_value(&parsed.audio)));
    fields.push(field("device", text_value(&parsed.device)));
    fields.push(field("os", text_value(&parsed.os)));
    fields.push(field("version", text_value(&parsed.version)));
    fields.push(field("language", Value::Dict(copy_pairs(&parsed.language))));
    fields.push(field("tmdb_id", text_value(&parsed.tmdb_id)));
    fields.push(field("tvdb_id", text_value(&parsed.tvdb_id)));
    fields.push(field("imdb_id", text_value(&parsed.imdb_id)));
    fields.push(field("edition", text_value(&parsed.edition)));
    fields.push(field("hdr", text_value(&parsed.hdr)));
    fields.push(field("streaming_provider", text_value(&parsed.streaming_provider)));
    fields.push(field("type", Value::Text(parsed.release_type.name())));
    assert(fields_model(fields@) =~= encoded_release(parsed@));
    fields
}

/// A value of an encoded path: a plain value or a whole encoded record.
#[derive(Clone, Debug, PartialEq, Eq)]
pub enum PathValue {
    Nil,
    Int(i64),
    Text(String),
    Record(Vec<Field>),
}

/// The mathematical content of a `PathValue`.
pub enum PathValueModel {
    Nil,
    Int(i64),
    Text(Seq<char>),
    Record(Seq<(Seq<char>, ValueModel)>),
}

impl View for PathValue {
    type V = PathValueModel;

    open spec fn view(&self) -> PathValueModel {
        match self {
            PathValue::Nil => PathValueModel::Nil,
            PathValue::Int(n) => PathValueModel::Int(*n),
            PathValue::Text(s) => PathValueModel::Text(s@),
            PathValue::Record(fields) => PathValueModel::Record(fields_model(fields@)),
        }
    }
}

/// One entry of an encoded path.
#[derive(Clone, Debug, PartialEq, Eq)]
pub struct PathField {
    pub key: String,
    pub value: PathValue,
}

impl View for PathField {
    type V = (Seq<char>, PathValueModel);

    open spec fn view(&self) -> (Seq<char>, PathValueModel) {
        (self.key@, self.value@)
    }
}

/// The entries of an encoded path, in order.
pub open spec fn path_fields_model(fields: Seq<PathField>) -> Seq<(Seq<char>, PathValueModel)> {
    Seq::new(fields.len(), |i: int| fields[i]@)
}

/// The encoded form of a path: the parent directory's record or `Nil`, the
/// resolved season or `Nil`, the leaf's record, and the path as given.
pub open spec fn encoded_path(p: PathModel) -> Seq<(Seq<char>, PathValueModel)> {
    seq![
        (
            "directory"@,
            match p.directory {
                Some(d) => PathValueModel::Record(encoded_release(d)),
                None => PathValueModel::Nil,
            },
        ),
        (
            "season"@,
            match p.season {
                Some(n) => PathValueModel::Int(n as i64),
                None => PathValueModel::Nil,
            },
        ),
        ("file"@, PathValueModel::Record(encoded_release(p.file))),
        ("full_path"@, PathValueModel::Text(p.full_path)),
    ]
}

fn path_field(key: &str, value: PathValue) -> (f: PathField)
    ensures
        f@ == (key@, value@),
{
    PathField { key: String::from_str(key), value }
}

/// Encodes a parsed path entry by entry.
pub fn serialize_path_info(path_info: &PathInfo) -> (fields: Vec<PathField>)
    ensures
        path_fields_model(fields@) == encoded_path(path_info@),
{
    let mut fields: Vec<PathField> = Vec::new();
    let directory = match &path_info.directory {
        Some(d) => PathValue::Record(serialize_parsed_release(d)),
        None => PathValue::Nil,
    };
    fields.push(path_field("directory", directory));
    let season = match path_info.season {
        Some(n) => PathValue::Int(n as i64),
        None => PathValue::Nil,
    };
    fields.push(path_field("season", season));
    fields.push(path_field("file", PathValue::Record(serialize_parsed_release(&path_info.file))));
    fields.push(path_field("full_path", PathValue::Text(path_info.full_path.clone())));
    assert(path_fields_model(fields@) =~= encoded_path(path_info@));
    fields
}

/// Encodes the season read from a season directory's name: the number, or
/// `Nil` where none was recognised.
pub fn serialize_season(season: Option<u32>) -> (v: Value)
    ensures
        v@ == int_or_nil(season),
{
    int_value(season)
}

} // verus!

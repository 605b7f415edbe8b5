//! The pact document: who made it, for whom, what interactions it holds,
//! and how it is written to and read from JSON.

use crate::json::{json_parse_result, json_text, text_of, Json, JsonValue};
use crate::json::option_ref_json;
use crate::models::{
    clone_interactions, entries_view, option_ref_text, Interaction, InteractionView, Rule,
    RuleView,
};
use crate::pact_json::{
    array, interaction_json_as, interaction_of_json, member_text, object, pairs_json,
    pairs_of_members, pairs_to_json, rule_of_json, PactSpecification,
};
use crate::text::{clone_pairs, find_pair, key_position, pairs_view, views};
use vstd::prelude::*;

verus! {

/// The side that makes the requests.
#[derive(Debug)]
pub struct Consumer {
    pub name: String,
}

/// The side that answers the requests.
#[derive(Debug)]
pub struct Provider {
    pub name: String,
}

/// What a pact says of itself: sections, each with its entries.
pub type Metadata = Vec<(String, Rule)>;

/// The mathematical value of metadata.
pub type MetadataView = Seq<(Seq<char>, RuleView)>;

/// The expected interactions between a consumer and a provider.
#[derive(Debug)]
pub struct Pact {
    /// The consumer.
    pub consumer: Consumer,
    /// The provider.
    pub provider: Provider,
    /// The interactions, in the order in which they were declared.
    pub interactions: Vec<Interaction>,
    /// What the pact says of itself.
    pub metadata: Metadata,
    /// The revision of the file format that the pact was read under.
    pub specification_version: PactSpecification,
}

/// The mathematical value of a `Pact`.
pub struct PactView {
    pub consumer: Seq<char>,
    pub provider: Seq<char>,
    pub interactions: Seq<InteractionView>,
    pub metadata: MetadataView,
    pub specification_version: PactSpecification,
}

impl View for Pact {
    type V = PactView;

    open spec fn view(&self) -> PactView {
        PactView {
            consumer: self.consumer.name@,
            provider: self.provider.name@,
            interactions: views(self.interactions@),
            metadata: entries_view(self.metadata@),
            specification_version: self.specification_version,
        }
    }
}

fn clone_metadata(metadata: &Metadata) -> (copy: Metadata)
    ensures
        entries_view(copy@) == entries_view(metadata@),
{
    let mut copy: Metadata = Vec::new();
    let mut i: usize = 0;
    while i < metadata.len()
        invariant
            i <= metadata.len(),
            copy@.len() == i,
            forall|k: int|
                0 <= k < i ==> (#[trigger] copy@[k]).0@ == metadata@[k].0@ && pairs_view(
                    copy@[k].1@,
                ) == pairs_view(metadata@[k].1@),
        decreases metadata.len() - i,
    {
        copy.push((metadata[i].0.clone(), clone_pairs(&metadata[i].1)));
        i = i + 1;
    }
    assert(entries_view(copy@) =~= entries_view(metadata@));
    copy
}

impl Clone for Pact {
    fn clone(&self) -> (copy: Pact)
        ensures
            copy@ == self@,
    {
        Pact {
            consumer: Consumer { name: self.consumer.name.clone() },
            provider: Provider { name: self.provider.name.clone() },
            interactions: clone_interactions(&self.interactions),
            metadata: clone_metadata(&self.metadata),
            specification_version: self.specification_version,
        }
    }
}

/// The text that names a revision.
pub open spec fn revision_text(revision: PactSpecification) -> Seq<char> {
    match revision {
        PactSpecification::Unknown => "unknown"@,
        PactSpecification::V1 => "1.0.0"@,
        PactSpecification::V1_1 => "1.1.0"@,
        PactSpecification::V2 => "2.0.0"@,
        PactSpecification::V3 => "3.0.0"@,
    }
}

/// The revision that a text names.
pub open spec fn revision_of(text: Seq<char>) -> PactSpecification {
    if text == "1.0.0"@ {
        PactSpecification::V1
    } else if text == "1.1.0"@ {
        PactSpecification::V1_1
    } else if text == "2.0.0"@ {
        PactSpecification::V2
    } else if text == "3.0.0"@ {
        PactSpecification::V3
    } else {
        PactSpecification::Unknown
    }
}

impl PactSpecification {
    /// The text that names this revision.
    pub fn version_str(&self) -> (text: String)
        ensures
            text@ == revision_text(*self),
    {
        match self {
            PactSpecification::Unknown => String::from_str("unknown"),
            PactSpecification::V1 => String::from_str("1.0.0"),
            PactSpecification::V1_1 => String::from_str("1.1.0"),
            PactSpecification::V2 => String::from_str("2.0.0"),
            PactSpecification::V3 => String::from_str("3.0.0"),
        }
    }

    /// The revision that a text names.
    pub fn from_version(text: &str) -> (revision: PactSpecification)
        ensures
            revision == revision_of(text@),
    {
        if text.eq("1.0.0") {
            PactSpecification::V1
        } else if text.eq("1.1.0") {
            PactSpecification::V1_1
        } else if text.eq("2.0.0") {
            PactSpecification::V2
        } else if text.eq("3.0.0") {
            PactSpecification::V3
        } else {
            PactSpecification::Unknown
        }
    }
}

/// The entry of a section of the metadata, if the section is there and
/// has it. Of several sections or entries of one name the first counts.
pub open spec fn metadata_entry(metadata: MetadataView, section: Seq<char>, name: Seq<char>) -> Option<
    Seq<char>,
> {
    let at = key_position(metadata, section, 0);
    if 0 <= at < metadata.len() {
        let entries = metadata[at].1;
        let entry = key_position(entries, name, 0);
        if 0 <= entry < entries.len() {
            Some(entries[entry].1)
        } else {
            None
        }
    } else {
        None
    }
}

/// The version that the metadata give the file format: that of the
/// section `pact-specification` and, where there is none, that of the
/// section `pactSpecification`.
pub open spec fn written_revision(metadata: MetadataView) -> Option<Seq<char>> {
    match metadata_entry(metadata, "pact-specification"@, "version"@) {
        Some(text) => Some(text),
        None => metadata_entry(metadata, "pactSpecification"@, "version"@),
    }
}

/// The revision that the metadata name.
pub open spec fn detected_revision(metadata: MetadataView) -> PactSpecification {
    match written_revision(metadata) {
        Some(text) => revision_of(text),
        None => PactSpecification::Unknown,
    }
}

/// The metadata that a JSON value stands for: of an object each member
/// that is an object, with its members read as texts.
pub open spec fn metadata_of_json(json: Option<JsonValue>) -> MetadataView {
    match json {
        Some(JsonValue::Object(members)) => Seq::new(
            members.len(),
            |i: int| (members[i].0, rule_of_json(members[i].1)),
        ),
        _ => Seq::empty(),
    }
}

/// The kinds of flaw that a pact file can have.
#[derive(Debug, Clone, Copy, PartialEq, Eq, Structural)]
pub enum ParseErrorKind {
    /// The text is no JSON.
    NotJson,
    /// A part of the document is missing.
    MissingField,
    /// A part of the document is of the wrong kind.
    BadType,
    /// The document names no known revision of the file format.
    UnknownSpec,
}

/// A flaw of a pact file and the place where it is.
#[derive(Debug)]
pub struct ParseError {
    pub kind: ParseErrorKind,
    pub location: String,
}

/// The mathematical value of a `ParseError`.
pub struct ParseErrorView {
    pub kind: ParseErrorKind,
    pub location: Seq<char>,
}

impl View for ParseError {
    type V = ParseErrorView;

    open spec fn view(&self) -> ParseErrorView {
        ParseErrorView { kind: self.kind, location: self.location@ }
    }
}

/// The flaw of a part that must be an object or an array.
pub open spec fn part_flaw(json: JsonValue, name: Seq<char>, location: Seq<char>, array: bool) -> Seq<
    ParseErrorView,
> {
    match json.member(name) {
        None => seq![ParseErrorView { kind: ParseErrorKind::MissingField, location }],
        Some(part) => if (array && part is Array) || (!array && part is Object) {
            Seq::empty()
        } else {
            seq![ParseErrorView { kind: ParseErrorKind::BadType, location }]
        },
    }
}

/// The flaw of metadata that are there and are no object.
pub open spec fn metadata_flaw(json: JsonValue) -> Seq<ParseErrorView> {
    match json.member("metadata"@) {
        Some(part) => if part is Object {
            Seq::empty()
        } else {
            seq![ParseErrorView { kind: ParseErrorKind::BadType, location: "$.metadata"@ }]
        },
        None => Seq::empty(),
    }
}

/// The flaw of metadata that name no known revision.
pub open spec fn revision_flaw(json: JsonValue) -> Seq<ParseErrorView> {
    if detected_revision(metadata_of_json(json.member("metadata"@))) == PactSpecification::Unknown {
        seq![ParseErrorView { kind: ParseErrorKind::UnknownSpec, location: "$.metadata"@ }]
    } else {
        Seq::empty()
    }
}

/// The flaws of a document that is JSON: of the consumer, the provider,
/// the interactions, the metadata and the revision, in this order.
pub open spec fn flaws(json: JsonValue) -> Seq<ParseErrorView> {
    part_flaw(json, "consumer"@, "$.consumer"@, false) + part_flaw(
        json,
        "provider"@,
        "$.provider"@,
        false,
    ) + part_flaw(json, "interactions"@, "$.interactions"@, true) + metadata_flaw(json)
        + revision_flaw(json)
}

/// The revision that a document is read under: the one that its metadata
/// name where it has no flaw, and none that is known where it has one.
pub open spec fn revision_of_json(json: JsonValue) -> PactSpecification {
    if flaws(json).len() == 0 {
        detected_revision(metadata_of_json(json.member("metadata"@)))
    } else {
        PactSpecification::Unknown
    }
}

/// The name of the consumer or provider that a document gives under
/// `part`, or a default.
pub open spec fn party_name(json: JsonValue, part: Seq<char>, default: Seq<char>) -> Seq<char> {
    match json.member(part) {
        Some(party) => member_text(party, "name"@, default),
        None => default,
    }
}

/// The interactions that a JSON value stands for; only an array holds
/// any.
pub open spec fn interactions_of_json(json: Option<JsonValue>, revision: PactSpecification) -> Seq<
    InteractionView,
> {
    match json {
        Some(JsonValue::Array(items)) => Seq::new(
            items.len(),
            |i: int| interaction_of_json(items[i], revision),
        ),
        _ => Seq::empty(),
    }
}

/// The pact that a JSON document stands for, as well as it can be read.
pub open spec fn pact_of_json(json: JsonValue) -> PactView {
    PactView {
        consumer: party_name(json, "consumer"@, "consumer"@),
        provider: party_name(json, "provider"@, "provider"@),
        interactions: interactions_of_json(json.member("interactions"@), revision_of_json(json)),
        metadata: metadata_of_json(json.member("metadata"@)),
        specification_version: revision_of_json(json),
    }
}

/// The version of this library, which a written pact names as its maker.
pub open spec fn library_version() -> Seq<char> {
    "0.1.0"@
}

/// Whether a section of the metadata is one that the writer sets itself.
pub open spec fn is_own_section(name: Seq<char>) -> bool {
    name == "pact-specification"@ || name == "pact-rust"@
}

/// The sections from position `i` on that the writer does not set itself.
pub open spec fn kept_sections(metadata: MetadataView, i: int) -> MetadataView
    decreases metadata.len() - i,
{
    if i < 0 || i >= metadata.len() {
        Seq::empty()
    } else if is_own_section(metadata[i].0) {
        kept_sections(metadata, i + 1)
    } else {
        seq![metadata[i]] + kept_sections(metadata, i + 1)
    }
}

/// Whether the text `a` stands before the text `b` in a dictionary that
/// goes by the numbers of the characters, as far as that is decided from
/// position `k` on.
pub open spec fn precedes_from(a: Seq<char>, b: Seq<char>, k: int) -> bool
    decreases a.len() - k,
{
    if k < 0 || k >= b.len() {
        false
    } else if k >= a.len() {
        true
    } else if a[k] != b[k] {
        a[k] < b[k]
    } else {
        precedes_from(a, b, k + 1)
    }
}

/// Whether the text `a` stands before the text `b` in a dictionary that
/// goes by the numbers of the characters.
pub open spec fn precedes(a: Seq<char>, b: Seq<char>) -> bool {
    precedes_from(a, b, 0)
}

/// The position at which a section of the given name goes into sections
/// that are in order: before the first section whose name it precedes.
pub open spec fn place_of(sections: MetadataView, name: Seq<char>) -> int
    decreases sections.len(),
{
    if sections.len() == 0 || precedes(name, sections[0].0) {
        0
    } else {
        1 + place_of(sections.skip(1), name)
    }
}

/// Sections with one more at its place.
pub open spec fn with_section(sections: MetadataView, section: (Seq<char>, RuleView)) -> MetadataView {
    sections.insert(place_of(sections, section.0), section)
}

/// The first `n` sections put in the order of their names, sections of
/// one name in the order in which they stood.
pub open spec fn ordered_upto(sections: MetadataView, n: int) -> MetadataView
    decreases n,
{
    if n <= 0 || n > sections.len() {
        Seq::empty()
    } else {
        with_section(ordered_upto(sections, n - 1), sections[n - 1])
    }
}

/// The revision that is written where a revision is asked for: the one
/// asked for, and 2.0.0 where none that is known is asked for.
pub open spec fn revision_to_write(revision: PactSpecification) -> PactSpecification {
    if revision == PactSpecification::Unknown {
        PactSpecification::V2
    } else {
        revision
    }
}

/// The sections that are written, before they are put in order: those of
/// the pact but for those that the writer sets itself, then the maker and
/// the revision of the file format.
pub open spec fn sections_to_write(metadata: MetadataView, revision: PactSpecification) -> MetadataView {
    kept_sections(metadata, 0).push(("pact-rust"@, seq![("version"@, library_version())])).push(
        ("pact-specification"@, seq![("version"@, revision_text(revision_to_write(revision)))]),
    )
}

/// The metadata as they are written: the sections to write in the order
/// of their names.
pub open spec fn written_metadata(metadata: MetadataView, revision: PactSpecification) -> MetadataView {
    ordered_upto(
        sections_to_write(metadata, revision),
        sections_to_write(metadata, revision).len() as int,
    )
}

/// `place_of` gives a position within the sections or just behind them.
pub proof fn place_of_bounds(sections: MetadataView, name: Seq<char>)
    ensures
        0 <= place_of(sections, name) <= sections.len(),
    decreases sections.len(),
{
    if sections.len() > 0 && !precedes(name, sections[0].0) {
        place_of_bounds(sections.skip(1), name);
    }
}

/// Whether a text stands before another in the order of the dictionary.
pub fn comes_before(a: &str, b: &str) -> (r: bool)
    ensures
        r == precedes(a@, b@),
{
    let x = crate::text::chars_of(a);
    let y = crate::text::chars_of(b);
    let mut k: usize = 0;
    while k < x.len() && k < y.len()
        invariant
            k <= x.len(),
            k <= y.len(),
            x@ == a@,
            y@ == b@,
            precedes_from(x@, y@, 0) == precedes_from(x@, y@, k as int),
        decreases x.len() - k,
    {
        if x[k] != y[k] {
            return x[k] < y[k];
        }
        k = k + 1;
    }
    k < y.len()
}

fn place_for(sections: &Metadata, name: &str) -> (at: usize)
    ensures
        at == place_of(entries_view(sections@), name@),
        at <= sections.len(),
{
    let ghost all = entries_view(sections@);
    let mut i: usize = 0;
    proof {
        assert(all.skip(0) =~= all);
    }
    while i < sections.len()
        invariant
            i <= sections.len(),
            all == entries_view(sections@),
            place_of(all, name@) == i + place_of(all.skip(i as int), name@),
        decreases sections.len() - i,
    {
        assert(all.skip(i as int)[0] == all[i as int]);
        if comes_before(name, sections[i].0.as_str()) {
            return i;
        }
        proof {
            assert(all.skip(i as int).skip(1) =~= all.skip(i + 1));
        }
        i = i + 1;
    }
    i
}

fn add_section(sections: &mut Metadata, name: String, entries: Rule)
    ensures
        entries_view(final(sections)@) == with_section(
            entries_view(old(sections)@),
            (name@, pairs_view(entries@)),
        ),
{
    let at = place_for(sections, name.as_str());
    let ghost before = entries_view(sections@);
    sections.insert(at, (name, entries));
    assert(entries_view(sections@) =~= before.insert(at as int, (name@, pairs_view(entries@))));
}

/// Metadata as a JSON object of objects of strings.
pub open spec fn metadata_json(metadata: MetadataView) -> JsonValue {
    JsonValue::Object(Seq::new(metadata.len(), |i: int| (metadata[i].0, pairs_json(metadata[i].1))))
}

/// A consumer or provider as JSON.
pub open spec fn party_json(name: Seq<char>) -> JsonValue {
    JsonValue::Object(seq![("name"@, JsonValue::Str(name))])
}

/// Interactions as a JSON array under a revision.
pub open spec fn interactions_json_as(
    interactions: Seq<InteractionView>,
    revision: PactSpecification,
) -> JsonValue {
    JsonValue::Array(
        Seq::new(interactions.len(), |i: int| interaction_json_as(interactions[i], revision)),
    )
}

/// A pact as JSON under a revision: consumer, provider, interactions and
/// metadata, in this order. Where no known revision is asked for, 2.0.0
/// is written.
pub open spec fn pact_json_as(pact: PactView, revision: PactSpecification) -> JsonValue {
    JsonValue::Object(
        seq![
            ("consumer"@, party_json(pact.consumer)),
            ("provider"@, party_json(pact.provider)),
            (
                "interactions"@,
                interactions_json_as(pact.interactions, revision_to_write(revision)),
            ),
            ("metadata"@, metadata_json(written_metadata(pact.metadata, revision))),
        ],
    )
}

/// A pact as JSON under revision 2.0.0.
pub open spec fn pact_json(pact: PactView) -> JsonValue {
    pact_json_as(pact, PactSpecification::V2)
}

fn one_entry(name: &str, value: &str) -> (entries: Rule)
    ensures
        pairs_view(entries@) == seq![(name@, value@)],
{
    let mut entries: Rule = Vec::new();
    entries.push((String::from_str(name), String::from_str(value)));
    assert(pairs_view(entries@) =~= seq![(name@, value@)]);
    entries
}

fn sections_for_writing(metadata: &Metadata, revision: PactSpecification) -> (out: Metadata)
    ensures
        entries_view(out@) == sections_to_write(entries_view(metadata@), revision),
{
    let ghost all = entries_view(metadata@);
    let mut out: Metadata = Vec::new();
    assert(entries_view(out@) =~= MetadataView::empty());
    let mut i: usize = 0;
    while i < metadata.len()
        invariant
            i <= metadata.len(),
            all == entries_view(metadata@),
            entries_view(out@) + kept_sections(all, i as int) == kept_sections(all, 0),
        decreases metadata.len() - i,
    {
        let ghost before = entries_view(out@);
        let name = metadata[i].0.as_str();
        if !(name.eq("pact-specification") || name.eq("pact-rust")) {
            out.push((metadata[i].0.clone(), clone_pairs(&metadata[i].1)));
            proof {
                assert(entries_view(out@) =~= before.push(all[i as int]));
                assert(before + (seq![all[i as int]] + kept_sections(all, i + 1)) =~= before.push(
                    all[i as int],
                ) + kept_sections(all, i + 1));
            }
        }
        i = i + 1;
    }
    let ghost kept = entries_view(out@);
    proof {
        assert(kept + MetadataView::empty() =~= kept);
    }
    out.push((String::from_str("pact-rust"), one_entry("version", "0.1.0")));
    let written = if revision == PactSpecification::Unknown {
        PactSpecification::V2
    } else {
        revision
    };
    out.push(
        (
            String::from_str("pact-specification"),
            one_entry("version", written.version_str().as_str()),
        ),
    );
    assert(entries_view(out@) =~= sections_to_write(all, revision));
    out
}

fn metadata_to_write(metadata: &Metadata, revision: PactSpecification) -> (out: Metadata)
    ensures
        entries_view(out@) == written_metadata(entries_view(metadata@), revision),
{
    let sections = sections_for_writing(metadata, revision);
    let ghost all = entries_view(sections@);
    let mut out: Metadata = Vec::new();
    assert(entries_view(out@) =~= MetadataView::empty());
    let mut i: usize = 0;
    while i < sections.len()
        invariant
            i <= sections.len(),
            all == entries_view(sections@),
            entries_view(out@) == ordered_upto(all, i as int),
        decreases sections.len() - i,
    {
        add_section(&mut out, sections[i].0.clone(), clone_pairs(&sections[i].1));
        i = i + 1;
    }
    out
}

fn metadata_to_json(metadata: &Metadata) -> (j: Json)
    ensures
        j@ == metadata_json(entries_view(metadata@)),
{
    let mut members: Vec<(String, Json)> = Vec::new();
    let mut i: usize = 0;
    while i < metadata.len()
        invariant
            i <= metadata.len(),
            members@.len() == i,
            forall|k: int|
                0 <= k < i ==> (#[trigger] members@[k]).0@ == metadata@[k].0@ && members@[k].1@
                    == pairs_json(pairs_view(metadata@[k].1@)),
        decreases metadata.len() - i,
    {
        members.push((metadata[i].0.clone(), pairs_to_json(&metadata[i].1)));
        i = i + 1;
    }
    let j = object(members);
    assert(j@->Object_0 =~= metadata_json(entries_view(metadata@))->Object_0);
    j
}

fn party_to_json(name: &str) -> (j: Json)
    ensures
        j@ == party_json(name@),
{
    let mut members: Vec<(String, Json)> = Vec::new();
    members.push((String::from_str("name"), Json::Str(String::from_str(name))));
    let j = object(members);
    assert(j@->Object_0 =~= party_json(name@)->Object_0);
    j
}

fn metadata_from_json(json: Option<&Json>) -> (metadata: Metadata)
    ensures
        entries_view(metadata@) == metadata_of_json(option_ref_json(json)),
{
    let mut metadata: Metadata = Vec::new();
    assert(entries_view(metadata@) =~= MetadataView::empty());
    match json {
        Some(value) => match value {
            Json::Object(members) => {
                let mut i: usize = 0;
                while i < members.len()
                    invariant
                        *value == Json::Object(*members),
                        i <= members.len(),
                        metadata@.len() == i,
                        forall|k: int|
                            0 <= k < i ==> (#[trigger] metadata@[k]).0@ == members@[k].0@
                                && pairs_view(metadata@[k].1@) == rule_of_json(members@[k].1@),
                    decreases members.len() - i,
                {
                    let entries: Rule = match &members[i].1 {
                        Json::Object(inner) => {
                            let mut pairs: Rule = Vec::new();
                            let mut k: usize = 0;
                            while k < inner.len()
                                invariant
                                    k <= inner.len(),
                                    pairs@.len() == k,
                                    forall|m: int|
                                        0 <= m < k ==> (#[trigger] pairs@[m]).0@ == inner@[m].0@
                                            && pairs@[m].1@ == text_of(inner@[m].1@),
                                decreases inner.len() - k,
                            {
                                pairs.push((inner[k].0.clone(), inner[k].1.as_text()));
                                k = k + 1;
                            }
                            assert(pairs_view(pairs@) =~= pairs_of_members(
                                Json::Object(*inner)@->Object_0,
                            ));
                            pairs
                        },
                        _ => {
                            let pairs: Rule = Vec::new();
                            assert(pairs_view(pairs@) =~= Seq::<(Seq<char>, Seq<char>)>::empty());
                            pairs
                        },
                    };
                    metadata.push((members[i].0.clone(), entries));
                    i = i + 1;
                }
                assert(entries_view(metadata@) =~= metadata_of_json(Some(value@)));
            },
            _ => {},
        },
        None => {},
    }
    metadata
}

fn find_section(metadata: &Metadata, name: &str) -> (at: usize)
    ensures
        at == key_position(entries_view(metadata@), name@, 0),
        at <= metadata.len(),
{
    let mut i: usize = 0;
    while i < metadata.len()
        invariant
            i <= metadata.len(),
            key_position(entries_view(metadata@), name@, 0) == key_position(
                entries_view(metadata@),
                name@,
                i as int,
            ),
        decreases metadata.len() - i,
    {
        if metadata[i].0.as_str().eq(name) {
            return i;
        }
        i = i + 1;
    }
    i
}

fn entry_of<'a>(metadata: &'a Metadata, section: &str, name: &str) -> (entry: Option<&'a String>)
    ensures
        option_ref_text(entry) == metadata_entry(entries_view(metadata@), section@, name@),
{
    let at = find_section(metadata, section);
    if at < metadata.len() {
        let entries = &metadata[at].1;
        let position = find_pair(entries, name);
        if position < entries.len() {
            Some(&entries[position].1)
        } else {
            None
        }
    } else {
        None
    }
}

/// The revision of the file format that metadata name: that of the
/// section `pact-specification` and, where there is none, that of the
/// section `pactSpecification`.
pub fn detect_revision(metadata: &Metadata) -> (revision: PactSpecification)
    ensures
        revision == detected_revision(entries_view(metadata@)),
{
    match entry_of(metadata, "pact-specification", "version") {
        Some(text) => PactSpecification::from_version(text.as_str()),
        None => match entry_of(metadata, "pactSpecification", "version") {
            Some(text) => PactSpecification::from_version(text.as_str()),
            None => PactSpecification::Unknown,
        },
    }
}

fn flaw_of_part(json: &Json, name: &str, location: &str, array: bool) -> (found: Vec<ParseError>)
    ensures
        views(found@) == part_flaw(json@, name@, location@, array),
{
    let mut found: Vec<ParseError> = Vec::new();
    match json.get(name) {
        None => {
            found.push(
                ParseError { kind: ParseErrorKind::MissingField, location: String::from_str(location) },
            );
        },
        Some(part) => {
            let fits = match part {
                Json::Array(_) => array,
                Json::Object(_) => !array,
                _ => false,
            };
            if !fits {
                found.push(
                    ParseError { kind: ParseErrorKind::BadType, location: String::from_str(location) },
                );
            }
        },
    }
    assert(views(found@) =~= part_flaw(json@, name@, location@, array));
    found
}

fn append_flaws(out: &mut Vec<ParseError>, more: Vec<ParseError>)
    ensures
        views(final(out)@) == views(old(out)@) + views(more@),
{
    let mut more = more;
    let ghost added = more@;
    out.append(&mut more);
    assert(views(out@) =~= views(old(out)@) + views(added));
}

impl Pact {
    /// A pact without names, interactions or metadata.
    pub fn default() -> (pact: Pact)
        ensures
            pact@ == (PactView {
                consumer: "consumer"@,
                provider: "provider"@,
                interactions: Seq::empty(),
                metadata: Seq::empty(),
                specification_version: PactSpecification::Unknown,
            }),
    {
        let pact = Pact {
            consumer: Consumer { name: String::from_str("consumer") },
            provider: Provider { name: String::from_str("provider") },
            interactions: Vec::new(),
            metadata: Vec::new(),
            specification_version: PactSpecification::Unknown,
        };
        assert(views(pact.interactions@) =~= Seq::<InteractionView>::empty());
        assert(entries_view(pact.metadata@) =~= MetadataView::empty());
        pact
    }

    /// The flaws of a JSON document as a pact. None of them keeps the
    /// document from being read.
    pub fn check(json: &Json) -> (found: Vec<ParseError>)
        ensures
            views(found@) == flaws(json@),
    {
        let mut found = flaw_of_part(json, "consumer", "$.consumer", false);
        append_flaws(&mut found, flaw_of_part(json, "provider", "$.provider", false));
        append_flaws(&mut found, flaw_of_part(json, "interactions", "$.interactions", true));
        let mut of_metadata: Vec<ParseError> = Vec::new();
        match json.get("metadata") {
            Some(part) => match part {
                Json::Object(_) => {},
                _ => {
                    of_metadata.push(
                        ParseError {
                            kind: ParseErrorKind::BadType,
                            location: String::from_str("$.metadata"),
                        },
                    );
                },
            },
            None => {},
        }
        assert(views(of_metadata@) =~= metadata_flaw(json@));
        append_flaws(&mut found, of_metadata);
        let metadata = metadata_from_json(json.get("metadata"));
        let mut of_revision: Vec<ParseError> = Vec::new();
        if detect_revision(&metadata) == PactSpecification::Unknown {
            of_revision.push(
                ParseError {
                    kind: ParseErrorKind::UnknownSpec,
                    location: String::from_str("$.metadata"),
                },
            );
        }
        assert(views(of_revision@) =~= revision_flaw(json@));
        append_flaws(&mut found, of_revision);
        found
    }

    /// Reads a pact from a JSON document, as well as it can be read. What
    /// the document does not say is as in the default pact; a document
    /// with a flaw is read under no known revision.
    pub fn from_json(json: &Json) -> (pact: Pact)
        ensures
            pact@ == pact_of_json(json@),
    {
        let metadata = metadata_from_json(json.get("metadata"));
        let found = Pact::check(json);
        let revision = if found.len() == 0 {
            detect_revision(&metadata)
        } else {
            PactSpecification::Unknown
        };
        let consumer = match json.get("consumer") {
            Some(party) => match party.get("name") {
                Some(name) => name.as_text(),
                None => String::from_str("consumer"),
            },
            None => String::from_str("consumer"),
        };
        let provider = match json.get("provider") {
            Some(party) => match party.get("name") {
                Some(name) => name.as_text(),
                None => String::from_str("provider"),
            },
            None => String::from_str("provider"),
        };
        let mut interactions: Vec<Interaction> = Vec::new();
        match json.get("interactions") {
            Some(value) => match value {
                Json::Array(items) => {
                    let mut i: usize = 0;
                    while i < items.len()
                        invariant
                            *value == Json::Array(*items),
                            i <= items.len(),
                            interactions@.len() == i,
                            forall|k: int|
                                0 <= k < i ==> (#[trigger] interactions@[k])@
                                    == interaction_of_json(items@[k]@, revision),
                        decreases items.len() - i,
                    {
                        interactions.push(Interaction::from_json(&items[i], revision));
                        i = i + 1;
                    }
                },
                _ => {},
            },
            None => {},
        }
        assert(views(interactions@) =~= interactions_of_json(
            json@.member("interactions"@),
            revision,
        ));
        Pact {
            consumer: Consumer { name: consumer },
            provider: Provider { name: provider },
            interactions,
            metadata,
            specification_version: revision,
        }
    }

    /// Writes this pact as a JSON document, under revision 2.0.0 of the
    /// file format.
    pub fn to_json(&self) -> (j: Json)
        ensures
            j@ == pact_json(self@),
    {
        self.to_json_as(PactSpecification::V2)
    }

    /// Writes this pact as a JSON document under the given revision of
    /// the file format, and under 2.0.0 where the revision is none that is
    /// known.
    pub fn to_json_as(&self, revision: PactSpecification) -> (j: Json)
        ensures
            j@ == pact_json_as(self@, revision),
    {
        let written = if revision == PactSpecification::Unknown {
            PactSpecification::V2
        } else {
            revision
        };
        let mut items: Vec<Json> = Vec::new();
        let mut i: usize = 0;
        while i < self.interactions.len()
            invariant
                i <= self.interactions.len(),
                items@.len() == i,
                forall|k: int|
                    0 <= k < i ==> (#[trigger] items@[k])@ == interaction_json_as(
                        self.interactions@[k]@,
                        written,
                    ),
            decreases self.interactions.len() - i,
        {
            items.push(self.interactions[i].to_json_as(written));
            i = i + 1;
        }
        let interactions = array(items);
        assert(interactions@->Array_0 =~= interactions_json_as(
            views(self.interactions@),
            written,
        )->Array_0);
        let metadata = metadata_to_json(&metadata_to_write(&self.metadata, revision));
        let mut members: Vec<(String, Json)> = Vec::new();
        members.push((String::from_str("consumer"), party_to_json(self.consumer.name.as_str())));
        members.push((String::from_str("provider"), party_to_json(self.provider.name.as_str())));
        members.push((String::from_str("interactions"), interactions));
        members.push((String::from_str("metadata"), metadata));
        let j = object(members);
        assert(j@->Object_0 =~= pact_json_as(self@, revision)->Object_0);
        j
    }
}

/// What reading a text as a pact gives: the pact that the document
/// stands for, or the one flaw that keeps a text from being read, that
/// it is no JSON.
pub open spec fn parsed_pact(text: Seq<u8>) -> Result<PactView, ParseErrorView> {
    match json_parse_result(text) {
        Ok(document) => Ok(pact_of_json(document)),
        Err(_) => Err(ParseErrorView { kind: ParseErrorKind::NotJson, location: "$"@ }),
    }
}

/// A pact or a flaw, each taken by its view.
pub open spec fn pact_result_view(r: Result<Pact, ParseError>) -> Result<PactView, ParseErrorView> {
    match r {
        Ok(pact) => Ok(pact@),
        Err(e) => Err(e@),
    }
}

/// Reads a pact from the text of a pact file.
pub fn parse(text: &[u8]) -> (r: Result<Pact, ParseError>)
    ensures
        pact_result_view(r) == parsed_pact(text@),
{
    match Json::parse(text) {
        Ok(document) => Ok(Pact::from_json(&document)),
        Err(_) => Err(ParseError { kind: ParseErrorKind::NotJson, location: String::from_str("$") }),
    }
}

/// The text of a pact file for a pact: its JSON document under revision
/// 2.0.0, in compact form.
pub fn serialize(pact: &Pact) -> (text: String)
    ensures
        text@ == json_text(pact_json(pact@)),
{
    pact.to_json().to_text()
}

/// The text of a pact file for a pact under the given revision of the
/// file format.
pub fn serialize_as(pact: &Pact, revision: PactSpecification) -> (text: String)
    ensures
        text@ == json_text(pact_json_as(pact@, revision)),
{
    pact.to_json_as(revision).to_text()
}

} // verus!

//! The parser: it walks the input one syntactic unit at a time, hands every
//! line to the section that is open, and writes each section into the
//! document when the next one starts or the input ends.
//!
//! A unit starts at the first byte that is no whitespace. What kind of unit
//! it is shows in that byte: `/` and `#` start a comment, `[` a section
//! header, `=` and `:` the value of the key read before, and any other byte
//! a property: a key, a record, or the version header.

use crate::beatmap::{Beatmap, BeatmapModel};
use crate::beatmap::dispatch::{
    is_keyed, lemma_record_errors, Section, section_kind, section_named, SectionModel,
};
use crate::beatmap::error::{Error, ErrorModel, outcome, SectionKind, Token};
use crate::beatmap::number::{parse_usize, usize_value};
use crate::beatmap::scanner::{
    column_at, comment_end, inline_space_end, line_at, line_break, line_end, not_inline_space,
    not_space, one_of, Scanner, space_end, token_end,
};
use crate::beatmap::text::{
    CLOSE_BRACKET, COLON, COMMA, EQUALS, find, HASH, latin1, lemma_find, lemma_find_again,
    lemma_find_unique, lemma_split_nonempty, LINE_FEED, OPEN_BRACKET, SLASH, SPACE, split,
    split_fields, strip_prefix, strip_prefix_all, text_of, trim, trimmed,
};
use vstd::prelude::*;
use vstd::string::StringSliceAdditionalSpecFns;

verus! {

/// The state of a parse: how far the input is read, the section that is
/// open, the key that waits for its value, and the document so far.
pub struct ParserModel {
    pub position: int,
    pub section: Option<SectionModel>,
    pub key: Option<Seq<u8>>,
    pub result: BeatmapModel,
}

/// A byte that starts a comment.
pub open spec fn is_comment_byte(b: u8) -> bool {
    b == SLASH || b == HASH
}

/// The test for a byte that starts a comment, as a value.
pub open spec fn comment_byte() -> spec_fn(u8) -> bool {
    |b: u8| is_comment_byte(b)
}

/// Whether `s` holds a byte that starts a comment.
pub open spec fn has_comment(s: Seq<u8>) -> bool {
    find(s, 0, comment_byte()) < s.len()
}

/// The terminator of a section name.
pub open spec fn name_end() -> Seq<Option<u8>> {
    seq![Some(CLOSE_BRACKET)]
}

/// The terminators of a key.
pub open spec fn key_end() -> Seq<Option<u8>> {
    seq![Some(EQUALS), Some(COLON)]
}

/// The version that the header `line` gives: the number in its last word,
/// behind any `v`. Words are parted by single spaces.
pub open spec fn version_word(line: Seq<u8>) -> Seq<u8> {
    split(line, SPACE).last()
}

impl ParserModel {
    /// The state before anything is read.
    pub open spec fn start() -> ParserModel {
        ParserModel { position: 0, section: None, key: None, result: BeatmapModel::empty() }
    }

    /// The same state at another place of the input.
    pub open spec fn at(self, position: int) -> ParserModel {
        ParserModel { position, ..self }
    }

    /// The document with the open section, if there is one, written into it.
    pub open spec fn finished(self) -> BeatmapModel {
        match self.section {
            Some(section) => self.result.with_section(section),
            None => self.result,
        }
    }

    /// A comment. It may start in the first two columns of a line only, and
    /// a `/` needs a second `/` behind it. It runs to the end of its line.
    #[verifier::opaque]
    pub open spec fn comment_step(self, input: Seq<u8>) -> Result<ParserModel, ErrorModel> {
        if column_at(input, self.position) > 1 {
            Err(ErrorModel::UnsupportedInlineComment)
        } else if input[self.position] == SLASH && !(self.position + 1 < input.len()
            && input[self.position + 1] == SLASH) {
            Err(ErrorModel::MalformedCommentMarker)
        } else {
            Ok(self.at(comment_end(input, self.position)))
        }
    }

    /// A section header. The name stands between the current byte and the
    /// next `]`, with blanks around it set aside. A name that is known
    /// writes the open section into the document and opens its own section
    /// afresh.
    #[verifier::opaque]
    pub open spec fn section_step(self, input: Seq<u8>) -> Result<ParserModel, ErrorModel> {
        let from = self.position + 1;
        let end = token_end(input, from, name_end());
        let name = trimmed(input.subrange(from, end));
        if end >= input.len() {
            Err(ErrorModel::UnexpectedEndOfInput(Token::SectionName))
        } else {
            match section_named(name) {
                Some(kind) => Ok(
                    ParserModel {
                        position: end + 1,
                        section: Some(SectionModel::fresh(kind)),
                        result: self.finished(),
                        ..self
                    },
                ),
                None => Err(ErrorModel::UnknownSection(latin1(name))),
            }
        }
    }

    /// A key: everything up to the next `=` or `:`, with blanks around it
    /// set aside. A key that is not empty waits for its value.
    #[verifier::opaque]
    pub open spec fn key_step(self, input: Seq<u8>) -> Result<ParserModel, ErrorModel> {
        let end = token_end(input, self.position, key_end());
        let key = trimmed(input.subrange(self.position, end));
        if end >= input.len() {
            Err(ErrorModel::UnexpectedEndOfInput(Token::Key))
        } else {
            Ok(
                ParserModel {
                    position: end,
                    key: if key.len() > 0 {
                        Some(key)
                    } else {
                        self.key
                    },
                    ..self
                },
            )
        }
    }

    /// A value: what stands behind the current byte up to the end of the
    /// line, with blanks around it set aside. It needs a key that waits for
    /// it, and must hold no byte that starts a comment. It goes into the
    /// open section under that key, and the key is used up.
    #[verifier::opaque]
    pub open spec fn value_step(self, input: Seq<u8>) -> Result<ParserModel, ErrorModel> {
        let from = inline_space_end(input, self.position + 1);
        let end = line_end(input, from);
        let raw = input.subrange(from, end);
        match self.key {
            None => Err(ErrorModel::MissingKey),
            Some(key) => if has_comment(raw) {
                Err(ErrorModel::UnsupportedInlineComment)
            } else {
                match self.section {
                    Some(section) => match section.assign(key, trimmed(raw)) {
                        Ok(next) => Ok(
                            ParserModel { position: end, section: Some(next), key: None, ..self },
                        ),
                        Err(error) => Err(error),
                    },
                    None => Ok(ParserModel { position: end, key: None, ..self }),
                }
            },
        }
    }

    /// A line of records: the rest of the line, cut at its commas, goes into
    /// the open section.
    #[verifier::opaque]
    pub open spec fn list_step(self, input: Seq<u8>) -> Result<ParserModel, ErrorModel> {
        let end = line_end(input, self.position);
        let fields = split(input.subrange(self.position, end), COMMA);
        match self.section {
            Some(section) => match section.with_record(fields) {
                Ok(next) => Ok(ParserModel { position: end, section: Some(next), ..self }),
                Err(error) => Err(error),
            },
            None => Ok(self.at(end)),
        }
    }

    /// A line outside any section. On the first line it is the version
    /// header; on any other line it is passed over.
    #[verifier::opaque]
    pub open spec fn version_step(self, input: Seq<u8>) -> Result<ParserModel, ErrorModel> {
        let end = line_end(input, self.position);
        let word = version_word(input.subrange(self.position, end));
        if line_at(input, self.position) == 0 {
            match usize_value(strip_prefix_all(word, "v".spec_bytes())) {
                Some(version) => Ok(
                    ParserModel {
                        position: end,
                        result: BeatmapModel { version: Some(version), ..self.result },
                        ..self
                    },
                ),
                None => Err(ErrorModel::InvalidVersion(latin1(word))),
            }
        } else {
            Ok(self.at(end))
        }
    }

    /// A property: a key in a section of fields, a record in a section of
    /// records, and the version header or nothing outside any section.
    pub open spec fn property_step(self, input: Seq<u8>) -> Result<ParserModel, ErrorModel> {
        match self.section {
            Some(section) => if is_keyed(section.kind()) {
                self.key_step(input)
            } else {
                self.list_step(input)
            },
            None => self.version_step(input),
        }
    }

    /// One syntactic unit, chosen by the current byte.
    pub open spec fn step(self, input: Seq<u8>) -> Result<ParserModel, ErrorModel> {
        let b = input[self.position];
        if is_comment_byte(b) {
            self.comment_step(input)
        } else if b == OPEN_BRACKET {
            self.section_step(input)
        } else if b == EQUALS || b == COLON {
            self.value_step(input)
        } else {
            self.property_step(input)
        }
    }
}

/// Every unit that is read takes at least one byte, and none reads beyond
/// the input.
pub proof fn lemma_step_advances(input: Seq<u8>, s: ParserModel)
    requires
        0 <= s.position < input.len(),
        !crate::beatmap::text::is_space(input[s.position]),
    ensures
        s.step(input) matches Ok(next) ==> s.position < next.position <= input.len(),
{
    reveal(ParserModel::comment_step);
    reveal(ParserModel::section_step);
    reveal(ParserModel::key_step);
    reveal(ParserModel::value_step);
    reveal(ParserModel::list_step);
    reveal(ParserModel::version_step);
    let p = s.position;
    lemma_find(input, p, crate::beatmap::text::byte(LINE_FEED));
    lemma_find(input, p + 1, one_of(name_end()));
    lemma_find(input, p, one_of(key_end()));
    lemma_find(input, p + 1, not_inline_space());
    lemma_find(input, inline_space_end(input, p + 1), line_break());
    lemma_find(input, p, line_break());
    let b = input[p];
    if !is_comment_byte(b) && b != OPEN_BRACKET && b != EQUALS && b != COLON {
        assert(!line_break()(b));
        assert(!one_of(key_end())(b)) by {
            assert(key_end()[0] == Some(EQUALS));
            assert(key_end()[1] == Some(COLON));
            assert(key_end().len() == 2);
        }
        if token_end(input, p, key_end()) == p {
        }
        if line_end(input, p) == p {
        }
    }
}

/// The outcome of reading `input` from the state `s` on: units are read one
/// after another, with the whitespace between them passed over, until one
/// gives an error or the input ends; then the open section is written into
/// the document.
pub open spec fn run(input: Seq<u8>, s: ParserModel) -> Result<BeatmapModel, ErrorModel>
    decreases input.len() - s.position,
    via run_decreases
{
    let here = s.at(space_end(input, s.position));
    if 0 <= here.position < input.len() {
        match here.step(input) {
            Ok(next) => run(input, next),
            Err(error) => Err(error),
        }
    } else {
        Ok(s.finished())
    }
}

#[via_fn]
proof fn run_decreases(input: Seq<u8>, s: ParserModel) {
    let here = s.at(space_end(input, s.position));
    if 0 <= here.position < input.len() {
        if s.position >= 0 {
            lemma_find(input, s.position, not_space());
        }
        lemma_step_advances(input, here);
    }
}

/// The outcome of reading `input` as a beatmap.
pub open spec fn parse_document(input: Seq<u8>) -> Result<BeatmapModel, ErrorModel> {
    run(input, ParserModel::start())
}

/// No unit reports that the document is missing.
pub proof fn lemma_step_errors(input: Seq<u8>, s: ParserModel)
    ensures
        s.step(input) matches Err(e) ==> !(e is MissingResult),
{
    reveal(ParserModel::comment_step);
    reveal(ParserModel::section_step);
    reveal(ParserModel::key_step);
    reveal(ParserModel::value_step);
    reveal(ParserModel::list_step);
    reveal(ParserModel::version_step);
    if let Some(section) = s.section {
        lemma_record_errors(
            section,
            split(input.subrange(s.position, line_end(input, s.position)), COMMA),
        );
    }
}

/// A run never reports that the document is missing: whenever the input
/// can be read to its end, there is a document to hand out.
pub proof fn lemma_result_is_never_missing(input: Seq<u8>, s: ParserModel)
    ensures
        run(input, s) matches Err(e) ==> !(e is MissingResult),
    decreases input.len() - s.position,
{
    let here = s.at(space_end(input, s.position));
    if 0 <= here.position < input.len() {
        if s.position >= 0 {
            lemma_find(input, s.position, not_space());
        }
        lemma_step_advances(input, here);
        lemma_step_errors(input, here);
        if let Ok(next) = here.step(input) {
            lemma_result_is_never_missing(input, next);
        }
    }
}

/// An input without a byte gives the document with no version and no
/// section, and no error.
pub proof fn lemma_empty_input()
    ensures
        parse_document(Seq::empty()) == Ok::<BeatmapModel, ErrorModel>(BeatmapModel::empty()),
{
}

/// A line `key: value` whose key the open section does not know, and whose
/// value holds no byte that starts a comment, is read without an error and
/// leaves the section and the document as they were: only the place in the
/// input moves on, to the end of the line, and the key is used up.
pub proof fn lemma_unknown_key_is_ignored(
    input: Seq<u8>,
    s: ParserModel,
    key: Seq<u8>,
    section: SectionModel,
)
    requires
        s.key == Some(key),
        s.section == Some(section),
        !section.knows(key),
        !has_comment(
            input.subrange(
                inline_space_end(input, s.position + 1),
                line_end(input, inline_space_end(input, s.position + 1)),
            ),
        ),
    ensures
        s.value_step(input) == Ok::<ParserModel, ErrorModel>(
            ParserModel {
                position: line_end(input, inline_space_end(input, s.position + 1)),
                key: None,
                ..s
            },
        ),
{
    reveal(ParserModel::value_step);
}

/// Whitespace before a unit does not change the outcome.
pub proof fn lemma_run_skips_space(input: Seq<u8>, s: ParserModel)
    requires
        0 <= s.position <= input.len(),
    ensures
        run(input, s) == run(input, s.at(space_end(input, s.position))),
{
    lemma_find_again(input, s.position, not_space());
}

/// The last section of the kind `kind` among `sections`, if there is one.
pub open spec fn last_of_kind(sections: Seq<SectionModel>, kind: SectionKind) -> Option<
    SectionModel,
>
    decreases sections.len(),
{
    if sections.len() == 0 {
        None
    } else if sections.last().kind() == kind {
        Some(sections.last())
    } else {
        last_of_kind(sections.drop_last(), kind)
    }
}

impl ParserModel {
    /// The section that is open, as a list of one, or of none.
    pub open spec fn open_section(self) -> Seq<SectionModel> {
        match self.section {
            Some(section) => seq![section],
            None => Seq::empty(),
        }
    }

    /// The section that the unit at the current byte closes: the open one,
    /// where the unit is a section header.
    pub open spec fn closed_section(self, input: Seq<u8>) -> Seq<SectionModel> {
        if input[self.position] == OPEN_BRACKET {
            self.open_section()
        } else {
            Seq::empty()
        }
    }
}

/// The sections that are closed while `input` is read from the state `s`
/// on, in the order in which they are closed: each with what its lines gave
/// since its header. A section is closed by the header behind it or by the
/// end of the input.
pub open spec fn sections_read(input: Seq<u8>, s: ParserModel) -> Seq<SectionModel>
    decreases input.len() - s.position,
    via sections_read_decreases
{
    let here = s.at(space_end(input, s.position));
    if 0 <= here.position < input.len() {
        match here.step(input) {
            Ok(next) => here.closed_section(input) + sections_read(input, next),
            Err(_) => Seq::empty(),
        }
    } else {
        s.open_section()
    }
}

#[via_fn]
proof fn sections_read_decreases(input: Seq<u8>, s: ParserModel) {
    let here = s.at(space_end(input, s.position));
    if 0 <= here.position < input.len() {
        if s.position >= 0 {
            lemma_find(input, s.position, not_space());
        }
        lemma_step_advances(input, here);
    }
}

/// The last section of a kind among the open one is the open one, if it is
/// of that kind.
pub proof fn lemma_last_open(s: ParserModel, kind: SectionKind)
    ensures
        last_of_kind(s.open_section(), kind) == match s.section {
            Some(section) => if section.kind() == kind {
                Some(section)
            } else {
                None
            },
            None => None,
        },
{
    let open = s.open_section();
    if open.len() > 0 {
        assert(open.last() == s.section->0);
        assert(open.drop_last() =~= Seq::<SectionModel>::empty());
        assert(last_of_kind(open.drop_last(), kind) is None);
    }
}

/// Among two lists put together, the last section of a kind is the last one
/// in the second list, or else the last one in the first.
pub proof fn lemma_last_of_kind_concat(
    first: Seq<SectionModel>,
    second: Seq<SectionModel>,
    kind: SectionKind,
)
    ensures
        last_of_kind(first + second, kind) == match last_of_kind(second, kind) {
            Some(section) => Some(section),
            None => last_of_kind(first, kind),
        },
    decreases second.len(),
{
    if second.len() == 0 {
        assert(first + second =~= first);
    } else {
        assert((first + second).drop_last() =~= first + second.drop_last());
        lemma_last_of_kind_concat(first, second.drop_last(), kind);
    }
}

/// A section that is written into a document is the section of its kind
/// there, and the sections of the other kinds stay.
pub proof fn lemma_with_section(document: BeatmapModel, section: SectionModel, kind: SectionKind)
    ensures
        document.with_section(section).section(kind) == if section.kind() == kind {
            Some(section)
        } else {
            document.section(kind)
        },
{
}

/// What a unit does to the document: a section header writes the open
/// section into it, and no other unit touches a section of it.
pub proof fn lemma_step_result(input: Seq<u8>, s: ParserModel, kind: SectionKind)
    requires
        0 <= s.position < input.len(),
        s.step(input) is Ok,
    ensures
        input[s.position] == OPEN_BRACKET ==> s.step(input)->Ok_0.result == s.finished(),
        input[s.position] != OPEN_BRACKET ==> s.step(input)->Ok_0.result.section(kind)
            == s.result.section(kind),
{
    reveal(ParserModel::comment_step);
    reveal(ParserModel::section_step);
    reveal(ParserModel::key_step);
    reveal(ParserModel::value_step);
    reveal(ParserModel::list_step);
    reveal(ParserModel::version_step);
}

/// The document that a run gives has, of each kind, the section that was
/// closed last, and where none of the kind was closed, what it had before.
pub proof fn lemma_run_sections(input: Seq<u8>, s: ParserModel, kind: SectionKind)
    requires
        run(input, s) is Ok,
    ensures
        run(input, s)->Ok_0.section(kind) == match last_of_kind(sections_read(input, s), kind) {
            Some(section) => Some(section),
            None => s.result.section(kind),
        },
    decreases input.len() - s.position,
{
    let here = s.at(space_end(input, s.position));
    if 0 <= here.position < input.len() {
        if s.position >= 0 {
            lemma_find(input, s.position, not_space());
        }
        lemma_step_advances(input, here);
        let next = here.step(input)->Ok_0;
        let closed = here.closed_section(input);
        lemma_step_result(input, here, kind);
        lemma_run_sections(input, next, kind);
        lemma_last_of_kind_concat(closed, sections_read(input, next), kind);
        lemma_last_open(here, kind);
        if closed.len() > 0 {
            lemma_with_section(s.result, here.section->0, kind);
        }
    } else {
        lemma_last_open(s, kind);
        if s.section is Some {
            lemma_with_section(s.result, s.section->0, kind);
        }
    }
}

/// A document that is read has exactly the sections whose headers the input
/// holds, and of each the one whose header comes last, with what the lines
/// behind that header gave.
pub proof fn lemma_last_section_wins(input: Seq<u8>, kind: SectionKind)
    requires
        parse_document(input) is Ok,
    ensures
        parse_document(input)->Ok_0.section(kind) == last_of_kind(
            sections_read(input, ParserModel::start()),
            kind,
        ),
{
    lemma_run_sections(input, ParserModel::start(), kind);
}

/// A parser over an input. Each of its steps reads one unit; a step that
/// gives an error leaves the document as it was.
pub struct Parser<'a> {
    scanner: Scanner<'a>,
    section: Option<Section>,
    key: Option<&'a [u8]>,
    result: Beatmap,
}

impl<'a> View for Parser<'a> {
    type V = ParserModel;

    closed spec fn view(&self) -> ParserModel {
        ParserModel {
            position: self.scanner.position(),
            section: self.section.deep_view(),
            key: match self.key {
                Some(key) => Some(key@),
                None => None,
            },
            result: self.result@,
        }
    }
}

impl<'a> Parser<'a> {
    /// The input that is read.
    pub closed spec fn source(&self) -> Seq<u8> {
        self.scanner.source()
    }

    /// The parser stands within its input.
    pub closed spec fn well_formed(&self) -> bool {
        self.scanner.well_formed()
    }

    /// A well-formed parser stands within its input.
    pub proof fn lemma_in_range(&self)
        requires
            self.well_formed(),
        ensures
            0 <= self@.position <= self.source().len(),
    {
        self.scanner.lemma_in_range();
    }

    /// A parser at the start of `input`, with no section open and an empty
    /// document.
    pub fn new(input: &'a [u8]) -> (p: Parser<'a>)
        ensures
            p.well_formed(),
            p.source() == input@,
            p@ == ParserModel::start(),
    {
        Parser { scanner: Scanner::new(input), section: None, key: None, result: Beatmap::new() }
    }

    /// Writes `section` into the document, in place of what the document
    /// had of that kind.
    pub fn finish_section(&mut self, section: Section)
        ensures
            final(self)@ == (ParserModel {
                result: old(self)@.result.with_section(section@),
                ..old(self)@
            }),
            final(self).source() == old(self).source(),
            final(self).well_formed() == old(self).well_formed(),
    {
        match section {
            Section::General(s) => {
                self.result.general = Some(s);
            },
            Section::Editor(s) => {
                self.result.editor = Some(s);
            },
            Section::Metadata(s) => {
                self.result.metadata = Some(s);
            },
            Section::Difficulty(s) => {
                self.result.difficulty = Some(s);
            },
            Section::Events(s) => {
                self.result.events = Some(s);
            },
            Section::TimingPoints(s) => {
                self.result.timing_points = Some(s);
            },
            Section::Colours(s) => {
                self.result.colours = Some(s);
            },
            Section::HitObjects(s) => {
                self.result.hit_objects = Some(s);
            },
        }
    }

    /// Reads a section header. Where the name is not known no section is
    /// open afterwards.
    pub fn parse_section(&mut self) -> (r: Result<(), Error>)
        requires
            old(self).well_formed(),
        ensures
            final(self).well_formed(),
            final(self).source() == old(self).source(),
            match old(self)@.section_step(old(self).source()) {
                Ok(next) => r is Ok && final(self)@ == next,
                Err(error) => r matches Err(e) && e@ == error && final(self)@.result
                    == old(self)@.result,
            },
            r matches Err(e) && e is UnknownSection ==> final(self)@.section is None,
    {
        proof {
            reveal(ParserModel::section_step);
        }
        proof {
            self.scanner.lemma_in_range();
        }
        self.scanner.bump();
        let endpoint = [Some(CLOSE_BRACKET)];
        assert(endpoint@ =~= name_end());
        let ghost from = self.scanner.position();
        let raw = self.scanner.parse_str_until(endpoint.as_slice(), Token::SectionName)?;
        proof {
            lemma_find(self.source(), from, one_of(name_end()));
            assert(!name_end().contains(None)) by {
                assert(name_end().len() == 1);
                assert(name_end()[0] == Some(CLOSE_BRACKET));
            }
        }
        let name = trim(raw);
        self.scanner.bump();
        match section_kind(name) {
            Some(kind) => {
                if let Some(section) = self.section.take() {
                    self.finish_section(section);
                }
                self.section = Some(Section::open(kind));
                Ok(())
            },
            None => {
                self.section = None;
                Err(Error::UnknownSection(text_of(name)))
            },
        }
    }

    /// Reads a key, up to the `=` or `:` behind it.
    pub fn parse_key(&mut self) -> (r: Result<(), Error>)
        requires
            old(self).well_formed(),
        ensures
            final(self).well_formed(),
            final(self).source() == old(self).source(),
            match old(self)@.key_step(old(self).source()) {
                Ok(next) => r is Ok && final(self)@ == next,
                Err(error) => r matches Err(e) && e@ == error && final(self)@.result
                    == old(self)@.result,
            },
    {
        proof {
            reveal(ParserModel::key_step);
        }
        proof {
            self.scanner.lemma_in_range();
        }
        let endpoint = [Some(EQUALS), Some(COLON)];
        assert(endpoint@ =~= key_end());
        let ghost from = self.scanner.position();
        let raw = self.scanner.parse_str_until(endpoint.as_slice(), Token::Key)?;
        proof {
            lemma_find(self.source(), from, one_of(key_end()));
            assert(!key_end().contains(None)) by {
                assert(key_end().len() == 2);
                assert(key_end()[0] == Some(EQUALS));
                assert(key_end()[1] == Some(COLON));
            }
        }
        let key = trim(raw);
        if key.len() > 0 {
            self.key = Some(key);
        }
        Ok(())
    }

    /// Reads the value behind `=` or `:` and takes it into the open section
    /// under the key that waits for it.
    pub fn parse_val(&mut self) -> (r: Result<(), Error>)
        requires
            old(self).well_formed(),
        ensures
            final(self).well_formed(),
            final(self).source() == old(self).source(),
            match old(self)@.value_step(old(self).source()) {
                Ok(next) => r is Ok && final(self)@ == next,
                Err(error) => r matches Err(e) && e@ == error && final(self)@.result
                    == old(self)@.result,
            },
    {
        proof {
            reveal(ParserModel::value_step);
        }
        proof {
            self.scanner.lemma_in_range();
        }
        let key = match self.key {
            Some(key) => key,
            None => {
                return Err(Error::MissingKey);
            },
        };
        self.scanner.bump();
        self.scanner.parse_whitespace_except_line_break();
        let raw = self.scanner.parse_str_until_eol();
        if holds_comment(raw) {
            return Err(Error::UnsupportedInlineComment);
        }
        let value = trim(raw);
        match &mut self.section {
            Some(section) => {
                section.assign(key, value)?;
            },
            None => {},
        }
        self.key = None;
        Ok(())
    }

    /// Reads a line of records and takes it into the open section.
    pub fn parse_list(&mut self) -> (r: Result<(), Error>)
        requires
            old(self).well_formed(),
        ensures
            final(self).well_formed(),
            final(self).source() == old(self).source(),
            match old(self)@.list_step(old(self).source()) {
                Ok(next) => r is Ok && final(self)@ == next,
                Err(error) => r matches Err(e) && e@ == error && final(self)@.result
                    == old(self)@.result,
            },
    {
        proof {
            reveal(ParserModel::list_step);
        }
        let line = self.scanner.parse_str_until_eol();
        let fields = split_fields(line, COMMA);
        proof {
            lemma_split_nonempty(line@, COMMA);
        }
        match &mut self.section {
            Some(section) => {
                section.add_record(&fields)?;
            },
            None => {},
        }
        Ok(())
    }

    /// Reads a line outside any section: the version header on the first
    /// line, nothing on any other.
    fn parse_version(&mut self) -> (r: Result<(), Error>)
        requires
            old(self).well_formed(),
        ensures
            final(self).well_formed(),
            final(self).source() == old(self).source(),
            match old(self)@.version_step(old(self).source()) {
                Ok(next) => r is Ok && final(self)@ == next,
                Err(error) => r matches Err(e) && e@ == error && final(self)@.result
                    == old(self)@.result,
            },
    {
        proof {
            reveal(ParserModel::version_step);
        }
        let first_line = self.scanner.line() == 0;
        let line = self.scanner.parse_str_until_eol();
        if first_line {
            let words = split_fields(line, SPACE);
            proof {
                lemma_split_nonempty(line@, SPACE);
            }
            let word = words[words.len() - 1];
            assert(word@ == version_word(line@));
            match parse_usize(strip_prefix(word, "v".as_bytes())) {
                Some(version) => {
                    self.result.version = Some(version);
                },
                None => {
                    return Err(Error::InvalidVersion(text_of(word)));
                },
            }
        }
        Ok(())
    }

    /// Reads a property: what it is depends on the section that is open.
    pub fn parse_property(&mut self) -> (r: Result<(), Error>)
        requires
            old(self).well_formed(),
        ensures
            final(self).well_formed(),
            final(self).source() == old(self).source(),
            match old(self)@.property_step(old(self).source()) {
                Ok(next) => r is Ok && final(self)@ == next,
                Err(error) => r matches Err(e) && e@ == error && final(self)@.result
                    == old(self)@.result,
            },
    {
        match &self.section {
            Some(Section::General(_)) => self.parse_key(),
            Some(Section::Editor(_)) => self.parse_key(),
            Some(Section::Metadata(_)) => self.parse_key(),
            Some(Section::Difficulty(_)) => self.parse_key(),
            Some(Section::Events(_)) => self.parse_list(),
            Some(Section::TimingPoints(_)) => self.parse_list(),
            Some(Section::Colours(_)) => self.parse_list(),
            Some(Section::HitObjects(_)) => self.parse_list(),
            None => self.parse_version(),
        }
    }

    /// Reads the input to its end and hands out the document, or the first
    /// error.
    pub fn parse(self) -> (r: Result<Beatmap, Error>)
        requires
            self.well_formed(),
        ensures
            outcome(r) == run(self.source(), self@),
    {
        let mut parser = self;
        let ghost input = parser.source();
        let ghost start = parser@;
        proof {
            parser.scanner.lemma_in_range();
            lemma_run_skips_space(input, start);
            lemma_find(input, start.position, not_space());
            lemma_find_again(input, start.position, not_space());
        }
        parser.scanner.parse_whitespace();
        loop
            invariant
                parser.well_formed(),
                parser.source() == input,
                input == self.source(),
                start == self@,
                0 <= parser@.position <= input.len(),
                space_end(input, parser@.position) == parser@.position,
                run(input, parser@) == run(input, start),
            ensures
                parser@.position == input.len(),
            decreases input.len() - parser@.position,
        {
            let ghost here = parser@;
            let c = match parser.scanner.chr() {
                Some(c) => c,
                None => {
                    break ;
                },
            };
            proof {
                assert(here.at(here.position) == here);
                lemma_find(input, here.position, not_space());
                lemma_step_advances(input, here);
            }
            if c == SLASH || c == HASH {
                proof {
                    reveal(ParserModel::comment_step);
                }
                if parser.scanner.col() > 1 {
                    return Err(Error::UnsupportedInlineComment);
                }
                if c == SLASH && !parser.scanner.next_is(SLASH) {
                    return Err(Error::MalformedCommentMarker);
                }
                parser.scanner.parse_comment();
            } else if c == OPEN_BRACKET {
                parser.parse_section()?;
            } else if c == EQUALS || c == COLON {
                if parser.key.is_none() {
                    proof {
                        reveal(ParserModel::value_step);
                    }
                    return Err(Error::MissingKey);
                }
                parser.parse_val()?;
            } else {
                parser.parse_property()?;
            }
            proof {
                assert(here.step(input) == Ok::<ParserModel, ErrorModel>(parser@));
                lemma_run_skips_space(input, parser@);
            }
            let ghost unit_end = parser@.position;
            parser.scanner.parse_whitespace();
            proof {
                lemma_find(input, unit_end, not_space());
                lemma_find_again(input, unit_end, not_space());
            }
        }
        if let Some(section) = parser.section.take() {
            parser.finish_section(section);
        }
        Ok(parser.result)
    }
}

/// Whether `s` holds a byte that starts a comment.
pub fn holds_comment(s: &[u8]) -> (r: bool)
    ensures
        r == has_comment(s@),
{
    let mut i: usize = 0;
    while i < s.len() && s[i] != SLASH && s[i] != HASH
        invariant
            i <= s.len(),
            forall|k: int| 0 <= k < i ==> !is_comment_byte(#[trigger] s@[k]),
        decreases s.len() - i,
    {
        i += 1;
    }
    proof {
        lemma_find_unique(s@, 0, comment_byte(), i as int);
    }
    i < s.len()
}

} // verus!

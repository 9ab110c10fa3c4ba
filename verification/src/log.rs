//! A game log: who wrote it, in which client language, and how its lines
//! are normalized and told apart.
use vstd::prelude::*;

use crate::language::{
    combat_kind_spec, generate_language, kind_fits, kind_rank, language_table,
    lemma_combat_kind_first_fit, lemma_combat_kind_fits, lemma_language_names_distinct,
    LanguageView, LineKind,
};
use crate::pattern::{regex_replace_all, regex_replace_all_result};
use crate::reader::{
    begin_spec, detected_language, details_fit, details_spec, feed_fault, feed_spec, fresh_reader,
    header_bytes_fit, header_verdict, lemma_valid_header, line_step_view, start_view, string_views, LineStep, LogReader, ReadFault,
    ReadStart, ReaderView,
};
use crate::text::{
    byte_range, byte_range_ok, byte_slice, lemma_split_len, split_on, split_seq, str_eq,
};

verus! {

/// Line ends inside a record.
pub const LINE_END_PATTERN: &'static str = r"[\r\n]+";

/// Markup tags.
pub const TAG_PATTERN: &'static str = r"<.*?>";

/// Blanks and dashes before a field separator.
pub const BLANK_BEFORE_FIELD_PATTERN: &'static str = r"█?[\s-]+█";

/// Blanks and dashes after a field separator.
pub const BLANK_AFTER_FIELD_PATTERN: &'static str = r"█[\s-]+";

/// Repeated field separators.
pub const REPEATED_FIELD_PATTERN: &'static str = r"█+";

/// Separators and punctuation at the end of the line.
pub const TRAILING_PATTERN: &'static str = r"[█\.,*]+$";

/// Punctuation around a field separator.
pub const PUNCTUATED_FIELD_PATTERN: &'static str = r"[\.,*]*█[\.,\+\-*]*";

/// The character that separates the fields of a normalized line.
pub const FIELD_SEPARATOR: char = '█';

/// The field separator as a string.
pub const FIELD_SEPARATOR_STR: &'static str = "█";

/// The message type of a combat line.
pub const COMBAT: &'static str = "combat";

// ---------------------------------------------------------------------------
// Normalizing and telling lines apart
// ---------------------------------------------------------------------------

/// One replacement step: every match of `pattern` replaced (the text is
/// kept as it is when the pattern does not compile).
pub open spec fn replace_step(pattern: Seq<char>, text: Seq<char>, replacement: Seq<char>) -> Seq<
    char,
> {
    match regex_replace_all_result(pattern, text, replacement) {
        Some(t) => t,
        None => text,
    }
}

/// The normalized form of a record: line ends removed, tags turned into
/// field separators, and blanks, dashes, punctuation and repeated
/// separators around the separators cleaned away, in this order.
pub open spec fn normalized(line: Seq<char>) -> Seq<char> {
    let l0 = replace_step(LINE_END_PATTERN@, line, ""@);
    let l1 = replace_step(TAG_PATTERN@, l0, FIELD_SEPARATOR_STR@);
    let l2 = replace_step(BLANK_BEFORE_FIELD_PATTERN@, l1, FIELD_SEPARATOR_STR@);
    let l3 = replace_step(BLANK_AFTER_FIELD_PATTERN@, l2, FIELD_SEPARATOR_STR@);
    let l4 = replace_step(REPEATED_FIELD_PATTERN@, l3, FIELD_SEPARATOR_STR@);
    let l5 = replace_step(TRAILING_PATTERN@, l4, ""@);
    replace_step(PUNCTUATED_FIELD_PATTERN@, l5, FIELD_SEPARATOR_STR@)
}

/// The replacements that normalize a record, in the order they are made:
/// each a pattern and what its matches are replaced by.
pub open spec fn normalize_steps() -> Seq<(Seq<char>, Seq<char>)> {
    seq![
        (LINE_END_PATTERN@, ""@),
        (TAG_PATTERN@, FIELD_SEPARATOR_STR@),
        (BLANK_BEFORE_FIELD_PATTERN@, FIELD_SEPARATOR_STR@),
        (BLANK_AFTER_FIELD_PATTERN@, FIELD_SEPARATOR_STR@),
        (REPEATED_FIELD_PATTERN@, FIELD_SEPARATOR_STR@),
        (TRAILING_PATTERN@, ""@),
        (PUNCTUATED_FIELD_PATTERN@, FIELD_SEPARATOR_STR@),
    ]
}

/// `text` after each replacement of `steps` in turn.
pub open spec fn apply_steps(steps: Seq<(Seq<char>, Seq<char>)>, text: Seq<char>) -> Seq<char>
    decreases steps.len(),
{
    if steps.len() == 0 {
        text
    } else {
        apply_steps(steps.drop_first(), replace_step(steps[0].0, text, steps[0].1))
    }
}

/// Normalizing makes the replacements of [`normalize_steps`] one after the
/// other, each on the text the one before it left: the trailing cleanup
/// works on the text in which tags already stand as field separators and
/// repeated separators are collapsed, and comes before the separators are
/// freed of punctuation.
pub proof fn lemma_normalized_steps(line: Seq<char>)
    ensures
        normalized(line) == apply_steps(normalize_steps(), line),
{
    reveal_with_fuel(apply_steps, 8);
}

/// The fields of a normalized line.
pub open spec fn fields(nline: Seq<char>) -> Seq<Seq<char>> {
    split_seq(nline, FIELD_SEPARATOR)
}

/// The first field of a normalized line holds the time at bytes `2..21` and
/// the message type at bytes `25..31`, both whole pieces of it.
pub open spec fn line_head_ok(nline: Seq<char>) -> bool {
    &&& byte_range_ok(fields(nline)[0], 2, 21)
    &&& byte_range_ok(fields(nline)[0], 25, 31)
}

/// The message type of a normalized line (`combat`, `notify`, ...).
pub open spec fn message_type(nline: Seq<char>) -> Seq<char> {
    byte_range(fields(nline)[0], 25, 31)
}

/// What a normalized line reports, read with the phrases of `lang`.
pub open spec fn line_kind_spec(lang: crate::language::LanguageView, nline: Seq<char>) -> LineKind {
    if message_type(nline) == COMBAT@ {
        combat_kind_spec(lang, fields(nline))
    } else {
        LineKind::Ignored
    }
}

/// A record is read with the phrases of the language `lang` it is read
/// for: a combat record is told apart as a kind that fits its fields and
/// the phrases of `lang`, the first such kind in the order of [`LineKind`];
/// every other record is `Ignored`.
pub proof fn lemma_line_kind_reads_language(lang: LanguageView, nline: Seq<char>, kind: LineKind)
    ensures
        message_type(nline) == COMBAT@ ==> kind_fits(
            lang,
            fields(nline),
            line_kind_spec(lang, nline),
        ),
        message_type(nline) == COMBAT@ && kind_fits(lang, fields(nline), kind) && (forall|e: LineKind|
            kind_rank(e) < kind_rank(kind) ==> !#[trigger] kind_fits(lang, fields(nline), e))
            ==> line_kind_spec(lang, nline) == kind,
        message_type(nline) != COMBAT@ ==> line_kind_spec(lang, nline) == LineKind::Ignored,
{
    lemma_combat_kind_fits(lang, fields(nline));
    if message_type(nline) == COMBAT@ && kind_fits(lang, fields(nline), kind) && (forall|e: LineKind|
        kind_rank(e) < kind_rank(kind) ==> !#[trigger] kind_fits(lang, fields(nline), e)) {
        lemma_combat_kind_first_fit(lang, fields(nline), kind);
    }
}

/// The table index of the language named `name`.
pub open spec fn language_index_from(name: Seq<char>, i: nat) -> Option<nat>
    decreases language_table().len() - i,
{
    if i >= language_table().len() {
        None
    } else if language_table()[i as int].language == name {
        Some(i)
    } else {
        language_index_from(name, i + 1)
    }
}

/// The table index of the language named `name`, if it is in the table.
pub open spec fn language_index(name: Seq<char>) -> Option<nat> {
    language_index_from(name, 0)
}

proof fn lemma_language_index_skip(name: Seq<char>, i: nat)
    requires
        i <= language_table().len(),
        forall|j: int| 0 <= j < i ==> (#[trigger] language_table()[j]).language != name,
    ensures
        language_index(name) == language_index_from(name, i),
    decreases i,
{
    if i > 0 {
        lemma_language_index_skip(name, (i - 1) as nat);
    }
}

proof fn lemma_language_index_found(name: Seq<char>, i: nat)
    requires
        language_index_from(name, i) is Some,
    ensures
        ({
            let k = language_index_from(name, i)->0;
            &&& i <= k < language_table().len()
            &&& language_table()[k as int].language == name
        }),
    decreases language_table().len() - i,
{
    if i < language_table().len() && language_table()[i as int].language != name {
        lemma_language_index_found(name, i + 1);
    }
}

/// The language name of each entry of the table finds that entry again.
pub proof fn lemma_language_index_of_entry(i: int)
    requires
        0 <= i < language_table().len(),
    ensures
        language_index(language_table()[i].language) == Some(i as nat),
{
    lemma_language_names_distinct();
    lemma_language_index_skip(language_table()[i].language, i as nat);
}

/// A log's records are read with the phrases of the table entry named like
/// the log's language, where there is one.
pub proof fn lemma_language_index_names_entry(name: Seq<char>)
    requires
        language_index(name) is Some,
    ensures
        language_index(name)->0 < language_table().len(),
        language_table()[language_index(name)->0 as int].language == name,
{
    lemma_language_index_found(name, 0);
}

/// `line` with every match of `pattern` replaced by `replacement`.
fn replace_all(pattern: &str, line: String, replacement: &str) -> (res: String)
    ensures
        res@ == replace_step(pattern@, line@, replacement@),
{
    match regex_replace_all(pattern, line.as_str(), replacement) {
        Some(t) => t,
        None => line,
    }
}

/// Normalizes a record for reading its fields: removes line ends, turns
/// tags into field separators and cleans blanks, dashes, punctuation and
/// repeated separators around the separators.
pub fn normalize_line(line: &str) -> (res: String)
    ensures
        res@ == normalized(line@),
{
    let mut nline = line.to_owned();
    nline = replace_all(LINE_END_PATTERN, nline, "");
    nline = replace_all(TAG_PATTERN, nline, FIELD_SEPARATOR_STR);
    nline = replace_all(BLANK_BEFORE_FIELD_PATTERN, nline, FIELD_SEPARATOR_STR);
    nline = replace_all(BLANK_AFTER_FIELD_PATTERN, nline, FIELD_SEPARATOR_STR);
    nline = replace_all(REPEATED_FIELD_PATTERN, nline, FIELD_SEPARATOR_STR);
    nline = replace_all(TRAILING_PATTERN, nline, "");
    nline = replace_all(PUNCTUATED_FIELD_PATTERN, nline, FIELD_SEPARATOR_STR);
    nline
}

/// Whether the first field of a normalized line holds the time and the
/// message type at their byte positions.
pub fn head_ok(nline: &str) -> (res: bool)
    ensures
        res == line_head_ok(nline@),
{
    let parts = split_on(nline, FIELD_SEPARATOR);
    proof {
        lemma_split_len(nline@, FIELD_SEPARATOR);
    }
    byte_slice(parts[0], 2, 21).is_some() && byte_slice(parts[0], 25, 31).is_some()
}

/// The table index of the language named `name`.
fn find_language(table: &Vec<crate::language::LogLanguage>, name: &str) -> (res: Option<usize>)
    requires
        table@.len() == language_table().len(),
        forall|j: int| 0 <= j < table@.len() ==> (#[trigger] table@[j])@ == language_table()[j],
    ensures
        match res {
            Some(i) => language_index(name@) == Some(i as nat),
            None => language_index(name@) is None,
        },
{
    let mut i: usize = 0;
    while i < table.len()
        invariant
            i <= table@.len(),
            table@.len() == language_table().len(),
            forall|j: int| 0 <= j < table@.len() ==> (#[trigger] table@[j])@ == language_table()[j],
            forall|j: int| 0 <= j < i ==> (#[trigger] language_table()[j]).language != name@,
        decreases table@.len() - i,
    {
        if str_eq(table[i].name(), name) {
            proof {
                lemma_language_index_skip(name@, i as nat);
            }
            return Some(i);
        }
        i = i + 1;
    }
    proof {
        lemma_language_index_skip(name@, i as nat);
    }
    None
}

// ---------------------------------------------------------------------------
// The log
// ---------------------------------------------------------------------------

/// What [`Log::new`] answers for a file named `file_name` whose first lines
/// are `lines`: the user name, user id and language name, or the error of
/// the first check that fails (header, then details, then language).
pub open spec fn log_new_spec(file_name: Seq<char>, lines: Seq<Seq<char>>) -> Result<
    (Seq<char>, u64, Seq<char>),
    Seq<char>,
> {
    match header_verdict(lines) {
        Some(e) => Err(e),
        None => match details_spec(lines[2], file_name) {
            Err(e) => Err(e),
            Ok((name, id)) => match detected_language(lines[2]) {
                None => Err("problem with detecting language"@),
                Some(i) => Ok((name, id, language_table()[i as int].language)),
            },
        },
    }
}

/// [`Log::new`] has an answer: when the header is valid, the user id of
/// the file name fits in a `u64`.
pub open spec fn log_new_fits(file_name: Seq<char>, lines: Seq<Seq<char>>) -> bool {
    header_verdict(lines) is None ==> details_fit(lines[2], file_name)
}

/// A game log: its reader, and the user and client language it was written
/// for.
#[derive(Debug)]
pub struct Log {
    pub log_reader: LogReader,
    pub user_id: u64,
    pub user_name: String,
    pub ignored: bool,
    pub language: &'static str,
}

impl Log {
    /// The state of the log's reader.
    pub open spec fn reader_view(&self) -> ReaderView {
        self.log_reader@
    }

    /// Opens the log of a file named `file_name`, `file_size` bytes long,
    /// whose first lines (as read one by one with their line ends) are
    /// `lines`: checks the header, takes the user name and id, and detects
    /// the client language.
    pub fn new(file_name: &str, file_size: u64, lines: &Vec<String>) -> (res: Result<Self, &'static str>)
        requires
            header_bytes_fit(string_views(lines@)),
            log_new_fits(file_name@, string_views(lines@)),
        ensures
            match res {
                Ok(log) => {
                    &&& log_new_spec(file_name@, string_views(lines@)) == Ok::<
                        (Seq<char>, u64, Seq<char>),
                        Seq<char>,
                    >((log.user_name@, log.user_id, log.language@))
                    &&& !log.ignored
                    &&& log.reader_view() == fresh_reader(file_size, string_views(lines@))
                    &&& log.reader_view().wf()
                },
                Err(e) => log_new_spec(file_name@, string_views(lines@)) == Err::<
                    (Seq<char>, u64, Seq<char>),
                    Seq<char>,
                >(e@),
            },
    {
        let lreader = match LogReader::new(file_size, lines) {
            Err(e) => return Err(e),
            Ok(v) => v,
        };
        proof {
            lemma_valid_header(string_views(lines@));
            assert(lreader@.header[2] == string_views(lines@)[2]);
        }
        let details = match lreader.get_details(file_name) {
            Err(e) => return Err(e),
            Ok(v) => v,
        };
        let language = match lreader.get_language() {
            Err(e) => return Err(e),
            Ok(v) => v,
        };
        let (user_name, user_id) = details;
        Ok(Log { log_reader: lreader, user_name, user_id, ignored: false, language })
    }

    /// [`Log::new`] where it has an answer; `None` where the user id of the
    /// file name does not fit in a `u64`.
    pub fn try_new(file_name: &str, file_size: u64, lines: &Vec<String>) -> (res: Option<
        Result<Self, &'static str>,
    >)
        requires
            header_bytes_fit(string_views(lines@)),
        ensures
            res is None <==> !log_new_fits(file_name@, string_views(lines@)),
            match res {
                Some(Ok(log)) => {
                    &&& log_new_spec(file_name@, string_views(lines@)) == Ok::<
                        (Seq<char>, u64, Seq<char>),
                        Seq<char>,
                    >((log.user_name@, log.user_id, log.language@))
                    &&& !log.ignored
                    &&& log.reader_view() == fresh_reader(file_size, string_views(lines@))
                    &&& log.reader_view().wf()
                },
                Some(Err(e)) => log_new_spec(file_name@, string_views(lines@)) == Err::<
                    (Seq<char>, u64, Seq<char>),
                    Seq<char>,
                >(e@),
                None => true,
            },
    {
        let reader = match LogReader::new(file_size, lines) {
            Err(e) => return Some(Err(e)),
            Ok(v) => v,
        };
        proof {
            lemma_valid_header(string_views(lines@));
            assert(reader@.header[2] == string_views(lines@)[2]);
        }
        match reader.try_get_details(file_name) {
            None => None,
            Some(_) => Some(Log::new(file_name, file_size, lines)),
        }
    }

    /// Whether a file that is now `file_len` bytes long holds bytes not read
    /// yet.
    pub fn is_changed(&self, file_len: u64) -> (res: bool)
        ensures
            res == (file_len > self.reader_view().offset),
    {
        self.log_reader.is_changed(file_len)
    }

    /// Whether the log's file is open for reading.
    pub fn is_reading(&self) -> (res: bool)
        ensures
            res == self.reader_view().reading,
    {
        self.log_reader.is_reading()
    }

    /// First step of reading one record (see [`LogReader::begin_read`]).
    pub fn begin_read(&mut self, file_len: Option<u64>) -> (res: ReadStart)
        requires
            old(self).reader_view().wf(),
            file_len is Some <==> !old(self).reader_view().reading,
        ensures
            final(self).reader_view().wf(),
            (final(self).reader_view(), start_view(res)) == begin_spec(
                old(self).reader_view(),
                match file_len {
                    Some(l) => l,
                    None => 0,
                },
            ),
            final(self).user_id == old(self).user_id,
            final(self).user_name == old(self).user_name,
            final(self).ignored == old(self).ignored,
            final(self).language == old(self).language,
    {
        self.log_reader.begin_read(file_len)
    }

    /// Whether a body line cannot be read on (see [`LogReader::feed_fault`]).
    pub fn feed_fault(&self, line: &str, num: u64) -> (res: Option<ReadFault>)
        requires
            self.reader_view().offset + num <= u64::MAX,
        ensures
            res == feed_fault(self.reader_view(), line@, num),
    {
        self.log_reader.feed_fault(line, num)
    }

    /// Next step of reading one record (see [`LogReader::feed_line`]).
    pub fn feed_line(&mut self, line: String, num: u64) -> (res: LineStep)
        requires
            old(self).reader_view().wf(),
            old(self).reader_view().reading,
            old(self).reader_view().offset + num <= u64::MAX,
            feed_fault(old(self).reader_view(), line@, num) is None,
        ensures
            final(self).reader_view().wf(),
            (final(self).reader_view(), line_step_view(res)) == feed_spec(
                old(self).reader_view(),
                line@,
                num,
            ),
            final(self).user_id == old(self).user_id,
            final(self).user_name == old(self).user_name,
            final(self).ignored == old(self).ignored,
            final(self).language == old(self).language,
    {
        self.log_reader.feed_line(line, num)
    }

    /// Whether the log's language is one of the table.
    pub fn language_known(&self) -> (res: bool)
        ensures
            res == (language_index(self.language@) is Some),
    {
        let table = generate_language();
        find_language(&table, self.language).is_some()
    }

    /// Tells a normalized record `nline` apart: a combat line by its number
    /// of fields and the phrases of the log's language; every other line is
    /// `Ignored`.
    pub fn classify_normalized(&self, nline: &str) -> (res: LineKind)
        requires
            line_head_ok(nline@),
            language_index(self.language@) is Some,
        ensures
            res == line_kind_spec(
                language_table()[language_index(self.language@)->0 as int],
                nline@,
            ),
    {
        let parts = split_on(nline, FIELD_SEPARATOR);
        proof {
            lemma_split_len(nline@, FIELD_SEPARATOR);
            assert(parts@.map_values(|p: &str| p@) =~= fields(nline@));
        }
        let message_type = match byte_slice(parts[0], 25, 31) {
            Some(m) => m,
            None => {
                return LineKind::Ignored;
            },
        };
        if !str_eq(message_type, COMBAT) {
            return LineKind::Ignored;
        }
        let table = generate_language();
        match find_language(&table, self.language) {
            Some(i) => {
                proof {
                    lemma_language_index_found(self.language@, 0);
                }
                table[i].combat_kind(&parts)
            },
            None => LineKind::Ignored,
        }
    }
}

} // verus!

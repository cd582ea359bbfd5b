//! The record interpreter: per-line JSON validation, type-key extraction,
//! and the accounting of a whole run over a file's lines.

use vstd::prelude::*;
use vstd::string::StringSliceAdditionalSpecFns;
use crate::analysis::{
    Analysis, EntryModel, spec_record, total_count, total_bytes, keys_distinct,
    lemma_record_totals, lemma_entry_le_totals, lemma_record_keys_distinct, lemma_find_key_props,
};

verus! {

/// Byte length of a line: the length of its UTF-8 encoding.
pub open spec fn byte_len(s: Seq<char>) -> nat {
    vstd::utf8::encode_utf8(s).len()
}

/// The name of the field that carries a record's type.
pub open spec fn type_field() -> Seq<char> {
    "type"@
}

/// Why the JSON decoder yields no type key for a non-empty line.
#[derive(Clone, Copy, Debug, PartialEq, Eq, Structural)]
pub enum LineFault {
    /// The line is not a syntactically valid JSON object.
    NotObject,
    /// The object has no field of the asked-for name.
    MissingField,
    /// The field's value could not be serialized back to text.
    Unserializable,
}

/// Names what serde_json makes of one line: `Ok(k)` exactly when the line
/// parses as a JSON object carrying `field` and the value under `field`
/// serializes back to the text `k`; otherwise the fault. Every serde_json
/// call involved is a pure function of the text it is given, so the outcome
/// depends on `field` and `s` alone.
pub uninterp spec fn line_class(field: Seq<char>, s: Seq<char>) -> Result<Seq<char>, LineFault>;

/// A non-empty line that yields a type key: only such lines feed the
/// accumulator.
pub open spec fn contributes(s: Seq<char>) -> bool {
    s.len() > 0 && line_class(type_field(), s) is Ok
}

/// The type key of a contributing line.
pub open spec fn key_of(s: Seq<char>) -> Seq<char> {
    line_class(type_field(), s)->Ok_0
}

/// What interpreting one line does to the accumulated entries.
pub open spec fn spec_step(m: Seq<EntryModel>, s: Seq<char>) -> Seq<EntryModel> {
    if contributes(s) {
        spec_record(m, key_of(s), byte_len(s))
    } else {
        m
    }
}

/// The accumulated entries after interpreting a whole list of lines in order,
/// starting from an empty analysis.
pub open spec fn spec_run(lines: Seq<Seq<char>>) -> Seq<EntryModel>
    decreases lines.len(),
{
    if lines.len() == 0 {
        Seq::empty()
    } else {
        spec_step(spec_run(lines.drop_last()), lines.last())
    }
}

/// How many of the lines contribute a record.
pub open spec fn count_contributing(lines: Seq<Seq<char>>) -> nat
    decreases lines.len(),
{
    if lines.len() == 0 {
        0
    } else {
        count_contributing(lines.drop_last()) + if contributes(lines.last()) {
            1nat
        } else {
            0nat
        }
    }
}

/// Sum of the byte lengths of the contributing lines.
pub open spec fn bytes_contributing(lines: Seq<Seq<char>>) -> nat
    decreases lines.len(),
{
    if lines.len() == 0 {
        0
    } else {
        bytes_contributing(lines.drop_last()) + if contributes(lines.last()) {
            byte_len(lines.last())
        } else {
            0nat
        }
    }
}

/// Sum of the byte lengths of all the lines.
pub open spec fn total_input_bytes(lines: Seq<Seq<char>>) -> nat
    decreases lines.len(),
{
    if lines.len() == 0 {
        0
    } else {
        total_input_bytes(lines.drop_last()) + byte_len(lines.last())
    }
}

/// A recoverable per-line problem: reported with its 1-based line number,
/// the line is skipped, and the run continues.
#[derive(Clone, Copy, Debug, PartialEq, Eq, Structural)]
pub enum Diagnostic {
    /// The line is empty; nothing was parsed. The only warning-level kind.
    EmptyLine { line: usize },
    /// The line is not a syntactically valid JSON object.
    UnexpectedFormat { line: usize },
    /// The object has no `type` field.
    MissingType { line: usize },
    /// The `type` field's value could not be serialized back to text.
    InvalidType { line: usize },
}

impl Diagnostic {
    /// The 1-based line number the diagnostic is about.
    pub open spec fn line_of(self) -> nat {
        match self {
            Diagnostic::EmptyLine { line } => line as nat,
            Diagnostic::UnexpectedFormat { line } => line as nat,
            Diagnostic::MissingType { line } => line as nat,
            Diagnostic::InvalidType { line } => line as nat,
        }
    }

    /// Whether this kind is reported at warning rather than error severity.
    pub open spec fn spec_is_warning(self) -> bool {
        self is EmptyLine
    }

    /// The 1-based line number the diagnostic is about.
    pub fn line_number(&self) -> (r: usize)
        ensures
            r as nat == self.line_of(),
    {
        match self {
            Diagnostic::EmptyLine { line } => *line,
            Diagnostic::UnexpectedFormat { line } => *line,
            Diagnostic::MissingType { line } => *line,
            Diagnostic::InvalidType { line } => *line,
        }
    }

    /// Whether this kind is reported at warning rather than error severity.
    pub fn is_warning(&self) -> (r: bool)
        ensures
            r == self.spec_is_warning(),
    {
        matches!(self, Diagnostic::EmptyLine { .. })
    }
}

/// A run-aborting failure: a JSON decoding error of a kind that is neither
/// syntax, data nor end-of-input. Reported once; the report is suppressed.
#[derive(Debug)]
pub struct FatalError {
    /// The 1-based line number the failure occurred on.
    pub line: usize,
    /// The decoder's own description of the failure.
    pub message: String,
}

/// The outcome of handing one non-empty line to the JSON decoder.
#[derive(Debug)]
pub enum LineParse {
    /// The line is an object with a serializable type field: its canonical key.
    Typed(String),
    /// The line is not a syntactically valid JSON object.
    UnexpectedFormat,
    /// The object has no type field.
    MissingType,
    /// The type field's value could not be serialized back to text.
    InvalidType,
    /// The decoder failed for a reason that is not recoverable per line.
    Fatal(String),
}

/// Relies on serde_json::from_str (parses into a serde_json::Map, rejecting
/// any JSON value that is not an object), serde_json::Map::get (field
/// lookup), serde_json::to_string (canonical serialization of the field's
/// value), and serde_json::Error::classify (syntax, data and end-of-input
/// errors are the recoverable kinds). Each call is a deterministic function
/// of the given text, so the overall outcome is named by `line_class`.
/// The fatal arm never comes back: from_str on in-memory text yields only
/// the three recoverable categories (the io category arises only from io
/// readers), and serializing an already-decoded value cannot fail.
#[verifier::external_body]
fn classify_line(field: &str, line: &str) -> (r: LineParse)
    ensures
        (r is Typed) <==> line_class(field@, line@) is Ok,
        (r matches LineParse::Typed(k) ==> line_class(field@, line@) matches Ok(c) && c == k@),
        (r is UnexpectedFormat) <==> (line_class(field@, line@) matches Err(f) && f is NotObject),
        (r is MissingType) <==> (line_class(field@, line@) matches Err(f) && f is MissingField),
        (r is InvalidType) <==> (line_class(field@, line@) matches Err(f) && f is Unserializable),
        !(r is Fatal),
{
    match serde_json::from_str::<serde_json::Map<String, serde_json::Value>>(line) {
        Ok(obj) => match obj.get(field) {
            Some(v) => match serde_json::to_string(v) {
                Ok(k) => LineParse::Typed(k),
                Err(_) => LineParse::InvalidType,
            },
            None => LineParse::MissingType,
        },
        Err(e) => match e.classify() {
            serde_json::error::Category::Syntax
            | serde_json::error::Category::Data
            | serde_json::error::Category::Eof => LineParse::UnexpectedFormat,
            _ => LineParse::Fatal(e.to_string()),
        },
    }
}

/// Feed the outcome of decoding one line into the accumulator: a typed
/// record is registered under its key with the line's byte size, every other
/// outcome leaves the analysis untouched and is reported, the fatal one as
/// an error that aborts the run.
pub fn interpret_parsed(
    file_analysis: &mut Analysis,
    parsed: LineParse,
    num: usize,
    byte_size: usize,
) -> (r: Result<Option<Diagnostic>, FatalError>)
    requires
        forall|j: int|
            0 <= j < old(file_analysis).model().len() ==> {
                &&& (#[trigger] old(file_analysis).model()[j]).count < u32::MAX
                &&& old(file_analysis).model()[j].bytes + byte_size <= usize::MAX
            },
    ensures
        final(file_analysis).model() == (match parsed {
            LineParse::Typed(k) => spec_record(
                old(file_analysis).model(),
                k@,
                byte_size as nat,
            ),
            _ => old(file_analysis).model(),
        }),
        (match parsed {
            LineParse::Typed(_) => r == Ok::<Option<Diagnostic>, FatalError>(None),
            LineParse::UnexpectedFormat => r == Ok::<Option<Diagnostic>, FatalError>(
                Some(Diagnostic::UnexpectedFormat { line: num }),
            ),
            LineParse::MissingType => r == Ok::<Option<Diagnostic>, FatalError>(
                Some(Diagnostic::MissingType { line: num }),
            ),
            LineParse::InvalidType => r == Ok::<Option<Diagnostic>, FatalError>(
                Some(Diagnostic::InvalidType { line: num }),
            ),
            LineParse::Fatal(msg) => (r matches Err(f) && f.line == num && f.message@ == msg@),
        }),
{
    match parsed {
        LineParse::Typed(k) => {
            proof {
                lemma_find_key_props(file_analysis.model(), k@);
            }
            file_analysis.record(k, byte_size);
            Ok(None)
        },
        LineParse::UnexpectedFormat => Ok(Some(Diagnostic::UnexpectedFormat { line: num })),
        LineParse::MissingType => Ok(Some(Diagnostic::MissingType { line: num })),
        LineParse::InvalidType => Ok(Some(Diagnostic::InvalidType { line: num })),
        LineParse::Fatal(message) => Err(FatalError { line: num, message }),
    }
}

/// The diagnostic that a non-contributing line yields, under its 1-based
/// line number: the empty line its warning, any other line the error
/// matching the decoder's fault.
pub open spec fn spec_diag(s: Seq<char>, num: usize) -> Diagnostic {
    if s.len() == 0 {
        Diagnostic::EmptyLine { line: num }
    } else if line_class(type_field(), s) == Err::<Seq<char>, LineFault>(LineFault::NotObject) {
        Diagnostic::UnexpectedFormat { line: num }
    } else if line_class(type_field(), s) == Err::<Seq<char>, LineFault>(
        LineFault::MissingField,
    ) {
        Diagnostic::MissingType { line: num }
    } else {
        Diagnostic::InvalidType { line: num }
    }
}

/// Interpret one line of the input, 1-based line number `num`: an empty line
/// is only reported, any other line is handed to the JSON decoder, and a
/// record whose type key comes back is registered in the accumulator under
/// that key with the line's byte length.
pub fn process_line(file_analysis: &mut Analysis, line: &str, num: usize) -> (r: Result<
    Option<Diagnostic>,
    FatalError,
>)
    requires
        byte_len(line@) <= usize::MAX,
        forall|j: int|
            0 <= j < old(file_analysis).model().len() ==> {
                &&& (#[trigger] old(file_analysis).model()[j]).count < u32::MAX
                &&& old(file_analysis).model()[j].bytes + byte_len(line@) <= usize::MAX
            },
    ensures
        final(file_analysis).model() == spec_step(old(file_analysis).model(), line@),
        contributes(line@) <==> r == Ok::<Option<Diagnostic>, FatalError>(None),
        !(r is Err),
        (match r {
            Ok(Some(d)) => d == spec_diag(line@, num),
            _ => true,
        }),
{
    if line.is_empty() {
        return Ok(Some(Diagnostic::EmptyLine { line: num }));
    }
    let byte_size = line.len();
    let parsed = classify_line("type", line);
    interpret_parsed(file_analysis, parsed, num, byte_size)
}

/// 0-based indices of the lines that contribute nothing, in order.
pub open spec fn skipped(lines: Seq<Seq<char>>) -> Seq<int>
    decreases lines.len(),
{
    if lines.len() == 0 {
        Seq::empty()
    } else if contributes(lines.last()) {
        skipped(lines.drop_last())
    } else {
        skipped(lines.drop_last()).push(lines.len() - 1)
    }
}

/// The diagnostics report exactly the non-contributing lines, in file order:
/// for each such line, the diagnostic its text and 1-based number determine.
pub open spec fn diags_match(lines: Seq<Seq<char>>, diags: Seq<Diagnostic>) -> bool {
    let sk = skipped(lines);
    &&& diags.len() == sk.len()
    &&& forall|j: int|
        0 <= j < diags.len() ==> {
            &&& 0 <= sk[j] < lines.len()
            &&& #[trigger] diags[j] == spec_diag(lines[sk[j]], (sk[j] + 1) as usize)
        }
}

/// Construct an analysis by interpreting each line of the input in order.
/// Returns the diagnostics for the skipped lines together with the finished
/// analysis. The error arm carries a fatal decoder failure, which would
/// abort the run and discard the analysis; on in-memory text the decoder
/// has no such failure, so the result is proved to be the analysis itself.
pub fn analyze_lines(lines: &Vec<String>) -> (r: (Vec<Diagnostic>, Result<Analysis, FatalError>))
    requires
        lines@.len() <= u32::MAX,
        total_input_bytes(lines.deep_view()) <= usize::MAX,
    ensures
        r.1 is Ok,
        (r.1 matches Ok(a) ==> {
            &&& a.model() == spec_run(lines.deep_view())
            &&& diags_match(lines.deep_view(), r.0@)
        }),
{
    let ghost lv = lines.deep_view();
    let mut file_analysis = Analysis::new();
    let mut diags: Vec<Diagnostic> = Vec::new();
    let n = lines.len();
    let mut i: usize = 0;
    proof {
        assert(lv.take(0) =~= Seq::<Seq<char>>::empty());
    }
    while i < n
        invariant
            i <= n,
            n == lines@.len(),
            lv == lines.deep_view(),
            lv.len() == n,
            lv.len() <= u32::MAX,
            total_input_bytes(lv) <= usize::MAX,
            file_analysis.model() == spec_run(lv.take(i as int)),
            diags_match(lv.take(i as int), diags@),
        decreases n - i,
    {
        let ghost pre = lv.take(i as int);
        let line: &String = &lines[i];
        proof {
            assert(line@ == lv[i as int]);
            lemma_take_bytes_step(lv, i as int);
            lemma_take_bytes_le(lv, i as int + 1);
            lemma_run_totals(pre);
            lemma_count_le_len(pre);
            lemma_bytes_le_input(pre);
            assert forall|j: int| 0 <= j < file_analysis.model().len() implies {
                &&& (#[trigger] file_analysis.model()[j]).count < u32::MAX
                &&& file_analysis.model()[j].bytes + byte_len(line@) <= usize::MAX
            } by {
                lemma_entry_le_totals(file_analysis.model(), j);
            }
        }
        let res = process_line(&mut file_analysis, line.as_str(), i + 1);
        proof {
            assert(lv.take(i as int + 1).drop_last() =~= pre);
            assert(lv.take(i as int + 1).last() == lv[i as int]);
        }
        match res {
            Ok(None) => {
                proof {
                    assert(skipped(lv.take(i as int + 1)) == skipped(pre));
                    lemma_diags_match_extend(lv, i as int, diags@);
                }
            },
            Ok(Some(d)) => {
                diags.push(d);
                proof {
                    assert(skipped(lv.take(i as int + 1)) == skipped(pre).push(i as int));
                    lemma_diags_match_extend(lv, i as int, diags@.drop_last());
                    assert(diags_match(lv.take(i as int + 1), diags@));
                }
            },
            Err(f) => {
                return (diags, Err(f));
            },
        }
        i += 1;
    }
    proof {
        assert(lv.take(n as int) =~= lv);
    }
    (diags, Ok(file_analysis))
}

/// Extending the input by one line leaves the account of the earlier
/// diagnostics as it was.
proof fn lemma_diags_match_extend(lv: Seq<Seq<char>>, i: int, diags: Seq<Diagnostic>)
    requires
        0 <= i < lv.len(),
        diags_match(lv.take(i), diags),
    ensures
        diags.len() == skipped(lv.take(i)).len(),
        forall|j: int|
            0 <= j < diags.len() ==> {
                let sk = skipped(lv.take(i));
                &&& 0 <= sk[j] < i
                &&& #[trigger] diags[j] == spec_diag(lv.take(i + 1)[sk[j]], (sk[j] + 1) as usize)
            },
{
    let sk = skipped(lv.take(i));
    assert forall|j: int| 0 <= j < diags.len() implies {
        &&& 0 <= sk[j] < i
        &&& #[trigger] diags[j] == spec_diag(lv.take(i + 1)[sk[j]], (sk[j] + 1) as usize)
    } by {
        assert(lv.take(i + 1)[sk[j]] == lv.take(i)[sk[j]]);
    }
}

proof fn lemma_take_bytes_step(lines: Seq<Seq<char>>, i: int)
    requires
        0 <= i < lines.len(),
    ensures
        total_input_bytes(lines.take(i + 1)) == total_input_bytes(lines.take(i)) + byte_len(
            lines[i],
        ),
{
    assert(lines.take(i + 1).drop_last() =~= lines.take(i));
    assert(lines.take(i + 1).last() == lines[i]);
}

proof fn lemma_take_bytes_le(lines: Seq<Seq<char>>, k: int)
    requires
        0 <= k <= lines.len(),
    ensures
        total_input_bytes(lines.take(k)) <= total_input_bytes(lines),
    decreases lines.len() - k,
{
    if k == lines.len() {
        assert(lines.take(k) =~= lines);
    } else {
        lemma_take_bytes_step(lines, k);
        lemma_take_bytes_le(lines, k + 1);
    }
}

/// Law: over any input, the total object count over all entries equals the
/// number of contributing lines, and the total byte size over all entries
/// equals the summed byte length of those same lines.
pub proof fn lemma_run_totals(lines: Seq<Seq<char>>)
    ensures
        total_count(spec_run(lines)) == count_contributing(lines),
        total_bytes(spec_run(lines)) == bytes_contributing(lines),
    decreases lines.len(),
{
    if lines.len() > 0 {
        lemma_run_totals(lines.drop_last());
        if contributes(lines.last()) {
            lemma_record_totals(
                spec_run(lines.drop_last()),
                key_of(lines.last()),
                byte_len(lines.last()),
            );
        }
    }
}

/// At most one record comes out of each line.
pub proof fn lemma_count_le_len(lines: Seq<Seq<char>>)
    ensures
        count_contributing(lines) <= lines.len(),
    decreases lines.len(),
{
    if lines.len() > 0 {
        lemma_count_le_len(lines.drop_last());
    }
}

/// The contributing lines' bytes are part of the whole input's bytes.
pub proof fn lemma_bytes_le_input(lines: Seq<Seq<char>>)
    ensures
        bytes_contributing(lines) <= total_input_bytes(lines),
    decreases lines.len(),
{
    if lines.len() > 0 {
        lemma_bytes_le_input(lines.drop_last());
    }
}

/// Law: the analysis is a function of the lines alone; two runs over the
/// same unmodified input yield identical entries.
pub proof fn lemma_analysis_deterministic(lines: Seq<Seq<char>>, a1: Analysis, a2: Analysis)
    requires
        a1.model() == spec_run(lines),
        a2.model() == spec_run(lines),
    ensures
        a1.model() == a2.model(),
{
}

/// Law: an empty input yields an empty analysis.
pub proof fn lemma_empty_input(lines: Seq<Seq<char>>)
    requires
        lines.len() == 0,
    ensures
        spec_run(lines).len() == 0,
{
}

/// The contributing lines of the input, in order.
pub open spec fn contributing_only(lines: Seq<Seq<char>>) -> Seq<Seq<char>> {
    lines.filter(|s: Seq<char>| contributes(s))
}

/// Law: lines that contribute nothing (empty, malformed, missing or
/// unserializable type field) have no effect on the entries of the other
/// lines: the analysis equals the analysis of the contributing lines alone.
pub proof fn lemma_noncontributing_immaterial(lines: Seq<Seq<char>>)
    ensures
        spec_run(lines) == spec_run(contributing_only(lines)),
    decreases lines.len(),
{
    reveal(Seq::filter);
    if lines.len() > 0 {
        lemma_noncontributing_immaterial(lines.drop_last());
        let dl = lines.drop_last();
        if contributes(lines.last()) {
            assert(contributing_only(lines) == contributing_only(dl).push(lines.last()));
            assert(contributing_only(lines).drop_last() =~= contributing_only(dl));
            assert(contributing_only(lines).last() == lines.last());
        } else {
            assert(contributing_only(lines) == contributing_only(dl));
        }
    }
}

/// Law: every key occurs in at most one entry.
pub proof fn lemma_run_keys_distinct(lines: Seq<Seq<char>>)
    ensures
        keys_distinct(spec_run(lines)),
    decreases lines.len(),
{
    if lines.len() > 0 {
        lemma_run_keys_distinct(lines.drop_last());
        if contributes(lines.last()) {
            lemma_record_keys_distinct(
                spec_run(lines.drop_last()),
                key_of(lines.last()),
                byte_len(lines.last()),
            );
        }
    }
}

/// Law: two contributing lines whose type fields serialize to the same key
/// merge into a single entry holding both records and both byte sizes.
pub proof fn lemma_same_key_merges(l1: Seq<char>, l2: Seq<char>)
    requires
        contributes(l1),
        contributes(l2),
        key_of(l1) == key_of(l2),
    ensures
        spec_run(seq![l1, l2]).len() == 1,
        spec_run(seq![l1, l2])[0] == (EntryModel {
            key: key_of(l1),
            count: 2,
            bytes: byte_len(l1) + byte_len(l2),
        }),
{
    reveal_with_fuel(spec_run, 3);
    let s = seq![l1, l2];
    assert(s.drop_last() =~= seq![l1]);
    assert(seq![l1].drop_last() =~= Seq::<Seq<char>>::empty());
    let m1 = spec_run(seq![l1]);
    assert(m1 =~= seq![EntryModel { key: key_of(l1), count: 1, bytes: byte_len(l1) }]);
    assert(spec_run(s) =~= seq![
        EntryModel { key: key_of(l1), count: 2, bytes: byte_len(l1) + byte_len(l2) },
    ]);
}

/// Law: two contributing lines whose type fields serialize to different keys
/// produce two separate entries, in input order.
pub proof fn lemma_distinct_keys_separate(l1: Seq<char>, l2: Seq<char>)
    requires
        contributes(l1),
        contributes(l2),
        key_of(l1) != key_of(l2),
    ensures
        spec_run(seq![l1, l2]).len() == 2,
        spec_run(seq![l1, l2])[0] == (EntryModel {
            key: key_of(l1),
            count: 1,
            bytes: byte_len(l1),
        }),
        spec_run(seq![l1, l2])[1] == (EntryModel {
            key: key_of(l2),
            count: 1,
            bytes: byte_len(l2),
        }),
{
    reveal_with_fuel(spec_run, 3);
    reveal_with_fuel(crate::analysis::find_key, 3);
    let s = seq![l1, l2];
    assert(s.drop_last() =~= seq![l1]);
    assert(seq![l1].drop_last() =~= Seq::<Seq<char>>::empty());
    let m1 = spec_run(seq![l1]);
    assert(m1 =~= seq![EntryModel { key: key_of(l1), count: 1, bytes: byte_len(l1) }]);
    assert(m1.drop_first() =~= Seq::<EntryModel>::empty());
    assert(spec_run(s) =~= seq![
        EntryModel { key: key_of(l1), count: 1, bytes: byte_len(l1) },
        EntryModel { key: key_of(l2), count: 1, bytes: byte_len(l2) },
    ]);
}

} // verus!

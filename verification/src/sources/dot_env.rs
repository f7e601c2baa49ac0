use vstd::prelude::*;

use crate::files::FileStore;
use crate::sources::config_source::{
    convert_property_to_environment_name, ConfigSource, FileError,
};
use crate::table::StringMap;
use crate::text::{
    chars_to_string, find_char, first_index_of, map_env, map_upper, spec_udec, str_to_chars,
    trim_chars, trim_spec, upper_chars, usize_to_string,
};
use vstd::string::*;

verus! {

// =========================================================================
// The dotenv grammar, as specification functions.
//
// A document is split into records on newlines, except that a newline
// between double quotes does not end a record. Records are numbered by the
// 1-based line on which they start. Records that are blank or start with
// `#` after trimming are discarded. Every other record must be
// `KEY=value`: the key is trimmed, stripped of any leading `export `
// prefixes, trimmed again and upper-cased (ASCII); the value is trimmed
// and, when wrapped in a matching pair of double quotes, stripped of
// exactly that pair, keeping the interior — embedded newlines included —
// verbatim. Errors are collected for every bad record; one bad record
// makes the whole parse fail.
// =========================================================================

/// What is wrong with one record of a dotenv document.
#[derive(Debug, Clone, Copy, PartialEq, Eq, Structural)]
pub enum LineParseError {
    /// The record has no `=` at all.
    InvalidAssignment,
    /// The key left of `=` is empty after normalization.
    KeyIsEmpty,
    /// The value right of `=` is empty after trimming and unquoting.
    ValueIsEmpty,
}

/// How many characters the first record of `s` has: everything up to the
/// first newline that does not fall between double quotes.
pub open spec fn record_len(s: Seq<char>, in_quotes: bool) -> nat
    decreases s.len(),
{
    if s.len() == 0 {
        0
    } else if s[0] == '\n' && !in_quotes {
        0
    } else {
        1 + record_len(
            s.skip(1),
            if s[0] == '"' {
                !in_quotes
            } else {
                in_quotes
            },
        )
    }
}

pub open spec fn count_newlines(s: Seq<char>) -> nat
    decreases s.len(),
{
    if s.len() == 0 {
        0
    } else {
        (if s[0] == '\n' {
            1nat
        } else {
            0nat
        }) + count_newlines(s.skip(1))
    }
}

/// The records of a document, each paired with the 1-based line on which
/// it starts. A trailing newline leaves no empty final record behind.
pub open spec fn spec_records(s: Seq<char>, line: nat) -> Seq<(nat, Seq<char>)>
    decreases s.len(),
{
    if s.len() == 0 {
        Seq::empty()
    } else {
        let n = record_len(s, false);
        if n >= s.len() {
            seq![(line, s)]
        } else {
            seq![(line, s.take(n as int))] + spec_records(
                s.skip(n + 1int),
                line + 1 + count_newlines(s.take(n as int)),
            )
        }
    }
}

/// Records that are discarded without being parsed: blank records and
/// `#` comments.
pub open spec fn is_skippable_record(rec: Seq<char>) -> bool {
    trim_spec(rec).len() == 0 || trim_spec(rec)[0] == '#'
}

pub open spec fn export_prefix() -> Seq<char> {
    seq!['e', 'x', 'p', 'o', 'r', 't', ' ']
}

/// The key with every leading `export ` prefix removed.
pub open spec fn strip_export(s: Seq<char>) -> Seq<char>
    decreases s.len(),
{
    if s.len() >= 7 && s.take(7) == export_prefix() {
        strip_export(s.skip(7))
    } else {
        s
    }
}

/// The value with one wrapping pair of double quotes removed, if it is so
/// wrapped; the interior is kept verbatim.
pub open spec fn unquote(s: Seq<char>) -> Seq<char> {
    if s.len() >= 2 && s[0] == '"' && s[s.len() - 1] == '"' {
        s.subrange(1, s.len() - 1)
    } else {
        s
    }
}

/// What one non-skippable record means: a key/value pair, or the error
/// that disqualifies it.
pub open spec fn spec_parse_record(rec: Seq<char>) -> Result<
    (Seq<char>, Seq<char>),
    LineParseError,
> {
    let i = first_index_of(rec, '=');
    if i >= rec.len() {
        Err(LineParseError::InvalidAssignment)
    } else {
        let key = map_upper(trim_spec(strip_export(trim_spec(rec.take(i as int)))));
        let value = unquote(trim_spec(rec.skip(i + 1int)));
        if key.len() == 0 {
            Err(LineParseError::KeyIsEmpty)
        } else if value.len() == 0 {
            Err(LineParseError::ValueIsEmpty)
        } else {
            Ok((key, value))
        }
    }
}

pub open spec fn record_error(rec: Seq<char>) -> Option<LineParseError> {
    if is_skippable_record(rec) {
        None
    } else {
        match spec_parse_record(rec) {
            Ok(_) => None,
            Err(e) => Some(e),
        }
    }
}

pub open spec fn record_pair(rec: Seq<char>) -> Option<(Seq<char>, Seq<char>)> {
    if is_skippable_record(rec) {
        None
    } else {
        match spec_parse_record(rec) {
            Ok(p) => Some(p),
            Err(_) => None,
        }
    }
}

/// Every line error of the document, in record order: one entry per
/// malformed record, carrying that record's 1-based starting line.
pub open spec fn spec_line_errors(records: Seq<(nat, Seq<char>)>) -> Seq<(nat, LineParseError)>
    decreases records.len(),
{
    if records.len() == 0 {
        Seq::empty()
    } else {
        (match record_error(records[0].1) {
            Some(e) => seq![(records[0].0, e)],
            None => Seq::empty(),
        }) + spec_line_errors(records.skip(1))
    }
}

/// Every well-formed key/value pair of the document, in record order.
pub open spec fn spec_pairs(records: Seq<(nat, Seq<char>)>) -> Seq<(Seq<char>, Seq<char>)>
    decreases records.len(),
{
    if records.len() == 0 {
        Seq::empty()
    } else {
        (match record_pair(records[0].1) {
            Some(p) => seq![p],
            None => Seq::empty(),
        }) + spec_pairs(records.skip(1))
    }
}

/// The table that a pair list denotes: a later pair for a key overrides
/// an earlier one.
pub open spec fn pairs_table(pairs: Seq<(Seq<char>, Seq<char>)>) -> Map<Seq<char>, Seq<char>>
    decreases pairs.len(),
{
    if pairs.len() == 0 {
        Map::empty()
    } else {
        pairs_table(pairs.drop_last()).insert(pairs.last().0, pairs.last().1)
    }
}

/// The meaning of a whole dotenv document: its key/value table, or — if
/// any record is malformed — every line error.
pub open spec fn spec_parse(s: Seq<char>) -> Result<
    Map<Seq<char>, Seq<char>>,
    Seq<(nat, LineParseError)>,
> {
    let records = spec_records(s, 1);
    let errs = spec_line_errors(records);
    if errs.len() == 0 {
        Ok(pairs_table(spec_pairs(records)))
    } else {
        Err(errs)
    }
}

// =========================================================================
// Laws of the parser
// =========================================================================

/// Parsing is idempotent: the parse outcome is a function of the text
/// alone, so any two tables obtained by parsing the same valid text are
/// identical.
pub proof fn lemma_parse_idempotent(
    s: Seq<char>,
    first: Map<Seq<char>, Seq<char>>,
    second: Map<Seq<char>, Seq<char>>,
)
    requires
        spec_parse(s) == Ok::<Map<Seq<char>, Seq<char>>, Seq<(nat, LineParseError)>>(first),
        spec_parse(s) == Ok::<Map<Seq<char>, Seq<char>>, Seq<(nat, LineParseError)>>(second),
    ensures
        first == second,
{
}

/// A quoted value is preserved verbatim: when a record parses and its
/// trimmed value is wrapped in double quotes, the parsed value is exactly
/// the interior between the quotes — embedded newlines and interior
/// whitespace included.
pub proof fn lemma_quoted_value_verbatim(rec: Seq<char>, key: Seq<char>, value: Seq<char>)
    requires
        spec_parse_record(rec) == Ok::<(Seq<char>, Seq<char>), LineParseError>((key, value)),
        ({
            let t = trim_spec(rec.skip(first_index_of(rec, '=') + 1int));
            t.len() >= 2 && t[0] == '"' && t[t.len() - 1] == '"'
        }),
    ensures
        ({
            let t = trim_spec(rec.skip(first_index_of(rec, '=') + 1int));
            &&& value == t.subrange(1, t.len() - 1)
            &&& forall|k: int| 1 <= k < t.len() - 1 ==> value[k - 1] == t[k]
        }),
{
    let t = trim_spec(rec.skip(first_index_of(rec, '=') + 1int));
    assert(value == t.subrange(1, t.len() - 1));
}

/// How many records of the list are malformed.
pub open spec fn bad_record_count(records: Seq<(nat, Seq<char>)>) -> nat
    decreases records.len(),
{
    if records.len() == 0 {
        0
    } else {
        (if record_error(records[0].1) is Some {
            1nat
        } else {
            0nat
        }) + bad_record_count(records.skip(1))
    }
}

/// The error list is exhaustive and exact: it has one entry per
/// malformed record, and every entry carries the starting line and the
/// kind of a record that is malformed in exactly that way.
pub proof fn lemma_one_error_per_bad_record(records: Seq<(nat, Seq<char>)>)
    ensures
        spec_line_errors(records).len() == bad_record_count(records),
        forall|k: int|
            #![trigger spec_line_errors(records)[k]]
            0 <= k < spec_line_errors(records).len() ==> exists|j: int|
                0 <= j < records.len() && (#[trigger] records[j]).0 == spec_line_errors(
                    records,
                )[k].0 && record_error(records[j].1) == Some(spec_line_errors(records)[k].1),
    decreases records.len(),
{
    if records.len() > 0 {
        lemma_one_error_per_bad_record(records.skip(1));
        let errs = spec_line_errors(records);
        let tail = spec_line_errors(records.skip(1));
        let shift: int = if record_error(records[0].1) is Some {
            1
        } else {
            0
        };
        assert forall|k: int| #![trigger spec_line_errors(records)[k]] 0 <= k < errs.len() implies exists|j: int|
            0 <= j < records.len() && (#[trigger] records[j]).0 == errs[k].0 && record_error(
                records[j].1,
            ) == Some(errs[k].1) by {
            if k < shift {
                assert(records[0].0 == errs[k].0 && record_error(records[0].1) == Some(
                    errs[k].1,
                ));
            } else {
                assert(errs[k] == tail[k - shift]);
                let j0 = choose|j0: int|
                    0 <= j0 < records.skip(1).len() && (#[trigger] records.skip(1)[j0]).0
                        == tail[k - shift].0 && record_error(records.skip(1)[j0].1) == Some(
                        tail[k - shift].1,
                    );
                assert(records[j0 + 1] == records.skip(1)[j0]);
            }
        }
    }
}

// =========================================================================
// Supporting lemmas
// =========================================================================

proof fn lemma_count_concat(a: Seq<char>, b: Seq<char>)
    ensures
        count_newlines(a + b) == count_newlines(a) + count_newlines(b),
    decreases a.len(),
{
    if a.len() == 0 {
        assert(a + b =~= b);
    } else {
        lemma_count_concat(a.skip(1), b);
        assert((a + b).skip(1) =~= a.skip(1) + b);
        assert((a + b)[0] == a[0]);
    }
}

proof fn lemma_pairs_concat(a: Seq<(nat, Seq<char>)>, b: Seq<(nat, Seq<char>)>)
    ensures
        spec_pairs(a + b) == spec_pairs(a) + spec_pairs(b),
    decreases a.len(),
{
    if a.len() == 0 {
        assert(a + b =~= b);
        assert(spec_pairs(a) + spec_pairs(b) =~= spec_pairs(b));
    } else {
        lemma_pairs_concat(a.skip(1), b);
        assert((a + b).skip(1) =~= a.skip(1) + b);
        assert((a + b)[0] == a[0]);
        assert(spec_pairs(a + b) =~= spec_pairs(a) + spec_pairs(b)) by {
            assert(spec_pairs(a + b) == (match record_pair(a[0].1) {
                Some(p) => seq![p],
                None => Seq::empty(),
            }) + spec_pairs(a.skip(1) + b));
        }
    }
}

// =========================================================================
// The executable parser
// =========================================================================

/// The view of the record list the splitter produces.
pub open spec fn rec_view(p: (usize, Vec<char>)) -> (nat, Seq<char>) {
    (p.0 as nat, p.1@)
}

pub open spec fn recs_view(rs: Seq<(usize, Vec<char>)>) -> Seq<(nat, Seq<char>)> {
    rs.map_values(|p: (usize, Vec<char>)| rec_view(p))
}

/// The view of a collected line-error list.
pub open spec fn errs_view(es: Seq<(usize, LineParseError)>) -> Seq<(nat, LineParseError)> {
    es.map_values(|p: (usize, LineParseError)| (p.0 as nat, p.1))
}

/// Splits a document into records, each tagged with the 1-based line on
/// which it starts.
#[verifier::loop_isolation(false)]
fn split_records(chars: &Vec<char>) -> (r: Vec<(usize, Vec<char>)>)
    ensures
        recs_view(r@) == spec_records(chars@, 1),
{
    let n = chars.len();
    let mut out: Vec<(usize, Vec<char>)> = Vec::new();
    let mut pos: usize = 0;
    let mut nl_before: usize = 0;
    proof {
        assert(chars@.skip(0) =~= chars@);
        assert(chars@.take(0) =~= Seq::<char>::empty());
        assert(recs_view(out@) =~= Seq::<(nat, Seq<char>)>::empty());
    }
    while pos < n
        invariant
            pos <= n,
            nl_before as nat == count_newlines(chars@.take(pos as int)),
            nl_before <= pos,
            spec_records(chars@, 1) == recs_view(out@) + spec_records(
                chars@.skip(pos as int),
                (nl_before + 1) as nat,
            ),
        decreases n - pos,
    {
        let ghost rem = chars@.skip(pos as int);
        let ghost line0 = (nl_before + 1) as nat;
        let mut j = pos;
        let mut in_q = false;
        let mut nl_in: usize = 0;
        let mut rec: Vec<char> = Vec::new();
        proof {
            assert(rec@ =~= chars@.subrange(pos as int, pos as int));
            assert(chars@.subrange(pos as int, pos as int) =~= Seq::<char>::empty());
        }
        while j < n && (chars[j] != '\n' || in_q)
            invariant
                pos <= j <= n,
                rec@ == chars@.subrange(pos as int, j as int),
                nl_in as nat == count_newlines(chars@.subrange(pos as int, j as int)),
                nl_in <= j - pos,
                record_len(rem, false) == (j - pos) + record_len(chars@.skip(j as int), in_q),
            decreases n - j,
        {
            let c = chars[j];
            proof {
                assert(chars@.skip(j as int)[0] == c);
                assert(chars@.skip(j as int).skip(1) =~= chars@.skip(j + 1));
                assert(chars@.subrange(pos as int, j + 1) =~= chars@.subrange(
                    pos as int,
                    j as int,
                ) + seq![c]);
                lemma_count_concat(chars@.subrange(pos as int, j as int), seq![c]);
                assert(count_newlines(Seq::<char>::empty()) == 0);
                assert(seq![c].skip(1) =~= Seq::<char>::empty());
                assert(seq![c][0] == c);
                assert(count_newlines(seq![c]) == (if c == '\n' {
                    1nat
                } else {
                    0nat
                }));
            }
            if c == '"' {
                in_q = !in_q;
            }
            if c == '\n' {
                nl_in = nl_in + 1;
            }
            rec.push(c);
            j = j + 1;
        }
        let line = nl_before + 1;
        let ghost recspec = chars@.subrange(pos as int, j as int);
        if j == n {
            proof {
                assert(chars@.skip(j as int) =~= Seq::<char>::empty());
                assert(record_len(rem, false) == (j - pos) as nat);
                assert(recspec =~= rem);
                assert(spec_records(rem, line0) == seq![(line0, rem)]);
            }
            out.push((line, rec));
            proof {
                assert(recs_view(out@) =~= spec_records(chars@, 1));
                assert(chars@.skip(n as int) =~= Seq::<char>::empty());
                assert(chars@.take(n as int) =~= chars@.take(pos as int) + chars@.subrange(
                    pos as int,
                    n as int,
                ));
                lemma_count_concat(chars@.take(pos as int), chars@.subrange(pos as int, n as int));
            }
            nl_before = nl_before + nl_in;
            pos = n;
        } else {
            // The scan stopped on an unquoted newline at `j`.
            proof {
                assert(chars@.skip(j as int)[0] == '\n');
                assert(record_len(chars@.skip(j as int), in_q) == 0);
                assert(record_len(rem, false) == (j - pos) as nat);
                assert(rem.len() == n - pos);
                assert(rem.take((j - pos) as int) =~= recspec);
                assert(rem.skip((j - pos) + 1int) =~= chars@.skip(j + 1));
                assert(spec_records(rem, line0) == seq![(line0, recspec)] + spec_records(
                    chars@.skip(j + 1),
                    line0 + 1 + count_newlines(recspec),
                ));
            }
            out.push((line, rec));
            let new_nl = nl_before + nl_in + 1;
            proof {
                assert(chars@.take(j + 1int) =~= chars@.take(pos as int) + chars@.subrange(
                    pos as int,
                    j + 1,
                ));
                lemma_count_concat(chars@.take(pos as int), chars@.subrange(pos as int, j + 1));
                assert(chars@.subrange(pos as int, j + 1) =~= recspec + seq!['\n']);
                lemma_count_concat(recspec, seq!['\n']);
                assert(count_newlines(Seq::<char>::empty()) == 0);
                assert(seq!['\n'].skip(1) =~= Seq::<char>::empty());
                assert(seq!['\n'][0] == '\n');
                assert(count_newlines(seq!['\n']) == 1);
                assert(new_nl as nat == count_newlines(chars@.take(j + 1int)));
                assert(recs_view(out@) =~= recs_view(out@.drop_last()) + seq![
                    (line as nat, recspec),
                ]);
                assert(spec_records(chars@, 1) == recs_view(out@) + spec_records(
                    chars@.skip(j + 1),
                    (new_nl + 1) as nat,
                ));
            }
            pos = j + 1;
            nl_before = new_nl;
        }
    }
    proof {
        assert(chars@.skip(n as int) =~= Seq::<char>::empty());
        assert(recs_view(out@) + Seq::<(nat, Seq<char>)>::empty() =~= recs_view(out@));
    }
    out
}

/// Removes every leading `export ` prefix.
fn strip_export_chars(v: Vec<char>) -> (r: Vec<char>)
    ensures
        r@ == strip_export(v@),
{
    let mut cur = v;
    while cur.len() >= 7 && cur[0] == 'e' && cur[1] == 'x' && cur[2] == 'p' && cur[3] == 'o'
        && cur[4] == 'r' && cur[5] == 't' && cur[6] == ' '
        invariant
            strip_export(v@) == strip_export(cur@),
        decreases cur@.len(),
    {
        proof {
            assert(cur@.take(7) =~= export_prefix());
        }
        let next = crate::text::subvec(&cur, 7, cur.len());
        proof {
            assert(next@ =~= cur@.skip(7));
        }
        cur = next;
    }
    proof {
        if cur@.len() >= 7 && cur@.take(7) == export_prefix() {
            assert(cur@[0] == cur@.take(7)[0]);
            assert(cur@[1] == cur@.take(7)[1]);
            assert(cur@[2] == cur@.take(7)[2]);
            assert(cur@[3] == cur@.take(7)[3]);
            assert(cur@[4] == cur@.take(7)[4]);
            assert(cur@[5] == cur@.take(7)[5]);
            assert(cur@[6] == cur@.take(7)[6]);
            assert(false);
        }
        assert(strip_export(cur@) == cur@);
    }
    cur
}

/// Removes one wrapping pair of double quotes, if present.
fn unquote_chars(v: Vec<char>) -> (r: Vec<char>)
    ensures
        r@ == unquote(v@),
{
    let n = v.len();
    if n >= 2 && v[0] == '"' && v[n - 1] == '"' {
        crate::text::subvec(&v, 1, n - 1)
    } else {
        v
    }
}

/// Parses one non-skippable record into its normalized key/value pair.
fn parse_record(rec: &Vec<char>) -> (r: Result<(String, String), LineParseError>)
    ensures
        match r {
            Ok(p) => spec_parse_record(rec@) == Ok::<_, LineParseError>((p.0@, p.1@)),
            Err(e) => spec_parse_record(rec@) == Err::<(Seq<char>, Seq<char>), _>(e),
        },
{
    let n = rec.len();
    let i = find_char(rec, '=');
    if i == n {
        return Err(LineParseError::InvalidAssignment);
    }
    let key_part = crate::text::subvec(rec, 0, i);
    proof {
        assert(key_part@ =~= rec@.take(i as int));
    }
    let key_t1 = trim_chars(&key_part);
    let key_stripped = strip_export_chars(key_t1);
    let key_t2 = trim_chars(&key_stripped);
    let key_chars = upper_chars(&key_t2);
    let val_part = crate::text::subvec(rec, i + 1, n);
    proof {
        assert(val_part@ =~= rec@.skip(i + 1int));
    }
    let val_t = trim_chars(&val_part);
    let val_chars = unquote_chars(val_t);
    if key_chars.len() == 0 {
        Err(LineParseError::KeyIsEmpty)
    } else if val_chars.len() == 0 {
        Err(LineParseError::ValueIsEmpty)
    } else {
        let key = chars_to_string(&key_chars);
        let value = chars_to_string(&val_chars);
        Ok((key, value))
    }
}

// =========================================================================
// Error values
// =========================================================================

/// Every line error found while parsing one dotenv document.
#[derive(Debug, Clone, PartialEq)]
pub struct DotEnvLineParseErrors {
    line_errors: Vec<(usize, LineParseError)>,
}

impl View for DotEnvLineParseErrors {
    type V = Seq<(nat, LineParseError)>;

    closed spec fn view(&self) -> Seq<(nat, LineParseError)> {
        self.line_errors@.map_values(|p: (usize, LineParseError)| (p.0 as nat, p.1))
    }
}

impl DotEnvLineParseErrors {
    pub fn new(line_errors: Vec<(usize, LineParseError)>) -> (r: DotEnvLineParseErrors)
        ensures
            r@ == line_errors@.map_values(|p: (usize, LineParseError)| (p.0 as nat, p.1)),
    {
        DotEnvLineParseErrors { line_errors }
    }

    /// The line/kind pairs, in record order.
    pub fn line_errors(&self) -> (r: &Vec<(usize, LineParseError)>)
        ensures
            r@.map_values(|p: (usize, LineParseError)| (p.0 as nat, p.1)) == self@,
    {
        &self.line_errors
    }

    /// How many malformed lines were found.
    pub fn len(&self) -> (r: usize)
        ensures
            r == self@.len(),
    {
        self.line_errors.len()
    }
}

// --- Diagnostic messages --------------------------------------------------

pub open spec fn spec_error_description(e: LineParseError) -> Seq<char> {
    match e {
        LineParseError::InvalidAssignment => "Record has invalid '=' operand"@,
        LineParseError::KeyIsEmpty => "key is empty"@,
        LineParseError::ValueIsEmpty => "value is empty"@,
    }
}

fn error_description(e: &LineParseError) -> (r: &'static str)
    ensures
        r@ == spec_error_description(*e),
{
    match e {
        LineParseError::InvalidAssignment => "Record has invalid '=' operand",
        LineParseError::KeyIsEmpty => "key is empty",
        LineParseError::ValueIsEmpty => "value is empty",
    }
}

pub open spec fn spec_lines_message(errs: Seq<(nat, LineParseError)>) -> Seq<char>
    decreases errs.len(),
{
    if errs.len() == 0 {
        Seq::empty()
    } else {
        "Line "@ + spec_udec(errs[0].0) + ": "@ + spec_error_description(errs[0].1) + "\n"@
            + spec_lines_message(errs.skip(1))
    }
}

/// The whole report: a count line, then one line per malformed record.
pub open spec fn spec_errors_message(errs: Seq<(nat, LineParseError)>) -> Seq<char> {
    "Found "@ + spec_udec(errs.len()) + " errors while parsing Dot Environment File\n"@
        + spec_lines_message(errs)
}

impl DotEnvLineParseErrors {
    /// A human-readable report of every line error.
    pub fn message(&self) -> (r: String)
        ensures
            r@ == spec_errors_message(self@),
    {
        let ghost errs = self@;
        let mut out = String::from_str("Found ");
        let count = usize_to_string(self.line_errors.len());
        out.append(count.as_str());
        out.append(" errors while parsing Dot Environment File\n");
        let n = self.line_errors.len();
        let mut i: usize = 0;
        proof {
            assert(errs.skip(0) =~= errs);
            assert(out@ + Seq::<char>::empty() =~= out@);
            assert(spec_errors_message(errs) =~= out@ + spec_lines_message(errs));
        }
        while i < n
            invariant
                i <= n,
                n == self.line_errors@.len(),
                errs == self@,
                spec_errors_message(errs) == out@ + spec_lines_message(errs.skip(i as int)),
            decreases n - i,
        {
            let line = self.line_errors[i].0;
            let kind = self.line_errors[i].1;
            proof {
                assert(errs[i as int] == (self.line_errors@[i as int].0 as nat, self.line_errors@[i as int].1));
                assert(errs.skip(i as int)[0] == errs[i as int]);
                assert(errs.skip(i as int).skip(1) =~= errs.skip(i + 1));
            }
            out.append("Line ");
            let num = usize_to_string(line);
            out.append(num.as_str());
            out.append(": ");
            out.append(error_description(&kind));
            out.append("\n");
            proof {
                assert(spec_errors_message(errs) =~= out@ + spec_lines_message(
                    errs.skip(i + 1),
                ));
            }
            i = i + 1;
        }
        proof {
            assert(errs.skip(n as int) =~= Seq::<(nat, LineParseError)>::empty());
            assert(out@ + Seq::<char>::empty() =~= out@);
        }
        out
    }
}

// =========================================================================
// The source
// =========================================================================

/// The priority of dotenv-file sources: after the environment, before
/// YAML files.
pub const DOT_ENV_ORDINAL: usize = 200;

/// A source backed by the key/value table of one dotenv document.
pub struct DotEnvironmentConfigSource {
    values: StringMap,
}

impl DotEnvironmentConfigSource {
    /// The key/value table this source answers from.
    pub closed spec fn values_map(&self) -> Map<Seq<char>, Seq<char>> {
        self.values@
    }

    /// The number of keys in the table.
    pub fn len(&self) -> (r: usize)
        ensures
            r == self.values_map().dom().len(),
    {
        self.values.len()
    }

    /// Parses a dotenv document into a source. Every malformed record is
    /// reported, each under the 1-based line on which it starts, and one
    /// malformed record fails the whole parse.
    #[verifier::loop_isolation(false)]
    pub fn from_str(dot_env_str: &str) -> (r: Result<
        DotEnvironmentConfigSource,
        DotEnvLineParseErrors,
    >)
        ensures
            match r {
                Ok(src) => spec_parse(dot_env_str@) == Ok::<_, Seq<(nat, LineParseError)>>(
                    src.values_map(),
                ),
                Err(e) => spec_parse(dot_env_str@) == Err::<Map<Seq<char>, Seq<char>>, _>(e@),
            },
    {
        let chars = str_to_chars(dot_env_str);
        let records = split_records(&chars);
        let ghost all = spec_records(dot_env_str@, 1);
        let mut errors: Vec<(usize, LineParseError)> = Vec::new();
        let mut table = StringMap::new();
        let m = records.len();
        let mut idx: usize = 0;
        proof {
            assert(all.skip(0) =~= all);
            assert(all.take(0) =~= Seq::<(nat, Seq<char>)>::empty());
            assert(errs_view(errors@) =~= Seq::<(nat, LineParseError)>::empty());
            assert(spec_pairs(all.take(0)) =~= Seq::<(Seq<char>, Seq<char>)>::empty());
        }
        while idx < m
            invariant
                idx <= m,
                spec_line_errors(all) == errs_view(errors@) + spec_line_errors(
                    all.skip(idx as int),
                ),
                table@ == pairs_table(spec_pairs(all.take(idx as int))),
            decreases m - idx,
        {
            let line = records[idx].0;
            let rec = &records[idx].1;
            let ghost recseq = rec@;
            proof {
                assert(all[idx as int] == rec_view(records@[idx as int]));
                assert(all[idx as int].0 == line as nat);
                assert(all[idx as int].1 == recseq);
                assert(all.skip(idx as int)[0] == all[idx as int]);
                assert(all.skip(idx as int).skip(1) =~= all.skip(idx + 1));
                assert(all.take(idx + 1) =~= all.take(idx as int) + seq![all[idx as int]]);
                lemma_pairs_concat(all.take(idx as int), seq![all[idx as int]]);
                assert(seq![all[idx as int]].skip(1) =~= Seq::<(nat, Seq<char>)>::empty());
                assert(spec_pairs(Seq::<(nat, Seq<char>)>::empty()) =~= Seq::<
                    (Seq<char>, Seq<char>),
                >::empty());
            }
            let trimmed = trim_chars(rec);
            if trimmed.len() == 0 || trimmed[0] == '#' {
                proof {
                    assert(is_skippable_record(recseq));
                    assert(record_error(recseq) is None);
                    assert(record_pair(recseq) is None);
                    assert(Seq::<(nat, LineParseError)>::empty() + spec_line_errors(
                        all.skip(idx + 1),
                    ) =~= spec_line_errors(all.skip(idx + 1)));
                    assert(spec_pairs(seq![all[idx as int]]) =~= Seq::<
                        (Seq<char>, Seq<char>),
                    >::empty());
                }
            } else {
                proof {
                    assert(trimmed@ == trim_spec(recseq));
                    assert(!is_skippable_record(recseq));
                }
                match parse_record(rec) {
                    Ok(p) => {
                        let ghost table0 = table@;
                        table = table.insert(p.0, p.1);
                        proof {
                            assert(record_pair(recseq) == Some((p.0@, p.1@)));
                            assert(record_error(recseq) is None);
                            assert(spec_pairs(seq![all[idx as int]]) =~= seq![(p.0@, p.1@)]);
                            let prev = spec_pairs(all.take(idx as int));
                            let now = spec_pairs(all.take(idx + 1));
                            assert(now =~= prev + seq![(p.0@, p.1@)]);
                            assert(now.drop_last() =~= prev);
                            assert(now.last() == (p.0@, p.1@));
                            assert(table@ == pairs_table(now));
                            assert(Seq::<(nat, LineParseError)>::empty() + spec_line_errors(
                                all.skip(idx + 1),
                            ) =~= spec_line_errors(all.skip(idx + 1)));
                        }
                    },
                    Err(e) => {
                        let ghost errors0 = errors@;
                        errors.push((line, e));
                        proof {
                            assert(record_error(recseq) == Some(e));
                            assert(record_pair(recseq) is None);
                            assert(errs_view(errors@) =~= errs_view(errors0) + seq![
                                (line as nat, e),
                            ]);
                            assert(spec_line_errors(all.skip(idx as int)) == seq![
                                (line as nat, e),
                            ] + spec_line_errors(all.skip(idx + 1)));
                            assert(spec_pairs(seq![all[idx as int]]) =~= Seq::<
                                (Seq<char>, Seq<char>),
                            >::empty());
                        }
                    },
                }
            }
            idx = idx + 1;
        }
        proof {
            assert(all.skip(m as int) =~= Seq::<(nat, Seq<char>)>::empty());
            assert(all.take(m as int) =~= all);
            assert(spec_line_errors(Seq::<(nat, Seq<char>)>::empty()) =~= Seq::<
                (nat, LineParseError),
            >::empty());
            assert(errs_view(errors@) + Seq::<(nat, LineParseError)>::empty() =~= errs_view(
                errors@,
            ));
            assert(spec_line_errors(all) == errs_view(errors@));
        }
        if errors.len() == 0 {
            proof {
                assert(errs_view(errors@).len() == 0);
            }
            Ok(DotEnvironmentConfigSource { values: table })
        } else {
            proof {
                assert(errs_view(errors@).len() == errors@.len());
            }
            Err(DotEnvLineParseErrors::new(errors))
        }
    }
}

impl ConfigSource for DotEnvironmentConfigSource {
    open spec fn spec_ordinal(&self) -> int {
        DOT_ENV_ORDINAL as int
    }

    open spec fn spec_name(&self) -> Seq<char> {
        "DotEnvironmentConfigSource"@
    }

    /// The table entry under the normalized property name, if any.
    open spec fn spec_value(&self, property_name: Seq<char>) -> Option<Seq<char>> {
        if self.values_map().contains_key(map_env(property_name)) {
            Some(self.values_map()[map_env(property_name)])
        } else {
            None
        }
    }

    fn get_ordinal(&self) -> (r: usize)
        ensures
            r as int == self.spec_ordinal(),
    {
        DOT_ENV_ORDINAL
    }

    fn get_value(&self, property_name: &str) -> (r: Option<String>)
        ensures
            match r {
                Some(v) => self.spec_value(property_name@) == Some(v@),
                None => self.spec_value(property_name@) is None,
            },
    {
        let name = convert_property_to_environment_name(property_name);
        self.values.get(&name)
    }

    fn get_name(&self) -> (r: &str)
        ensures
            r@ == self.spec_name(),
    {
        "DotEnvironmentConfigSource"
    }

    /// Parses the dotenv file at `file_path` in the store. A missing file
    /// is an `IoError`; malformed content lists every line error.
    fn from_file(file_path: &str, files: &FileStore) -> (r: Result<Self, FileError>)
        ensures
            match r {
                Ok(src) => files@.contains_key(file_path@) && spec_parse(files@[file_path@])
                    == Ok::<_, Seq<(nat, LineParseError)>>(src.values_map()),
                Err(FileError::IoError(p)) => p@ == file_path@ && !files@.contains_key(
                    file_path@,
                ),
                Err(FileError::DotEnvLineParseErrors(e)) => files@.contains_key(file_path@)
                    && spec_parse(files@[file_path@]) == Err::<Map<Seq<char>, Seq<char>>, _>(e@),
                Err(_) => false,
            },
    {
        let path = String::from_str(file_path);
        match files.read(&path) {
            None => Err(FileError::IoError(path)),
            Some(content) => match DotEnvironmentConfigSource::from_str(content.as_str()) {
                Ok(src) => Ok(src),
                Err(e) => Err(FileError::DotEnvLineParseErrors(e)),
            },
        }
    }
}

impl Clone for DotEnvironmentConfigSource {
    /// A clone answers every lookup as the original does.
    fn clone(&self) -> (r: Self)
        ensures
            r.values_map() == self.values_map(),
    {
        DotEnvironmentConfigSource { values: self.values.clone() }
    }
}

} // verus!

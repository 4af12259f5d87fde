//! Lookup enrichment: tolerant parsing of raw tabular reports into typed
//! rows, deduplication of part numbers, chunk planning and URL building
//! for the remote lookup service, dual-schema parsing of its JSON
//! responses, and the merge of lookup results back into the rows.

use vstd::prelude::*;

verus! {

use vstd::utf8::encode_utf8;
use crate::config::ConfigError;
use crate::config::LookupConfig;
use crate::text::ascii_lower_spec;
use crate::text::ascii_lower_vec;
use crate::text::chars_to_string;
use crate::text::contains_seq;
use crate::text::contains_vec;
use crate::text::first_token;
use crate::text::first_token_vec;
use crate::text::join_with;
use crate::text::join_vec;
use crate::text::lines_spec;
use crate::text::lines_vec;
use crate::text::push_all;
use crate::text::seq_views;
use crate::text::split_on;
use crate::text::split_vec;
use crate::text::str_eq_str;
use crate::text::str_to_chars;
use crate::text::trim_spec;
use crate::text::trim_vec;

/// One report row, keyed by part number, with enrichment fields that
/// stay empty until a lookup result fills them.
#[derive(Clone, Debug)]
pub struct EnrichedRow {
    pub plant: String,
    pub delivery: String,
    pub part_no: String,
    pub duns: String,
    pub cof: String,
    pub country: String,
    pub shipment: String,
}

/// The mathematical image of an `EnrichedRow`.
pub ghost struct RowModel {
    pub plant: Seq<char>,
    pub delivery: Seq<char>,
    pub part_no: Seq<char>,
    pub duns: Seq<char>,
    pub cof: Seq<char>,
    pub country: Seq<char>,
    pub shipment: Seq<char>,
}

impl View for EnrichedRow {
    type V = RowModel;

    open spec fn view(&self) -> RowModel {
        RowModel {
            plant: self.plant@,
            delivery: self.delivery@,
            part_no: self.part_no@,
            duns: self.duns@,
            cof: self.cof@,
            country: self.country@,
            shipment: self.shipment@,
        }
    }
}

/// The views of a sequence of rows.
pub open spec fn row_views(v: Seq<EnrichedRow>) -> Seq<RowModel> {
    Seq::new(v.len(), |i: int| v[i]@)
}

/// The views of a sequence of strings.
pub open spec fn string_views(v: Seq<String>) -> Seq<Seq<char>> {
    Seq::new(v.len(), |i: int| v[i]@)
}

/// One lookup result for a part number.
#[derive(Clone, Debug, PartialEq, Eq)]
pub struct LookupResponse {
    pub duns: String,
    pub cof: String,
    pub country: String,
}

/// The mathematical image of a `LookupResponse`.
pub ghost struct RecordModel {
    pub duns: Seq<char>,
    pub cof: Seq<char>,
    pub country: Seq<char>,
}

impl View for LookupResponse {
    type V = RecordModel;

    open spec fn view(&self) -> RecordModel {
        RecordModel { duns: self.duns@, cof: self.cof@, country: self.country@ }
    }
}

/// Why an enrichment step failed.
#[derive(Clone, Copy, Debug, PartialEq, Eq, Structural)]
pub enum LookupError {
    /// The response body was not JSON in either tolerated shape.
    MalformedResponse,
}

impl LookupError {
    /// The diagnostic text for this error.
    pub fn message(&self) -> (r: &'static str)
        ensures
            r@ == "lookup response is not a JSON object or array of records"@,
    {
        "lookup response is not a JSON object or array of records"
    }
}

/// True when the trimmed line is the report's header row: it holds
/// "plant", "delivery" and "material", case-insensitively.
pub open spec fn is_enrich_header(t: Seq<char>) -> bool {
    let lc = ascii_lower_spec(t);
    contains_seq(lc, "plant"@) && contains_seq(lc, "delivery"@) && contains_seq(lc, "material"@)
}

/// The part number of a row: scanning the tab-separated columns from the
/// last toward the third, the first whitespace token of the first column
/// that is not blank; empty when every such column is blank.
pub open spec fn last_part(cols: Seq<Seq<char>>, i: int) -> Seq<char>
    decreases i,
{
    if i < 2 {
        Seq::empty()
    } else if trim_spec(cols[i]).len() > 0 {
        first_token(trim_spec(cols[i]))
    } else {
        last_part(cols, i - 1)
    }
}

/// The row a trimmed, non-blank data line yields: `None` when the line
/// has fewer than three tab-separated columns, or when plant, delivery
/// and part number all come out empty.
pub open spec fn row_of_line(t: Seq<char>) -> Option<RowModel> {
    let cols = split_on(t, '\t');
    if cols.len() < 3 {
        None
    } else {
        let plant = trim_spec(cols[0]);
        let delivery = trim_spec(cols[1]);
        let part = last_part(cols, cols.len() - 1);
        if plant.len() == 0 && delivery.len() == 0 && part.len() == 0 {
            None
        } else {
            Some(
                RowModel {
                    plant,
                    delivery,
                    part_no: part,
                    duns: Seq::empty(),
                    cof: Seq::empty(),
                    country: Seq::empty(),
                    shipment: Seq::empty(),
                },
            )
        }
    }
}

/// One parsing step over a line: blank lines are skipped; until the
/// header is seen every line is only examined for being the header; each
/// later line contributes a row when `row_of_line` accepts it.
pub open spec fn parse_step(acc: (Seq<RowModel>, bool), line: Seq<char>) -> (Seq<RowModel>, bool) {
    let t = trim_spec(line);
    if t.len() == 0 {
        acc
    } else if !acc.1 {
        if is_enrich_header(t) {
            (acc.0, true)
        } else {
            acc
        }
    } else {
        match row_of_line(t) {
            Some(r) => (acc.0.push(r), true),
            None => acc,
        }
    }
}

/// The parsing state after the first `n` lines.
pub open spec fn parse_upto(lines: Seq<Seq<char>>, n: int) -> (Seq<RowModel>, bool)
    decreases n,
{
    if n <= 0 {
        (Seq::<RowModel>::empty(), false)
    } else {
        parse_step(parse_upto(lines, n - 1), lines[n - 1])
    }
}

/// The rows parsed from a whole report.
pub open spec fn parse_rows_spec(content: Seq<char>) -> Seq<RowModel> {
    parse_upto(lines_spec(content), lines_spec(content).len() as int).0
}

/// The distinct part numbers of the first `n` rows whose trimmed part
/// number is not empty, in first-seen order.
pub open spec fn dedupe_upto(rows: Seq<RowModel>, n: int) -> Seq<Seq<char>>
    decreases n,
{
    if n <= 0 {
        Seq::empty()
    } else {
        let prev = dedupe_upto(rows, n - 1);
        let p = rows[n - 1].part_no;
        if trim_spec(p).len() == 0 {
            prev
        } else if prev.contains(p) {
            prev
        } else {
            prev.push(p)
        }
    }
}

/// The part numbers requested from the lookup service for `rows`.
pub open spec fn dedupe_spec(rows: Seq<RowModel>) -> Seq<Seq<char>> {
    dedupe_upto(rows, rows.len() as int)
}

/// Parses raw report text into rows, plans and addresses the chunked
/// remote lookup, parses its responses, and merges results back.
pub struct LookupEnricher {
    config: LookupConfig,
}

impl LookupEnricher {
    /// The lookup settings this enricher follows.
    pub closed spec fn spec_config(&self) -> LookupConfig {
        self.config
    }

    /// Builds an enricher over `config`.
    pub fn new(config: &LookupConfig) -> (r: Result<LookupEnricher, ConfigError>)
        ensures
            r is Ok,
            r->Ok_0.spec_config() == *config,
    {
        Ok(
            LookupEnricher {
                config: LookupConfig {
                    enabled: config.enabled,
                    url: config.url.clone(),
                    chunk_size: config.chunk_size,
                    cookie: config.cookie.clone(),
                    timeout_secs: config.timeout_secs,
                    post_url: config.post_url.clone(),
                },
            },
        )
    }

    /// Parses raw report text into rows: lines before the header — the
    /// first line holding "plant", "delivery" and "material",
    /// case-insensitively — are skipped, however many there are; each
    /// later line needs at least three tab-separated columns, its part
    /// number is read from the last non-blank column, and a row whose
    /// fields are all empty is dropped.
    pub fn parse_tsv_file(&self, content: &str) -> (rows: Vec<EnrichedRow>)
        ensures
            row_views(rows@) == parse_rows_spec(content@),
    {
        let chars = str_to_chars(content);
        let lines = lines_vec(&chars);
        let ghost lseq = seq_views(lines@);
        let needle_plant = str_to_chars("plant");
        let needle_delivery = str_to_chars("delivery");
        let needle_material = str_to_chars("material");
        let n = lines.len();
        let mut rows: Vec<EnrichedRow> = Vec::new();
        let mut seen_header = false;
        let mut i: usize = 0;
        while i < n
            invariant
                0 <= i <= n,
                n == lines@.len(),
                lseq == seq_views(lines@),
                needle_plant@ == "plant"@,
                needle_delivery@ == "delivery"@,
                needle_material@ == "material"@,
                (row_views(rows@), seen_header) == parse_upto(lseq, i as int),
            decreases n - i,
        {
            let ghost prev_state = parse_upto(lseq, i as int);
            let line = &lines[i];
            let t = trim_vec(line);
            if t.len() == 0 {
                i = i + 1;
                continue;
            }
            if !seen_header {
                let lc = ascii_lower_vec(&t);
                if contains_vec(&lc, &needle_plant) && contains_vec(&lc, &needle_delivery)
                    && contains_vec(&lc, &needle_material) {
                    seen_header = true;
                }
                proof {
                    assert((row_views(rows@), seen_header) == parse_upto(lseq, i + 1 as int));
                }
                i = i + 1;
                continue;
            }
            let cols = split_vec(&t, '\t');
            let ghost colseq = seq_views(cols@);
            if cols.len() < 3 {
                proof {
                    assert(row_of_line(t@) is None);
                    assert((row_views(rows@), seen_header) == parse_upto(lseq, i + 1 as int));
                }
                i = i + 1;
                continue;
            }
            let plant = trim_vec(&cols[0]);
            let delivery = trim_vec(&cols[1]);
            let mut part: Vec<char> = Vec::new();
            let mut k: usize = cols.len() - 1;
            loop
                invariant_except_break
                    2 <= k <= colseq.len() - 1,
                    part@.len() == 0,
                    last_part(colseq, colseq.len() - 1) == last_part(colseq, k as int),
                invariant
                    colseq == seq_views(cols@),
                    colseq.len() >= 3,
                ensures
                    part@ == last_part(colseq, colseq.len() - 1),
                decreases k,
            {
                let c = trim_vec(&cols[k]);
                if c.len() > 0 {
                    part = first_token_vec(&c);
                    proof {
                        assert(last_part(colseq, k as int) == first_token(trim_spec(
                            colseq[k as int],
                        )));
                    }
                    break;
                }
                if k == 2 {
                    proof {
                        assert(last_part(colseq, 1) == Seq::<char>::empty());
                        assert(last_part(colseq, 2) == Seq::<char>::empty());
                    }
                    break;
                }
                k = k - 1;
            }
            if plant.len() == 0 && delivery.len() == 0 && part.len() == 0 {
                proof {
                    assert(row_of_line(t@) is None);
                    assert((row_views(rows@), seen_header) == parse_upto(lseq, i + 1 as int));
                }
                i = i + 1;
                continue;
            }
            let row = EnrichedRow {
                plant: chars_to_string(&plant),
                delivery: chars_to_string(&delivery),
                part_no: chars_to_string(&part),
                duns: String::new(),
                cof: String::new(),
                country: String::new(),
                shipment: String::new(),
            };
            proof {
                assert(row@ == row_of_line(t@)->0);
            }
            rows.push(row);
            proof {
                assert(row_views(rows@) =~~= prev_state.0.push(row_of_line(t@)->0));
                assert((row_views(rows@), seen_header) == parse_upto(lseq, i + 1 as int));
            }
            i = i + 1;
        }
        rows
    }

    /// Collects the distinct non-empty part numbers of `rows`, in
    /// first-seen order; rows with a blank part number stay in the data
    /// but take no part in the lookup.
    pub fn dedupe_part_numbers(&self, rows: &Vec<EnrichedRow>) -> (parts: Vec<String>)
        ensures
            string_views(parts@) == dedupe_spec(row_views(rows@)),
    {
        let n = rows.len();
        let mut parts: Vec<String> = Vec::new();
        let mut i: usize = 0;
        while i < n
            invariant
                0 <= i <= n,
                n == rows@.len(),
                string_views(parts@) =~~= dedupe_upto(row_views(rows@), i as int),
            decreases n - i,
        {
            let p = &rows[i].part_no;
            let pt = trim_vec(&str_to_chars(p.as_str()));
            if pt.len() > 0 {
                let mut dup = false;
                let m = parts.len();
                let mut j: usize = 0;
                while j < m
                    invariant
                        0 <= j <= m,
                        m == parts@.len(),
                        p@ == rows@[i as int].part_no@,
                        dup <==> exists|q: int|
                            0 <= q < j && #[trigger] string_views(parts@)[q] == p@,
                    decreases m - j,
                {
                    if str_eq_str(parts[j].as_str(), p.as_str()) {
                        dup = true;
                        proof {
                            assert(string_views(parts@)[j as int] == p@);
                        }
                    }
                    j = j + 1;
                }
                proof {
                    assert(dup == dedupe_upto(row_views(rows@), i as int).contains(
                        rows@[i as int].part_no@,
                    ));
                }
                if !dup {
                    parts.push(p.clone());
                }
            }
            proof {
                assert(string_views(parts@) =~~= dedupe_upto(row_views(rows@), i + 1 as int));
            }
            i = i + 1;
        }
        parts
    }
}

/// The part-number chunks sent to the lookup service: consecutive runs
/// of at most `size` parts, in order, the last one possibly shorter.
pub open spec fn chunks_of(parts: Seq<Seq<char>>, size: int) -> Seq<Seq<Seq<char>>>
    decreases parts.len(),
{
    if size <= 0 || parts.len() == 0 {
        Seq::empty()
    } else if parts.len() <= size {
        seq![parts]
    } else {
        seq![parts.take(size)] + chunks_of(parts.skip(size), size)
    }
}

/// The views of a sequence of string chunks.
pub open spec fn chunk_views(v: Seq<Vec<String>>) -> Seq<Seq<Seq<char>>> {
    Seq::new(v.len(), |i: int| string_views(v[i]@))
}

/// True when `b` passes through URL encoding unchanged: ASCII
/// alphanumerics and `'-'`, `'.'`, `'_'`, `'~'`.
pub open spec fn is_url_safe(b: u8) -> bool {
    (48 <= b && b <= 57) || (65 <= b && b <= 90) || (97 <= b && b <= 122) || b == 45 || b == 46
        || b == 95 || b == 126
}

/// The uppercase hexadecimal digit for `d < 16`.
pub open spec fn hex_upper(d: u8) -> char {
    if d < 10 {
        ((48 + d) as char)
    } else {
        ((55 + d) as char)
    }
}

/// Percent-encoding of a byte sequence: safe bytes stand as themselves,
/// every other byte as `'%'` and two uppercase hexadecimal digits.
pub open spec fn url_encode_bytes(bs: Seq<u8>) -> Seq<char>
    decreases bs.len(),
{
    if bs.len() == 0 {
        Seq::empty()
    } else {
        (if is_url_safe(bs[0]) {
            seq![bs[0] as char]
        } else {
            seq!['%', hex_upper(bs[0] / 16), hex_upper(bs[0] % 16)]
        }) + url_encode_bytes(bs.drop_first())
    }
}

/// URL encoding of text: percent-encoding of its UTF-8 bytes.
pub open spec fn url_encoded(s: Seq<char>) -> Seq<char> {
    url_encode_bytes(encode_utf8(s))
}

/// Relies on `urlencoding::encode`: percent-encodes every UTF-8 byte
/// except ASCII alphanumerics and `'-'`, `'.'`, `'_'`, `'~'`, writing
/// uppercase hexadecimal digits.
#[verifier::external_body]
fn url_encode(s: &str) -> (r: String)
    ensures
        r@ == url_encoded(s@),
{
    urlencoding::encode(s).into_owned()
}

/// A JSON value, held as plain data: the shape of a parsed lookup
/// response. Numbers carry their rendered text; the enrichment logic
/// only ever distinguishes them from strings.
pub enum JsonVal {
    Null,
    Bool(bool),
    Num(String),
    Str(String),
    Arr(Vec<JsonVal>),
    Obj(Vec<(String, JsonVal)>),
}

#[verifier::external_type_specification]
#[verifier::external_body]
pub struct ExSerdeValue(serde_json::Value);

/// Relies on `serde_json::Value`'s variants: rebuilds the parsed tree as
/// the library's own `JsonVal`, one arm per variant, moving the fields;
/// numbers are rendered by serde_json's own formatting.
#[verifier::external_body]
fn json_of_value(v: &serde_json::Value) -> JsonVal {
    match v {
        serde_json::Value::Null => JsonVal::Null,
        serde_json::Value::Bool(b) => JsonVal::Bool(*b),
        serde_json::Value::Number(n) => JsonVal::Num(n.to_string()),
        serde_json::Value::String(s) => JsonVal::Str(s.clone()),
        serde_json::Value::Array(a) => JsonVal::Arr(a.iter().map(json_of_value).collect()),
        serde_json::Value::Object(m) => JsonVal::Obj(
            m.iter().map(|(k, x)| (k.clone(), json_of_value(x))).collect(),
        ),
    }
}

/// What serde_json's parser yields for the text `s`, rebuilt as the
/// library's own tree — `None` when `s` is not valid JSON: a function of
/// the text alone, left unwritten here because the JSON grammar runs to
/// pages.
pub uninterp spec fn json_tree_of(s: Seq<char>) -> Option<JsonVal>;

/// Relies on `serde_json::from_str::<Value>`: parses the text as JSON —
/// deterministically in the text alone — or reports that it is not valid
/// JSON. Every decision about the parsed tree is taken by verified code.
#[verifier::external_body]
fn json_parse(text: &str) -> (r: Option<JsonVal>)
    ensures
        r == json_tree_of(text@),
{
    serde_json::from_str::<serde_json::Value>(text).ok().map(|v| json_of_value(&v))
}

/// The value under the first field named `key`, if any.
pub open spec fn obj_get(fields: Seq<(String, JsonVal)>, key: Seq<char>) -> Option<JsonVal>
    decreases fields.len(),
{
    if fields.len() == 0 {
        None
    } else if fields[0].0@ == key {
        Some(fields[0].1)
    } else {
        obj_get(fields.drop_first(), key)
    }
}

/// The record an object-shaped response value yields: it must be an
/// object carrying string fields "duns", "cof" and "country"; anything
/// else makes the whole object response malformed, as a typed parse of
/// it would fail.
pub open spec fn record_of_value(v: JsonVal) -> Option<RecordModel> {
    match v {
        JsonVal::Obj(fs) => {
            match (obj_get(fs@, "duns"@), obj_get(fs@, "cof"@), obj_get(fs@, "country"@)) {
                (Some(JsonVal::Str(d)), Some(JsonVal::Str(c)), Some(JsonVal::Str(co))) => Some(
                    RecordModel { duns: d@, cof: c@, country: co@ },
                ),
                _ => None,
            }
        },
        _ => None,
    }
}

/// The records of the first `n` entries of an object-shaped response,
/// or `None` as soon as one entry is malformed.
pub open spec fn object_upto(entries: Seq<(String, JsonVal)>, n: int) -> Option<
    Seq<(Seq<char>, RecordModel)>,
>
    decreases n,
{
    if n <= 0 {
        Some(Seq::empty())
    } else {
        match object_upto(entries, n - 1) {
            None => None,
            Some(prev) => match record_of_value(entries[n - 1].1) {
                Some(rec) => Some(prev.push((entries[n - 1].0@, rec))),
                None => None,
            },
        }
    }
}

/// The string under `o`, or empty when `o` is absent or not a string.
pub open spec fn str_or_empty(o: Option<JsonVal>) -> Seq<char> {
    match o {
        Some(JsonVal::Str(s)) => s@,
        _ => Seq::empty(),
    }
}

/// The join-key value of an array item: the first present among its
/// "part", "part_no" and "material" fields, whatever its type.
pub open spec fn part_key_of(fields: Seq<(String, JsonVal)>) -> Option<JsonVal> {
    match obj_get(fields, "part"@) {
        Some(v) => Some(v),
        None => match obj_get(fields, "part_no"@) {
            Some(v) => Some(v),
            None => obj_get(fields, "material"@),
        },
    }
}

/// The record an array item yields, if any: the item must be an object
/// whose join key and "duns" are strings; "cof" and "country" default to
/// empty. An item yielding nothing is skipped, never an error.
pub open spec fn array_entry(item: JsonVal) -> Option<(Seq<char>, RecordModel)> {
    match item {
        JsonVal::Obj(fs) => {
            match (part_key_of(fs@), obj_get(fs@, "duns"@)) {
                (Some(JsonVal::Str(p)), Some(JsonVal::Str(d))) => Some(
                    (
                        p@,
                        RecordModel {
                            duns: d@,
                            cof: str_or_empty(obj_get(fs@, "cof"@)),
                            country: str_or_empty(obj_get(fs@, "country"@)),
                        },
                    ),
                ),
                _ => None,
            }
        },
        _ => None,
    }
}

/// The records of the first `n` items of an array-shaped response.
pub open spec fn array_upto(items: Seq<JsonVal>, n: int) -> Seq<(Seq<char>, RecordModel)>
    decreases n,
{
    if n <= 0 {
        Seq::empty()
    } else {
        let prev = array_upto(items, n - 1);
        match array_entry(items[n - 1]) {
            Some(e) => prev.push(e),
            None => prev,
        }
    }
}

/// The records a parsed response tree yields under the dual-schema
/// rule: an object keyed by part number, else an array of part records;
/// any other shape — or a malformed object entry — is an error.
pub open spec fn extract_spec(v: JsonVal) -> Option<Seq<(Seq<char>, RecordModel)>> {
    match v {
        JsonVal::Obj(entries) => object_upto(entries@, entries@.len() as int),
        JsonVal::Arr(items) => Some(array_upto(items@, items@.len() as int)),
        _ => None,
    }
}

/// The views of a sequence of keyed lookup records.
pub open spec fn pair_views(v: Seq<(String, LookupResponse)>) -> Seq<(Seq<char>, RecordModel)> {
    Seq::new(v.len(), |i: int| (v[i].0@, v[i].1@))
}

proof fn lemma_string_views_push(v: Seq<String>, x: String)
    ensures
        string_views(v.push(x)) =~~= string_views(v).push(x@),
{
}

proof fn lemma_vec_views_push(v: Seq<Vec<char>>, x: Vec<char>)
    ensures
        seq_views(v.push(x)) =~~= seq_views(v).push(x@),
{
}

proof fn lemma_object_upto_none_persists(entries: Seq<(String, JsonVal)>, i: int, n: int)
    requires
        0 <= i <= n,
        object_upto(entries, i) is None,
    ensures
        object_upto(entries, n) is None,
    decreases n - i,
{
    if i < n {
        lemma_object_upto_none_persists(entries, i, n - 1);
    }
}

fn obj_find<'a>(fields: &'a Vec<(String, JsonVal)>, key: &str) -> (r: Option<&'a JsonVal>)
    ensures
        match r {
            Some(v) => obj_get(fields@, key@) == Some(*v),
            None => obj_get(fields@, key@) is None,
        },
{
    let n = fields.len();
    let mut i: usize = 0;
    proof {
        assert(fields@.skip(0) =~= fields@);
    }
    while i < n
        invariant
            0 <= i <= n,
            n == fields@.len(),
            obj_get(fields@, key@) == obj_get(fields@.skip(i as int), key@),
        decreases n - i,
    {
        proof {
            assert(fields@.skip(i as int)[0] == fields@[i as int]);
            assert(fields@.skip(i as int).drop_first() =~= fields@.skip(i + 1 as int));
        }
        if str_eq_str(fields[i].0.as_str(), key) {
            return Some(&fields[i].1);
        }
        i = i + 1;
    }
    proof {
        assert(fields@.skip(n as int).len() == 0);
    }
    None
}

/// The string under the field `key`, or empty when it is absent or not
/// a string.
fn field_str_or_empty(fields: &Vec<(String, JsonVal)>, key: &str) -> (r: String)
    ensures
        r@ == str_or_empty(obj_get(fields@, key@)),
{
    match obj_find(fields, key) {
        Some(JsonVal::Str(s)) => s.clone(),
        _ => String::new(),
    }
}

fn record_of(v: &JsonVal) -> (r: Option<LookupResponse>)
    ensures
        match r {
            Some(resp) => record_of_value(*v) == Some(resp@),
            None => record_of_value(*v) is None,
        },
{
    match v {
        JsonVal::Obj(fields) => {
            match (obj_find(fields, "duns"), obj_find(fields, "cof"), obj_find(fields, "country")) {
                (
                    Some(JsonVal::Str(d)),
                    Some(JsonVal::Str(c)),
                    Some(JsonVal::Str(co)),
                ) => Some(LookupResponse { duns: d.clone(), cof: c.clone(), country: co.clone() }),
                _ => None,
            }
        },
        _ => None,
    }
}

fn array_entry_of(item: &JsonVal) -> (r: Option<(String, LookupResponse)>)
    ensures
        match r {
            Some(e) => array_entry(*item) == Some((e.0@, e.1@)),
            None => array_entry(*item) is None,
        },
{
    match item {
        JsonVal::Obj(fields) => {
            let pk = match obj_find(fields, "part") {
                Some(v) => Some(v),
                None => match obj_find(fields, "part_no") {
                    Some(v) => Some(v),
                    None => obj_find(fields, "material"),
                },
            };
            match (pk, obj_find(fields, "duns")) {
                (Some(JsonVal::Str(p)), Some(JsonVal::Str(d))) => {
                    let cof = field_str_or_empty(fields, "cof");
                    let country = field_str_or_empty(fields, "country");
                    Some((p.clone(), LookupResponse { duns: d.clone(), cof, country }))
                },
                _ => None,
            }
        },
        _ => None,
    }
}

/// The latest record filed under `key`, as repeated inserts into a map
/// would leave it: the last pair wins.
pub open spec fn assoc_last(pairs: Seq<(String, LookupResponse)>, key: Seq<char>) -> Option<
    LookupResponse,
>
    decreases pairs.len(),
{
    if pairs.len() == 0 {
        None
    } else if pairs.last().0@ == key {
        Some(pairs.last().1)
    } else {
        assoc_last(pairs.drop_last(), key)
    }
}

/// The view of the latest record filed under `key`, if any.
pub open spec fn assoc_model(pairs: Seq<(String, LookupResponse)>, key: Seq<char>) -> Option<
    RecordModel,
> {
    match assoc_last(pairs, key) {
        Some(resp) => Some(resp@),
        None => None,
    }
}

/// A row after the merge: its lookup fields overwritten when a record
/// matched its part number, and untouched otherwise.
pub open spec fn merged_row(row: RowModel, m: Option<RecordModel>) -> RowModel {
    match m {
        Some(rec) => RowModel { duns: rec.duns, cof: rec.cof, country: rec.country, ..row },
        None => row,
    }
}

fn find_last<'a>(lookup: &'a Vec<(String, LookupResponse)>, key: &str) -> (r: Option<
    &'a LookupResponse,
>)
    ensures
        match r {
            Some(x) => assoc_last(lookup@, key@) == Some(*x),
            None => assoc_last(lookup@, key@) is None,
        },
{
    let mut j = lookup.len();
    proof {
        assert(lookup@.subrange(0, lookup@.len() as int) =~= lookup@);
    }
    while j > 0
        invariant
            0 <= j <= lookup@.len(),
            assoc_last(lookup@, key@) == assoc_last(lookup@.subrange(0, j as int), key@),
        decreases j,
    {
        proof {
            assert(lookup@.subrange(0, j as int).last() == lookup@[j - 1]);
            assert(lookup@.subrange(0, j as int).drop_last() =~= lookup@.subrange(0, j - 1));
        }
        if str_eq_str(lookup[j - 1].0.as_str(), key) {
            return Some(&lookup[j - 1].1);
        }
        j = j - 1;
    }
    None
}

impl LookupEnricher {
    /// Splits the part numbers into consecutive chunks of at most the
    /// configured chunk size, in order; the service is never asked for
    /// more parts at once than the chunk size allows.
    pub fn chunk_parts(&self, parts: &Vec<String>) -> (r: Vec<Vec<String>>)
        requires
            self.spec_config().chunk_size >= 1,
        ensures
            chunk_views(r@) == chunks_of(string_views(parts@), self.spec_config().chunk_size as int),
    {
        let size = self.config.chunk_size;
        let n = parts.len();
        let ghost pviews = string_views(parts@);
        let mut r: Vec<Vec<String>> = Vec::new();
        let mut i: usize = 0;
        proof {
            assert(pviews.skip(0) =~= pviews);
            assert(chunk_views(r@) =~~= Seq::<Seq<Seq<char>>>::empty());
        }
        while i < n
            invariant
                0 <= i <= n,
                n == parts@.len(),
                size >= 1,
                size == self.spec_config().chunk_size,
                pviews == string_views(parts@),
                chunks_of(pviews, size as int) =~~= chunk_views(r@) + chunks_of(
                    pviews.skip(i as int),
                    size as int,
                ),
            decreases n - i,
        {
            let j: usize = if n - i <= size {
                n
            } else {
                i + size
            };
            let mut chunk: Vec<String> = Vec::new();
            let mut k: usize = i;
            while k < j
                invariant
                    i <= k <= j <= n,
                    n == parts@.len(),
                    pviews == string_views(parts@),
                    string_views(chunk@) =~~= pviews.subrange(i as int, k as int),
                decreases j - k,
            {
                let ghost pre = chunk@;
                chunk.push(parts[k].clone());
                proof {
                    lemma_string_views_push(pre, chunk@.last());
                    assert(chunk@.last()@ == parts@[k as int]@);
                    assert(string_views(chunk@) =~~= pviews.subrange(i as int, k + 1 as int));
                }
                k = k + 1;
            }
            proof {
                let rest = pviews.skip(i as int);
                assert(rest.len() == n - i);
                if n - i <= size {
                    assert(pviews.subrange(i as int, n as int) =~~= rest);
                    assert(chunks_of(rest, size as int) =~~= seq![rest]);
                    assert(pviews.skip(n as int).len() == 0);
                } else {
                    assert(rest.take(size as int) =~~= pviews.subrange(i as int, (i + size) as int));
                    assert(rest.skip(size as int) =~~= pviews.skip((i + size) as int));
                }
            }
            r.push(chunk);
            proof {
                assert(chunks_of(pviews, size as int) =~~= chunk_views(r@) + chunks_of(
                    pviews.skip(j as int),
                    size as int,
                ));
            }
            i = j;
        }
        proof {
            assert(pviews.skip(n as int).len() == 0);
            assert(chunk_views(r@) + chunks_of(pviews.skip(n as int), size as int) =~~= chunk_views(
                r@,
            ));
        }
        r
    }

    /// The request URL for one chunk: the configured base followed by
    /// the URL-encoded, comma-joined part numbers.
    pub fn build_chunk_url(&self, chunk: &Vec<String>) -> (r: String)
        ensures
            r@ == self.spec_config().url@ + url_encoded(
                join_with(string_views(chunk@), ','),
            ),
    {
        let n = chunk.len();
        let mut pieces: Vec<Vec<char>> = Vec::new();
        let mut i: usize = 0;
        while i < n
            invariant
                0 <= i <= n,
                n == chunk@.len(),
                seq_views(pieces@) =~~= string_views(chunk@).subrange(0, i as int),
            decreases n - i,
        {
            let ghost pre = pieces@;
            pieces.push(str_to_chars(chunk[i].as_str()));
            proof {
                lemma_vec_views_push(pre, pieces@.last());
                assert(pieces@.last()@ == chunk@[i as int]@);
                assert(seq_views(pieces@) =~~= string_views(chunk@).subrange(0, i + 1 as int));
            }
            i = i + 1;
        }
        proof {
            assert(string_views(chunk@).subrange(0, n as int) =~~= string_views(chunk@));
        }
        let joined = chars_to_string(&join_vec(&pieces, ','));
        let encoded = url_encode(joined.as_str());
        let mut out = str_to_chars(self.config.url.as_str());
        push_all(&mut out, &str_to_chars(encoded.as_str()));
        chars_to_string(&out)
    }

    /// Extracts the keyed records of a parsed response tree under the
    /// dual-schema rule: an object keyed by part number whose every
    /// entry carries string "duns", "cof" and "country" fields; else an
    /// array of part records, skipping items without a string join key
    /// and "duns". An empty result is not an error; a tree of any other
    /// shape is.
    pub fn extract_records(&self, v: &JsonVal) -> (r: Result<
        Vec<(String, LookupResponse)>,
        LookupError,
    >)
        ensures
            r is Ok <==> extract_spec(*v) is Some,
            r matches Ok(list) ==> Some(pair_views(list@)) == extract_spec(*v),
            r matches Err(e) ==> e == LookupError::MalformedResponse,
    {
        match v {
            JsonVal::Obj(entries) => {
                let n = entries.len();
                let mut out: Vec<(String, LookupResponse)> = Vec::new();
                let mut i: usize = 0;
                while i < n
                    invariant
                        0 <= i <= n,
                        n == entries@.len(),
                        *v is Obj,
                        v->Obj_0 == *entries,
                        object_upto(entries@, i as int) == Some(pair_views(out@)),
                    decreases n - i,
                {
                    match record_of(&entries[i].1) {
                        Some(resp) => {
                            out.push((entries[i].0.clone(), resp));
                            proof {
                                assert(pair_views(out@) =~~= object_upto(
                                    entries@,
                                    i as int,
                                )->0.push((entries@[i as int].0@, record_of_value(
                                    entries@[i as int].1,
                                )->0)));
                            }
                        },
                        None => {
                            proof {
                                assert(object_upto(entries@, i + 1) is None);
                                lemma_object_upto_none_persists(entries@, i + 1, n as int);
                                assert(v->Obj_0 == *entries);
                                assert(extract_spec(*v) == object_upto(entries@, entries@.len() as int));
                            }
                            return Err(LookupError::MalformedResponse);
                        },
                    }
                    i = i + 1;
                }
                Ok(out)
            },
            JsonVal::Arr(items) => {
                let n = items.len();
                let mut out: Vec<(String, LookupResponse)> = Vec::new();
                let mut i: usize = 0;
                while i < n
                    invariant
                        0 <= i <= n,
                        n == items@.len(),
                        array_upto(items@, i as int) == pair_views(out@),
                    decreases n - i,
                {
                    match array_entry_of(&items[i]) {
                        Some(e) => {
                            out.push(e);
                            proof {
                                assert(pair_views(out@) =~~= array_upto(items@, i as int).push(
                                    array_entry(items@[i as int])->0,
                                ));
                            }
                        },
                        None => {},
                    }
                    i = i + 1;
                }
                Ok(out)
            },
            _ => Err(LookupError::MalformedResponse),
        }
    }

    /// Parses one lookup response body and extracts its keyed records:
    /// text that is not JSON at all is malformed, and the parsed tree
    /// follows the dual-schema rule of `extract_records`. It succeeds
    /// exactly when the text parses and its tree yields records.
    pub fn parse_lookup_response(&self, text: &str) -> (r: Result<
        Vec<(String, LookupResponse)>,
        LookupError,
    >)
        ensures
            r is Ok <==> (json_tree_of(text@) matches Some(v) && extract_spec(v) is Some),
            r matches Ok(list) ==> Some(pair_views(list@)) == extract_spec(
                json_tree_of(text@)->0,
            ),
            r matches Err(e) ==> e == LookupError::MalformedResponse,
    {
        match json_parse(text) {
            None => Err(LookupError::MalformedResponse),
            Some(v) => {
                match self.extract_records(&v) {
                    Ok(list) => Ok(list),
                    Err(e) => Err(e),
                }
            },
        }
    }

    /// Merges lookup results into the rows: a row whose part number has
    /// a record — the latest, where keys repeat — takes that record's
    /// duns, cof and country; every other row keeps its fields; no row
    /// is dropped, and none is added.
    pub fn merge_lookup_data(
        &self,
        rows: Vec<EnrichedRow>,
        lookup: &Vec<(String, LookupResponse)>,
    ) -> (r: Vec<EnrichedRow>)
        ensures
            r@.len() == rows@.len(),
            forall|i: int|
                0 <= i < rows@.len() ==> #[trigger] r@[i]@ == merged_row(
                    rows@[i]@,
                    assoc_model(lookup@, rows@[i].part_no@),
                ),
    {
        let n = rows.len();
        let mut out: Vec<EnrichedRow> = Vec::new();
        let mut i: usize = 0;
        while i < n
            invariant
                0 <= i <= n,
                n == rows@.len(),
                out@.len() == i,
                forall|k: int|
                    0 <= k < i ==> #[trigger] out@[k]@ == merged_row(
                        rows@[k]@,
                        assoc_model(lookup@, rows@[k].part_no@),
                    ),
            decreases n - i,
        {
            let row = &rows[i];
            let merged = match find_last(lookup, row.part_no.as_str()) {
                Some(rec) => EnrichedRow {
                    plant: row.plant.clone(),
                    delivery: row.delivery.clone(),
                    part_no: row.part_no.clone(),
                    duns: rec.duns.clone(),
                    cof: rec.cof.clone(),
                    country: rec.country.clone(),
                    shipment: row.shipment.clone(),
                },
                None => EnrichedRow {
                    plant: row.plant.clone(),
                    delivery: row.delivery.clone(),
                    part_no: row.part_no.clone(),
                    duns: row.duns.clone(),
                    cof: row.cof.clone(),
                    country: row.country.clone(),
                    shipment: row.shipment.clone(),
                },
            };
            out.push(merged);
            i = i + 1;
        }
        out
    }
}

} // verus!

//! Reshaping of raw extractor reports: best-effort decoding, header-row
//! discovery, preamble stripping, optional trimming and deduplication of
//! data rows, and re-serialization under a fixed three-column header with
//! configurable delimiter and line ending. The output is a byte-for-byte
//! deterministic function of the input text and the configuration.

use vstd::prelude::*;

verus! {

use vstd::utf8::valid_utf8;
use vstd::utf8::decode_utf8;
use crate::config::ConfigError;
use crate::config::TransformConfig;
use crate::text::chars_eq;
use crate::text::chars_to_string;
use crate::text::contains_seq;
use crate::text::contains_vec;
use crate::text::copy_range;
use crate::text::lines_spec;
use crate::text::lines_vec;
use crate::text::push_all;
use crate::text::seq_views;
use crate::text::str_to_chars;
use crate::text::trim_spec;
use crate::text::trim_vec;

/// The characters that `str::to_lowercase` returns for the characters
/// `s`: a function of `s` alone, left unwritten here because the Unicode
/// lowercase mapping runs to many pages.
pub uninterp spec fn lower_of(s: Seq<char>) -> Seq<char>;

/// Relies on `str::to_lowercase`: the result is determined by the input
/// characters alone, and an empty input gives an empty result.
#[verifier::external_body]
fn to_lowercase(s: &str) -> (r: String)
    ensures
        r@ == lower_of(s@),
        s@.len() == 0 ==> r@.len() == 0,
{
    s.to_lowercase()
}

/// The characters that encoding_rs's windows-1252 decoder yields for
/// `bytes`: a function of the bytes alone; the full mapping table is
/// left unwritten here.
pub uninterp spec fn cp1252_of(bytes: Seq<u8>) -> Seq<char>;

/// Relies on `encoding_rs::WINDOWS_1252.decode_without_bom_handling`: a
/// plain single-byte decoding determined by the input bytes alone,
/// yielding one character per byte and agreeing with ASCII below 0x80.
/// The BOM-sniffing entry point would decode BOM-led input as UTF-8 or
/// UTF-16 instead, so it is not used here.
#[verifier::external_body]
fn cp1252_decode(bytes: &Vec<u8>) -> (r: String)
    ensures
        r@ == cp1252_of(bytes@),
        r@.len() == bytes@.len(),
        forall|i: int| 0 <= i < bytes@.len() && bytes@[i] < 0x80 ==> r@[i] == bytes@[i] as char,
{
    let (content, _had_errors) = encoding_rs::WINDOWS_1252.decode_without_bom_handling(bytes);
    content.into_owned()
}

/// Relies on `String::from_utf8`: it succeeds exactly on valid UTF-8 and
/// then decodes it.
#[verifier::external_body]
fn utf8_decode(bytes: &Vec<u8>) -> (r: Option<String>)
    ensures
        r is Some <==> valid_utf8(bytes@),
        r is Some ==> r->0@ == decode_utf8(bytes@),
{
    String::from_utf8(bytes.clone()).ok()
}

/// A decoded report, tagged with the decoding that produced it: strict
/// UTF-8 when the bytes allow it, best-effort windows-1252 otherwise.
/// Decoding never fails; malformed input degrades, it does not abort.
pub enum Decoded {
    Utf8(String),
    LegacyBestEffort(String),
}

/// Decodes report bytes as UTF-8, falling back to windows-1252 only when
/// the bytes are not valid UTF-8.
pub fn decode_content(bytes: &Vec<u8>) -> (r: Decoded)
    ensures
        valid_utf8(bytes@) ==> (r matches Decoded::Utf8(s) && s@ == decode_utf8(bytes@)),
        !valid_utf8(bytes@) ==> (r matches Decoded::LegacyBestEffort(s) && s@ == cp1252_of(
            bytes@,
        )),
{
    match utf8_decode(bytes) {
        Some(s) => Decoded::Utf8(s),
        None => Decoded::LegacyBestEffort(cp1252_decode(bytes)),
    }
}

/// Why a reshape was refused.
#[derive(Clone, Copy, Debug, PartialEq, Eq, Structural)]
pub enum TransformError {
    /// The report has no more lines than the configured header skip.
    TooFewLines,
}

impl TransformError {
    /// The diagnostic text for this error.
    pub fn message(&self) -> (r: &'static str)
        ensures
            r@ == "file has too few lines to skip the configured header rows"@,
    {
        "file has too few lines to skip the configured header rows"
    }
}

/// The first line at or after `i` whose lowercase form holds `hdr_lc`,
/// or `-1` when none does.
pub open spec fn find_header_from(lines: Seq<Seq<char>>, i: int, hdr_lc: Seq<char>) -> int
    decreases lines.len() - i,
{
    if i < 0 || i >= lines.len() {
        -1
    } else if contains_seq(lower_of(lines[i]), hdr_lc) {
        i
    } else {
        find_header_from(lines, i + 1, hdr_lc)
    }
}

/// Where the data rows begin: the line after the first header match at
/// or past the skip count, or the skip count itself when no line
/// matches — a missing header degrades to the configured offset, it does
/// not abort.
pub open spec fn data_start_spec(lines: Seq<Seq<char>>, skip: int, hdr_lc: Seq<char>) -> int {
    let found = find_header_from(lines, skip, hdr_lc);
    if found >= 0 {
        found + 1
    } else {
        skip
    }
}

/// The processed form of one data line under the trim setting.
pub open spec fn processed_line(line: Seq<char>, trim: bool) -> Seq<char> {
    if trim {
        trim_spec(line)
    } else {
        line
    }
}

/// The data rows retained from `lines[start .. n)`: blank lines are
/// skipped, each kept line is trimmed when trimming is on, and, when
/// deduplication is on, a line equal to an already retained one is
/// dropped.
pub open spec fn collect_rows_spec(
    lines: Seq<Seq<char>>,
    start: int,
    n: int,
    trim: bool,
    dedupe: bool,
) -> Seq<Seq<char>>
    decreases n - start,
{
    if n <= start {
        Seq::empty()
    } else {
        let prev = collect_rows_spec(lines, start, n - 1, trim, dedupe);
        let line = lines[n - 1];
        if trim_spec(line).len() == 0 {
            prev
        } else {
            let processed = processed_line(line, trim);
            if dedupe && prev.contains(processed) {
                prev
            } else {
                prev.push(processed)
            }
        }
    }
}

/// `row` with every tab rewritten to a comma, as CSV serialization
/// demands.
pub open spec fn tabs_to_commas_spec(row: Seq<char>) -> Seq<char> {
    row.map_values(|c: char| if c == '\t' { ',' } else { c })
}

/// The serialized data rows: each row — tab-rewritten in CSV mode —
/// followed by the line ending.
pub open spec fn render_rows_spec(rows: Seq<Seq<char>>, csv: bool, le: Seq<char>) -> Seq<char>
    decreases rows.len(),
{
    if rows.len() == 0 {
        Seq::empty()
    } else {
        render_rows_spec(rows.drop_last(), csv, le) + (if csv {
            tabs_to_commas_spec(rows.last())
        } else {
            rows.last()
        }) + le
    }
}

/// True when the configuration serializes as CSV; any other format
/// value serializes as TSV.
pub open spec fn csv_mode(cfg: TransformConfig) -> bool {
    cfg.format@ == "csv"@
}

/// The configured line ending.
pub open spec fn line_ending_spec(cfg: TransformConfig) -> Seq<char> {
    if cfg.output_line_ending@ == "crlf"@ {
        "\r\n"@
    } else {
        "\n"@
    }
}

/// The fixed three-column header under the configured delimiter.
pub open spec fn header_spec(cfg: TransformConfig) -> Seq<char> {
    if csv_mode(cfg) {
        "Plant,Delivery,Material"@
    } else {
        "Plant\tDelivery\tMaterial"@
    }
}

/// The data rows a reshape of `content` retains.
pub open spec fn transform_rows_spec(cfg: TransformConfig, content: Seq<char>) -> Seq<Seq<char>> {
    let lines = lines_spec(content);
    let start = data_start_spec(
        lines,
        cfg.header_rows_to_skip as int,
        lower_of(cfg.header_match@),
    );
    collect_rows_spec(lines, start, lines.len() as int, cfg.trim_whitespace, cfg.dedupe_rows)
}

/// The whole reshaped output for `content` under `cfg`.
pub open spec fn transform_output_spec(cfg: TransformConfig, content: Seq<char>) -> Seq<char> {
    header_spec(cfg) + line_ending_spec(cfg) + render_rows_spec(
        transform_rows_spec(cfg, content),
        csv_mode(cfg),
        line_ending_spec(cfg),
    )
}

/// Reshapes raw reports according to one immutable configuration.
pub struct Transformer {
    config: TransformConfig,
}

fn rows_contain(rows: &Vec<Vec<char>>, row: &Vec<char>) -> (r: bool)
    ensures
        r == seq_views(rows@).contains(row@),
{
    let n = rows.len();
    let mut i: usize = 0;
    while i < n
        invariant
            0 <= i <= n,
            n == rows@.len(),
            forall|k: int| 0 <= k < i ==> seq_views(rows@)[k] != row@,
        decreases n - i,
    {
        if chars_eq(&rows[i], row) {
            assert(seq_views(rows@)[i as int] == row@);
            return true;
        }
        i = i + 1;
    }
    assert(forall|k: int| 0 <= k < rows@.len() ==> seq_views(rows@)[k] != row@);
    false
}

fn tabs_to_commas(row: &Vec<char>) -> (r: Vec<char>)
    ensures
        r@ == tabs_to_commas_spec(row@),
{
    let n = row.len();
    let mut r: Vec<char> = Vec::new();
    let mut i: usize = 0;
    while i < n
        invariant
            0 <= i <= n,
            n == row@.len(),
            r@.len() == i,
            forall|k: int| 0 <= k < i ==> r@[k] == tabs_to_commas_spec(row@)[k],
        decreases n - i,
    {
        let c = row[i];
        if c == '\t' {
            r.push(',');
        } else {
            r.push(c);
        }
        i = i + 1;
    }
    proof {
        assert(r@ =~= tabs_to_commas_spec(row@));
    }
    r
}

impl Transformer {
    /// The reshape settings this transformer follows.
    pub closed spec fn spec_config(&self) -> TransformConfig {
        self.config
    }

    /// Builds a transformer over `config`.
    pub fn new(config: &TransformConfig) -> (r: Result<Transformer, ConfigError>)
        ensures
            r is Ok,
            r->Ok_0.spec_config() == *config,
    {
        Ok(
            Transformer {
                config: TransformConfig {
                    enabled: config.enabled,
                    format: config.format.clone(),
                    header_rows_to_skip: config.header_rows_to_skip,
                    header_match: config.header_match.clone(),
                    dedupe_rows: config.dedupe_rows,
                    trim_whitespace: config.trim_whitespace,
                    output_line_ending: config.output_line_ending.clone(),
                },
            },
        )
    }

    /// Finds where the data rows begin: the line after the first line at
    /// or past the skip count that holds the configured header text,
    /// case-insensitively; when no line matches, the skip count itself.
    /// Refused only when the document has no more lines than the skip
    /// count.
    pub fn find_data_start(&self, lines: &Vec<Vec<char>>) -> (r: Result<usize, TransformError>)
        ensures
            r is Err <==> lines@.len() <= self.spec_config().header_rows_to_skip,
            r is Err ==> r->Err_0 == TransformError::TooFewLines,
            r matches Ok(i) ==> i == data_start_spec(
                seq_views(lines@),
                self.spec_config().header_rows_to_skip as int,
                lower_of(self.spec_config().header_match@),
            ),
            r matches Ok(i) ==> self.spec_config().header_rows_to_skip <= i <= lines@.len(),
    {
        let skip = self.config.header_rows_to_skip;
        let n = lines.len();
        if n <= skip {
            return Err(TransformError::TooFewLines);
        }
        let hdr_lc = str_to_chars(to_lowercase(self.config.header_match.as_str()).as_str());
        let ghost lseq = seq_views(lines@);
        let mut i: usize = skip;
        while i < n
            invariant
                skip <= i <= n,
                n == lines@.len(),
                lseq == seq_views(lines@),
                hdr_lc@ == lower_of(self.spec_config().header_match@),
                skip == self.spec_config().header_rows_to_skip,
                find_header_from(lseq, skip as int, hdr_lc@) == find_header_from(
                    lseq,
                    i as int,
                    hdr_lc@,
                ),
            decreases n - i,
        {
            let line_lc = str_to_chars(to_lowercase(chars_to_string(&lines[i]).as_str()).as_str());
            if contains_vec(&line_lc, &hdr_lc) {
                return Ok(i + 1);
            }
            i = i + 1;
        }
        Ok(skip)
    }

    /// Reshapes the decoded report text: locates the data rows, strips
    /// blank lines, trims and deduplicates them as configured, and
    /// serializes them under the fixed header with the configured
    /// delimiter and line ending. Refused exactly when the document has
    /// no more lines than the configured header skip.
    pub fn transform_content(&self, content: &str) -> (r: Result<String, TransformError>)
        ensures
            r is Err <==> lines_spec(content@).len() <= self.spec_config().header_rows_to_skip,
            r is Err ==> r->Err_0 == TransformError::TooFewLines,
            r matches Ok(out) ==> out@ == transform_output_spec(self.spec_config(), content@),
    {
        let chars = str_to_chars(content);
        let lines = lines_vec(&chars);
        let ghost lseq = seq_views(lines@);
        let n = lines.len();
        if n <= self.config.header_rows_to_skip {
            return Err(TransformError::TooFewLines);
        }
        let data_start = match self.find_data_start(&lines) {
            Ok(i) => i,
            Err(e) => {
                return Err(e);
            },
        };
        let trim = self.config.trim_whitespace;
        let dedupe = self.config.dedupe_rows;
        let mut rows: Vec<Vec<char>> = Vec::new();
        let mut i: usize = data_start;
        while i < n
            invariant
                data_start <= i <= n,
                n == lines@.len(),
                lseq == seq_views(lines@),
                seq_views(rows@) =~~= collect_rows_spec(
                    lseq,
                    data_start as int,
                    i as int,
                    trim,
                    dedupe,
                ),
                trim == self.spec_config().trim_whitespace,
                dedupe == self.spec_config().dedupe_rows,
            decreases n - i,
        {
            let line = &lines[i];
            let trimmed = trim_vec(line);
            if trimmed.len() == 0 {
                i = i + 1;
                continue;
            }
            let processed = if trim {
                trimmed
            } else {
                copy_range(line, 0, line.len())
            };
            proof {
                assert(processed@ == processed_line(lseq[i as int], trim));
            }
            if processed.len() == 0 {
                i = i + 1;
                continue;
            }
            if dedupe && rows_contain(&rows, &processed) {
                i = i + 1;
                continue;
            }
            rows.push(processed);
            proof {
                assert(seq_views(rows@) =~~= collect_rows_spec(
                    lseq,
                    data_start as int,
                    i + 1 as int,
                    trim,
                    dedupe,
                ));
            }
            i = i + 1;
        }
        let csv = crate::text::str_eq_str(self.config.format.as_str(), "csv");
        let le: Vec<char> = if crate::text::str_eq_str(
            self.config.output_line_ending.as_str(),
            "crlf",
        ) {
            str_to_chars("\r\n")
        } else {
            str_to_chars("\n")
        };
        let header: Vec<char> = if csv {
            str_to_chars("Plant,Delivery,Material")
        } else {
            str_to_chars("Plant\tDelivery\tMaterial")
        };
        let ghost cfg = self.spec_config();
        proof {
            assert(le@ == line_ending_spec(cfg));
            assert(header@ == header_spec(cfg));
        }
        let mut out: Vec<char> = Vec::new();
        push_all(&mut out, &header);
        push_all(&mut out, &le);
        let total = rows.len();
        let mut k: usize = 0;
        while k < total
            invariant
                0 <= k <= total,
                total == rows@.len(),
                seq_views(rows@) == transform_rows_spec(cfg, content@),
                csv == csv_mode(cfg),
                le@ == line_ending_spec(cfg),
                header@ == header_spec(cfg),
                out@ =~= header_spec(cfg) + line_ending_spec(cfg) + render_rows_spec(
                    seq_views(rows@).subrange(0, k as int),
                    csv,
                    le@,
                ),
            decreases total - k,
        {
            let rendered = if csv {
                tabs_to_commas(&rows[k])
            } else {
                copy_range(&rows[k], 0, rows[k].len())
            };
            push_all(&mut out, &rendered);
            push_all(&mut out, &le);
            proof {
                let rs = seq_views(rows@);
                assert(rs.subrange(0, k + 1 as int).drop_last() =~~= rs.subrange(0, k as int));
                assert(rs.subrange(0, k + 1 as int).last() == rs[k as int]);
                assert(out@ =~= header_spec(cfg) + line_ending_spec(cfg) + render_rows_spec(
                    rs.subrange(0, k + 1 as int),
                    csv,
                    le@,
                ));
            }
            k = k + 1;
        }
        proof {
            assert(seq_views(rows@).subrange(0, total as int) =~~= seq_views(rows@));
            assert(out@ =~= transform_output_spec(cfg, content@));
        }
        Ok(chars_to_string(&out))
    }
}

/// Law: with deduplication on, the retained rows are pairwise distinct,
/// and a processed line is retained exactly when some non-blank line in
/// range processes to it — the deduplicated set, in first-seen order.
pub proof fn lemma_dedupe_retains_distinct_set(
    lines: Seq<Seq<char>>,
    start: int,
    n: int,
    trim: bool,
)
    requires
        start <= n <= lines.len(),
    ensures
        ({
            let rows = collect_rows_spec(lines, start, n, trim, true);
            &&& forall|p: int, q: int| 0 <= p < q < rows.len() ==> rows[p] != rows[q]
            &&& forall|r: Seq<char>|
                #[trigger] rows.contains(r) <==> exists|i: int|
                    start <= i < n && trim_spec(#[trigger] lines[i]).len() > 0 && processed_line(
                        lines[i],
                        trim,
                    ) == r
        }),
    decreases n - start,
{
    if n <= start {
    } else {
        lemma_dedupe_retains_distinct_set(lines, start, n - 1, trim);
        let prev = collect_rows_spec(lines, start, n - 1, trim, true);
        let rows = collect_rows_spec(lines, start, n, trim, true);
        let line = lines[n - 1];
        if trim_spec(line).len() == 0 {
            assert forall|r: Seq<char>| #[trigger] rows.contains(r) implies exists|i: int|
                start <= i < n && trim_spec(#[trigger] lines[i]).len() > 0 && processed_line(
                    lines[i],
                    trim,
                ) == r by {
                assert(prev.contains(r));
            }
        } else {
            let processed = processed_line(line, trim);
            if prev.contains(processed) {
                assert forall|r: Seq<char>| #[trigger] rows.contains(r) implies exists|i: int|
                    start <= i < n && trim_spec(#[trigger] lines[i]).len() > 0 && processed_line(
                        lines[i],
                        trim,
                    ) == r by {
                    assert(prev.contains(r));
                }
            } else {
                assert(rows == prev.push(processed));
                assert forall|r: Seq<char>| #[trigger] rows.contains(r) implies exists|i: int|
                    start <= i < n && trim_spec(#[trigger] lines[i]).len() > 0 && processed_line(
                        lines[i],
                        trim,
                    ) == r by {
                    if r == processed {
                        assert(trim_spec(lines[n - 1]).len() > 0);
                    } else {
                        assert(prev.contains(r));
                    }
                }
                assert forall|r: Seq<char>|
                    (exists|i: int|
                        start <= i < n && trim_spec(#[trigger] lines[i]).len() > 0
                            && processed_line(lines[i], trim) == r) implies #[trigger] rows.contains(
                    r,
                ) by {
                    let i = choose|i: int|
                        start <= i < n && trim_spec(#[trigger] lines[i]).len() > 0
                            && processed_line(lines[i], trim) == r;
                    if i < n - 1 {
                        assert(prev.contains(r));
                        assert(rows[choose|p: int| 0 <= p < prev.len() && prev[p] == r] == r);
                    } else {
                        assert(rows.last() == processed);
                    }
                }
                assert forall|p: int, q: int| 0 <= p < q < rows.len() implies rows[p] != rows[q] by {
                    if q == rows.len() - 1 {
                        assert(rows[p] == prev[p]);
                        assert(prev.contains(prev[p]));
                    }
                }
            }
        }
    }
}

/// Law: with deduplication off, every non-blank line in range is
/// retained — repeats and all; the retained rows even keep one entry per
/// such line.
pub proof fn lemma_no_dedupe_keeps_every_line(
    lines: Seq<Seq<char>>,
    start: int,
    n: int,
    trim: bool,
)
    requires
        start <= n <= lines.len(),
    ensures
        ({
            let rows = collect_rows_spec(lines, start, n, trim, false);
            forall|i: int|
                start <= i < n && trim_spec(#[trigger] lines[i]).len() > 0 ==> rows.contains(
                    processed_line(lines[i], trim),
                )
        }),
    decreases n - start,
{
    if n <= start {
    } else {
        lemma_no_dedupe_keeps_every_line(lines, start, n - 1, trim);
        let prev = collect_rows_spec(lines, start, n - 1, trim, false);
        let rows = collect_rows_spec(lines, start, n, trim, false);
        assert forall|i: int|
            start <= i < n && trim_spec(#[trigger] lines[i]).len() > 0 implies rows.contains(
            processed_line(lines[i], trim),
        ) by {
            if i < n - 1 {
                assert(prev.contains(processed_line(lines[i], trim)));
                let p = choose|p: int|
                    0 <= p < prev.len() && prev[p] == processed_line(lines[i], trim);
                assert(rows[p] == processed_line(lines[i], trim));
            } else {
                assert(rows.last() == processed_line(lines[i], trim));
            }
        }
    }
}

proof fn lemma_rendered_rows_no_tabs(rows: Seq<Seq<char>>, le: Seq<char>)
    requires
        forall|k: int| 0 <= k < le.len() ==> le[k] != '\t',
    ensures
        forall|k: int|
            0 <= k < render_rows_spec(rows, true, le).len() ==> #[trigger] render_rows_spec(
                rows,
                true,
                le,
            )[k] != '\t',
    decreases rows.len(),
{
    if rows.len() > 0 {
        lemma_rendered_rows_no_tabs(rows.drop_last(), le);
        let prev = render_rows_spec(rows.drop_last(), true, le);
        let mid = tabs_to_commas_spec(rows.last());
        assert(forall|k: int| 0 <= k < mid.len() ==> mid[k] != '\t');
        assert(render_rows_spec(rows, true, le) == prev + mid + le);
    }
}

/// Law: CSV output never holds a literal tab — not in the header, not in
/// a line ending, and not in any data row, where every tab has been
/// rewritten to a comma.
pub proof fn lemma_csv_output_has_no_tabs(cfg: TransformConfig, content: Seq<char>)
    requires
        csv_mode(cfg),
    ensures
        forall|k: int|
            0 <= k < transform_output_spec(cfg, content).len() ==> #[trigger] transform_output_spec(
                cfg,
                content,
            )[k] != '\t',
{
    reveal_strlit("Plant,Delivery,Material");
    reveal_strlit("\r\n");
    reveal_strlit("\n");
    let hdr = header_spec(cfg);
    let le = line_ending_spec(cfg);
    assert(forall|k: int| 0 <= k < hdr.len() ==> hdr[k] != '\t');
    assert(forall|k: int| 0 <= k < le.len() ==> le[k] != '\t');
    lemma_rendered_rows_no_tabs(transform_rows_spec(cfg, content), le);
}

} // verus!

//! Candidate-file selection and write-stability detection: the newest file
//! is chosen by an effective timestamp read from a fourteen-digit filename
//! prefix when one is present and enabled, and from the modification time
//! otherwise; a polling gate decides when a file has stopped growing.

use vstd::prelude::*;

verus! {

use crate::config::ArchiveConfig;
use crate::config::ConfigError;
use crate::config::FilesConfig;
use crate::text::str_to_chars;
use crate::text::chars_to_string;
use crate::text::copy_range;
use crate::text::push_all;
use crate::timestamp::CivilTime;
use crate::timestamp::prefix_seconds;
use crate::timestamp::prefix_valid;
use crate::timestamp::prefix_value;
use crate::timestamp::parse_timestamp_prefix;
use crate::timestamp::lemma_prefix_value_orders_seconds;

/// A file found by the directory scan: its final name component and its
/// modification time as seconds and subsecond nanoseconds from the Unix
/// epoch.
#[derive(Clone, Debug)]
pub struct FileCandidate {
    pub name: String,
    pub mtime_secs: i64,
    pub mtime_nanos: u32,
}

/// The seconds part of a candidate's effective timestamp: the instant its
/// filename prefix names when prefix ordering is on and the prefix is
/// valid, and its modification time otherwise.
pub open spec fn effective_secs(use_prefix: bool, c: FileCandidate) -> int {
    if use_prefix && prefix_valid(c.name@) {
        prefix_seconds(c.name@)
    } else {
        c.mtime_secs as int
    }
}

/// The subsecond part of a candidate's effective timestamp; a filename
/// prefix names whole seconds only.
pub open spec fn effective_nanos(use_prefix: bool, c: FileCandidate) -> int {
    if use_prefix && prefix_valid(c.name@) {
        0
    } else {
        c.mtime_nanos as int
    }
}

/// Effective-timestamp order: `a` is no later than `b`.
pub open spec fn eff_le(use_prefix: bool, a: FileCandidate, b: FileCandidate) -> bool {
    effective_secs(use_prefix, a) < effective_secs(use_prefix, b) || (effective_secs(use_prefix, a)
        == effective_secs(use_prefix, b) && effective_nanos(use_prefix, a) <= effective_nanos(
        use_prefix,
        b,
    ))
}

/// Effective-timestamp order: `a` is strictly earlier than `b`.
pub open spec fn eff_lt(use_prefix: bool, a: FileCandidate, b: FileCandidate) -> bool {
    effective_secs(use_prefix, a) < effective_secs(use_prefix, b) || (effective_secs(use_prefix, a)
        == effective_secs(use_prefix, b) && effective_nanos(use_prefix, a) < effective_nanos(
        use_prefix,
        b,
    ))
}

/// Index of the last `'.'` of `name` that lies strictly inside `name[1..i)`,
/// or `0` when there is none: the split point between stem and extension.
pub open spec fn last_dot_from(name: Seq<char>, i: int) -> int
    decreases i,
{
    if i <= 1 {
        0
    } else if name[i - 1] == '.' {
        i - 1
    } else {
        last_dot_from(name, i - 1)
    }
}

/// The stem and extension split point of a file name, as
/// `Path::file_stem` and `Path::extension` place it: the last `'.'` after
/// the first character, or `0` when the name has no extension.
pub open spec fn last_dot(name: Seq<char>) -> int {
    last_dot_from(name, name.len() as int)
}

/// The archive name owed for `name` at instant `now` under `cfg`: the
/// name itself, or, when a timestamp is appended, the stem, an
/// underscore, `now` as `YYYYMMDD_HHMMSS`, and the original extension.
pub open spec fn archive_name_spec(cfg: ArchiveConfig, name: Seq<char>, now: CivilTime) -> Seq<
    char,
> {
    if !cfg.append_timestamp {
        name
    } else {
        let dot = last_dot(name);
        if dot > 0 {
            name.subrange(0, dot) + seq!['_'] + now.compact_spec() + seq!['.'] + name.subrange(
                dot + 1,
                name.len() as int,
            )
        } else {
            name + seq!['_'] + now.compact_spec()
        }
    }
}

/// Watches one directory for report files and owns the selection and
/// stability policies for them.
pub struct FileWatcher {
    config: FilesConfig,
    archive_config: ArchiveConfig,
}

impl FileWatcher {
    /// The file-selection settings this watcher follows.
    pub closed spec fn spec_config(&self) -> FilesConfig {
        self.config
    }

    /// The archive settings this watcher follows.
    pub closed spec fn spec_archive_config(&self) -> ArchiveConfig {
        self.archive_config
    }

    /// Builds a watcher over `files_config`, with archiving off until
    /// `with_archive` turns it on.
    pub fn new(files_config: &FilesConfig) -> (r: Result<FileWatcher, ConfigError>)
        ensures
            r is Ok,
            r->Ok_0.spec_config() == *files_config,
            !r->Ok_0.spec_archive_config().enabled,
            !r->Ok_0.spec_archive_config().append_timestamp,
            r->Ok_0.spec_archive_config().path@.len() == 0,
    {
        Ok(
            FileWatcher {
                config: FilesConfig {
                    output_dir: files_config.output_dir.clone(),
                    file_glob: files_config.file_glob.clone(),
                    filename_timestamp_prefix: files_config.filename_timestamp_prefix,
                    stable_size_check_secs: files_config.stable_size_check_secs,
                },
                archive_config: ArchiveConfig {
                    enabled: false,
                    path: String::new(),
                    append_timestamp: false,
                },
            },
        )
    }

    /// Replaces the archive settings.
    pub fn with_archive(self, archive_config: &ArchiveConfig) -> (r: FileWatcher)
        ensures
            r.spec_config() == self.spec_config(),
            r.spec_archive_config() == *archive_config,
    {
        FileWatcher {
            config: self.config,
            archive_config: ArchiveConfig {
                enabled: archive_config.enabled,
                path: archive_config.path.clone(),
                append_timestamp: archive_config.append_timestamp,
            },
        }
    }

    /// The effective timestamp of `c` as seconds and nanoseconds: the
    /// filename-prefix instant when prefix ordering is enabled and the
    /// prefix is valid, else the modification time.
    pub fn get_file_time(&self, c: &FileCandidate) -> (r: (i64, u32))
        ensures
            r.0 == effective_secs(self.spec_config().filename_timestamp_prefix, *c),
            r.1 == effective_nanos(self.spec_config().filename_timestamp_prefix, *c),
    {
        if self.config.filename_timestamp_prefix {
            let chars = str_to_chars(c.name.as_str());
            match parse_timestamp_prefix(&chars) {
                Some(secs) => (secs, 0),
                None => (c.mtime_secs, c.mtime_nanos),
            }
        } else {
            (c.mtime_secs, c.mtime_nanos)
        }
    }

    /// Picks the newest candidate: the first index whose effective
    /// timestamp no other candidate exceeds. `None` exactly when there are
    /// no candidates — an empty scan is a normal outcome, not an error.
    pub fn find_newest_file(&self, candidates: &Vec<FileCandidate>) -> (r: Option<usize>)
        ensures
            r is None <==> candidates@.len() == 0,
            r is Some ==> 0 <= r->0 < candidates@.len(),
            r is Some ==> forall|j: int|
                0 <= j < candidates@.len() ==> eff_le(
                    self.spec_config().filename_timestamp_prefix,
                    #[trigger] candidates@[j],
                    candidates@[r->0 as int],
                ),
            r is Some ==> forall|j: int|
                0 <= j < r->0 ==> eff_lt(
                    self.spec_config().filename_timestamp_prefix,
                    #[trigger] candidates@[j],
                    candidates@[r->0 as int],
                ),
    {
        let ghost up = self.spec_config().filename_timestamp_prefix;
        let n = candidates.len();
        if n == 0 {
            return None;
        }
        let mut best: usize = 0;
        let first = self.get_file_time(&candidates[0]);
        let mut best_secs: i64 = first.0;
        let mut best_nanos: u32 = first.1;
        let mut j: usize = 1;
        while j < n
            invariant
                0 <= best < j <= n,
                n == candidates@.len(),
                best_secs == effective_secs(up, candidates@[best as int]),
                best_nanos == effective_nanos(up, candidates@[best as int]),
                up == self.spec_config().filename_timestamp_prefix,
                forall|k: int|
                    0 <= k < j ==> eff_le(up, #[trigger] candidates@[k], candidates@[best as int]),
                forall|k: int|
                    0 <= k < best ==> eff_lt(
                        up,
                        #[trigger] candidates@[k],
                        candidates@[best as int],
                    ),
            decreases n - j,
        {
            let t = self.get_file_time(&candidates[j]);
            if t.0 > best_secs || (t.0 == best_secs && t.1 > best_nanos) {
                best = j;
                best_secs = t.0;
                best_nanos = t.1;
            }
            j = j + 1;
        }
        Some(best)
    }

    /// The name a processed file takes in the archive directory: the
    /// original name, with `now` spliced in before the extension when
    /// timestamp appending is on.
    pub fn archive_file_name(&self, filename: &str, now: &CivilTime) -> (r: String)
        requires
            now.wf(),
        ensures
            r@ == archive_name_spec(self.spec_archive_config(), filename@, *now),
    {
        let name = str_to_chars(filename);
        if !self.archive_config.append_timestamp {
            return chars_to_string(&name);
        }
        let n = name.len();
        let mut j: usize = n;
        while j > 1 && name[j - 1] != '.'
            invariant
                (1 <= j <= n && n >= 1) || (j == n && n == 0),
                n == name@.len(),
                last_dot(name@) == last_dot_from(name@, j as int),
            decreases j,
        {
            j = j - 1;
        }
        let dot: usize = if j > 1 && name[j - 1] == '.' {
            j - 1
        } else {
            0
        };
        assert(dot == last_dot(name@));
        let stamp = now.format_compact();
        let mut out: Vec<char> = Vec::new();
        if dot > 0 {
            let stem = copy_range(&name, 0, dot);
            let ext = copy_range(&name, dot + 1, n);
            push_all(&mut out, &stem);
            out.push('_');
            push_all(&mut out, &stamp);
            out.push('.');
            push_all(&mut out, &ext);
            proof {
                assert(out@ =~= archive_name_spec(self.spec_archive_config(), filename@, *now));
            }
        } else {
            push_all(&mut out, &name);
            out.push('_');
            push_all(&mut out, &stamp);
            proof {
                assert(out@ =~= archive_name_spec(self.spec_archive_config(), filename@, *now));
            }
        }
        chars_to_string(&out)
    }

    /// A fresh stability gate for one file, sized from the configured
    /// stable window.
    pub fn stability_gate(&self) -> (g: StabilityGate)
        requires
            self.spec_config().stable_size_check_secs <= 0x7fff_ffff_ffff_ffff,
        ensures
            g.required_checks == required_checks_spec(self.spec_config().stable_size_check_secs),
            g.last_size == 0,
            g.stable_count == 0,
            g.ticks == 0,
            g.wf(),
    {
        let secs = self.config.stable_size_check_secs;
        let required: u64 = if secs == 0 {
            1
        } else {
            secs * 2
        };
        StabilityGate { required_checks: required, last_size: 0, stable_count: 0, ticks: 0 }
    }
}

/// Consecutive equal size readings demanded before a file counts as
/// stable: one reading each half time unit across the configured window,
/// and at least one.
pub open spec fn required_checks_spec(stable_secs: u64) -> int {
    if stable_secs == 0 {
        1
    } else {
        2 * stable_secs
    }
}

/// Polls a file's size until it stops changing or a hard ceiling of
/// twenty half-unit polls passes; a file that never settles is released
/// anyway rather than blocking the pipeline.
pub struct StabilityGate {
    pub required_checks: u64,
    pub last_size: u64,
    pub stable_count: u64,
    pub ticks: u64,
}

/// What one size poll decides.
#[derive(Clone, Copy, Debug, PartialEq, Eq, Structural)]
pub enum PollDecision {
    /// The size held still for the required run of readings.
    Stable,
    /// The ceiling passed without the size settling: proceed anyway.
    ProceedTimeout,
    /// Keep polling after the sub-interval wait.
    Continue,
}

/// How many size polls may still happen before the ceiling.
pub open spec fn gate_ticks_limit() -> int {
    20
}

/// One poll step: `observed` is the file size just read, or `None` when
/// the read failed (a failed read neither extends nor resets the stable
/// run). Returns the successor state and the decision.
pub open spec fn gate_step(g: StabilityGate, observed: Option<u64>) -> (StabilityGate, PollDecision) {
    let counted = match observed {
        Some(size) => {
            if size == g.last_size {
                StabilityGate { stable_count: (g.stable_count + 1) as u64, ..g }
            } else {
                StabilityGate { stable_count: 0, last_size: size, ..g }
            }
        },
        None => g,
    };
    if counted.stable_count >= counted.required_checks {
        (counted, PollDecision::Stable)
    } else {
        let ticked = StabilityGate { ticks: (counted.ticks + 1) as u64, ..counted };
        if ticked.ticks >= gate_ticks_limit() {
            (ticked, PollDecision::ProceedTimeout)
        } else {
            (ticked, PollDecision::Continue)
        }
    }
}

impl StabilityGate {
    /// A gate that may still poll: the stable run is shy of its target
    /// and the ceiling has not been reached.
    pub open spec fn wf(&self) -> bool {
        &&& 1 <= self.required_checks
        &&& self.stable_count < self.required_checks
        &&& 0 <= self.ticks < gate_ticks_limit()
    }

    /// Feeds one size reading in and takes the resulting decision.
    pub fn observe(&mut self, observed: Option<u64>) -> (r: PollDecision)
        requires
            old(self).wf(),
        ensures
            (*final(self), r) == gate_step(*old(self), observed),
            r is Continue ==> final(self).wf(),
    {
        match observed {
            Some(size) => {
                if size == self.last_size {
                    self.stable_count = self.stable_count + 1;
                    if self.stable_count >= self.required_checks {
                        return PollDecision::Stable;
                    }
                } else {
                    self.stable_count = 0;
                    self.last_size = size;
                }
            },
            None => {},
        }
        self.ticks = self.ticks + 1;
        if self.ticks >= 20 {
            PollDecision::ProceedTimeout
        } else {
            PollDecision::Continue
        }
    }
}

/// The decision a gate reaches when fed `k` readings of the constant
/// size `s`, stopping early at the first non-`Continue` decision.
pub open spec fn gate_run_const(g: StabilityGate, s: u64, k: nat) -> PollDecision
    decreases k,
{
    if k == 0 {
        PollDecision::Continue
    } else {
        let step = gate_step(g, Some(s));
        if !(step.1 is Continue) {
            step.1
        } else {
            gate_run_const(step.0, s, (k - 1) as nat)
        }
    }
}

/// The first non-`Continue` decision a gate reaches over the readings
/// `events`, or `None` when every reading leaves it polling.
pub open spec fn gate_run(g: StabilityGate, events: Seq<Option<u64>>) -> Option<PollDecision>
    decreases events.len(),
{
    if events.len() == 0 {
        None
    } else {
        let step = gate_step(g, events[0]);
        if !(step.1 is Continue) {
            Some(step.1)
        } else {
            gate_run(step.0, events.drop_first())
        }
    }
}

/// Law: a file whose size reads constant settles. From any live gate
/// state already holding that size, the remaining run of equal readings
/// ends in `Stable` — provided that run fits under the poll ceiling.
pub proof fn lemma_constant_size_stabilizes(g: StabilityGate, s: u64, k: nat)
    requires
        g.wf(),
        g.last_size == s,
        k == g.required_checks - g.stable_count,
        g.ticks + k <= gate_ticks_limit(),
    ensures
        gate_run_const(g, s, k) == PollDecision::Stable,
    decreases k,
{
    let step = gate_step(g, Some(s));
    if g.stable_count + 1 >= g.required_checks {
        assert(step.1 == PollDecision::Stable);
    } else {
        assert(step.1 is Continue);
        lemma_constant_size_stabilizes(step.0, s, (k - 1) as nat);
    }
}

/// Law: a fresh gate over a file of unchanging size returns `Stable`
/// strictly before the hard ceiling, as long as the required run leaves
/// one poll of room for the first reading to register the size.
pub proof fn lemma_fresh_constant_size_stabilizes(g: StabilityGate, s: u64)
    requires
        g.wf(),
        g.stable_count == 0,
        g.ticks == 0,
        g.required_checks + 1 <= gate_ticks_limit(),
    ensures
        gate_run_const(g, s, (g.required_checks + 1) as nat) == PollDecision::Stable,
{
    if g.last_size == s {
        lemma_constant_size_stabilizes(g, s, g.required_checks as nat);
        lemma_run_const_extends(g, s, g.required_checks as nat);
    } else {
        let step = gate_step(g, Some(s));
        assert(step.1 is Continue);
        lemma_constant_size_stabilizes(step.0, s, g.required_checks as nat);
    }
}

proof fn lemma_run_const_extends(g: StabilityGate, s: u64, k: nat)
    requires
        gate_run_const(g, s, k) != PollDecision::Continue,
    ensures
        gate_run_const(g, s, k + 1) == gate_run_const(g, s, k),
    decreases k,
{
    if k > 0 {
        let step = gate_step(g, Some(s));
        if step.1 is Continue {
            lemma_run_const_extends(step.0, s, (k - 1) as nat);
        }
    }
}

/// Law: polling never outlives its ceiling. Whatever the readings —
/// sizes that keep changing, or reads that keep failing — a live gate
/// reaches `Stable` or `ProceedTimeout` within its remaining poll
/// budget; it cannot poll forever.
pub proof fn lemma_gate_never_blocks(g: StabilityGate, events: Seq<Option<u64>>)
    requires
        g.wf(),
        events.len() >= gate_ticks_limit() - g.ticks,
    ensures
        gate_run(g, events) is Some,
    decreases events.len(),
{
    let step = gate_step(g, events[0]);
    if step.1 is Continue {
        lemma_gate_never_blocks(step.0, events.drop_first());
    }
}

/// Law: when prefix ordering is on and every candidate has a valid
/// fourteen-digit timestamp prefix, an index that no other candidate's
/// effective timestamp exceeds holds the numerically largest prefix —
/// the modification times play no part.
pub proof fn lemma_newest_is_largest_prefix(cands: Seq<FileCandidate>, i: int)
    requires
        0 <= i < cands.len(),
        forall|j: int| 0 <= j < cands.len() ==> prefix_valid(#[trigger] cands[j].name@),
        forall|j: int| 0 <= j < cands.len() ==> eff_le(true, #[trigger] cands[j], cands[i]),
    ensures
        forall|j: int|
            0 <= j < cands.len() ==> prefix_value(#[trigger] cands[j].name@) <= prefix_value(
                cands[i].name@,
            ),
{
    assert forall|j: int|
        0 <= j < cands.len() implies prefix_value(#[trigger] cands[j].name@) <= prefix_value(
        cands[i].name@,
    ) by {
        if prefix_value(cands[j].name@) > prefix_value(cands[i].name@) {
            lemma_prefix_value_orders_seconds(cands[i].name@, cands[j].name@);
            assert(eff_le(true, cands[j], cands[i]));
            assert(false);
        }
    }
}

/// Law: when no candidate's prefix takes part — prefix ordering off, or
/// no valid prefix present — an index that no other candidate's
/// effective timestamp exceeds holds the latest modification time.
pub proof fn lemma_newest_is_latest_mtime(up: bool, cands: Seq<FileCandidate>, i: int)
    requires
        0 <= i < cands.len(),
        forall|j: int| 0 <= j < cands.len() ==> !(up && prefix_valid(#[trigger] cands[j].name@)),
        forall|j: int| 0 <= j < cands.len() ==> eff_le(up, #[trigger] cands[j], cands[i]),
    ensures
        forall|j: int|
            0 <= j < cands.len() ==> (#[trigger] cands[j].mtime_secs < cands[i].mtime_secs || (
            cands[j].mtime_secs == cands[i].mtime_secs && cands[j].mtime_nanos
                <= cands[i].mtime_nanos)),
{
}

} // verus!

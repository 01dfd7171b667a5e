//! Thread-budget sizing from the CPU topology.

use vstd::prelude::*;

use crate::text::{
    copy_range,
    find_byte,
    first_at,
    trim_bounds,
    trim_end,
    trim_start,
    LINE_FEED,
};

verus! {

/// How the CPUs of the machine are divided for one benchmark run.
///
/// CPU 0 is always reserved for the dispatcher; the remaining CPUs are split
/// between background load, worker groups (a worker and its shadows) and
/// idle CPUs.
#[derive(Clone, Copy, Debug, PartialEq, Eq, Structural)]
pub struct BenchParams {
    pub n_workers: usize,
    pub n_background: usize,
    pub n_idle: usize,
    pub shadows_per_worker: usize,
}

/// Background threads actually granted: the request, capped so that at least
/// two CPUs remain for the dispatcher and one worker.
pub open spec fn granted_background(ncpus: int, requested: int) -> int {
    let cap = if ncpus >= 2 { ncpus - 2 } else { 0 };
    if requested <= cap { requested } else { cap }
}

/// CPUs left for worker groups and idling once the dispatcher and the
/// background threads have theirs.
pub open spec fn available_cpus(ncpus: int, requested: int) -> int {
    let used = 1 + granted_background(ncpus, requested);
    if ncpus >= used { ncpus - used } else { 0 }
}

/// Shadows that accompany each worker.
pub open spec fn shadows_for(available: int) -> int {
    if available >= 3 { 2 } else { 1 }
}

/// Number of workers: as many groups as fit, or the override clamped to
/// that, and never fewer than one.
pub open spec fn workers_for(available: int, workers: Option<usize>) -> int {
    let fit = if shadows_for(available) == 2 { available / 3 } else { available / 2 };
    let wanted = match workers {
        Some(w) => if (w as int) <= fit { w as int } else { fit },
        None => fit,
    };
    if wanted >= 1 { wanted } else { 1 }
}

/// The sizing rule as a whole.
pub open spec fn sized(ncpus: usize, n_background: usize, workers: Option<usize>) -> BenchParams {
    let available = available_cpus(ncpus as int, n_background as int);
    let n_workers = workers_for(available, workers);
    let taken = if shadows_for(available) == 2 { 3 * n_workers } else { 2 * n_workers };
    BenchParams {
        n_workers: n_workers as usize,
        n_background: granted_background(ncpus as int, n_background as int) as usize,
        n_idle: (if available >= taken { available - taken } else { 0 }) as usize,
        shadows_per_worker: shadows_for(available) as usize,
    }
}

/// Default background load: three quarters of the physical cores.
pub open spec fn default_background(physical_cores: int) -> int {
    physical_cores * 3 / 4
}

impl BenchParams {
    /// Every CPU is accounted for exactly once: dispatcher, background
    /// threads, worker groups and idle CPUs add up to `ncpus`.
    pub open spec fn accounts_for(self, ncpus: int) -> bool {
        1 + self.n_background + self.n_workers * (1 + self.shadows_per_worker) + self.n_idle
            == ncpus
    }

    /// Threads that the run starts besides the dispatcher.
    pub open spec fn threads(self) -> int {
        self.n_background + self.n_workers * (1 + self.shadows_per_worker)
    }

    /// Sizes a run with the default background load and no worker override.
    pub fn calculate(ncpus: usize, physical_cores: usize) -> (p: BenchParams)
        ensures
            p == sized(ncpus, default_background(physical_cores as int) as usize, None),
            default_background(physical_cores as int) <= usize::MAX,
    {
        let n_background = three_quarters(physical_cores);
        Self::compute(ncpus, n_background, None)
    }

    /// Sizes a run; an explicit background count replaces the default, an
    /// explicit worker count is clamped to what fits.
    pub fn with_overrides(
        ncpus: usize,
        physical_cores: usize,
        workers: Option<usize>,
        background: Option<usize>,
    ) -> (p: BenchParams)
        ensures
            p == sized(
                ncpus,
                match background {
                    Some(b) => b,
                    None => default_background(physical_cores as int) as usize,
                },
                workers,
            ),
    {
        let n_background = match background {
            Some(b) => b,
            None => three_quarters(physical_cores),
        };
        Self::compute(ncpus, n_background, workers)
    }

    /// The sizing rule: `ncpus = 1 (dispatcher) + background +
    /// workers * (1 + shadows) + idle` whenever at least two CPUs are left
    /// for worker groups.
    pub fn compute(ncpus: usize, n_background: usize, workers: Option<usize>) -> (p: BenchParams)
        ensures
            p == sized(ncpus, n_background, workers),
            p.n_workers >= 1,
            1 <= p.shadows_per_worker <= 2,
            p.n_background <= n_background,
            available_cpus(ncpus as int, n_background as int) >= 2 ==> p.accounts_for(ncpus as int),
            available_cpus(ncpus as int, n_background as int) >= 2 ==> p.threads() <= ncpus - 1,
    {
        let cap: usize = if ncpus >= 2 { ncpus - 2 } else { 0 };
        let n_background: usize = if n_background <= cap { n_background } else { cap };
        let used: usize = 1 + n_background;
        let available: usize = if ncpus >= used { ncpus - used } else { 0 };
        let shadows_per_worker: usize = if available >= 3 { 2 } else { 1 };
        let fit: usize = if shadows_per_worker == 2 { available / 3 } else { available / 2 };
        let wanted: usize = match workers {
            Some(w) => if w <= fit { w } else { fit },
            None => fit,
        };
        let n_workers: usize = if wanted >= 1 { wanted } else { 1 };
        let taken: usize = if shadows_per_worker == 2 { 3 * n_workers } else { 2 * n_workers };
        assert(n_workers * (1 + shadows_per_worker) == taken) by (nonlinear_arith)
            requires
                taken == if shadows_per_worker == 2 { 3 * n_workers } else { 2 * n_workers },
                shadows_per_worker == 1 || shadows_per_worker == 2,
        ;
        let n_idle: usize = if available >= taken { available - taken } else { 0 };
        BenchParams { n_workers, n_background, n_idle, shadows_per_worker }
    }
}

/// Three quarters of `n`, rounded down, without overflow.
fn three_quarters(n: usize) -> (r: usize)
    ensures
        r == default_background(n as int),
{
    let whole: usize = n / 4;
    let rest: usize = n % 4;
    whole * 3 + rest * 3 / 4
}

/// With at least four CPUs and a background request that leaves three or
/// more of them free, the sizing accounts for every CPU exactly and has at
/// least one worker.
pub proof fn sizing_accounts_for_every_cpu(ncpus: usize, n_background: usize, workers: Option<usize>)
    requires
        ncpus >= 4,
        n_background <= ncpus - 2,
        n_background != ncpus - 2,
    ensures
        sized(ncpus, n_background, workers).accounts_for(ncpus as int),
        sized(ncpus, n_background, workers).n_workers >= 1,
        sized(ncpus, n_background, workers).threads() <= ncpus - 1,
{
    let available = available_cpus(ncpus as int, n_background as int);
    let p = sized(ncpus, n_background, workers);
    assert(available == ncpus - 1 - n_background);
    assert(p.n_workers * (1 + p.shadows_per_worker) == if p.shadows_per_worker == 2 {
        3 * p.n_workers
    } else {
        2 * p.n_workers
    }) by (nonlinear_arith)
        requires
            p.shadows_per_worker == 1 || p.shadows_per_worker == 2,
    ;
}

// ---------------------------------------------------------------------------
// What the machine is
// ---------------------------------------------------------------------------

/// Which instructions the CPU offers for the bit operations that the
/// scheduler feature relies on, as shown on the dashboard.
#[derive(Clone, Copy, Debug)]
pub struct HwFeatures {
    pub popcnt: &'static str,
    pub ctz: &'static str,
    pub ptselect: &'static str,
}

/// The machine as detected at start.
#[derive(Clone, Debug)]
pub struct SystemInfo {
    pub ncpus: usize,
    pub physical_cores: usize,
    pub cpu_model: String,
    pub hw_features: HwFeatures,
}

/// POPCNT: bit 23 of ECX of CPUID leaf 1.
pub open spec fn has_popcnt(leaf1_ecx: u32) -> bool {
    (leaf1_ecx >> 23) & 1 == 1
}

/// BMI1: bit 3 of EBX of CPUID leaf 7, subleaf 0.
pub open spec fn has_bmi1(leaf7_ebx: u32) -> bool {
    (leaf7_ebx >> 3) & 1 == 1
}

/// BMI2: bit 8 of EBX of CPUID leaf 7, subleaf 0.
pub open spec fn has_bmi2(leaf7_ebx: u32) -> bool {
    (leaf7_ebx >> 8) & 1 == 1
}

impl HwFeatures {
    /// The features of an x86-64 CPU, from ECX of CPUID leaf 1 and EBX of
    /// leaf 7, subleaf 0.
    pub fn from_cpuid(leaf1_ecx: u32, leaf7_ebx: u32) -> (hw: HwFeatures)
        ensures
            hw.popcnt@ == if has_popcnt(leaf1_ecx) { "yes"@ } else { "no"@ },
            hw.ctz@ == if has_bmi1(leaf7_ebx) { "TZCNT"@ } else { "BSF"@ },
            hw.ptselect@ == if has_bmi2(leaf7_ebx) { "PDEP"@ } else { "SW"@ },
    {
        let popcnt: bool = (leaf1_ecx >> 23) & 1 == 1;
        let bmi1: bool = (leaf7_ebx >> 3) & 1 == 1;
        let bmi2: bool = (leaf7_ebx >> 8) & 1 == 1;
        HwFeatures {
            popcnt: if popcnt { "yes" } else { "no" },
            ctz: if bmi1 { "TZCNT" } else { "BSF" },
            ptselect: if bmi2 { "PDEP" } else { "SW" },
        }
    }

    /// The features of an AArch64 CPU, which are the same on all of them.
    pub fn aarch64() -> (hw: HwFeatures)
        ensures
            hw.popcnt@ == "CNT"@,
            hw.ctz@ == "RBIT+CLZ"@,
            hw.ptselect@ == "SW"@,
    {
        HwFeatures { popcnt: "CNT", ctz: "RBIT+CLZ", ptselect: "SW" }
    }

    /// The features of a CPU of which nothing is known.
    pub fn unknown() -> (hw: HwFeatures)
        ensures
            hw.popcnt@ == "?"@,
            hw.ctz@ == "?"@,
            hw.ptselect@ == "?"@,
    {
        HwFeatures { popcnt: "?", ctz: "?", ptselect: "?" }
    }
}

/// Number of physical cores: the number of distinct (package, core) pairs
/// among the CPUs whose topology could be read, and the number of CPUs
/// where none could.
pub open spec fn physical_cores_of(ncpus: usize, ids: Seq<(i32, i32)>) -> int {
    if ids.len() == 0 {
        ncpus as int
    } else {
        ids.to_set().len() as int
    }
}

/// Whether `v` holds `x`.
fn holds(v: &Vec<(i32, i32)>, x: (i32, i32)) -> (found: bool)
    ensures
        found == v@.contains(x),
{
    let mut j: usize = 0;
    while j < v.len()
        invariant
            j <= v.len(),
            forall|k: int| 0 <= k < j ==> v@[k] != x,
        decreases v.len() - j,
    {
        if v[j].0 == x.0 && v[j].1 == x.1 {
            return true;
        }
        j = j + 1;
    }
    false
}

/// Counts the physical cores; see [`physical_cores_of`]. `ids` holds the
/// (package, core) pair of every CPU whose topology could be read.
pub fn count_physical_cores(ncpus: usize, ids: &[(i32, i32)]) -> (n: usize)
    ensures
        n == physical_cores_of(ncpus, ids@),
{
    if ids.len() == 0 {
        return ncpus;
    }
    let mut distinct: Vec<(i32, i32)> = Vec::new();
    let mut i: usize = 0;
    while i < ids.len()
        invariant
            i <= ids.len(),
            distinct@.no_duplicates(),
            forall|x: (i32, i32)| distinct@.contains(x) <==> ids@.take(i as int).contains(x),
        decreases ids.len() - i,
    {
        let id: (i32, i32) = ids[i];
        let ghost before = distinct@;
        let ghost seen = ids@.take(i as int);
        let known: bool = holds(&distinct, id);
        if !known {
            distinct.push(id);
        }
        i = i + 1;
        proof {
            let now = ids@.take(i as int);
            assert(now =~= seen.push(id));
            assert forall|x: (i32, i32)| distinct@.contains(x) <==> now.contains(x) by {
                if x == id {
                    assert(now[i - 1] == id);
                    if known {
                        assert(before.contains(id));
                    } else {
                        assert(distinct@[distinct@.len() - 1] == id);
                    }
                } else {
                    if distinct@.contains(x) {
                        let k = choose|k: int| 0 <= k < distinct@.len() && distinct@[k] == x;
                        assert(before[k] == x);
                        assert(before.contains(x));
                        assert(seen.contains(x));
                        let m = choose|m: int| 0 <= m < seen.len() && seen[m] == x;
                        assert(now[m] == x);
                    }
                    if now.contains(x) {
                        let m = choose|m: int| 0 <= m < now.len() && now[m] == x;
                        assert(seen[m] == x);
                        assert(seen.contains(x));
                        assert(before.contains(x));
                        let k = choose|k: int| 0 <= k < before.len() && before[k] == x;
                        assert(distinct@[k] == x);
                    }
                }
            }
        }
    }
    proof {
        assert(ids@.take(ids.len() as int) =~= ids@);
        assert(distinct@.to_set() =~= ids@.to_set());
        distinct@.unique_seq_to_set();
    }
    distinct.len()
}

// ---------------------------------------------------------------------------
// The CPU model
// ---------------------------------------------------------------------------

/// ASCII colon.
pub const COLON: u8 = 58;

/// Length of the key that introduces the CPU model.
pub const MODEL_KEY_LEN: usize = 10;

/// The key that introduces the CPU model in the kernel's description of
/// the CPUs: `model name`.
pub open spec fn model_key() -> Seq<u8> {
    seq![109u8, 111u8, 100u8, 101u8, 108u8, 32u8, 110u8, 97u8, 109u8, 101u8]
}

/// The CPU model that `line` gives: where the line begins with the key and
/// holds a colon, what stands between that colon and the next one (or the
/// end of the line), without surrounding whitespace.
pub open spec fn model_in_line(line: Seq<u8>) -> Option<Seq<u8>> {
    let colon = first_at(line, COLON);
    if line.len() >= MODEL_KEY_LEN && line.take(MODEL_KEY_LEN as int) == model_key() && colon
        < line.len() {
        let after = line.skip(colon as int + 1);
        Some(trim_end(trim_start(after.take(first_at(after, COLON) as int))))
    } else {
        None
    }
}

/// The CPU model that `text` gives: that of its first line that gives one.
pub open spec fn cpu_model_of(text: Seq<u8>) -> Option<Seq<u8>>
    decreases text.len(),
{
    if text.len() == 0 {
        None
    } else {
        let end = first_at(text, LINE_FEED);
        match model_in_line(text.take(end as int)) {
            Some(model) => Some(model),
            None => if end >= text.len() {
                None
            } else {
                cpu_model_of(text.skip(end as int + 1))
            },
        }
    }
}

/// Byte `i` of the key.
fn key_byte(i: usize) -> (b: u8)
    requires
        i < MODEL_KEY_LEN,
    ensures
        b == model_key()[i as int],
{
    if i == 0 {
        109
    } else if i == 1 {
        111
    } else if i == 2 {
        100
    } else if i == 3 {
        101
    } else if i == 4 {
        108
    } else if i == 5 {
        32
    } else if i == 6 {
        110
    } else if i == 7 {
        97
    } else if i == 8 {
        109
    } else {
        101
    }
}

/// Whether `text[from..to]` begins with the key.
fn begins_with_key(text: &[u8], from: usize, to: usize) -> (found: bool)
    requires
        from <= to <= text.len(),
    ensures
        found == (to - from >= MODEL_KEY_LEN && text@.subrange(from as int, to as int).take(
            MODEL_KEY_LEN as int,
        ) == model_key()),
{
    if to - from < MODEL_KEY_LEN {
        return false;
    }
    let ghost head = text@.subrange(from as int, to as int).take(MODEL_KEY_LEN as int);
    let mut i: usize = 0;
    while i < MODEL_KEY_LEN
        invariant
            i <= MODEL_KEY_LEN,
            from + MODEL_KEY_LEN <= to <= text.len(),
            head == text@.subrange(from as int, to as int).take(MODEL_KEY_LEN as int),
            forall|j: int| 0 <= j < i ==> head[j] == model_key()[j],
        decreases MODEL_KEY_LEN - i,
    {
        if text[from + i] != key_byte(i) {
            assert(head[i as int] != model_key()[i as int]);
            return false;
        }
        i = i + 1;
    }
    assert(head =~= model_key());
    true
}

/// Reads the CPU model from the kernel's description of the CPUs; see
/// [`cpu_model_of`].
pub fn cpu_model_in(text: &[u8]) -> (model: Option<Vec<u8>>)
    ensures
        cpu_model_of(text@) == match model {
            Some(m) => Some(m@),
            None => None,
        },
{
    let n: usize = text.len();
    let mut start: usize = 0;
    assert(text@.skip(0) =~= text@);
    while start < n
        invariant
            start <= n,
            n == text.len(),
            cpu_model_of(text@) == cpu_model_of(text@.skip(start as int)),
        decreases n - start,
    {
        let ghost rest = text@.skip(start as int);
        let end: usize = find_byte(text, start, n, LINE_FEED);
        let ghost line = text@.subrange(start as int, end as int);
        proof {
            assert(text@.subrange(start as int, n as int) =~= rest);
            assert(rest.take(end - start) =~= line);
        }
        if begins_with_key(text, start, end) {
            let colon: usize = find_byte(text, start, end, COLON);
            if colon < end {
                let stop: usize = find_byte(text, colon + 1, end, COLON);
                let (a, b): (usize, usize) = trim_bounds(text, colon + 1, stop);
                proof {
                    let after = line.skip(colon - start + 1);
                    assert(after =~= text@.subrange(colon + 1, end as int));
                    assert(after.take(stop - colon - 1) =~= text@.subrange(colon + 1, stop as int));
                }
                return Some(copy_range(text, a, b));
            }
        }
        if end == n {
            return None;
        }
        proof {
            assert(rest.skip(end - start + 1) =~= text@.skip(end + 1));
        }
        start = end + 1;
    }
    None
}

} // verus!

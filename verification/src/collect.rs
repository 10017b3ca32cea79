//! The fact collector: turns the raw values of a platform probe into the
//! ordered fact sequence for a query.
//!
//! The collector is a pure function of the query and the probe. Every
//! platform's sequence begins with a `platform` fact; after it come the
//! facts whose underlying query succeeded, in a fixed per-platform order.
//! A query whose raw value is missing or malformed is skipped, never
//! replaced by an error marker.

use vstd::prelude::*;
use vstd::string::StrSliceExecFns;
use vstd::string::StringExecFns;

use crate::facts::{
    Fact, FactModel, FactValue, LinuxProbe, MacProbe, OutputFormat, Probe, Query, ValueModel,
    WindowsProbe,
};
use crate::text::{
    colon_split_spec, dec_spec, lines_spec, parse_u64, parse_u64_spec, split_colon, split_lines,
    starts_with, starts_with_spec, to_decimal, trim, trim_spec,
};

verus! {

/// How many of the lines `ls` begin with `processor`.
pub open spec fn count_proc_lines(ls: Seq<Seq<char>>) -> nat
    decreases ls.len(),
{
    if ls.len() == 0 {
        0
    } else {
        count_proc_lines(ls.drop_last()) + if starts_with_spec(ls.last(), "processor"@) {
            1nat
        } else {
            0nat
        }
    }
}

/// How many lines of the processor-information file contents `c` begin with
/// `processor`: one such line per processor.
pub open spec fn processor_count_spec(c: Seq<char>) -> nat {
    count_proc_lines(lines_spec(c))
}

/// A fact with an integer value.
pub open spec fn fact_int(name: Seq<char>, n: u64) -> FactModel {
    FactModel { name, value: ValueModel::Int(n) }
}

/// A fact with a text value.
pub open spec fn fact_text(name: Seq<char>, t: Seq<char>) -> FactModel {
    FactModel { name, value: ValueModel::Text(t) }
}

/// The `platform` fact naming the active variant.
pub open spec fn platform_fact(os: Seq<char>) -> FactModel {
    fact_text("platform"@, os)
}

/// The fact of one pseudo-file line: its part before the first colon names
/// the fact, and the raw remainder after the colon, less one leading space,
/// is the value, so the rendered `name: value` line reproduces the source
/// line. A colon-free line becomes a fact named by the whole line, with an
/// empty value.
pub open spec fn entry_facts(l: Seq<char>) -> Seq<FactModel> {
    match colon_split_spec(l) {
        Some(p) => seq![fact_text(p.0, p.1)],
        None => seq![fact_text(l, Seq::empty())],
    }
}

/// The facts contributed by a sequence of memory-summary lines.
pub open spec fn meminfo_facts(ls: Seq<Seq<char>>) -> Seq<FactModel>
    decreases ls.len(),
{
    if ls.len() == 0 {
        Seq::empty()
    } else {
        meminfo_facts(ls.drop_last()) + entry_facts(ls.last())
    }
}

/// How many memory-summary lines are shown.
pub open spec fn meminfo_limit(verbose: bool) -> int {
    if verbose {
        10
    } else {
        3
    }
}

/// The facts read from the memory-summary file contents `m`.
pub open spec fn meminfo_view(m: Seq<char>, verbose: bool) -> Seq<FactModel> {
    let ls = lines_spec(m);
    let k = if ls.len() < meminfo_limit(verbose) {
        ls.len() as int
    } else {
        meminfo_limit(verbose)
    };
    meminfo_facts(ls.take(k))
}

/// A numeric fact parsed from the trimmed raw text `raw`; nothing when the
/// text is not a decimal number that fits in a `u64`.
pub open spec fn num_fact(name: Seq<char>, raw: Seq<char>) -> Seq<FactModel> {
    match parse_u64_spec(trim_spec(raw)) {
        Some(v) => seq![fact_int(name, v)],
        None => Seq::empty(),
    }
}

/// The value text of a byte count: the number in decimal followed by
/// ` bytes`.
pub open spec fn bytes_value(n: u64) -> Seq<char> {
    dec_spec(n as nat) + " bytes"@
}

/// A byte-count fact parsed from the trimmed raw text `raw`, its value
/// suffixed ` bytes`; nothing when the text is not a decimal number that
/// fits in a `u64`.
pub open spec fn num_bytes_fact(name: Seq<char>, raw: Seq<char>) -> Seq<FactModel> {
    match parse_u64_spec(trim_spec(raw)) {
        Some(v) => seq![fact_text(name, bytes_value(v))],
        None => Seq::empty(),
    }
}

/// The facts of the linux variant, after the platform fact.
pub open spec fn linux_facts(q: Query, p: LinuxProbe) -> Seq<FactModel> {
    if q.format is Structured {
        (match p.cpuinfo {
            Some(c) => seq![fact_int("processors"@, processor_count_spec(c@) as u64)],
            None => Seq::empty(),
        }) + (match p.hostname {
            Some(h) => seq![fact_text("hostname"@, trim_spec(h@))],
            None => Seq::empty(),
        })
    } else {
        (match p.cpuinfo {
            Some(c) => seq![fact_int("Number of Processors"@, processor_count_spec(c@) as u64)],
            None => Seq::empty(),
        }) + (match p.meminfo {
            Some(m) => meminfo_view(m@, q.verbose),
            None => Seq::empty(),
        }) + (match p.hostname {
            Some(h) => seq![fact_text("Hostname"@, trim_spec(h@))],
            None => Seq::empty(),
        })
    }
}

/// The facts of the mac variant, after the platform fact.
pub open spec fn mac_facts(q: Query, p: MacProbe) -> Seq<FactModel> {
    if q.format is Structured {
        (match p.ncpu {
            Some(s) => num_fact("cpus"@, s@),
            None => Seq::empty(),
        }) + (match p.memsize {
            Some(s) => num_fact("memory_bytes"@, s@),
            None => Seq::empty(),
        })
    } else {
        (match p.ncpu {
            Some(s) => num_fact("Number of CPUs"@, s@),
            None => Seq::empty(),
        }) + (match p.memsize {
            Some(s) => num_bytes_fact("Memory Size"@, s@),
            None => Seq::empty(),
        }) + (if q.verbose {
            match p.cpu_brand {
                Some(b) => seq![fact_text("CPU"@, trim_spec(b@))],
                None => Seq::empty(),
            }
        } else {
            Seq::empty()
        })
    }
}

/// The facts of the windows variant, after the platform fact.
pub open spec fn windows_facts(q: Query, p: WindowsProbe) -> Seq<FactModel> {
    if q.format is Structured {
        seq![
            fact_int("processors"@, p.processors as u64),
            fact_int("page_size"@, p.page_size as u64),
            fact_int("architecture"@, p.architecture as u64),
            fact_int("allocation_granularity"@, p.allocation_granularity as u64),
        ] + (match p.computer_name {
            Some(s) => seq![fact_text("computer_name"@, s@)],
            None => Seq::empty(),
        })
    } else {
        seq![
            fact_int("Number of Processors"@, p.processors as u64),
            fact_text("Page Size"@, bytes_value(p.page_size as u64)),
            fact_int("Processor Architecture"@, p.architecture as u64),
        ] + (if q.verbose {
            seq![
                fact_int("Processor Type"@, p.processor_type as u64),
                fact_int("Processor Level"@, p.processor_level as u64),
                fact_int("Processor Revision"@, p.processor_revision as u64),
            ]
        } else {
            Seq::empty()
        }) + seq![fact_text("Allocation Granularity"@, bytes_value(p.allocation_granularity as u64))]
            + (match p.computer_name {
            Some(s) => seq![fact_text("Computer Name"@, s@)],
            None => Seq::empty(),
        })
    }
}

/// The fact sequence for query `q` on probe `p`.
pub open spec fn spec_collect(q: Query, p: Probe) -> Seq<FactModel> {
    match p {
        Probe::Windows(wp) => seq![platform_fact("windows"@)] + windows_facts(q, wp),
        Probe::Linux(lp) => seq![platform_fact("linux"@)] + linux_facts(q, lp),
        Probe::MacOs(mp) => seq![platform_fact("macos"@)] + mac_facts(q, mp),
        Probe::Unsupported => seq![platform_fact("unsupported"@)],
    }
}

fn make_int_fact(name: &str, n: u64) -> (r: Fact)
    ensures
        r@ == fact_int(name@, n),
{
    Fact { name: String::from_str(name), value: FactValue::Int(n) }
}

fn make_text_fact(name: &str, t: String) -> (r: Fact)
    ensures
        r@ == fact_text(name@, t@),
{
    Fact { name: String::from_str(name), value: FactValue::Text(t) }
}

fn make_bytes_fact(name: &str, n: u64) -> (r: Fact)
    ensures
        r@ == fact_text(name@, bytes_value(n)),
{
    let mut v = to_decimal(n);
    v.append(" bytes");
    Fact { name: String::from_str(name), value: FactValue::Text(v) }
}

/// Count the lines of `c` that begin with `processor`.
pub fn count_processors(c: &str) -> (r: u64)
    ensures
        r == processor_count_spec(c@) as u64,
{
    let lines = split_lines(c);
    let ghost lv = lines.deep_view();
    let mut count: usize = 0;
    let mut i: usize = 0;
    proof {
        assert(lv.take(0) =~= Seq::<Seq<char>>::empty());
    }
    while i < lines.len()
        invariant
            0 <= i <= lines.len(),
            count <= i,
            lv == lines.deep_view(),
            lv == lines_spec(c@),
            count == count_proc_lines(lv.take(i as int)),
        decreases lines.len() - i,
    {
        proof {
            assert(lv.take(i + 1).drop_last() =~= lv.take(i as int));
            assert(lv.take(i + 1).last() == lv[i as int]);
        }
        if starts_with(lines[i].as_str(), "processor") {
            count = count + 1;
        }
        i = i + 1;
    }
    proof {
        assert(lv.take(lines.len() as int) =~= lv);
    }
    count as u64
}

fn push_num_fact(name: &str, raw: &str, out: &mut Vec<Fact>)
    ensures
        final(out).deep_view() == old(out).deep_view() + num_fact(name@, raw@),
{
    let t = trim(raw);
    match parse_u64(t.as_str()) {
        Some(v) => {
            out.push(make_int_fact(name, v));
            proof {
                assert(out.deep_view() =~= old(out).deep_view() + num_fact(name@, raw@));
            }
        },
        None => {
            proof {
                assert(out.deep_view() =~= old(out).deep_view() + num_fact(name@, raw@));
            }
        },
    }
}

fn push_num_bytes_fact(name: &str, raw: &str, out: &mut Vec<Fact>)
    ensures
        final(out).deep_view() == old(out).deep_view() + num_bytes_fact(name@, raw@),
{
    let t = trim(raw);
    match parse_u64(t.as_str()) {
        Some(v) => {
            out.push(make_bytes_fact(name, v));
            proof {
                assert(out.deep_view() =~= old(out).deep_view() + num_bytes_fact(name@, raw@));
            }
        },
        None => {
            proof {
                assert(out.deep_view() =~= old(out).deep_view() + num_bytes_fact(name@, raw@));
            }
        },
    }
}

fn meminfo_collect(m: &str, verbose: bool, out: &mut Vec<Fact>)
    ensures
        final(out).deep_view() == old(out).deep_view() + meminfo_view(m@, verbose),
{
    let lines = split_lines(m);
    let ghost lv = lines.deep_view();
    let k: usize = if verbose {
        10
    } else {
        3
    };
    let lim: usize = if lines.len() < k {
        lines.len()
    } else {
        k
    };
    let mut i: usize = 0;
    proof {
        assert(lv.take(0) =~= Seq::<Seq<char>>::empty());
        assert(out.deep_view() =~= old(out).deep_view() + meminfo_facts(lv.take(0)));
    }
    while i < lim
        invariant
            0 <= i <= lim <= lines.len(),
            lv == lines.deep_view(),
            out.deep_view() == old(out).deep_view() + meminfo_facts(lv.take(i as int)),
        decreases lim - i,
    {
        proof {
            assert(lv.take(i + 1).drop_last() =~= lv.take(i as int));
            assert(lv.take(i + 1).last() == lv[i as int]);
        }
        match split_colon(lines[i].as_str()) {
            Some(p) => {
                let f = Fact { name: p.0, value: FactValue::Text(p.1) };
                let ghost fm = f@;
                let ghost pre = out.deep_view();
                out.push(f);
                proof {
                    assert(out.deep_view() =~= pre.push(fm));
                    assert(entry_facts(lv[i as int]) =~= seq![fm]);
                    assert(meminfo_facts(lv.take(i + 1)) == meminfo_facts(lv.take(i as int))
                        + entry_facts(lv[i as int]));
                    assert(out.deep_view() =~= old(out).deep_view() + meminfo_facts(
                        lv.take(i + 1),
                    ));
                }
            },
            None => {
                let f = Fact { name: lines[i].clone(), value: FactValue::Text(String::new()) };
                let ghost fm = f@;
                let ghost pre = out.deep_view();
                out.push(f);
                proof {
                    assert(out.deep_view() =~= pre.push(fm));
                    assert(entry_facts(lv[i as int]) =~= seq![fm]);
                    assert(meminfo_facts(lv.take(i + 1)) == meminfo_facts(lv.take(i as int))
                        + entry_facts(lv[i as int]));
                    assert(out.deep_view() =~= old(out).deep_view() + meminfo_facts(
                        lv.take(i + 1),
                    ));
                }
            },
        }
        i = i + 1;
    }
}

fn linux_collect(q: &Query, p: &LinuxProbe, out: &mut Vec<Fact>)
    ensures
        final(out).deep_view() == old(out).deep_view() + linux_facts(*q, *p),
{
    match q.format {
        OutputFormat::Structured => {
            if let Some(c) = &p.cpuinfo {
                let n = count_processors(c.as_str());
                out.push(make_int_fact("processors", n));
            }
            if let Some(h) = &p.hostname {
                let t = trim(h.as_str());
                out.push(make_text_fact("hostname", t));
            }
            proof {
                assert(out.deep_view() =~= old(out).deep_view() + linux_facts(*q, *p));
            }
        },
        OutputFormat::Text => {
            let ghost a = (match &p.cpuinfo {
                Some(c) => seq![
                    fact_int("Number of Processors"@, processor_count_spec(c@) as u64),
                ],
                None => Seq::<FactModel>::empty(),
            });
            let ghost b = (match &p.meminfo {
                Some(m) => meminfo_view(m@, q.verbose),
                None => Seq::<FactModel>::empty(),
            });
            let ghost c = (match &p.hostname {
                Some(h) => seq![fact_text("Hostname"@, trim_spec(h@))],
                None => Seq::<FactModel>::empty(),
            });
            if let Some(c) = &p.cpuinfo {
                let n = count_processors(c.as_str());
                out.push(make_int_fact("Number of Processors", n));
            }
            proof {
                assert(out.deep_view() =~= old(out).deep_view() + a);
            }
            if let Some(m) = &p.meminfo {
                meminfo_collect(m.as_str(), q.verbose, out);
            }
            proof {
                assert(out.deep_view() =~= old(out).deep_view() + a + b);
            }
            if let Some(h) = &p.hostname {
                let t = trim(h.as_str());
                out.push(make_text_fact("Hostname", t));
            }
            proof {
                assert(out.deep_view() =~= old(out).deep_view() + a + b + c);
                assert(linux_facts(*q, *p) == a + b + c);
                assert(out.deep_view() =~= old(out).deep_view() + linux_facts(*q, *p));
            }
        },
    }
}

fn mac_collect(q: &Query, p: &MacProbe, out: &mut Vec<Fact>)
    ensures
        final(out).deep_view() == old(out).deep_view() + mac_facts(*q, *p),
{
    match q.format {
        OutputFormat::Structured => {
            if let Some(s) = &p.ncpu {
                push_num_fact("cpus", s.as_str(), out);
            }
            if let Some(s) = &p.memsize {
                push_num_fact("memory_bytes", s.as_str(), out);
            }
            proof {
                assert(out.deep_view() =~= old(out).deep_view() + mac_facts(*q, *p));
            }
        },
        OutputFormat::Text => {
            let ghost a = (match &p.ncpu {
                Some(s) => num_fact("Number of CPUs"@, s@),
                None => Seq::<FactModel>::empty(),
            });
            let ghost b = (match &p.memsize {
                Some(s) => num_bytes_fact("Memory Size"@, s@),
                None => Seq::<FactModel>::empty(),
            });
            let ghost c = (if q.verbose {
                match &p.cpu_brand {
                    Some(b) => seq![fact_text("CPU"@, trim_spec(b@))],
                    None => Seq::<FactModel>::empty(),
                }
            } else {
                Seq::<FactModel>::empty()
            });
            if let Some(s) = &p.ncpu {
                push_num_fact("Number of CPUs", s.as_str(), out);
            }
            proof {
                assert(out.deep_view() =~= old(out).deep_view() + a);
            }
            if let Some(s) = &p.memsize {
                push_num_bytes_fact("Memory Size", s.as_str(), out);
            }
            proof {
                assert(out.deep_view() =~= old(out).deep_view() + a + b);
            }
            if q.verbose {
                if let Some(b) = &p.cpu_brand {
                    let t = trim(b.as_str());
                    out.push(make_text_fact("CPU", t));
                }
            }
            proof {
                assert(out.deep_view() =~= old(out).deep_view() + a + b + c);
                assert(mac_facts(*q, *p) == a + b + c);
                assert(out.deep_view() =~= old(out).deep_view() + mac_facts(*q, *p));
            }
        },
    }
}

fn windows_collect(q: &Query, p: &WindowsProbe, out: &mut Vec<Fact>)
    ensures
        final(out).deep_view() == old(out).deep_view() + windows_facts(*q, *p),
{
    match q.format {
        OutputFormat::Structured => {
            out.push(make_int_fact("processors", p.processors as u64));
            out.push(make_int_fact("page_size", p.page_size as u64));
            out.push(make_int_fact("architecture", p.architecture as u64));
            out.push(make_int_fact("allocation_granularity", p.allocation_granularity as u64));
            if let Some(s) = &p.computer_name {
                out.push(make_text_fact("computer_name", s.clone()));
            }
            proof {
                assert(out.deep_view() =~= old(out).deep_view() + windows_facts(*q, *p));
            }
        },
        OutputFormat::Text => {
            out.push(make_int_fact("Number of Processors", p.processors as u64));
            out.push(make_bytes_fact("Page Size", p.page_size as u64));
            out.push(make_int_fact("Processor Architecture", p.architecture as u64));
            if q.verbose {
                out.push(make_int_fact("Processor Type", p.processor_type as u64));
                out.push(make_int_fact("Processor Level", p.processor_level as u64));
                out.push(make_int_fact("Processor Revision", p.processor_revision as u64));
            }
            out.push(make_bytes_fact("Allocation Granularity", p.allocation_granularity as u64));
            if let Some(s) = &p.computer_name {
                out.push(make_text_fact("Computer Name", s.clone()));
            }
            proof {
                assert(out.deep_view() =~= old(out).deep_view() + windows_facts(*q, *p));
            }
        },
    }
}

/// Collect the facts for query `query` from the raw probe values `probe`.
///
/// The result is exactly `spec_collect(query, probe)`: a `platform` fact
/// followed by the facts of the platform's variant, in order, with failed
/// queries skipped.
pub fn collect(query: &Query, probe: &Probe) -> (r: Vec<Fact>)
    ensures
        r.deep_view() == spec_collect(*query, *probe),
{
    let mut out: Vec<Fact> = Vec::new();
    match probe {
        Probe::Windows(p) => {
            out.push(make_text_fact("platform", String::from_str("windows")));
            windows_collect(query, p, &mut out);
            proof {
                assert(out.deep_view() =~= spec_collect(*query, *probe));
            }
        },
        Probe::Linux(p) => {
            out.push(make_text_fact("platform", String::from_str("linux")));
            linux_collect(query, p, &mut out);
            proof {
                assert(out.deep_view() =~= spec_collect(*query, *probe));
            }
        },
        Probe::MacOs(p) => {
            out.push(make_text_fact("platform", String::from_str("macos")));
            mac_collect(query, p, &mut out);
            proof {
                assert(out.deep_view() =~= spec_collect(*query, *probe));
            }
        },
        Probe::Unsupported => {
            out.push(make_text_fact("platform", String::from_str("unsupported")));
            proof {
                assert(out.deep_view() =~= spec_collect(*query, *probe));
            }
        },
    }
    out
}

/// The query at `verbose = false` for a format.
pub open spec fn quiet_query(format: OutputFormat) -> Query {
    Query { verbose: false, format }
}

/// The query at `verbose = true` for a format.
pub open spec fn verbose_query(format: OutputFormat) -> Query {
    Query { verbose: true, format }
}

/// Collection is never empty: every probe yields at least the `platform`
/// fact, which stands first. In particular the sequence is non-empty
/// whenever at least one underlying query succeeds.
pub proof fn lemma_collect_nonempty(q: Query, p: Probe)
    ensures
        spec_collect(q, p).len() >= 1,
        spec_collect(q, p)[0] == platform_fact(
            match p {
                Probe::Windows(_) => "windows"@,
                Probe::Linux(_) => "linux"@,
                Probe::MacOs(_) => "macos"@,
                Probe::Unsupported => "unsupported"@,
            },
        ),
{
}

/// On an unrecognized platform, collection yields exactly one fact, whose
/// value says the platform is unsupported.
pub proof fn lemma_unsupported_single(q: Query)
    ensures
        spec_collect(q, Probe::Unsupported).len() == 1,
        spec_collect(q, Probe::Unsupported)[0] == fact_text("platform"@, "unsupported"@),
{
}

proof fn lemma_contains_concat_l(a: Seq<FactModel>, b: Seq<FactModel>, f: FactModel)
    requires
        a.contains(f),
    ensures
        (a + b).contains(f),
{
    let i = choose|i: int| 0 <= i < a.len() && a[i] == f;
    assert((a + b)[i] == f);
}

proof fn lemma_contains_concat_r(a: Seq<FactModel>, b: Seq<FactModel>, f: FactModel)
    requires
        b.contains(f),
    ensures
        (a + b).contains(f),
{
    let i = choose|i: int| 0 <= i < b.len() && b[i] == f;
    assert((a + b)[a.len() + i] == f);
}

proof fn lemma_concat_contains(a: Seq<FactModel>, b: Seq<FactModel>, f: FactModel)
    requires
        (a + b).contains(f),
    ensures
        a.contains(f) || b.contains(f),
{
    let i = choose|i: int| 0 <= i < (a + b).len() && (a + b)[i] == f;
    if i < a.len() {
        assert(a[i] == f);
    } else {
        assert(b[i - a.len()] == f);
    }
}

proof fn lemma_insert_middle(a: Seq<FactModel>, e: Seq<FactModel>, b: Seq<FactModel>, f: FactModel)
    requires
        (a + b).contains(f),
    ensures
        (a + e + b).contains(f),
{
    let i = choose|i: int| 0 <= i < (a + b).len() && (a + b)[i] == f;
    if i < a.len() {
        assert((a + e + b)[i] == f);
    } else {
        assert((a + e + b)[i + e.len()] == f);
    }
}

proof fn lemma_meminfo_facts_mono(ls: Seq<Seq<char>>, k0: int, k1: int, f: FactModel)
    requires
        0 <= k0 <= k1 <= ls.len(),
        meminfo_facts(ls.take(k0)).contains(f),
    ensures
        meminfo_facts(ls.take(k1)).contains(f),
    decreases k1 - k0,
{
    if k0 < k1 {
        assert(ls.take(k0 + 1).drop_last() =~= ls.take(k0));
        assert(meminfo_facts(ls.take(k0 + 1)) == meminfo_facts(ls.take(k0)) + entry_facts(
            ls.take(k0 + 1).last(),
        ));
        lemma_contains_concat_l(meminfo_facts(ls.take(k0)), entry_facts(ls.take(k0 + 1).last()), f);
        lemma_meminfo_facts_mono(ls, k0 + 1, k1, f);
    }
}

/// Raising verbosity never removes a fact: for the same probe and format,
/// every fact collected at `verbose = false` is also collected at
/// `verbose = true`; verbosity only adds facts.
pub proof fn lemma_verbose_monotone(format: OutputFormat, p: Probe)
    ensures
        forall|f: FactModel|
            #[trigger] spec_collect(quiet_query(format), p).contains(f) ==> spec_collect(
                verbose_query(format),
                p,
            ).contains(f),
{
    let q0 = quiet_query(format);
    let q1 = verbose_query(format);
    match p {
        Probe::Unsupported => {
            assert(spec_collect(q0, p) == spec_collect(q1, p));
        },
        Probe::Windows(wp) => {
            if format is Structured {
                assert(spec_collect(q0, p) == spec_collect(q1, p));
            } else {
                let s3 = seq![
                    fact_int("Number of Processors"@, wp.processors as u64),
                    fact_text("Page Size"@, bytes_value(wp.page_size as u64)),
                    fact_int("Processor Architecture"@, wp.architecture as u64),
                ];
                let extras = seq![
                    fact_int("Processor Type"@, wp.processor_type as u64),
                    fact_int("Processor Level"@, wp.processor_level as u64),
                    fact_int("Processor Revision"@, wp.processor_revision as u64),
                ];
                let tail = seq![
                    fact_text("Allocation Granularity"@, bytes_value(wp.allocation_granularity as u64)),
                ] + (match wp.computer_name {
                    Some(s) => seq![fact_text("Computer Name"@, s@)],
                    None => Seq::<FactModel>::empty(),
                });
                let head = seq![platform_fact("windows"@)] + s3;
                assert(spec_collect(q0, p) =~= head + tail);
                assert(spec_collect(q1, p) =~= head + extras + tail);
                assert forall|f: FactModel|
                    #[trigger] spec_collect(q0, p).contains(f) implies spec_collect(
                    q1,
                    p,
                ).contains(f) by {
                    lemma_insert_middle(head, extras, tail, f);
                }
            }
        },
        Probe::MacOs(mp) => {
            if format is Structured {
                assert(spec_collect(q0, p) == spec_collect(q1, p));
            } else {
                let base = seq![platform_fact("macos"@)] + ((match mp.ncpu {
                    Some(s) => num_fact("Number of CPUs"@, s@),
                    None => Seq::<FactModel>::empty(),
                }) + (match mp.memsize {
                    Some(s) => num_bytes_fact("Memory Size"@, s@),
                    None => Seq::<FactModel>::empty(),
                }));
                let brand = (match mp.cpu_brand {
                    Some(b) => seq![fact_text("CPU"@, trim_spec(b@))],
                    None => Seq::<FactModel>::empty(),
                });
                assert(spec_collect(q0, p) =~= base + Seq::<FactModel>::empty());
                assert(spec_collect(q0, p) =~= base);
                assert(spec_collect(q1, p) =~= base + brand);
                assert forall|f: FactModel|
                    #[trigger] spec_collect(q0, p).contains(f) implies spec_collect(
                    q1,
                    p,
                ).contains(f) by {
                    lemma_contains_concat_l(base, brand, f);
                }
            }
        },
        Probe::Linux(lp) => {
            if format is Structured {
                assert(spec_collect(q0, p) == spec_collect(q1, p));
            } else {
                let head = seq![platform_fact("linux"@)] + (match lp.cpuinfo {
                    Some(c) => seq![
                        fact_int("Number of Processors"@, processor_count_spec(c@) as u64),
                    ],
                    None => Seq::<FactModel>::empty(),
                });
                let mem0 = (match lp.meminfo {
                    Some(m) => meminfo_view(m@, false),
                    None => Seq::<FactModel>::empty(),
                });
                let mem1 = (match lp.meminfo {
                    Some(m) => meminfo_view(m@, true),
                    None => Seq::<FactModel>::empty(),
                });
                let host = (match lp.hostname {
                    Some(h) => seq![fact_text("Hostname"@, trim_spec(h@))],
                    None => Seq::<FactModel>::empty(),
                });
                assert(spec_collect(q0, p) =~= head + mem0 + host);
                assert(spec_collect(q1, p) =~= head + mem1 + host);
                assert forall|f: FactModel|
                    #[trigger] spec_collect(q0, p).contains(f) implies spec_collect(
                    q1,
                    p,
                ).contains(f) by {
                    lemma_concat_contains(head + mem0, host, f);
                    if host.contains(f) {
                        lemma_contains_concat_r(head + mem1, host, f);
                    } else {
                        lemma_concat_contains(head, mem0, f);
                        if head.contains(f) {
                            lemma_contains_concat_l(head, mem1, f);
                            lemma_contains_concat_l(head + mem1, host, f);
                        } else {
                            match lp.meminfo {
                                Some(m) => {
                                    let ls = lines_spec(m@);
                                    let k0 = if ls.len() < 3 {
                                        ls.len() as int
                                    } else {
                                        3
                                    };
                                    let k1 = if ls.len() < 10 {
                                        ls.len() as int
                                    } else {
                                        10
                                    };
                                    lemma_meminfo_facts_mono(ls, k0, k1, f);
                                    lemma_contains_concat_r(head, mem1, f);
                                    lemma_contains_concat_l(head + mem1, host, f);
                                },
                                None => {
                                    assert(false);
                                },
                            }
                        }
                    }
                }
            }
        },
    }
}

} // verus!

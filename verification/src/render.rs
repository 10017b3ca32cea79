//! Rendering a fact sequence into output lines.
//!
//! Text rendering yields one constant header line and then one
//! `<Name>: <Value>` line per fact. Structured rendering yields an opening
//! brace, one `  "name": value` line per fact (every line but the last
//! followed by a comma), and a closing brace.

use vstd::prelude::*;
use vstd::string::StrSliceExecFns;
use vstd::string::StringExecFns;

use crate::collect::{
    fact_int, fact_text, num_fact, platform_fact, processor_count_spec, spec_collect,
};
use crate::facts::{Fact, FactModel, FactValue, OutputFormat, Probe, Query, ValueModel};
use crate::text::dec_spec;
use crate::text::to_decimal;
use crate::text::trim_spec;

verus! {

/// A value as it appears in a text line: numbers in decimal, text as it is.
pub open spec fn value_text(v: ValueModel) -> Seq<char> {
    match v {
        ValueModel::Int(n) => dec_spec(n as nat),
        ValueModel::Text(s) => s,
    }
}

/// The text line of one fact.
pub open spec fn text_line(f: FactModel) -> Seq<char> {
    f.name + ": "@ + value_text(f.value)
}

/// The text lines of a fact sequence, one per fact.
pub open spec fn text_lines(fs: Seq<FactModel>) -> Seq<Seq<char>>
    decreases fs.len(),
{
    if fs.len() == 0 {
        Seq::empty()
    } else {
        text_lines(fs.drop_last()).push(text_line(fs.last()))
    }
}

/// The constant header line of text output.
pub open spec fn header_line() -> Seq<char> {
    "=== System Information ==="@
}

/// A value as it appears in a structured line: numbers in decimal, text
/// quoted.
pub open spec fn json_value(v: ValueModel) -> Seq<char> {
    match v {
        ValueModel::Int(n) => dec_spec(n as nat),
        ValueModel::Text(s) => "\""@ + s + "\""@,
    }
}

/// The structured line of one fact; `last` suppresses the trailing comma.
pub open spec fn structured_line(f: FactModel, last: bool) -> Seq<char> {
    "  \""@ + f.name + "\": "@ + json_value(f.value) + (if last {
        Seq::<char>::empty()
    } else {
        ","@
    })
}

/// The structured lines of a fact sequence, one per fact, the last without
/// a comma.
pub open spec fn structured_lines(fs: Seq<FactModel>) -> Seq<Seq<char>>
    decreases fs.len(),
{
    if fs.len() == 0 {
        Seq::empty()
    } else if fs.len() == 1 {
        seq![structured_line(fs[0], true)]
    } else {
        seq![structured_line(fs[0], false)] + structured_lines(fs.skip(1))
    }
}

/// The rendered lines of a fact sequence.
pub open spec fn spec_render(fs: Seq<FactModel>, fmt: OutputFormat) -> Seq<Seq<char>> {
    if fmt is Text {
        seq![header_line()] + text_lines(fs)
    } else {
        seq!["{"@] + structured_lines(fs) + seq!["}"@]
    }
}

/// One text line per fact: the lines are exactly as many as the facts.
pub proof fn lemma_text_lines_len(fs: Seq<FactModel>)
    ensures
        text_lines(fs).len() == fs.len(),
    decreases fs.len(),
{
    if fs.len() > 0 {
        lemma_text_lines_len(fs.drop_last());
    }
}

/// One structured line per fact: the lines are exactly as many as the facts.
pub proof fn lemma_structured_lines_len(fs: Seq<FactModel>)
    ensures
        structured_lines(fs).len() == fs.len(),
    decreases fs.len(),
{
    if fs.len() > 1 {
        lemma_structured_lines_len(fs.skip(1));
    }
}

fn render_text_line(f: &Fact) -> (r: String)
    ensures
        r@ == text_line(f@),
{
    let mut s = f.name.clone();
    s.append(": ");
    match &f.value {
        FactValue::Int(n) => {
            let d = to_decimal(*n);
            s.append(d.as_str());
        },
        FactValue::Text(t) => {
            s.append(t.as_str());
        },
    }
    proof {
        assert(s@ =~= text_line(f@));
    }
    s
}

fn render_structured_line(f: &Fact, last: bool) -> (r: String)
    ensures
        r@ == structured_line(f@, last),
{
    let mut s = String::from_str("  \"");
    s.append(f.name.as_str());
    s.append("\": ");
    match &f.value {
        FactValue::Int(n) => {
            let d = to_decimal(*n);
            s.append(d.as_str());
        },
        FactValue::Text(t) => {
            s.append("\"");
            s.append(t.as_str());
            s.append("\"");
        },
    }
    if !last {
        s.append(",");
    }
    proof {
        assert(s@ =~= structured_line(f@, last));
    }
    s
}

/// Render `facts` in `format`.
///
/// The result is exactly `spec_render(facts, format)`. In text format that
/// is one constant header line followed by one line per fact; in structured
/// format, an opening brace, one key-value line per fact, and a closing
/// brace.
pub fn render(facts: &Vec<Fact>, format: OutputFormat) -> (r: Vec<String>)
    ensures
        r.deep_view() == spec_render(facts.deep_view(), format),
        format is Text ==> r@.len() == facts@.len() + 1,
        format is Structured ==> r@.len() == facts@.len() + 2,
{
    let ghost fv = facts.deep_view();
    let mut out: Vec<String> = Vec::new();
    match format {
        OutputFormat::Text => {
            out.push(String::from_str("=== System Information ==="));
            let mut i: usize = 0;
            proof {
                assert(fv.take(0) =~= Seq::<FactModel>::empty());
                assert(out.deep_view() =~= seq![header_line()] + text_lines(fv.take(0)));
            }
            while i < facts.len()
                invariant
                    0 <= i <= facts.len(),
                    fv == facts.deep_view(),
                    out.deep_view() == seq![header_line()] + text_lines(fv.take(i as int)),
                    out@.len() == i + 1,
                decreases facts.len() - i,
            {
                let line = render_text_line(&facts[i]);
                let ghost lm = line@;
                let ghost pre = out.deep_view();
                out.push(line);
                proof {
                    assert(out.deep_view() =~= pre.push(lm));
                    assert(fv.take(i + 1).drop_last() =~= fv.take(i as int));
                    assert(fv.take(i + 1).last() == fv[i as int]);
                    assert(out.deep_view() =~= seq![header_line()] + text_lines(fv.take(i + 1)));
                }
                i = i + 1;
            }
            proof {
                assert(fv.take(facts.len() as int) =~= fv);
                lemma_text_lines_len(fv);
            }
        },
        OutputFormat::Structured => {
            out.push(String::from_str("{"));
            let n = facts.len();
            let mut i: usize = 0;
            proof {
                assert(fv.skip(0) =~= fv);
                assert(out.deep_view() + structured_lines(fv) =~= seq!["{"@] + structured_lines(
                    fv,
                ));
            }
            while i < n
                invariant
                    0 <= i <= n,
                    n == facts.len(),
                    fv == facts.deep_view(),
                    out.deep_view() + structured_lines(fv.skip(i as int)) == seq!["{"@]
                        + structured_lines(fv),
                    out@.len() == i + 1,
                decreases n - i,
            {
                let ghost tail = fv.skip(i as int);
                proof {
                    assert(tail.len() == n - i);
                    assert(tail[0] == fv[i as int]);
                    assert(tail.skip(1) =~= fv.skip(i + 1));
                }
                let line = render_structured_line(&facts[i], i == n - 1);
                let ghost lm = line@;
                let ghost pre = out.deep_view();
                out.push(line);
                proof {
                    assert(out.deep_view() =~= pre.push(lm));
                    if i == n - 1 {
                        assert(structured_lines(tail) == seq![structured_line(fv[i as int], true)]);
                    } else {
                        assert(structured_lines(tail) == seq![
                            structured_line(fv[i as int], false),
                        ] + structured_lines(fv.skip(i + 1)));
                    }
                    assert(out.deep_view() + structured_lines(fv.skip(i + 1)) =~= seq!["{"@]
                        + structured_lines(fv));
                }
                i = i + 1;
            }
            proof {
                assert(fv.skip(n as int).len() == 0);
                assert(structured_lines(fv.skip(n as int)) =~= Seq::<Seq<char>>::empty());
                assert(out.deep_view() =~= seq!["{"@] + structured_lines(fv));
            }
            out.push(String::from_str("}"));
            proof {
                assert(out.deep_view() =~= seq!["{"@] + structured_lines(fv) + seq!["}"@]);
                lemma_structured_lines_len(fv);
            }
        },
    }
    out
}

/// The opening of a structured line whose key is `name`.
pub open spec fn key_marker(name: Seq<char>) -> Seq<char> {
    "  \""@ + name + "\": "@
}

/// Does the structured line `l` carry the key `name`?
pub open spec fn line_has_key(l: Seq<char>, name: Seq<char>) -> bool {
    crate::text::starts_with_spec(l, key_marker(name))
}

/// `s` holds no quote character.
pub open spec fn no_quote(s: Seq<char>) -> bool {
    forall|k: int| 0 <= k < s.len() ==> s[k] != '"'
}

proof fn lemma_structured_lines_at(fs: Seq<FactModel>, k: int)
    requires
        0 <= k < fs.len(),
    ensures
        structured_lines(fs).len() == fs.len(),
        structured_lines(fs)[k] == structured_line(fs[k], k == fs.len() - 1),
    decreases fs.len(),
{
    lemma_structured_lines_len(fs);
    if fs.len() == 1 {
    } else if k == 0 {
        lemma_structured_lines_len(fs.skip(1));
    } else {
        lemma_structured_lines_at(fs.skip(1), k - 1);
        assert(fs.skip(1)[k - 1] == fs[k]);
        lemma_structured_lines_len(fs.skip(1));
        assert(structured_lines(fs)[k] == structured_lines(fs.skip(1))[k - 1]);
    }
}

proof fn lemma_line_key_self(f: FactModel, b: bool)
    ensures
        line_has_key(structured_line(f, b), f.name),
{
    let km = key_marker(f.name);
    let rest = json_value(f.value) + (if b {
        Seq::<char>::empty()
    } else {
        ","@
    });
    assert(structured_line(f, b) =~= km + rest);
    assert forall|k: int| 0 <= k < km.len() implies structured_line(f, b)[k] == km[k] by {
        assert((km + rest)[k] == km[k]);
    }
}

proof fn lemma_key_match(f: FactModel, b: bool, n: Seq<char>)
    requires
        no_quote(n),
        no_quote(f.name),
        line_has_key(structured_line(f, b), n),
    ensures
        n == f.name,
{
    reveal_strlit("  \"");
    reveal_strlit("\": ");
    let l = structured_line(f, b);
    let kmf = key_marker(f.name);
    let kmn = key_marker(n);
    let rest = json_value(f.value) + (if b {
        Seq::<char>::empty()
    } else {
        ","@
    });
    assert(l =~= kmf + rest);
    let m = f.name.len() as int;
    let nn = n.len() as int;
    assert("  \""@.len() == 3);
    assert("\": "@.len() == 3);
    assert("\": "@[0] == '"');
    assert(kmf.len() == m + 6);
    assert(kmn.len() == nn + 6);
    assert(forall|k: int| 0 <= k < 3 ==> kmn[k] == "  \""@[k]);
    assert(forall|k: int| 3 <= k < 3 + nn ==> kmn[k] == n[k - 3]);
    assert(kmn[3 + nn] == '"');
    assert(forall|k: int| 0 <= k < 3 ==> kmf[k] == "  \""@[k]);
    assert(forall|k: int| 3 <= k < 3 + m ==> kmf[k] == f.name[k - 3]);
    assert(kmf[3 + m] == '"');
    assert(forall|k: int| 0 <= k < kmn.len() ==> l[k] == kmn[k]);
    if nn < m {
        assert(l[3 + nn] == kmf[3 + nn]);
        assert(kmf[3 + nn] == f.name[nn]);
        assert(l[3 + nn] == kmn[3 + nn]);
        assert(f.name[nn] == '"');
        assert(false);
    } else if nn > m {
        assert(l[3 + m] == kmf[3 + m]);
        assert(l[3 + m] == kmn[3 + m]);
        assert(kmn[3 + m] == n[m]);
        assert(n[m] == '"');
        assert(false);
    } else {
        assert forall|j: int| 0 <= j < nn implies n[j] == f.name[j] by {
            assert(kmn[3 + j] == n[j]);
            assert(l[3 + j] == kmn[3 + j]);
            assert(l[3 + j] == kmf[3 + j]);
            assert(kmf[3 + j] == f.name[j]);
        }
        assert(n =~= f.name);
    }
}

/// In structured rendering of facts with pairwise distinct, quote-free
/// names, each fact's name is the key of exactly one output line: the line
/// of that fact.
pub proof fn lemma_structured_key_once(fs: Seq<FactModel>, i: int)
    requires
        0 <= i < fs.len(),
        forall|j: int| 0 <= j < fs.len() ==> no_quote(#[trigger] fs[j].name),
        forall|j: int, k: int| 0 <= j < k < fs.len() ==> fs[j].name != fs[k].name,
    ensures
        forall|j: int|
            0 <= j < spec_render(fs, OutputFormat::Structured).len() ==> (line_has_key(
                #[trigger] spec_render(fs, OutputFormat::Structured)[j],
                fs[i].name,
            ) <==> j == i + 1),
{
    let lines = spec_render(fs, OutputFormat::Structured);
    lemma_structured_lines_len(fs);
    assert(lines.len() == fs.len() + 2);
    assert forall|j: int| 0 <= j < lines.len() implies (line_has_key(lines[j], fs[i].name) <==> j
        == i + 1) by {
        reveal_strlit("{");
        reveal_strlit("}");
        reveal_strlit("  \"");
        reveal_strlit("\": ");
        assert(key_marker(fs[i].name).len() >= 6);
        if j == 0 {
            assert(lines[j] == "{"@);
            assert(lines[j].len() == 1);
            assert(!line_has_key(lines[j], fs[i].name));
        } else if j == lines.len() - 1 {
            assert(lines[j] == "}"@);
            assert(lines[j].len() == 1);
            assert(!line_has_key(lines[j], fs[i].name));
        } else {
            lemma_structured_lines_at(fs, j - 1);
            assert(lines[j] == structured_line(fs[j - 1], j - 1 == fs.len() - 1));
            if line_has_key(lines[j], fs[i].name) {
                lemma_key_match(fs[j - 1], j - 1 == fs.len() - 1, fs[i].name);
                assert(fs[j - 1].name == fs[i].name);
                if j - 1 < i {
                    assert(fs[j - 1].name != fs[i].name);
                } else if i < j - 1 {
                    assert(fs[i].name != fs[j - 1].name);
                }
                assert(j == i + 1);
            }
            if j == i + 1 {
                lemma_line_key_self(fs[i], i == fs.len() - 1);
            }
        }
    }
}

proof fn lemma_literal_names_ok()
    ensures
        no_quote("platform"@),
        no_quote("processors"@),
        no_quote("hostname"@),
        no_quote("cpus"@),
        no_quote("memory_bytes"@),
        no_quote("page_size"@),
        no_quote("architecture"@),
        no_quote("allocation_granularity"@),
        no_quote("computer_name"@),
        "platform"@.len() == 8,
        "processors"@.len() == 10,
        "hostname"@.len() == 8,
        "cpus"@.len() == 4,
        "memory_bytes"@.len() == 12,
        "page_size"@.len() == 9,
        "architecture"@.len() == 12,
        "allocation_granularity"@.len() == 22,
        "computer_name"@.len() == 13,
        "platform"@[0] == 'p',
        "hostname"@[0] == 'h',
        "architecture"@[0] == 'a',
        "memory_bytes"@[0] == 'm',
{
    reveal_strlit("platform");
    reveal_strlit("processors");
    reveal_strlit("hostname");
    reveal_strlit("cpus");
    reveal_strlit("memory_bytes");
    reveal_strlit("page_size");
    reveal_strlit("architecture");
    reveal_strlit("allocation_granularity");
    reveal_strlit("computer_name");
}

/// In structured format, the names of the collected facts are pairwise
/// distinct and hold no quote character, whatever the probe.
pub proof fn lemma_structured_names_ok(q: Query, p: Probe)
    requires
        q.format is Structured,
    ensures
        forall|j: int|
            0 <= j < spec_collect(q, p).len() ==> no_quote(#[trigger] spec_collect(q, p)[j].name),
        forall|j: int, k: int|
            0 <= j < k < spec_collect(q, p).len() ==> spec_collect(q, p)[j].name != spec_collect(
                q,
                p,
            )[k].name,
{
    lemma_literal_names_ok();
    let s = spec_collect(q, p);
    match p {
        Probe::Unsupported => {
            assert(s =~= seq![platform_fact("unsupported"@)]);
        },
        Probe::Windows(wp) => {
            match wp.computer_name {
                Some(cn) => {
                    assert(s =~= seq![
                        platform_fact("windows"@),
                        fact_int("processors"@, wp.processors as u64),
                        fact_int("page_size"@, wp.page_size as u64),
                        fact_int("architecture"@, wp.architecture as u64),
                        fact_int("allocation_granularity"@, wp.allocation_granularity as u64),
                        fact_text("computer_name"@, cn@),
                    ]);
                },
                None => {
                    assert(s =~= seq![
                        platform_fact("windows"@),
                        fact_int("processors"@, wp.processors as u64),
                        fact_int("page_size"@, wp.page_size as u64),
                        fact_int("architecture"@, wp.architecture as u64),
                        fact_int("allocation_granularity"@, wp.allocation_granularity as u64),
                    ]);
                },
            }
        },
        Probe::Linux(lp) => {
            match lp.cpuinfo {
                Some(c) => {
                    match lp.hostname {
                        Some(h) => {
                            assert(s =~= seq![
                                platform_fact("linux"@),
                                fact_int("processors"@, processor_count_spec(c@) as u64),
                                fact_text("hostname"@, trim_spec(h@)),
                            ]);
                        },
                        None => {
                            assert(s =~= seq![
                                platform_fact("linux"@),
                                fact_int("processors"@, processor_count_spec(c@) as u64),
                            ]);
                        },
                    }
                },
                None => {
                    match lp.hostname {
                        Some(h) => {
                            assert(s =~= seq![
                                platform_fact("linux"@),
                                fact_text("hostname"@, trim_spec(h@)),
                            ]);
                        },
                        None => {
                            assert(s =~= seq![platform_fact("linux"@)]);
                        },
                    }
                },
            }
        },
        Probe::MacOs(mp) => {
            let a = (match &mp.ncpu {
                Some(t) => num_fact("cpus"@, t@),
                None => Seq::<FactModel>::empty(),
            });
            let b = (match &mp.memsize {
                Some(t) => num_fact("memory_bytes"@, t@),
                None => Seq::<FactModel>::empty(),
            });
            assert(s =~= seq![platform_fact("macos"@)] + a + b);
            assert(forall|j: int| 0 <= j < a.len() ==> (#[trigger] a[j]).name == "cpus"@);
            assert(forall|j: int| 0 <= j < b.len() ==> (#[trigger] b[j]).name == "memory_bytes"@);
            assert(a.len() <= 1 && b.len() <= 1);
            assert forall|j: int| 0 <= j < s.len() implies no_quote(#[trigger] s[j].name) by {
                if j == 0 {
                } else if j <= a.len() {
                    assert(s[j] == a[j - 1]);
                } else {
                    assert(s[j] == b[j - 1 - a.len()]);
                }
            }
            assert forall|j: int, k: int| 0 <= j < k < s.len() implies s[j].name != s[k].name by {
                if k <= a.len() {
                    assert(s[k] == a[k - 1]);
                } else {
                    assert(s[k] == b[k - 1 - a.len()]);
                }
                if j == 0 {
                } else if j <= a.len() {
                    assert(s[j] == a[j - 1]);
                } else {
                    assert(s[j] == b[j - 1 - a.len()]);
                }
            }
        },
    }
}

/// In structured format, rendering the collected facts mentions every fact
/// name as a key exactly once: the name of the fact at position `i` is the
/// key of the output line at position `i + 1` and of no other line.
pub proof fn lemma_collect_render_key_once(q: Query, p: Probe, i: int)
    requires
        q.format is Structured,
        0 <= i < spec_collect(q, p).len(),
    ensures
        forall|j: int|
            0 <= j < spec_render(spec_collect(q, p), OutputFormat::Structured).len() ==> (
            line_has_key(
                #[trigger] spec_render(spec_collect(q, p), OutputFormat::Structured)[j],
                spec_collect(q, p)[i].name,
            ) <==> j == i + 1),
{
    lemma_structured_names_ok(q, p);
    lemma_structured_key_once(spec_collect(q, p), i);
}

} // verus!

use sysfacts::collect::count_processors;
use sysfacts::{
    collect, render, Fact, FactValue, LinuxProbe, MacProbe, OutputFormat, Probe, Query,
    WindowsProbe,
};

fn linux_probe() -> Probe {
    Probe::Linux(LinuxProbe {
        cpuinfo: Some("processor\t: 0\nmodel name\t: demo\nprocessor\t: 1\n".to_string()),
        meminfo: Some(
            "MemTotal:   100 kB\nMemFree: 50 kB\nBuffers: 10 kB\nCached: 20 kB\n".to_string(),
        ),
        hostname: Some(" myhost\n".to_string()),
    })
}

fn names(facts: &[Fact]) -> Vec<String> {
    facts.iter().map(|f| f.name.clone()).collect()
}

#[test]
fn unsupported_platform_single_fact() {
    let q = Query { verbose: false, format: OutputFormat::Text };
    let facts = collect(&q, &Probe::Unsupported);
    assert_eq!(facts.len(), 1);
    assert_eq!(facts[0].name, "platform");
    assert_eq!(facts[0].value, FactValue::Text("unsupported".to_string()));
}

#[test]
fn linux_text_facts() {
    let q = Query { verbose: false, format: OutputFormat::Text };
    let facts = collect(&q, &linux_probe());
    assert_eq!(
        names(&facts),
        vec!["platform", "Number of Processors", "MemTotal", "MemFree", "Buffers", "Hostname"]
    );
    assert_eq!(facts[1].value, FactValue::Int(2));
    // raw remainder after the colon, less one leading space, untrimmed
    assert_eq!(facts[2].value, FactValue::Text("  100 kB".to_string()));
    assert_eq!(facts[3].value, FactValue::Text("50 kB".to_string()));
    assert_eq!(facts[5].value, FactValue::Text("myhost".to_string()));
}

#[test]
fn linux_text_verbose_adds_meminfo_lines() {
    let quiet = Query { verbose: false, format: OutputFormat::Text };
    let loud = Query { verbose: true, format: OutputFormat::Text };
    let p = linux_probe();
    let few = collect(&quiet, &p);
    let many = collect(&loud, &p);
    assert_eq!(few.len(), 6);
    assert_eq!(many.len(), 7);
    assert_eq!(many[5].name, "Cached");
    // monotonic: every quiet fact is also collected verbosely
    for f in &few {
        assert!(many.contains(f));
    }
}

#[test]
fn linux_missing_files_skipped() {
    let q = Query { verbose: true, format: OutputFormat::Text };
    let p = Probe::Linux(LinuxProbe { cpuinfo: None, meminfo: None, hostname: None });
    let facts = collect(&q, &p);
    assert_eq!(facts.len(), 1);
    assert_eq!(facts[0].name, "platform");
    assert_eq!(facts[0].value, FactValue::Text("linux".to_string()));
}

#[test]
fn linux_structured_render() {
    let q = Query { verbose: false, format: OutputFormat::Structured };
    let facts = collect(&q, &linux_probe());
    assert_eq!(names(&facts), vec!["platform", "processors", "hostname"]);
    let lines = render(&facts, OutputFormat::Structured);
    assert_eq!(
        lines,
        vec![
            "{",
            "  \"platform\": \"linux\",",
            "  \"processors\": 2,",
            "  \"hostname\": \"myhost\"",
            "}",
        ]
    );
    // every fact name is a key of exactly one line
    for f in &facts {
        let marker = format!("  \"{}\": ", f.name);
        let count = lines.iter().filter(|l| l.starts_with(&marker)).count();
        assert_eq!(count, 1);
    }
}

#[test]
fn render_text_line_count_and_content() {
    let q = Query { verbose: false, format: OutputFormat::Text };
    let facts = collect(&q, &linux_probe());
    let lines = render(&facts, OutputFormat::Text);
    assert_eq!(lines.len(), facts.len() + 1);
    assert_eq!(lines[0], "=== System Information ===");
    assert_eq!(lines[1], "platform: linux");
    assert_eq!(lines[2], "Number of Processors: 2");
    // memory-summary lines are reproduced verbatim
    assert_eq!(lines[3], "MemTotal:   100 kB");
    assert_eq!(lines[4], "MemFree: 50 kB");
    assert_eq!(lines[6], "Hostname: myhost");
}

#[test]
fn render_empty_facts() {
    let facts: Vec<Fact> = Vec::new();
    let text = render(&facts, OutputFormat::Text);
    assert_eq!(text, vec!["=== System Information ==="]);
    let structured = render(&facts, OutputFormat::Structured);
    assert_eq!(structured, vec!["{", "}"]);
}

#[test]
fn mac_text_facts() {
    let p = Probe::MacOs(MacProbe {
        ncpu: Some("8\n".to_string()),
        memsize: Some(" 17179869184\n".to_string()),
        cpu_brand: Some("Demo Chip\n".to_string()),
    });
    let quiet = Query { verbose: false, format: OutputFormat::Text };
    let facts = collect(&quiet, &p);
    assert_eq!(names(&facts), vec!["platform", "Number of CPUs", "Memory Size"]);
    assert_eq!(facts[1].value, FactValue::Int(8));
    assert_eq!(facts[2].value, FactValue::Text("17179869184 bytes".to_string()));
    let loud = Query { verbose: true, format: OutputFormat::Text };
    let more = collect(&loud, &p);
    assert_eq!(more.len(), 4);
    assert_eq!(more[3].name, "CPU");
    assert_eq!(more[3].value, FactValue::Text("Demo Chip".to_string()));
}

#[test]
fn mac_unparsable_number_skipped() {
    let p = Probe::MacOs(MacProbe {
        ncpu: Some("not a number\n".to_string()),
        memsize: None,
        cpu_brand: None,
    });
    let q = Query { verbose: false, format: OutputFormat::Structured };
    let facts = collect(&q, &p);
    assert_eq!(facts.len(), 1);
    assert_eq!(facts[0].value, FactValue::Text("macos".to_string()));
}

fn windows_probe(computer_name: Option<String>) -> Probe {
    Probe::Windows(WindowsProbe {
        processors: 4,
        page_size: 4096,
        architecture: 9,
        processor_type: 8664,
        processor_level: 6,
        processor_revision: 10,
        allocation_granularity: 65536,
        computer_name,
    })
}

#[test]
fn windows_text_facts() {
    let quiet = Query { verbose: false, format: OutputFormat::Text };
    let facts = collect(&quiet, &windows_probe(None));
    assert_eq!(
        names(&facts),
        vec![
            "platform",
            "Number of Processors",
            "Page Size",
            "Processor Architecture",
            "Allocation Granularity",
        ]
    );
    assert_eq!(facts[2].value, FactValue::Text("4096 bytes".to_string()));
    assert_eq!(facts[4].value, FactValue::Text("65536 bytes".to_string()));
    let lines = render(&facts, OutputFormat::Text);
    assert_eq!(lines[3], "Page Size: 4096 bytes");
    assert_eq!(lines[5], "Allocation Granularity: 65536 bytes");
    let loud = Query { verbose: true, format: OutputFormat::Text };
    let more = collect(&loud, &windows_probe(Some("BOX".to_string())));
    assert_eq!(
        names(&more),
        vec![
            "platform",
            "Number of Processors",
            "Page Size",
            "Processor Architecture",
            "Processor Type",
            "Processor Level",
            "Processor Revision",
            "Allocation Granularity",
            "Computer Name",
        ]
    );
    for f in &facts {
        assert!(more.contains(f));
    }
}

#[test]
fn windows_structured_failed_name_omitted() {
    let q = Query { verbose: false, format: OutputFormat::Structured };
    let facts = collect(&q, &windows_probe(None));
    assert_eq!(
        names(&facts),
        vec!["platform", "processors", "page_size", "architecture", "allocation_granularity"]
    );
    let lines = render(&facts, OutputFormat::Structured);
    assert_eq!(lines.len(), facts.len() + 2);
    assert_eq!(lines[1], "  \"platform\": \"windows\",");
    assert_eq!(lines[2], "  \"processors\": 4,");
    assert_eq!(lines[5], "  \"allocation_granularity\": 65536");
    assert!(!lines.iter().any(|l| l.contains("computer_name")));
}

#[test]
fn windows_structured_with_name() {
    let q = Query { verbose: false, format: OutputFormat::Structured };
    let facts = collect(&q, &windows_probe(Some("BOX".to_string())));
    assert_eq!(
        names(&facts),
        vec![
            "platform",
            "processors",
            "page_size",
            "architecture",
            "allocation_granularity",
            "computer_name",
        ]
    );
    assert_eq!(facts[5].value, FactValue::Text("BOX".to_string()));
    let lines = render(&facts, OutputFormat::Structured);
    assert_eq!(lines[6], "  \"computer_name\": \"BOX\"");
}

#[test]
fn linux_meminfo_colon_free_line_kept() {
    let q = Query { verbose: false, format: OutputFormat::Text };
    let p = Probe::Linux(LinuxProbe {
        cpuinfo: None,
        meminfo: Some("oddline\nMemTotal: 1 kB\n".to_string()),
        hostname: None,
    });
    let facts = collect(&q, &p);
    assert_eq!(names(&facts), vec!["platform", "oddline", "MemTotal"]);
    assert_eq!(facts[1].value, FactValue::Text("".to_string()));
    assert_eq!(facts[2].value, FactValue::Text("1 kB".to_string()));
}

#[test]
fn count_processor_lines() {
    assert_eq!(count_processors("processor: 0\nprocessor: 1\nprocessor: 2\n"), 3);
    assert_eq!(count_processors("model name: x\n"), 0);
    assert_eq!(count_processors(""), 0);
}

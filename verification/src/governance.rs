//! Executable architectural governance: which workspace crate may depend on which, the
//! stale vocabulary active prose must not reintroduce, and the ambient-clock reads the core
//! contract must not make. Reading files and running the dependency checker are the
//! runtime's; what is checked, and how a text is judged, is here.
use crate::text::{
    chars_of, contains_text, line_spans, span_contains, span_equals, span_texts, spans_within,
    starts_with, strip_prefix, text_lines, trim_span, trimmed,
};
use vstd::prelude::*;

verus! {

/// Why the core contract is isolated.
pub const CONTRACT_REASON: &'static str = "pacta-contract is the isolated core contract. It may depend only on serde and uuid, and never on another workspace crate or runtime framework.";

/// Why the executor crate is restricted.
pub const EXECUTOR_REASON: &'static str = "pacta-executor owns the Pacta-native execution vocabulary. It may depend only on pacta-contract, never on drivers, adapters, backends, or external frameworks.";

/// Why the driver crate is restricted.
pub const DRIVER_REASON: &'static str = "pacta-driver is mechanical runtime glue. It may depend only on pacta-contract and pacta-executor, never on adapters, backends, or external frameworks.";

/// Why the governance gate is independent.
pub const GOVERNANCE_REASON: &'static str = "the governance gate must stay independent of the graph it judges: depend only on tianheng, never on a workspace crate.";

/// Why the kernel exposes no async function.
pub const KERNEL_ASYNC_REASON: &'static str = "the sans-I/O lifecycle kernel must stay runtime-agnostic: its public API must never expose an async fn, so no runtime shape leaks into the contract.";

/// Why the memory backend is restricted.
pub const MEMORY_REASON: &'static str = "pacta-memory is a registry backend outside the core. It may depend only on pacta-contract and uuid, never on drivers, executors, or other backends.";

/// Why the conformance suite is restricted.
pub const CONFORMANCE_REASON: &'static str = "pacta-conformance is a backend-agnostic test suite. It may depend only on pacta-contract and uuid, never on a specific backend.";

/// Why active prose is scanned.
pub const PROSE_REASON: &'static str = "active prose must not reintroduce stale architecture-defining vocabulary";

/// Why the core source is scanned for clock reads.
pub const AMBIENT_TIME_REASON: &'static str = "the core contract must read no ambient clock; time is injected at the Registry seam";

/// The core source tree the ambient-time scan guards, relative to the workspace root.
pub const CORE_SOURCE_DIR: &'static str = "crates/pacta-contract/src";

/// The prose document whose legacy-mapping section may name retired vocabulary.
pub const DOMAIN_LANGUAGE_DOC: &'static str = "docs/domain-language.md";

/// The heading that opens the legacy-mapping section.
pub const LEGACY_MAPPING_HEADING: &'static str = "## Legacy Mapping";

/// A crate and the only dependencies it may have.
pub struct CrateRule {
    /// The governed package.
    pub package: &'static str,
    /// The dependencies it may have.
    pub allowed: Vec<&'static str>,
    /// Why.
    pub reason: &'static str,
}

/// A module whose public API must not expose an `async fn`.
pub struct AsyncExposureRule {
    /// The package the module lives in.
    pub package: &'static str,
    /// The module path.
    pub module: &'static str,
    /// Why.
    pub reason: &'static str,
}

/// The workspace's architectural constitution.
pub struct Constitution {
    /// The workspace name.
    pub name: &'static str,
    /// The dependency boundaries, one per crate.
    pub crate_rules: Vec<CrateRule>,
    /// The async-exposure boundaries.
    pub async_rules: Vec<AsyncExposureRule>,
}

/// A retired phrase and why it must not come back.
#[derive(Debug, Clone, Copy, PartialEq, Eq)]
pub struct StalePhrase {
    /// The phrase.
    pub phrase: &'static str,
    /// Why it is stale.
    pub reason: &'static str,
}

/// A stale phrase found in a prose file.
#[derive(Debug, PartialEq, Eq)]
pub struct ProseViolation {
    /// The file.
    pub path: String,
    /// The line, counted from 1.
    pub line: usize,
    /// The phrase found.
    pub phrase: &'static str,
    /// Why it is stale.
    pub reason: &'static str,
}

/// A clock read found in a core source file.
#[derive(Debug, PartialEq, Eq)]
pub struct SourceViolation {
    /// The file.
    pub path: String,
    /// The line, counted from 1.
    pub line: usize,
    /// The constructor found.
    pub marker: &'static str,
}

/// The package, allowed dependencies, and reason of each crate boundary, in order.
pub open spec fn crate_boundaries() -> Seq<(&'static str, Seq<&'static str>, &'static str)> {
    seq![
        ("pacta-contract", seq!["serde", "uuid"], CONTRACT_REASON),
        ("pacta-executor", seq!["pacta-contract"], EXECUTOR_REASON),
        ("pacta-driver", seq!["pacta-contract", "pacta-executor"], DRIVER_REASON),
        ("pacta-governance", seq!["tianheng"], GOVERNANCE_REASON),
        ("pacta-memory", seq!["pacta-contract", "uuid"], MEMORY_REASON),
        ("pacta-conformance", seq!["pacta-contract", "uuid"], CONFORMANCE_REASON),
    ]
}

/// The crate boundaries of `c`, as values.
pub open spec fn crate_rules_of(c: Constitution) -> Seq<(&'static str, Seq<&'static str>, &'static str)> {
    c.crate_rules@.map_values(|r: CrateRule| (r.package, r.allowed@, r.reason))
}

/// The async-exposure boundaries of `c`, as values.
pub open spec fn async_rules_of(c: Constitution) -> Seq<(&'static str, &'static str, &'static str)> {
    c.async_rules@.map_values(|r: AsyncExposureRule| (r.package, r.module, r.reason))
}

fn crate_rule(package: &'static str, allowed: Vec<&'static str>, reason: &'static str) -> (r: CrateRule)
    ensures
        r.package == package,
        r.allowed@ == allowed@,
        r.reason == reason,
{
    CrateRule { package, allowed, reason }
}

/// The pacta constitution: every workspace crate's dependency boundary, and the kernel's
/// async-exposure boundary.
pub fn constitution() -> (c: Constitution)
    ensures
        c.name == "pacta",
        crate_rules_of(c) == crate_boundaries(),
        async_rules_of(c) == seq![("pacta-contract", "crate::kernel", KERNEL_ASYNC_REASON)],
{
    let mut crate_rules: Vec<CrateRule> = Vec::new();
    crate_rules.push(crate_rule("pacta-contract", vec!["serde", "uuid"], CONTRACT_REASON));
    crate_rules.push(crate_rule("pacta-executor", vec!["pacta-contract"], EXECUTOR_REASON));
    crate_rules.push(
        crate_rule("pacta-driver", vec!["pacta-contract", "pacta-executor"], DRIVER_REASON),
    );
    crate_rules.push(crate_rule("pacta-governance", vec!["tianheng"], GOVERNANCE_REASON));
    crate_rules.push(crate_rule("pacta-memory", vec!["pacta-contract", "uuid"], MEMORY_REASON));
    crate_rules.push(
        crate_rule("pacta-conformance", vec!["pacta-contract", "uuid"], CONFORMANCE_REASON),
    );
    let mut async_rules: Vec<AsyncExposureRule> = Vec::new();
    async_rules.push(
        AsyncExposureRule {
            package: "pacta-contract",
            module: "crate::kernel",
            reason: KERNEL_ASYNC_REASON,
        },
    );
    let c = Constitution { name: "pacta", crate_rules, async_rules };
    assert(crate_rules_of(c) =~~= crate_boundaries());
    assert(async_rules_of(c) =~= seq![("pacta-contract", "crate::kernel", KERNEL_ASYNC_REASON)]);
    c
}

/// The retired phrases, in the order they are checked.
pub open spec fn stale_phrase_table() -> Seq<StalePhrase> {
    seq![
        StalePhrase {
            phrase: "Tower-native",
            reason: "Pacta core is Pacta-native; framework vocabulary is adapter scope.",
        },
        StalePhrase {
            phrase: "Tower-first",
            reason: "Pacta's product identity must not be framework-first.",
        },
        StalePhrase {
            phrase: "middleware ecosystem",
            reason: "Pacta grows through governed Pacta-native patterns, not ecosystem drift.",
        },
        StalePhrase {
            phrase: "Zero-Dependency",
            reason: "dependency rules live in executable Tianheng boundaries, not slogans.",
        },
        StalePhrase {
            phrase: "Store is Lifecycle",
            reason: "the current public lifecycle role is Registry.",
        },
        StalePhrase {
            phrase: "Store trait",
            reason: "the current public lifecycle contract is Registry.",
        },
        StalePhrase {
            phrase: "`Store` manages",
            reason: "the current public lifecycle role is Registry.",
        },
        StalePhrase {
            phrase: "`reserve`",
            reason: "the current lifecycle acquisition term is claim.",
        },
        StalePhrase {
            phrase: "`ack`",
            reason: "the current successful settlement term is fulfill.",
        },
        StalePhrase {
            phrase: "`nack`",
            reason: "the current failed settlement term is breach.",
        },
    ]
}

/// The retired phrases, in the order they are checked.
pub fn stale_phrases() -> (r: Vec<StalePhrase>)
    ensures
        r@ == stale_phrase_table(),
{
    let r = vec![
        StalePhrase {
            phrase: "Tower-native",
            reason: "Pacta core is Pacta-native; framework vocabulary is adapter scope.",
        },
        StalePhrase {
            phrase: "Tower-first",
            reason: "Pacta's product identity must not be framework-first.",
        },
        StalePhrase {
            phrase: "middleware ecosystem",
            reason: "Pacta grows through governed Pacta-native patterns, not ecosystem drift.",
        },
        StalePhrase {
            phrase: "Zero-Dependency",
            reason: "dependency rules live in executable Tianheng boundaries, not slogans.",
        },
        StalePhrase {
            phrase: "Store is Lifecycle",
            reason: "the current public lifecycle role is Registry.",
        },
        StalePhrase {
            phrase: "Store trait",
            reason: "the current public lifecycle contract is Registry.",
        },
        StalePhrase {
            phrase: "`Store` manages",
            reason: "the current public lifecycle role is Registry.",
        },
        StalePhrase {
            phrase: "`reserve`",
            reason: "the current lifecycle acquisition term is claim.",
        },
        StalePhrase { phrase: "`ack`", reason: "the current successful settlement term is fulfill." },
        StalePhrase { phrase: "`nack`", reason: "the current failed settlement term is breach." },
    ];
    assert(r@ =~= stale_phrase_table());
    r
}

/// The current-time constructors the core contract must not call: std's clocks, and the
/// `uuid` crate's time-based constructors.
pub open spec fn ambient_time_marker_table() -> Seq<&'static str> {
    seq!["SystemTime::now", "Instant::now", "Uuid::now_v7", "Uuid::now_v1"]
}

/// The current-time constructors the core contract must not call.
pub fn ambient_time_markers() -> (r: Vec<&'static str>)
    ensures
        r@ == ambient_time_marker_table(),
{
    let r = vec!["SystemTime::now", "Instant::now", "Uuid::now_v7", "Uuid::now_v1"];
    assert(r@ =~= ambient_time_marker_table());
    r
}

/// The hits of `patterns[..upto]` in one line numbered `number`: (line number, pattern index)
/// for each pattern the line contains, in pattern order.
pub open spec fn line_hits(line: Seq<char>, number: int, patterns: Seq<Seq<char>>, upto: int) -> Seq<
    (int, int),
>
    decreases upto,
{
    if upto <= 0 {
        seq![]
    } else {
        let rest = line_hits(line, number, patterns, upto - 1);
        if contains_text(line, patterns[upto - 1]) {
            rest.push((number, upto - 1))
        } else {
            rest
        }
    }
}

/// The hits of every pattern in `lines[..upto]`, line by line, lines numbered from 1.
pub open spec fn text_hits(lines: Seq<Seq<char>>, patterns: Seq<Seq<char>>, upto: int) -> Seq<
    (int, int),
>
    decreases upto,
{
    if upto <= 0 {
        seq![]
    } else {
        text_hits(lines, patterns, upto - 1) + line_hits(
            lines[upto - 1],
            upto,
            patterns,
            patterns.len() as int,
        )
    }
}

/// The index of the first line from `from` that opens the legacy-mapping section, or the
/// number of lines when none does.
pub open spec fn legacy_heading_from(lines: Seq<Seq<char>>, from: int) -> int
    decreases lines.len() - from,
{
    if from < 0 || from >= lines.len() {
        lines.len() as int
    } else if trimmed(lines[from]) == LEGACY_MAPPING_HEADING@ {
        from
    } else {
        legacy_heading_from(lines, from + 1)
    }
}

/// The legacy-mapping heading search ends at or after where it starts, within the lines.
proof fn lemma_legacy_heading_bounds(lines: Seq<Seq<char>>, from: int)
    requires
        0 <= from <= lines.len(),
    ensures
        from <= legacy_heading_from(lines, from) <= lines.len(),
    decreases lines.len() - from,
{
    if from < lines.len() {
        lemma_legacy_heading_bounds(lines, from + 1);
    }
}

/// How many leading lines of `path` are governed: in the domain-language document, the lines
/// before its legacy-mapping heading; elsewhere, every line.
pub open spec fn governed_lines(path: Seq<char>, lines: Seq<Seq<char>>) -> int {
    if path == DOMAIN_LANGUAGE_DOC@ {
        legacy_heading_from(lines, 0)
    } else {
        lines.len() as int
    }
}

/// The source violations of `content` at `path`, as values.
pub open spec fn source_violations_of(v: Seq<SourceViolation>) -> Seq<(Seq<char>, int, &'static str)> {
    v.map_values(|x: SourceViolation| (x.path@, x.line as int, x.marker))
}

/// The prose violations, as values.
pub open spec fn prose_violations_of(v: Seq<ProseViolation>) -> Seq<
    (Seq<char>, int, &'static str, &'static str),
> {
    v.map_values(|x: ProseViolation| (x.path@, x.line as int, x.phrase, x.reason))
}

/// The texts of the ambient-time markers.
pub open spec fn marker_texts() -> Seq<Seq<char>> {
    ambient_time_marker_table().map_values(|m: &'static str| m@)
}

/// The texts of the stale phrases.
pub open spec fn phrase_texts() -> Seq<Seq<char>> {
    stale_phrase_table().map_values(|p: StalePhrase| p.phrase@)
}

/// One reported clock read: the path, the line, and the marker.
pub open spec fn source_entry(path: Seq<char>, hit: (int, int)) -> (Seq<char>, int, &'static str) {
    (path, hit.0, ambient_time_marker_table()[hit.1])
}

/// One reported stale phrase: the path, the line, the phrase, and its reason.
pub open spec fn prose_entry(path: Seq<char>, hit: (int, int)) -> (
    Seq<char>,
    int,
    &'static str,
    &'static str,
) {
    (path, hit.0, stale_phrase_table()[hit.1].phrase, stale_phrase_table()[hit.1].reason)
}

/// What a source scan reports: for each line of `content` (from 1) and each marker it contains,
/// in marker order, the path, the line, and the marker.
pub open spec fn source_report(path: Seq<char>, content: Seq<char>) -> Seq<
    (Seq<char>, int, &'static str),
> {
    let lines = text_lines(content);
    text_hits(lines, marker_texts(), lines.len() as int).map_values(
        |h: (int, int)| source_entry(path, h),
    )
}

/// What a prose scan reports: for each governed line of `content` (from 1) and each stale
/// phrase it contains, in table order, the path, the line, the phrase, and its reason.
pub open spec fn prose_report(path: Seq<char>, content: Seq<char>) -> Seq<
    (Seq<char>, int, &'static str, &'static str),
> {
    let lines = text_lines(content);
    text_hits(lines, phrase_texts(), governed_lines(path, lines)).map_values(
        |h: (int, int)| prose_entry(path, h),
    )
}

/// Whether a `check` subcommand is among the arguments after the program name.
pub fn should_check_prose(args: &[String]) -> (b: bool)
    ensures
        b == exists|i: int| 1 <= i < args@.len() && #[trigger] args@[i]@ == "check"@,
{
    let mut i: usize = 1;
    while i < args.len()
        invariant
            1 <= i,
            forall|j: int| 1 <= j < i && j < args@.len() ==> #[trigger] args@[j]@ != "check"@,
        decreases args@.len() - i,
    {
        if <str as PartialEq>::eq(args[i].as_str(), "check") {
            return true;
        }
        i = i + 1;
    }
    false
}

/// Report every ambient-clock constructor `content` (the source file at `path`) calls, line by
/// line.
pub fn check_source_content(path: &str, content: &str) -> (r: Vec<SourceViolation>)
    ensures
        source_violations_of(r@) == source_report(path@, content@),
{
    let v = chars_of(content);
    let spans = line_spans(&v);
    let markers = ambient_time_markers();
    let ghost lines = text_lines(content@);
    let ghost pats = marker_texts();
    let mut out: Vec<SourceViolation> = Vec::new();
    let n = spans.len();
    let mut k: usize = 0;
    while k < n
        invariant
            n == spans@.len(),
            v@ == content@,
            lines == text_lines(v@),
            spans_within(v@, spans@),
            span_texts(v@, spans@) == lines,
            markers@ == ambient_time_marker_table(),
            pats == marker_texts(),
            k <= spans@.len(),
            source_violations_of(out@) == text_hits(lines, pats, k as int).map_values(
                |h: (int, int)| source_entry(path@, h),
            ),
        decreases spans@.len() - k,
    {
        let (a, b) = spans[k];
        assert(lines[k as int] == v@.subrange(a as int, b as int));
        let mut m: usize = 0;
        while m < markers.len()
            invariant
                v@ == content@,
                lines == text_lines(v@),
                lines[k as int] == v@.subrange(a as int, b as int),
                a <= b <= v@.len(),
                markers@ == ambient_time_marker_table(),
                pats == marker_texts(),
                k < n,
                n == spans@.len(),
                span_texts(v@, spans@) == lines,
                m <= markers@.len(),
                source_violations_of(out@) == (text_hits(lines, pats, k as int) + line_hits(
                    lines[k as int],
                    k + 1,
                    pats,
                    m as int,
                )).map_values(|h: (int, int)| source_entry(path@, h)),
            decreases markers@.len() - m,
        {
            let needle = chars_of(markers[m]);
            let ghost prior = out@;
            if span_contains(&v, a, b, &needle) {
                out.push(SourceViolation { path: path.to_owned(), line: k + 1, marker: markers[m] });
                assert(source_violations_of(out@) =~= source_violations_of(prior).push(
                    source_entry(path@, (k + 1, m as int)),
                ));
                assert((text_hits(lines, pats, k as int) + line_hits(
                    lines[k as int],
                    k + 1,
                    pats,
                    m + 1,
                )).map_values(|h: (int, int)| source_entry(path@, h)) =~= (text_hits(
                    lines,
                    pats,
                    k as int,
                ) + line_hits(lines[k as int], k + 1, pats, m as int)).map_values(
                    |h: (int, int)| source_entry(path@, h),
                ).push(source_entry(path@, (k + 1, m as int))));
            } else {
                assert(line_hits(lines[k as int], k + 1, pats, m + 1) == line_hits(
                    lines[k as int],
                    k + 1,
                    pats,
                    m as int,
                ));
            }
            m = m + 1;
        }
        assert(text_hits(lines, pats, k + 1) == text_hits(lines, pats, k as int) + line_hits(
            lines[k as int],
            k + 1,
            pats,
            pats.len() as int,
        ));
        k = k + 1;
    }
    out
}

/// Report every stale phrase in `content` (the prose file at `path`), line by line; in the
/// domain-language document, the legacy-mapping section (from its heading on) may name retired
/// vocabulary and is not checked.
pub fn check_prose_content(path: &str, content: &str) -> (r: Vec<ProseViolation>)
    ensures
        prose_violations_of(r@) == prose_report(path@, content@),
{
    let v = chars_of(content);
    let spans = line_spans(&v);
    let rules = stale_phrases();
    let heading = chars_of(LEGACY_MAPPING_HEADING);
    let in_domain_doc = <str as PartialEq>::eq(path, DOMAIN_LANGUAGE_DOC);
    let ghost lines = text_lines(content@);
    let ghost pats = phrase_texts();
    let ghost g = governed_lines(path@, lines);
    let mut out: Vec<ProseViolation> = Vec::new();
    let mut legacy_mapping = false;
    let n = spans.len();
    proof {
        lemma_legacy_heading_bounds(lines, 0);
    }
    let mut k: usize = 0;
    while k < n
        invariant
            n == spans@.len(),
            v@ == content@,
            lines == text_lines(v@),
            spans_within(v@, spans@),
            span_texts(v@, spans@) == lines,
            rules@ == stale_phrase_table(),
            heading@ == LEGACY_MAPPING_HEADING@,
            in_domain_doc == (path@ == DOMAIN_LANGUAGE_DOC@),
            pats == phrase_texts(),
            g == governed_lines(path@, lines),
            0 <= g <= lines.len(),
            lines.len() == n,
            k <= n,
            legacy_mapping <==> g < k,
            in_domain_doc && !legacy_mapping ==> legacy_heading_from(lines, 0)
                == legacy_heading_from(lines, k as int),
            prose_violations_of(out@) == text_hits(
                lines,
                pats,
                if legacy_mapping {
                    g
                } else {
                    k as int
                },
            ).map_values(|h: (int, int)| prose_entry(path@, h)),
        decreases n - k,
    {
        let (a, b) = spans[k];
        assert(lines[k as int] == v@.subrange(a as int, b as int));
        proof {
            lemma_legacy_heading_bounds(lines, k as int);
        }
        if in_domain_doc && !legacy_mapping {
            let (ts, te) = trim_span(&v, a, b);
            if span_equals(&v, ts, te, &heading) {
                legacy_mapping = true;
            } else {
                assert(legacy_heading_from(lines, k as int) == legacy_heading_from(
                    lines,
                    k + 1,
                ));
                proof {
                    lemma_legacy_heading_bounds(lines, k + 1);
                }
            }
        }
        if !legacy_mapping {
            let mut m: usize = 0;
            while m < rules.len()
                invariant
                    v@ == content@,
                    lines == text_lines(v@),
                    lines[k as int] == v@.subrange(a as int, b as int),
                    a <= b <= v@.len(),
                    rules@ == stale_phrase_table(),
                    pats == phrase_texts(),
                    k < n,
                    m <= rules@.len(),
                    prose_violations_of(out@) == (text_hits(lines, pats, k as int) + line_hits(
                        lines[k as int],
                        k + 1,
                        pats,
                        m as int,
                    )).map_values(|h: (int, int)| prose_entry(path@, h)),
                decreases rules@.len() - m,
            {
                let rule = rules[m];
                let needle = chars_of(rule.phrase);
                let ghost prior = out@;
                if span_contains(&v, a, b, &needle) {
                    out.push(
                        ProseViolation {
                            path: path.to_owned(),
                            line: k + 1,
                            phrase: rule.phrase,
                            reason: rule.reason,
                        },
                    );
                    assert(prose_violations_of(out@) =~= prose_violations_of(prior).push(
                        prose_entry(path@, (k + 1, m as int)),
                    ));
                    assert((text_hits(lines, pats, k as int) + line_hits(
                        lines[k as int],
                        k + 1,
                        pats,
                        m + 1,
                    )).map_values(|h: (int, int)| prose_entry(path@, h)) =~= (text_hits(
                        lines,
                        pats,
                        k as int,
                    ) + line_hits(lines[k as int], k + 1, pats, m as int)).map_values(
                        |h: (int, int)| prose_entry(path@, h),
                    ).push(prose_entry(path@, (k + 1, m as int))));
                } else {
                    assert(line_hits(lines[k as int], k + 1, pats, m + 1) == line_hits(
                        lines[k as int],
                        k + 1,
                        pats,
                        m as int,
                    ));
                }
                m = m + 1;
            }
            assert(text_hits(lines, pats, k + 1) == text_hits(lines, pats, k as int) + line_hits(
                lines[k as int],
                k + 1,
                pats,
                pats.len() as int,
            ));
        }
        k = k + 1;
    }
    out
}

/// The manifest path named by the arguments from position `i` on: the argument after the first
/// `--manifest-path` that has one, or the rest of the first `--manifest-path=` argument,
/// whichever comes first; `Cargo.toml` when neither does.
pub open spec fn manifest_path_from(args: Seq<Seq<char>>, i: int) -> Seq<char>
    decreases args.len() - i,
{
    if i < 0 || i >= args.len() {
        "Cargo.toml"@
    } else if args[i] == "--manifest-path"@ && i + 1 < args.len() {
        args[i + 1]
    } else if starts_with(args[i], "--manifest-path="@) {
        args[i].skip("--manifest-path="@.len() as int)
    } else {
        manifest_path_from(args, i + 1)
    }
}

/// The manifest path the arguments name (see [`manifest_path_from`]).
pub fn manifest_path_from_args(args: &[String]) -> (p: String)
    ensures
        p@ == manifest_path_from(args@.map_values(|a: String| a@), 0),
{
    let ghost names = args@.map_values(|a: String| a@);
    let mut i: usize = 0;
    while i < args.len()
        invariant
            i <= args@.len(),
            names == args@.map_values(|a: String| a@),
            manifest_path_from(names, 0) == manifest_path_from(names, i as int),
        decreases args@.len() - i,
    {
        if <str as PartialEq>::eq(args[i].as_str(), "--manifest-path") && i + 1 < args.len() {
            return args[i + 1].clone();
        }
        match strip_prefix(args[i].as_str(), "--manifest-path=") {
            Some(path) => {
                proof {
                    let flag = "--manifest-path="@;
                    assert(args@[i as int]@.subrange(0, flag.len() as int) =~= flag);
                    assert(args@[i as int]@.skip(flag.len() as int) =~= path@);
                }
                return path.to_owned();
            },
            None => {},
        }
        i = i + 1;
    }
    "Cargo.toml".to_owned()
}

/// Every report of a scan, file after file.
pub open spec fn all_reports<T>(reports: Seq<Vec<T>>) -> Seq<T> {
    reports.map_values(|v: Vec<T>| v@).flatten()
}

/// The verdict of a scan from what each file reported: `Ok` when no file reported anything,
/// and otherwise every report, in file order.
pub fn gather_reports<T>(reports: Vec<Vec<T>>) -> (r: Result<(), Vec<T>>)
    ensures
        match r {
            Ok(()) => all_reports(reports@).len() == 0,
            Err(all) => all@ == all_reports(reports@) && all@.len() > 0,
        },
{
    let ghost files = reports@;
    let mut all: Vec<T> = Vec::new();
    for report in it: reports.into_iter()
        invariant
            it.seq() == files,
            all@ == all_reports(files.take(it.index() as int)),
    {
        let mut report = report;
        proof {
            let i = it.index() as int;
            let before = files.take(i).map_values(|v: Vec<T>| v@);
            assert(report == files[i]);
            assert(files.take(i + 1).map_values(|v: Vec<T>| v@) =~= before.push(report@));
            before.lemma_flatten_push(report@);
            assert(all_reports(files.take(i + 1)) == all_reports(files.take(i)) + report@);
        }
        all.append(&mut report);
    }
    assert(files.take(files.len() as int) =~= files);
    if all.len() == 0 {
        Ok(())
    } else {
        Err(all)
    }
}

/// The retired vocabulary the prose check looks for, by literal value and in order, each with
/// the reason it was retired.
pub proof fn law_retired_vocabulary()
    ensures
        stale_phrase_table().len() == 10,
        stale_phrase_table()[0].phrase == "Tower-native",
        stale_phrase_table()[1].phrase == "Tower-first",
        stale_phrase_table()[2].phrase == "middleware ecosystem",
        stale_phrase_table()[3].phrase == "Zero-Dependency",
        stale_phrase_table()[4].phrase == "Store is Lifecycle",
        stale_phrase_table()[5].phrase == "Store trait",
        stale_phrase_table()[6].phrase == "`Store` manages",
        stale_phrase_table()[7].phrase == "`reserve`",
        stale_phrase_table()[8].phrase == "`ack`",
        stale_phrase_table()[9].phrase == "`nack`",
        stale_phrase_table()[0].reason
            == "Pacta core is Pacta-native; framework vocabulary is adapter scope.",
        stale_phrase_table()[1].reason == "Pacta's product identity must not be framework-first.",
        stale_phrase_table()[2].reason
            == "Pacta grows through governed Pacta-native patterns, not ecosystem drift.",
        stale_phrase_table()[3].reason
            == "dependency rules live in executable Tianheng boundaries, not slogans.",
        stale_phrase_table()[4].reason == "the current public lifecycle role is Registry.",
        stale_phrase_table()[5].reason == "the current public lifecycle contract is Registry.",
        stale_phrase_table()[6].reason == "the current public lifecycle role is Registry.",
        stale_phrase_table()[7].reason == "the current lifecycle acquisition term is claim.",
        stale_phrase_table()[8].reason == "the current successful settlement term is fulfill.",
        stale_phrase_table()[9].reason == "the current failed settlement term is breach.",
{
}

/// The clock reads the source check looks for, by literal value and in order.
pub proof fn law_ambient_clock_markers()
    ensures
        ambient_time_marker_table() == seq![
            "SystemTime::now",
            "Instant::now",
            "Uuid::now_v7",
            "Uuid::now_v1",
        ],
{
}

/// A pattern the line contains is among the line's hits, numbered with the line.
proof fn lemma_line_hit(line: Seq<char>, number: int, patterns: Seq<Seq<char>>, upto: int, k: int)
    requires
        0 <= k < upto <= patterns.len(),
        contains_text(line, patterns[k]),
    ensures
        line_hits(line, number, patterns, upto).contains((number, k)),
    decreases upto,
{
    let rest = line_hits(line, number, patterns, upto - 1);
    if k == upto - 1 {
        assert(line_hits(line, number, patterns, upto) == rest.push((number, k)));
        assert(rest.push((number, k))[rest.len() as int] == (number, k));
    } else {
        lemma_line_hit(line, number, patterns, upto - 1, k);
        let i = choose|i: int| 0 <= i < rest.len() && rest[i] == (number, k);
        if contains_text(line, patterns[upto - 1]) {
            assert(rest.push((number, upto - 1))[i] == (number, k));
        }
    }
}

/// A pattern a line contains is among the text's hits, numbered with the line (from 1).
proof fn lemma_text_hit(lines: Seq<Seq<char>>, patterns: Seq<Seq<char>>, upto: int, j: int, k: int)
    requires
        0 <= j < upto <= lines.len(),
        0 <= k < patterns.len(),
        contains_text(lines[j], patterns[k]),
    ensures
        text_hits(lines, patterns, upto).contains((j + 1, k)),
    decreases upto,
{
    let before = text_hits(lines, patterns, upto - 1);
    let here = line_hits(lines[upto - 1], upto, patterns, patterns.len() as int);
    assert(text_hits(lines, patterns, upto) == before + here);
    if j == upto - 1 {
        lemma_line_hit(lines[j], upto, patterns, patterns.len() as int, k);
        let i = choose|i: int| 0 <= i < here.len() && here[i] == (j + 1, k);
        assert((before + here)[before.len() + i] == (j + 1, k));
    } else {
        lemma_text_hit(lines, patterns, upto - 1, j, k);
        let i = choose|i: int| 0 <= i < before.len() && before[i] == (j + 1, k);
        assert((before + here)[i] == (j + 1, k));
    }
}

/// Every retired phrase on a governed line is reported: whenever a line of `content` outside
/// the legacy-mapping section of the domain-language document contains one of the stale
/// phrases, the prose report for `path` holds that line's number (from 1), the phrase, and its
/// reason.
pub proof fn law_stale_phrase_on_a_governed_line_is_reported(path: Seq<char>, content: Seq<char>, j: int, k: int)
    requires
        0 <= j < governed_lines(path, text_lines(content)),
        0 <= k < stale_phrase_table().len(),
        contains_text(text_lines(content)[j], stale_phrase_table()[k].phrase@),
    ensures
        prose_report(path, content).contains(
            (path, j + 1, stale_phrase_table()[k].phrase, stale_phrase_table()[k].reason),
        ),
{
    let lines = text_lines(content);
    lemma_legacy_heading_bounds(lines, 0);
    let g = governed_lines(path, lines);
    assert(phrase_texts()[k] == stale_phrase_table()[k].phrase@);
    lemma_text_hit(lines, phrase_texts(), g, j, k);
    let hits = text_hits(lines, phrase_texts(), g);
    let i = choose|i: int| 0 <= i < hits.len() && hits[i] == (j + 1, k);
    assert(prose_report(path, content)[i] == prose_entry(path, hits[i]));
}

/// Every clock read on a line is reported: whenever a line of `content` contains one of the
/// ambient-time markers, the source report for `path` holds that line's number (from 1) and
/// the marker.
pub proof fn law_clock_read_on_a_line_is_reported(path: Seq<char>, content: Seq<char>, j: int, k: int)
    requires
        0 <= j < text_lines(content).len(),
        0 <= k < ambient_time_marker_table().len(),
        contains_text(text_lines(content)[j], ambient_time_marker_table()[k]@),
    ensures
        source_report(path, content).contains((path, j + 1, ambient_time_marker_table()[k])),
{
    let lines = text_lines(content);
    assert(marker_texts()[k] == ambient_time_marker_table()[k]@);
    lemma_text_hit(lines, marker_texts(), lines.len() as int, j, k);
    let hits = text_hits(lines, marker_texts(), lines.len() as int);
    let i = choose|i: int| 0 <= i < hits.len() && hits[i] == (j + 1, k);
    assert(source_report(path, content)[i] == source_entry(path, hits[i]));
}

} // verus!

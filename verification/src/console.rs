//! Rendering of results as text for the console.

use crate::assertion::{Assertion, ChainView, LogicalOp, StepView};
use crate::reporter::{chain_views, TestSessionResult};
use crate::sentence::{conjugated, is_plural, phrase_text, AssertionSentence};
use crate::text::{
    decimal, decimal_text, has_prefix, has_suffix, lines, lines_of, skip_leading, texts,
    trim_leading,
};
use colored::Colorize;
use vstd::prelude::*;
use vstd::string::*;

verus! {

/// How results are shown.
#[derive(Debug, Clone, Copy, PartialEq, Eq, Structural)]
pub struct Config {
    /// Paint the output.
    pub use_colors: bool,
    /// Mark lines with check marks and crosses, not with plus and minus signs.
    pub use_unicode_symbols: bool,
    /// Show a line for each chain that passed.
    pub show_success_details: bool,
    /// Emit events for reporting.
    pub enhanced_output: bool,
}

impl Config {
    /// The default configuration: painted, with symbols and success lines, without
    /// events.
    pub fn new() -> (config: Self)
        ensures
            config == (Config {
                use_colors: true,
                use_unicode_symbols: true,
                show_success_details: true,
                enhanced_output: false,
            }),
    {
        Config {
            use_colors: true,
            use_unicode_symbols: true,
            show_success_details: true,
            enhanced_output: false,
        }
    }
}

/// Whether `shown` can be what the `colored` crate writes for a painted `text`:
/// the text itself where colours are off for the process, else a form that ends
/// with the sequence that resets the terminal.
pub open spec fn is_shown(shown: Seq<char>, text: Seq<char>) -> bool {
    shown == text || has_suffix(shown, "\x1B[0m"@)
}

/// Calls `colored::Colorize::normal` and writes the result out. A text without
/// colour or style is written as it is, whatever the terminal.
#[verifier::external_body]
fn paint_normal(text: &str) -> (out: String)
    ensures
        out@ == text@,
{
    format!("{}", text.normal())
}

/// Calls `colored::Colorize::green` and writes the result out. Whether the text
/// is painted depends on the environment and the terminal: it is written as it
/// is, or between a style sequence and the reset sequence.
#[verifier::external_body]
fn paint_green(text: &str) -> (out: String)
    ensures
        is_shown(out@, text@),
{
    format!("{}", text.green())
}

/// Calls `colored::Colorize::red` and `bold` and writes the result out: the text
/// as it is, or between a style sequence and the reset sequence, as for green.
#[verifier::external_body]
fn paint_red_bold(text: &str) -> (out: String)
    ensures
        is_shown(out@, text@),
{
    format!("{}", text.red().bold())
}

/// The words that stand for the connector behind a step.
pub open spec fn connector_text(op: Option<LogicalOp>) -> Seq<char> {
    match op {
        Some(LogicalOp::And) => " AND "@,
        Some(LogicalOp::Or) => " OR "@,
        None => " [MISSING OP] "@,
    }
}

/// A step's sentence with its verb conjugated for a subject of the given number.
pub open spec fn step_text(step: StepView, plural: bool) -> Seq<char> {
    phrase_text(conjugated(step.sentence.verb, plural), step.sentence)
}

/// The first `count` steps written one after another, each connector between its
/// two steps.
pub open spec fn chained_text(steps: Seq<StepView>, plural: bool, count: nat) -> Seq<char>
    decreases count,
{
    if count <= 1 {
        step_text(steps[0], plural)
    } else {
        chained_text(steps, plural, (count - 1) as nat) + connector_text(
            steps[count - 2].logical_op,
        ) + step_text(steps[count - 1], plural)
    }
}

/// The one-line message of a chain: its label without leading `&`, then its steps.
pub open spec fn message_text(chain: ChainView, plural: bool) -> Seq<char> {
    if chain.steps.len() == 0 {
        "No assertions made"@
    } else {
        skip_leading(chain.label, '&') + " "@ + chained_text(
            chain.steps,
            plural,
            chain.steps.len(),
        )
    }
}

/// The line that shows one step with its outcome.
pub open spec fn detail_line(step: StepView, plural: bool) -> Seq<char> {
    "  "@ + (if step.passed {
        "✓"@
    } else {
        "✗"@
    }) + " "@ + step_text(step, plural) + "\n"@
}

/// The lines that show the steps of a chain with their outcomes.
pub open spec fn details_text(steps: Seq<StepView>, plural: bool) -> Seq<char>
    decreases steps.len(),
{
    if steps.len() == 0 {
        Seq::empty()
    } else {
        details_text(steps.drop_last(), plural) + detail_line(steps.last(), plural)
    }
}

/// The mark in front of a success.
pub open spec fn success_mark(config: Config) -> Seq<char> {
    if config.use_unicode_symbols {
        "✓ "@
    } else {
        "+ "@
    }
}

/// The mark in front of a failure.
pub open spec fn failure_mark(config: Config) -> Seq<char> {
    if config.use_unicode_symbols {
        "✗ "@
    } else {
        "- "@
    }
}

/// The line count of a session, as it is written before painting.
pub open spec fn count_text(count: nat, what: Seq<char>) -> Seq<char> {
    decimal(count) + what
}

/// The given lines, indented, each with a line feed.
pub open spec fn indented(lines: Seq<Seq<char>>) -> Seq<char>
    decreases lines.len(),
{
    if lines.len() == 0 {
        Seq::empty()
    } else {
        indented(lines.drop_last()) + "     "@ + lines.last() + "\n"@
    }
}

/// One failure in a summary: its number and header, then its details, indented
/// line by line.
pub open spec fn entry_text(number: nat, header: Seq<char>, details: Seq<char>) -> Seq<char> {
    "  "@ + decimal(number) + ". "@ + header + "\n"@ + indented(lines_of(details))
}

/// The headers and details of a list of rendered failures.
pub open spec fn entry_views(entries: Seq<(String, String)>) -> Seq<(Seq<char>, Seq<char>)> {
    Seq::new(entries.len(), |i: int| (entries[i].0@, entries[i].1@))
}

/// The failures of a summary, numbered from one.
pub open spec fn entries_text(entries: Seq<(Seq<char>, Seq<char>)>) -> Seq<char>
    decreases entries.len(),
{
    if entries.len() == 0 {
        Seq::empty()
    } else {
        entries_text(entries.drop_last()) + entry_text(
            entries.len(),
            entries.last().0,
            entries.last().1,
        )
    }
}

/// A summary put together from its pieces: the two counts as they are shown, and
/// the rendered failures, which are listed if `with_failures` holds.
pub open spec fn summary_text(
    passed: Seq<char>,
    failed: Seq<char>,
    with_failures: bool,
    entries: Seq<(Seq<char>, Seq<char>)>,
) -> Seq<char> {
    "\nTest Results:\n"@ + "  "@ + passed + " / "@ + failed + "\n"@ + (if with_failures {
        "\nFailure Details:\n"@ + entries_text(entries)
    } else {
        Seq::empty()
    })
}

/// The failures of a session as a summary shows them without colours.
pub open spec fn plain_entries(config: Config, failures: Seq<ChainView>) -> Seq<
    (Seq<char>, Seq<char>),
> {
    Seq::new(
        failures.len(),
        |i: int|
            (
                failure_mark(config) + message_text(failures[i], is_plural(failures[i].label)),
                details_text(failures[i].steps, is_plural(failures[i].label)),
            ),
    )
}

/// Whether `message` is the message of `chain` as a renderer with `config` shows
/// it: as it is without colours, else as the `colored` crate writes it.
pub open spec fn is_message_of(config: Config, message: Seq<char>, chain: ChainView) -> bool {
    if config.use_colors {
        is_shown(message, message_text(chain, is_plural(chain.label)))
    } else {
        message == message_text(chain, is_plural(chain.label))
    }
}

/// Whether `header` is the header of the failed `chain`: the mark of a failure,
/// which is never painted, and the message as it is shown.
pub open spec fn is_header_of(config: Config, header: Seq<char>, chain: ChainView) -> bool {
    exists|message: Seq<char>| #[trigger]
        is_message_of(config, message, chain) && header == failure_mark(config) + message
}

/// Whether `entries` are the failures of a session as a summary lists them: for
/// each failure, in order, its header and its details.
pub open spec fn are_entries_of(
    config: Config,
    entries: Seq<(Seq<char>, Seq<char>)>,
    failures: Seq<ChainView>,
) -> bool {
    &&& entries.len() == failures.len()
    &&& forall|i: int|
        0 <= i < entries.len() ==> {
            &&& is_header_of(config, (#[trigger] entries[i]).0, failures[i])
            &&& entries[i].1 == details_text(failures[i].steps, is_plural(failures[i].label))
        }
}

/// Whether `shown` is a count of a session as a summary shows it: as it is
/// without colours or where the count is zero, else as the `colored` crate writes
/// it.
pub open spec fn is_count_of(config: Config, shown: Seq<char>, count: nat, what: Seq<char>) -> bool {
    if config.use_colors && count > 0 {
        is_shown(shown, count_text(count, what))
    } else {
        shown == count_text(count, what)
    }
}

/// Whether `summary` is the summary of a session with these counts and failures:
/// the two counts as they are shown, and the failures, which are listed if any
/// failure was counted.
pub open spec fn is_summary_of(
    config: Config,
    summary: Seq<char>,
    passed_count: nat,
    failed_count: nat,
    failures: Seq<ChainView>,
) -> bool {
    exists|passed: Seq<char>, failed: Seq<char>, entries: Seq<(Seq<char>, Seq<char>)>|
        {
            &&& #[trigger] is_count_of(config, passed, passed_count, " passed"@)
            &&& #[trigger] is_count_of(config, failed, failed_count, " failed"@)
            &&& #[trigger] are_entries_of(config, entries, failures)
            &&& summary == summary_text(passed, failed, failed_count > 0, entries)
        }
}

/// Writes each of `lines` behind an indentation and before a line feed.
fn indent(lines: &Vec<String>) -> (out: String)
    ensures
        out@ == indented(texts(lines@)),
{
    let mut out = String::new();
    let mut i: usize = 0;
    assert(texts(lines@).take(0) =~= Seq::<Seq<char>>::empty());
    while i < lines.len()
        invariant
            i <= lines.len(),
            out@ == indented(texts(lines@).take(i as int)),
        decreases lines.len() - i,
    {
        proof {
            let next = texts(lines@).take(i + 1);
            assert(next.drop_last() =~= texts(lines@).take(i as int));
            assert(next.last() == lines@[i as int]@);
        }
        out.append("     ");
        out.append(lines[i].as_str());
        out.append("\n");
        i += 1;
    }
    assert(texts(lines@).take(lines.len() as int) =~= texts(lines@));
    out
}

/// Puts a summary together from its pieces.
pub fn compose_summary(
    passed: &str,
    failed: &str,
    with_failures: bool,
    entries: &Vec<(String, String)>,
) -> (out: String)
    ensures
        out@ == summary_text(passed@, failed@, with_failures, entry_views(entries@)),
{
    let mut out = String::from_str("\nTest Results:\n");
    out.append("  ");
    out.append(passed);
    out.append(" / ");
    out.append(failed);
    out.append("\n");
    if !with_failures {
        assert(out@ + Seq::<char>::empty() =~= out@);
        return out;
    }
    out.append("\nFailure Details:\n");
    let ghost head = out@;
    let ghost views = entry_views(entries@);
    let mut i: usize = 0;
    assert(views.take(0) =~= Seq::<(Seq<char>, Seq<char>)>::empty());
    assert(head + Seq::<char>::empty() =~= head);
    while i < entries.len()
        invariant
            i <= entries.len(),
            views == entry_views(entries@),
            out@ == head + entries_text(views.take(i as int)),
        decreases entries.len() - i,
    {
        let ghost before = out@;
        let detail_lines = lines(entries[i].1.as_str());
        out.append("  ");
        out.append(decimal_text((i + 1) as u128).as_str());
        out.append(". ");
        out.append(entries[i].0.as_str());
        out.append("\n");
        out.append(indent(&detail_lines).as_str());
        proof {
            let next = views.take(i + 1);
            assert(next.drop_last() =~= views.take(i as int));
            assert(next.last() == views[i as int]);
            assert(out@ =~= before + entry_text((i + 1) as nat, views[i as int].0, views[i as int].1));
            assert(out@ =~= head + (entries_text(views.take(i as int)) + entry_text(
                (i + 1) as nat,
                views[i as int].0,
                views[i as int].1,
            )));
        }
        i += 1;
    }
    assert(views.take(entries.len() as int) =~= views);
    assert(out@ =~= summary_text(passed@, failed@, with_failures, views));
    out
}

/// Renders results as text for the console.
#[derive(Debug)]
pub struct ConsoleRenderer {
    config: Config,
}

impl ConsoleRenderer {
    /// The configuration that the renderer was made with.
    pub closed spec fn config(&self) -> Config {
        self.config
    }

    /// Creates a renderer with the given configuration.
    pub fn new(config: Config) -> (renderer: Self)
        ensures
            renderer.config() == config,
    {
        ConsoleRenderer { config }
    }

    /// Writes a step's sentence with its verb conjugated.
    fn step_phrase(sentence: &AssertionSentence, plural: bool) -> (text: String)
        ensures
            text@ == phrase_text(conjugated(sentence@.verb, plural), sentence@),
    {
        sentence.format_conjugated(plural)
    }

    /// Builds the one-line message of a chain for a subject of the given number.
    pub fn message_for(&self, result: &Assertion<()>, plural: bool) -> (message: String)
        ensures
            message@ == message_text(result@, plural),
    {
        if result.steps.len() == 0 {
            return String::from_str("No assertions made");
        }
        let ghost steps = result@.steps;
        let mut message = trim_leading(result.expr_str, '&');
        message.append(" ");
        assert(steps[0] == result.steps[0]@);
        message.append(Self::step_phrase(&result.steps[0].sentence, plural).as_str());
        let ghost head = skip_leading(result@.label, '&') + " "@;
        let mut i: usize = 1;
        while i < result.steps.len()
            invariant
                1 <= i <= result.steps.len(),
                steps == result@.steps,
                head == skip_leading(result@.label, '&') + " "@,
                message@ == head + chained_text(steps, plural, i as nat),
            decreases result.steps.len() - i,
        {
            let connector = match result.steps[i - 1].logical_op {
                Some(LogicalOp::And) => " AND ",
                Some(LogicalOp::Or) => " OR ",
                None => " [MISSING OP] ",
            };
            assert(steps[i - 1] == result.steps[i - 1]@);
            assert(steps[i as int] == result.steps[i as int]@);
            message.append(connector);
            message.append(Self::step_phrase(&result.steps[i].sentence, plural).as_str());
            assert(message@ =~= head + (chained_text(steps, plural, i as nat) + connector_text(
                steps[i - 1].logical_op,
            ) + step_text(steps[i as int], plural)));
            i += 1;
        }
        message
    }

    /// Builds the one-line message of a chain.
    pub fn build_assertion_message(&self, result: &Assertion<()>) -> (message: String)
        ensures
            message@ == message_text(result@, is_plural(result@.label)),
    {
        let plural = AssertionSentence::is_plural_subject(result.expr_str);
        self.message_for(result, plural)
    }

    /// Builds the lines that show each step of a chain with its outcome, for a
    /// subject of the given number.
    pub fn details_for(&self, result: &Assertion<()>, plural: bool) -> (details: String)
        ensures
            details@ == details_text(result@.steps, plural),
    {
        let ghost steps = result@.steps;
        let mut details = String::new();
        let mut i: usize = 0;
        assert(steps.take(0) =~= Seq::<StepView>::empty());
        while i < result.steps.len()
            invariant
                i <= result.steps.len(),
                steps == result@.steps,
                details@ == details_text(steps.take(i as int), plural),
            decreases result.steps.len() - i,
        {
            let step = &result.steps[i];
            proof {
                let next = steps.take(i + 1);
                assert(next.drop_last() =~= steps.take(i as int));
                assert(next.last() == step@);
            }
            let ghost before = details@;
            details.append("  ");
            details.append(
                if step.passed {
                    "✓"
                } else {
                    "✗"
                },
            );
            details.append(" ");
            details.append(Self::step_phrase(&step.sentence, plural).as_str());
            details.append("\n");
            assert(details@ =~= before + detail_line(step@, plural));
            i += 1;
        }
        assert(steps.take(result.steps.len() as int) =~= steps);
        details
    }

    /// Builds the lines that show each step of a chain with its outcome.
    pub fn build_failure_details(&self, result: &Assertion<()>) -> (details: String)
        ensures
            details@ == details_text(result@.steps, is_plural(result@.label)),
    {
        let plural = AssertionSentence::is_plural_subject(result.expr_str);
        self.details_for(result, plural)
    }

    /// Renders a chain that passed: nothing unless success lines are shown, else
    /// the mark and the message, painted green if colours are used.
    pub fn render_success(&self, result: &Assertion<()>) -> (line: String)
        ensures
            !self.config().show_success_details ==> line@ == Seq::<char>::empty(),
            self.config().show_success_details && !self.config().use_colors ==> line@
                == success_mark(self.config()) + message_text(result@, is_plural(result@.label)),
            self.config().show_success_details && self.config().use_colors ==> exists|
                mark: Seq<char>,
                message: Seq<char>,
            |
                {
                    &&& #[trigger] is_shown(mark, success_mark(self.config()))
                    &&& #[trigger] is_message_of(self.config(), message, result@)
                    &&& line@ == mark + message
                },
    {
        let message = self.build_assertion_message(result);
        if self.config.show_success_details {
            let mark = if self.config.use_unicode_symbols {
                "✓ "
            } else {
                "+ "
            };
            if self.config.use_colors {
                let shown_mark = paint_green(mark);
                let shown_message = paint_green(message.as_str());
                let ghost painted_mark = shown_mark@;
                let line = shown_mark.concat(shown_message.as_str());
                proof {
                    assert(is_shown(painted_mark, success_mark(self.config())));
                    assert(is_message_of(self.config(), shown_message@, result@));
                    assert(line@ == painted_mark + shown_message@);
                }
                line
            } else {
                String::from_str(mark).concat(message.as_str())
            }
        } else {
            String::new()
        }
    }

    /// Renders a chain that failed: the header, which is the mark and the message
    /// (painted red and bold if colours are used), and the details.
    pub fn render_failure(&self, result: &Assertion<()>) -> (rendered: (String, String))
        ensures
            is_header_of(self.config(), rendered.0@, result@),
            has_prefix(rendered.0@, failure_mark(self.config())),
            !self.config().use_colors ==> rendered.0@ == failure_mark(self.config())
                + message_text(result@, is_plural(result@.label)),
            rendered.1@ == details_text(result@.steps, is_plural(result@.label)),
    {
        let message = self.build_assertion_message(result);
        let details = self.build_failure_details(result);
        let mark = if self.config.use_unicode_symbols {
            "✗ "
        } else {
            "- "
        };
        let shown = if self.config.use_colors {
            paint_red_bold(message.as_str())
        } else {
            message
        };
        let header = String::from_str(mark).concat(shown.as_str());
        proof {
            assert(is_message_of(self.config(), shown@, result@));
            assert(header@ == failure_mark(self.config()) + shown@);
            assert(header@.subrange(0, failure_mark(self.config()).len() as int) =~= failure_mark(
                self.config(),
            ));
        }
        (header, details)
    }

    /// Renders the summary of a session: the counts, and the failures with their
    /// details if any failure was counted.
    pub fn render_session_summary(&self, result: &TestSessionResult) -> (summary: String)
        ensures
            is_summary_of(
                self.config(),
                summary@,
                result.passed_count as nat,
                result.failed_count as nat,
                chain_views(result.failures@),
            ),
            !self.config().use_colors ==> summary@ == summary_text(
                count_text(result.passed_count as nat, " passed"@),
                count_text(result.failed_count as nat, " failed"@),
                result.failed_count > 0,
                plain_entries(self.config(), chain_views(result.failures@)),
            ),
    {
        let passed = decimal_text(result.passed_count as u128).concat(" passed");
        let failed = decimal_text(result.failed_count as u128).concat(" failed");
        let mut entries: Vec<(String, String)> = Vec::new();
        let ghost failures = chain_views(result.failures@);
        let mut i: usize = 0;
        while i < result.failures.len()
            invariant
                i <= result.failures.len(),
                failures == chain_views(result.failures@),
                entries@.len() == i,
                forall|k: int|
                    0 <= k < i ==> {
                        &&& is_header_of(
                            self.config(),
                            (#[trigger] entry_views(entries@)[k]).0,
                            failures[k],
                        )
                        &&& entry_views(entries@)[k].1 == details_text(
                            failures[k].steps,
                            is_plural(failures[k].label),
                        )
                    },
                !self.config().use_colors ==> forall|k: int|
                    0 <= k < i ==> #[trigger] entry_views(entries@)[k] == plain_entries(
                        self.config(),
                        failures,
                    )[k],
            decreases result.failures.len() - i,
        {
            let ghost before = entry_views(entries@);
            let rendered = self.render_failure(&result.failures[i]);
            assert(failures[i as int] == result.failures[i as int]@);
            entries.push(rendered);
            assert(entry_views(entries@) =~= before.push((rendered.0@, rendered.1@)));
            i += 1;
        }
        proof {
            if !self.config().use_colors {
                assert(entry_views(entries@) =~= plain_entries(self.config(), failures));
            }
        }
        let passed_shown = if !self.config.use_colors {
            passed
        } else if result.passed_count > 0 {
            paint_green(passed.as_str())
        } else {
            paint_normal(passed.as_str())
        };
        let failed_shown = if !self.config.use_colors {
            failed
        } else if result.failed_count > 0 {
            paint_red_bold(failed.as_str())
        } else {
            paint_normal(failed.as_str())
        };
        let summary = compose_summary(
            passed_shown.as_str(),
            failed_shown.as_str(),
            result.failed_count > 0,
            &entries,
        );
        proof {
            assert(are_entries_of(self.config(), entry_views(entries@), failures));
            assert(is_count_of(
                self.config(),
                passed_shown@,
                result.passed_count as nat,
                " passed"@,
            ));
            assert(is_count_of(
                self.config(),
                failed_shown@,
                result.failed_count as nat,
                " failed"@,
            ));
            assert(summary@ == summary_text(
                passed_shown@,
                failed_shown@,
                result.failed_count > 0,
                entry_views(entries@),
            ));
        }
        summary
    }
}

} // verus!

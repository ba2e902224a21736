//! The test harness: it announces a run, reports each test procedure by
//! name as it runs it, and ends the run with the exit signal of its
//! outcome. A failure anywhere goes through the one failure handler.

use vstd::prelude::*;
use vstd::string::StringSliceAdditionalSpecFns;
use vstd::utf8::encode_utf8;
use crate::port_io::{
    exit_qemu, exit_signal, print_out, ChannelState, DiagnosticChannel, PortWrite, QemuExitCode,
};

verus! {

/// An unrecoverable condition, with the text that describes it.
pub struct Failure {
    pub description: String,
}

/// The decimal digits of `n`, most significant first, as ASCII.
pub open spec fn decimal(n: nat) -> Seq<u8>
    decreases n,
{
    if n < 10 {
        seq![(48 + n) as u8]
    } else {
        decimal(n / 10).push((48 + n % 10) as u8)
    }
}

/// The number that the ASCII digits `digits` stand for in decimal.
pub open spec fn decimal_value(digits: Seq<u8>) -> nat
    decreases digits.len(),
{
    if digits.len() == 0 {
        0
    } else {
        decimal_value(digits.drop_last()) * 10 + (digits.last() - 48) as nat
    }
}

/// The digits of a number are ASCII digits that stand for that number,
/// at least one of them, with no leading zero but for zero itself.
pub proof fn lemma_decimal_reads_back(n: nat)
    ensures
        decimal(n).len() >= 1,
        forall|i: int| 0 <= i < decimal(n).len() ==> 48 <= #[trigger] decimal(n)[i] <= 57,
        decimal_value(decimal(n)) == n,
        n > 0 ==> decimal(n)[0] != 48,
    decreases n,
{
    if n < 10 {
        let digits = decimal(n);
        assert(digits.drop_last() =~= Seq::<u8>::empty());
        assert(decimal_value(digits.drop_last()) == 0);
    } else {
        lemma_decimal_reads_back(n / 10);
        let front = decimal(n / 10);
        let digits = decimal(n);
        assert(digits.drop_last() =~= front);
        assert(digits.last() == (48 + n % 10) as u8);
        assert(digits[0] == front[0]);
    }
}

/// The bytes that clear a terminal and bring its cursor home. The channel
/// passes them on like any others.
pub open spec fn clear_screen() -> Seq<u8> {
    "\x1B[2J\x1B[1;1H".spec_bytes()
}

/// The word for `count` tests: singular for one, plural otherwise.
pub open spec fn tests_word(count: nat) -> Seq<u8> {
    if count == 1 {
        "test".spec_bytes()
    } else {
        "tests".spec_bytes()
    }
}

/// What opens a run of `count` tests: the terminal is cleared, then one
/// line gives the count.
pub open spec fn header(count: nat) -> Seq<u8> {
    clear_screen() + "Running ".spec_bytes() + decimal(count) + " ".spec_bytes() + tests_word(count)
        + "\n".spec_bytes()
}

/// What announces the test called `name`: the name and a marker that the
/// test is in progress, with no line feed.
pub open spec fn start_line(name: Seq<char>) -> Seq<u8> {
    encode_utf8(name) + "...\t".spec_bytes()
}

/// What confirms that the announced test returned normally.
pub open spec fn ok_line() -> Seq<u8> {
    "[ok]\n".spec_bytes()
}

/// What one test leaves on the channel: its announcement, what the test
/// itself printed, and the confirmation if it passed.
pub open spec fn test_lines(name: Seq<char>, printed: Seq<u8>, passed: bool) -> Seq<u8> {
    if passed {
        start_line(name) + printed + ok_line()
    } else {
        start_line(name) + printed
    }
}

/// What the failure handler reports for a failure described by
/// `description`.
pub open spec fn failure_lines(description: Seq<char>) -> Seq<u8> {
    "[failed]\n\n".spec_bytes() + "Error: ".spec_bytes() + encode_utf8(description)
        + "\n\n".spec_bytes()
}

/// Appends the decimal digits of `n` to `digits`.
fn push_decimal(digits: &mut Vec<u8>, n: usize)
    ensures
        final(digits)@ == old(digits)@ + decimal(n as nat),
    decreases n,
{
    if n >= 10 {
        push_decimal(digits, n / 10);
    }
    digits.push(48u8 + (n % 10) as u8);
}

/// Opens a run of `count` tests on the channel.
pub fn announce_run(channel: &mut DiagnosticChannel, count: usize)
    ensures
        final(channel)@ == old(channel)@.write(header(count as nat)),
{
    let ghost before = channel@;
    print_out(channel, "\x1B[2J\x1B[1;1H");
    print_out(channel, "Running ");
    let mut digits: Vec<u8> = Vec::new();
    push_decimal(&mut digits, count);
    channel.write(digits.as_slice());
    print_out(channel, " ");
    if count == 1 {
        print_out(channel, "test");
    } else {
        print_out(channel, "tests");
    }
    print_out(channel, "\n");
    assert(channel@.pending =~= before.write(header(count as nat)).pending);
}

/// Announces the test called `name` on the channel.
pub fn announce_test(channel: &mut DiagnosticChannel, name: &str)
    ensures
        final(channel)@ == old(channel)@.write(start_line(name@)),
{
    let ghost before = channel@;
    print_out(channel, name);
    print_out(channel, "...\t");
    assert(channel@.pending =~= before.write(start_line(name@)).pending);
}

/// Confirms on the channel that the announced test returned normally.
pub fn confirm_test(channel: &mut DiagnosticChannel)
    ensures
        final(channel)@ == old(channel)@.write(ok_line()),
{
    print_out(channel, "[ok]\n");
}

/// The failure handler: reports `failure` on the channel and gives the
/// exit signal of a failed run. It is the one path that every
/// unrecoverable condition takes; the caller performs the signal and then
/// idles for good.
pub fn report_failure(channel: &mut DiagnosticChannel, failure: &Failure) -> (signal: PortWrite)
    ensures
        final(channel)@ == old(channel)@.write(failure_lines(failure.description@)),
        signal == exit_signal(QemuExitCode::Failed),
{
    let ghost before = channel@;
    print_out(channel, "[failed]\n\n");
    print_out(channel, "Error: ");
    print_out(channel, failure.description.as_str());
    print_out(channel, "\n\n");
    assert(channel@.pending =~= before.write(failure_lines(failure.description@)).pending);
    exit_qemu(QemuExitCode::Failed)
}

/// A test that the harness can run.
pub trait Testable {
    /// The name under which the test is reported.
    spec fn name(&self) -> Seq<char>;

    /// Whether the test itself may print `printed` and end in `outcome`.
    spec fn may_return(&self, printed: Seq<u8>, outcome: Result<(), Failure>) -> bool;

    /// Runs the test and reports it on the channel: the announcement
    /// before the test procedure runs, then what the procedure prints, and
    /// the confirmation once it has returned normally. A failure is handed
    /// back, to be reported by the failure handler. What is printed and
    /// handed back is something that the test may print and return.
    fn run(&self, channel: &mut DiagnosticChannel) -> (outcome: Result<(), Failure>)
        ensures
            exists|printed: Seq<u8>| #[trigger]
                self.may_return(printed, outcome) && final(channel)@ == old(channel)@.write(
                    test_lines(self.name(), printed, outcome is Ok),
                ),
    ;
}

/// Whether the test procedure `body` may be called with a new channel.
pub open spec fn may_start<F: Fn(DiagnosticChannel) -> (DiagnosticChannel, Result<(), Failure>)>(
    body: F,
) -> bool {
    forall|given: DiagnosticChannel|
        given@ == ChannelState::fresh() ==> #[trigger] call_requires(body, (given,))
}

/// Whether the test procedure `body`, called with a new channel, may hand
/// it back holding `printed` and end in `outcome`.
pub open spec fn may_print<F: Fn(DiagnosticChannel) -> (DiagnosticChannel, Result<(), Failure>)>(
    body: F,
    printed: Seq<u8>,
    outcome: Result<(), Failure>,
) -> bool {
    exists|given: DiagnosticChannel, left: DiagnosticChannel|
        given@ == ChannelState::fresh() && left@.pending == printed && #[trigger] call_ensures(
            body,
            (given,),
            (left, outcome),
        )
}

/// A test procedure together with the name it is reported under. The
/// procedure is handed a new channel to print its own diagnostics on, and
/// hands it back with the outcome.
pub struct TestCase<F: Fn(DiagnosticChannel) -> (DiagnosticChannel, Result<(), Failure>)> {
    name: String,
    body: F,
}

impl<F: Fn(DiagnosticChannel) -> (DiagnosticChannel, Result<(), Failure>)> TestCase<F> {
    /// The test procedure may be called with a new channel.
    #[verifier::type_invariant]
    pub closed spec fn wf(&self) -> bool {
        may_start(self.body)
    }

    /// The name that the test case was made with.
    pub closed spec fn spec_name(&self) -> Seq<char> {
        self.name@
    }

    /// The test procedure that the test case was made with.
    pub closed spec fn spec_body(&self) -> F {
        self.body
    }

    /// The test procedure `body`, to be reported as `name`.
    pub fn new(name: &str, body: F) -> (case: TestCase<F>)
        requires
            may_start(body),
        ensures
            case.name() == name@,
            case.spec_body() == body,
            forall|printed: Seq<u8>, outcome: Result<(), Failure>| #[trigger]
                case.may_return(printed, outcome) <==> may_print(body, printed, outcome),
    {
        TestCase { name: name.to_owned(), body }
    }
}

impl<F: Fn(DiagnosticChannel) -> (DiagnosticChannel, Result<(), Failure>)> Testable for TestCase<
    F,
> {
    open spec fn name(&self) -> Seq<char> {
        self.spec_name()
    }

    open spec fn may_return(&self, printed: Seq<u8>, outcome: Result<(), Failure>) -> bool {
        may_print(self.spec_body(), printed, outcome)
    }

    fn run(&self, channel: &mut DiagnosticChannel) -> (outcome: Result<(), Failure>) {
        proof {
            use_type_invariant(self);
        }
        let ghost before = channel@;
        announce_test(channel, self.name.as_str());
        let given = DiagnosticChannel::new();
        let ghost given_seen = given;
        let (left, outcome) = (self.body)(given);
        let ghost left_seen = left;
        let mut left = left;
        let printed = left.take_pending();
        channel.write(printed.as_slice());
        if outcome.is_ok() {
            confirm_test(channel);
        }
        proof {
            assert(call_ensures(self.body, (given_seen,), (left_seen, outcome)));
            assert(self.may_return(printed@, outcome));
            assert(channel@.pending =~= before.write(
                test_lines(self.name(), printed@, outcome is Ok),
            ).pending);
        }
        outcome
    }
}

/// The names of `tests`, in their order.
pub open spec fn names(tests: Seq<&dyn Testable>) -> Seq<Seq<char>> {
    Seq::new(tests.len(), |i: int| tests[i].name())
}

/// What the first `count` of the tests called `names` leave on the
/// channel when each of them passes, the test at each place having
/// printed what `printed` holds at that place.
pub open spec fn passed_lines(names: Seq<Seq<char>>, printed: Seq<Seq<u8>>, count: nat) -> Seq<u8>
    decreases count,
{
    if count == 0 {
        Seq::empty()
    } else {
        passed_lines(names, printed, (count - 1) as nat) + test_lines(
            names[count - 1],
            printed[count - 1],
            true,
        )
    }
}

/// What a run of the tests called `names` leaves on the channel when
/// `passed` of them returned normally and the next one, if `failure`
/// describes one, failed: the header, the lines of the tests that passed,
/// and for a failure the lines of the failed test with the failure
/// handler's report. Nothing follows a failure.
pub open spec fn transcript(
    names: Seq<Seq<char>>,
    printed: Seq<Seq<u8>>,
    passed: nat,
    failure: Option<Seq<char>>,
) -> Seq<u8> {
    header(names.len()) + passed_lines(names, printed, passed) + match failure {
        None => Seq::empty(),
        Some(description) => test_lines(names[passed as int], printed[passed as int], false)
            + failure_lines(description),
    }
}

/// How a run ended.
pub struct RunReport {
    /// How many tests returned normally, counted from the first.
    pub passed: usize,
    /// The failure that ended the run, if one did.
    pub failure: Option<Failure>,
    /// The exit signal for the caller to perform.
    pub signal: PortWrite,
    /// What each test that ran printed itself, in the order of the tests.
    pub printed: Ghost<Seq<Seq<u8>>>,
}

impl RunReport {
    /// The description of the failure that ended the run, if one did.
    pub open spec fn failure_text(self) -> Option<Seq<char>> {
        match self.failure {
            None => None,
            Some(failure) => Some(failure.description@),
        }
    }

    /// How many tests ran: those that passed and, if one failed, that one.
    pub open spec fn ran(self) -> nat {
        if self.failure is None {
            self.passed as nat
        } else {
            (self.passed + 1) as nat
        }
    }
}

/// Runs `tests` in their order, reporting on the channel: the header
/// first, then each test as it runs. The first failure ends the run: it
/// goes to the failure handler, and no further test runs. The report
/// carries the exit signal: of success where every test returned
/// normally, of failure otherwise. Each test counted as passed returned
/// normally, and a reported failure is the one that the test after them
/// returned.
pub fn test_runner(tests: &[&dyn Testable], channel: &mut DiagnosticChannel) -> (report: RunReport)
    ensures
        report.passed <= tests@.len(),
        report.failure is None <==> report.passed == tests@.len(),
        report.printed@.len() == report.ran(),
        forall|j: int|
            0 <= j < report.passed ==> (#[trigger] tests@[j]).may_return(
                report.printed@[j],
                Ok(()),
            ),
        report.failure matches Some(failure) ==> tests@[report.passed as int].may_return(
            report.printed@[report.passed as int],
            Err(failure),
        ),
        report.signal == exit_signal(
            if report.failure is None {
                QemuExitCode::Success
            } else {
                QemuExitCode::Failed
            },
        ),
        final(channel)@ == old(channel)@.write(
            transcript(
                names(tests@),
                report.printed@,
                report.passed as nat,
                report.failure_text(),
            ),
        ),
{
    let ghost before = channel@;
    let ghost names = names(tests@);
    let ghost mut printed: Seq<Seq<u8>> = Seq::empty();
    announce_run(channel, tests.len());
    let mut i: usize = 0;
    proof {
        lemma_write_twice(before, header(names.len()), passed_lines(names, printed, 0));
    }
    while i < tests.len()
        invariant
            i <= tests@.len(),
            before == old(channel)@,
            names == self::names(tests@),
            printed.len() == i,
            forall|j: int| 0 <= j < i ==> (#[trigger] tests@[j]).may_return(printed[j], Ok(())),
            channel@ == before.write(header(names.len()) + passed_lines(names, printed, i as nat)),
        decreases tests@.len() - i,
    {
        let ghost so_far = header(names.len()) + passed_lines(names, printed, i as nat);
        let ghost earlier = printed;
        let outcome = tests[i].run(channel);
        proof {
            let own = choose|own: Seq<u8>| #[trigger]
                tests@[i as int].may_return(own, outcome) && channel@ == before.write(so_far).write(
                    test_lines(tests@[i as int].name(), own, outcome is Ok),
                );
            printed = earlier.push(own);
            lemma_passed_lines_prefix(names, earlier, printed, i as nat);
            lemma_write_twice(before, so_far, test_lines(names[i as int], own, outcome is Ok));
        }
        match outcome {
            Ok(()) => {
                proof {
                    lemma_transcript_passed(names, printed, i as nat);
                    assert(outcome is Ok);
                    assert(outcome->Ok_0 == ());
                    assert(outcome == Ok::<(), Failure>(()));
                    assert forall|j: int| 0 <= j < i + 1 implies (#[trigger] tests@[j]).may_return(
                        printed[j],
                        Ok(()),
                    ) by {
                        if j < i {
                            assert(printed[j] == earlier[j]);
                        }
                    }
                }
            },
            Err(failure) => {
                let signal = report_failure(channel, &failure);
                proof {
                    let announced = so_far + test_lines(names[i as int], printed[i as int], false);
                    lemma_write_twice(before, announced, failure_lines(failure.description@));
                    lemma_transcript_failed(names, printed, i as nat, failure.description@);
                }
                return RunReport {
                    passed: i,
                    failure: Some(failure),
                    signal,
                    printed: Ghost(printed),
                };
            },
        }
        i += 1;
    }
    proof {
        lemma_transcript_all_passed(names, printed, i as nat);
    }
    RunReport {
        passed: i,
        failure: None,
        signal: exit_qemu(QemuExitCode::Success),
        printed: Ghost(printed),
    }
}

/// Handing over two runs of bytes one after the other is handing over
/// their concatenation.
pub proof fn lemma_write_twice(state: ChannelState, first: Seq<u8>, second: Seq<u8>)
    ensures
        state.write(first).write(second) == state.write(first + second),
{
    assert(state.write(first).write(second).pending =~= state.write(first + second).pending);
}

proof fn lemma_passed_lines_prefix(
    names: Seq<Seq<char>>,
    printed: Seq<Seq<u8>>,
    longer: Seq<Seq<u8>>,
    count: nat,
)
    requires
        count <= printed.len() <= longer.len(),
        forall|j: int| 0 <= j < count ==> printed[j] == longer[j],
    ensures
        passed_lines(names, printed, count) == passed_lines(names, longer, count),
    decreases count,
{
    if count > 0 {
        lemma_passed_lines_prefix(names, printed, longer, (count - 1) as nat);
    }
}

proof fn lemma_transcript_passed(names: Seq<Seq<char>>, printed: Seq<Seq<u8>>, passed: nat)
    requires
        passed < names.len(),
    ensures
        header(names.len()) + passed_lines(names, printed, passed + 1) == (header(names.len())
            + passed_lines(names, printed, passed)) + test_lines(
            names[passed as int],
            printed[passed as int],
            true,
        ),
{
    let head = header(names.len());
    let lines = passed_lines(names, printed, passed);
    let last = test_lines(names[passed as int], printed[passed as int], true);
    assert(passed_lines(names, printed, passed + 1) == lines + last);
    assert(head + (lines + last) =~= (head + lines) + last);
}

proof fn lemma_transcript_failed(
    names: Seq<Seq<char>>,
    printed: Seq<Seq<u8>>,
    passed: nat,
    description: Seq<char>,
)
    requires
        passed < names.len(),
    ensures
        transcript(names, printed, passed, Some(description)) == ((header(names.len())
            + passed_lines(names, printed, passed)) + test_lines(
            names[passed as int],
            printed[passed as int],
            false,
        )) + failure_lines(description),
{
    let head = header(names.len()) + passed_lines(names, printed, passed);
    let announced = test_lines(names[passed as int], printed[passed as int], false);
    let report = failure_lines(description);
    assert(head + (announced + report) =~= (head + announced) + report);
}

proof fn lemma_transcript_all_passed(names: Seq<Seq<char>>, printed: Seq<Seq<u8>>, passed: nat)
    ensures
        transcript(names, printed, passed, None) == header(names.len()) + passed_lines(
            names,
            printed,
            passed,
        ),
{
    let head = header(names.len()) + passed_lines(names, printed, passed);
    assert(head + Seq::<u8>::empty() =~= head);
}

} // verus!

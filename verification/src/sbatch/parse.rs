//! What `sbatch` and `sacct` print, log path templates and array indices.
use crate::entities::array_spec::{ArrayIndex, SlurmArraySpec};
use crate::text;
use crate::text::lemmas;
use crate::text::model;
use crate::text::number;
use vstd::prelude::*;
use vstd::slice::slice_subrange;

verus! {

/// How many digits stand at the front.
pub open spec fn digit_run(s: Seq<char>) -> nat
    decreases s.len(),
{
    if s.len() > 0 && model::is_digit(s[0]) {
        1 + digit_run(s.skip(1))
    } else {
        0
    }
}

/// The job id that one line reports: the digits behind `Submitted batch job `, where
/// there are any and they fit in 64 bits.
pub open spec fn line_jobid(line: Seq<char>) -> Option<u64> {
    let t = model::trim(line);
    let prefix = "Submitted batch job "@;
    if model::stands_at(t, prefix, 0) {
        let rest = t.skip(prefix.len() as int);
        let digits = rest.take(digit_run(rest) as int);
        if digits.len() > 0 && model::digits_value(digits) <= u64::MAX {
            Some(model::digits_value(digits) as u64)
        } else {
            None
        }
    } else {
        None
    }
}

/// The job id of the first line that reports one.
pub open spec fn first_jobid(lines: Seq<Seq<char>>) -> Option<u64>
    decreases lines.len(),
{
    if lines.len() == 0 {
        None
    } else {
        match line_jobid(lines[0]) {
            Some(id) => Some(id),
            None => first_jobid(lines.skip(1)),
        }
    }
}

/// The run of digits is within the text and holds digits alone.
proof fn lemma_digit_run(s: Seq<char>)
    ensures
        digit_run(s) <= s.len(),
        model::all_digits(s.take(digit_run(s) as int)),
    decreases s.len(),
{
    if s.len() > 0 && model::is_digit(s[0]) {
        lemma_digit_run(s.skip(1));
        let n = digit_run(s) as int;
        assert forall|i: int| 0 <= i < n implies model::is_digit(#[trigger] s.take(n)[i]) by {
            if i > 0 {
                assert(s.take(n)[i] == s.skip(1).take(n - 1)[i - 1]);
            }
        }
    }
}

/// Reads the job id from one line.
fn parse_line_jobid(line: &[char]) -> (r: Option<u64>)
    ensures
        r == line_jobid(line@),
{
    let t = text::trim(line);
    let prefix = text::chars_of("Submitted batch job ");
    if !text::stands_at(t, prefix.as_slice(), 0) {
        return None;
    }
    let rest = slice_subrange(t, prefix.len(), t.len());
    assert(rest@ == t@.skip(prefix@.len() as int));
    let mut n: usize = 0;
    assert(rest@.skip(0) == rest@);
    while n < rest.len() && number::is_digit(rest[n])
        invariant
            n <= rest.len(),
            n + digit_run(rest@.skip(n as int)) == digit_run(rest@),
        decreases rest.len() - n,
    {
        assert(rest@.skip(n as int).skip(1) == rest@.skip(n + 1));
        n = n + 1;
    }
    proof {
        lemma_digit_run(rest@);
    }
    let digits = slice_subrange(rest, 0, n);
    assert(digits@ == rest@.take(n as int));
    if n == 0 {
        return None;
    }
    number::digits_value(digits)
}

/// The job id that `sbatch` reports on its stdout, among whatever else it prints
/// there. Of an array form (`12345_0`) it is the id before the underscore.
pub fn parse_submitted_jobid(stdout: &str) -> (r: Option<u64>)
    ensures
        r == first_jobid(model::lines(stdout@)),
{
    let cs = text::chars_of(stdout);
    let lines = text::lines(cs.as_slice());
    let ghost texts = model::views(lines@);
    let mut i: usize = 0;
    assert(texts.skip(0) == texts);
    while i < lines.len()
        invariant
            i <= lines.len(),
            texts == model::views(lines@),
            first_jobid(texts.skip(i as int)) == first_jobid(texts),
            texts == model::lines(stdout@),
        decreases lines.len() - i,
    {
        assert(texts.skip(i as int)[0] == lines@[i as int]@);
        assert(texts.skip(i as int).skip(1) == texts.skip(i + 1));
        match parse_line_jobid(lines[i]) {
            Some(id) => {
                return Some(id);
            },
            None => {},
        }
        i = i + 1;
    }
    None
}

/// A line that reports a job is read as that job, whatever follows its id.
pub proof fn law_reported_job_is_read(jobid: u64, rest: Seq<char>)
    requires
        rest.len() > 0 ==> !model::is_digit(rest[0]),
    ensures
        line_jobid("Submitted batch job "@ + model::decimal(jobid as nat) + rest) == Some(jobid),
{
    let prefix = "Submitted batch job "@;
    reveal_strlit("Submitted batch job ");
    let digits = model::decimal(jobid as nat);
    lemmas::lemma_decimal(jobid as nat);
    let head = prefix + digits;
    let line = head + rest;
    assert(head.last() == digits.last());
    assert(model::is_digit(digits[digits.len() - 1]));
    assert(line[0] == 'S');
    assert(model::trim_start(line) == line);
    lemmas::lemma_trim_end_sum(head, rest);
    let kept = model::trim_end(rest);
    lemma_trim_end_first(rest);
    let t = head + kept;
    assert(t.subrange(0, prefix.len() as int) == prefix);
    assert(t.skip(prefix.len() as int) == digits + kept);
    lemma_digit_run_sum(digits, kept);
    assert((digits + kept).take(digits.len() as int) == digits);
}

/// What white space is taken off at the end of does not start otherwise.
proof fn lemma_trim_end_first(s: Seq<char>)
    ensures
        model::trim_end(s).len() <= s.len(),
        model::trim_end(s).len() > 0 ==> model::trim_end(s)[0] == s[0],
    decreases s.len(),
{
    if s.len() > 0 && model::is_white(s.last()) {
        lemma_trim_end_first(s.drop_last());
    }
}

/// The run of digits ends with the digits.
proof fn lemma_digit_run_sum(digits: Seq<char>, rest: Seq<char>)
    requires
        model::all_digits(digits),
        rest.len() > 0 ==> !model::is_digit(rest[0]),
    ensures
        digit_run(digits + rest) == digits.len(),
    decreases digits.len(),
{
    let s = digits + rest;
    if digits.len() > 0 {
        assert(s[0] == digits[0]);
        let d = digits.skip(1);
        assert forall|i: int| 0 <= i < d.len() implies model::is_digit(#[trigger] d[i]) by {
            assert(d[i] == digits[i + 1]);
        }
        lemma_digit_run_sum(d, rest);
        assert(s.skip(1) == d + rest);
    } else {
        assert(s == rest);
    }
}

/// Lines that report no job do not count.
pub proof fn law_first_report_counts(
    before: Seq<Seq<char>>,
    line: Seq<char>,
    after: Seq<Seq<char>>,
    jobid: u64,
)
    requires
        forall|i: int| 0 <= i < before.len() ==> line_jobid(#[trigger] before[i]) is None,
        line_jobid(line) == Some(jobid),
    ensures
        first_jobid(before + seq![line] + after) == Some(jobid),
    decreases before.len(),
{
    let all = before + seq![line] + after;
    if before.len() == 0 {
        assert(all[0] == line);
    } else {
        let rest = before.skip(1);
        assert(line_jobid(before[0]) is None);
        assert forall|i: int| 0 <= i < rest.len() implies line_jobid(#[trigger] rest[i]) is None by {
            assert(rest[i] == before[i + 1]);
        }
        law_first_report_counts(rest, line, after, jobid);
        assert(all[0] == before[0]);
        assert(all.skip(1) == rest + seq![line] + after);
    }
}

/// The template with its tokens filled in, one kind after the other.
pub open spec fn resolved(
    template: Seq<char>,
    jobid: u64,
    array_task_id: Option<u32>,
    job_name: Option<Seq<char>>,
    user: Seq<char>,
    hostname: Seq<char>,
) -> Seq<char> {
    let id = model::decimal(jobid as nat);
    let s = model::replace(template, seq!['%', 'A'], id);
    let s = model::replace(s, seq!['%', 'j'], id);
    let s = match array_task_id {
        Some(i) => model::replace(s, seq!['%', 'a'], model::decimal(i as nat)),
        None => s,
    };
    let s = match job_name {
        Some(name) => model::replace(s, seq!['%', 'x'], name),
        None => s,
    };
    let s = model::replace(s, seq!['%', 'u'], user);
    model::replace(s, seq!['%', 'N'], hostname)
}

/// The text behind an optional string.
pub open spec fn opt_text(s: Option<&str>) -> Option<Seq<char>> {
    match s {
        Some(s) => Some(s@),
        None => None,
    }
}

/// Puts `to` in place of `%` and the given letter.
fn fill(s: &[char], letter: char, to: &str) -> (r: Vec<char>)
    ensures
        r@ == model::replace(s@, seq!['%', letter], to@),
{
    let mut token: Vec<char> = Vec::new();
    token.push('%');
    token.push(letter);
    assert(token@ == seq!['%', letter]);
    let to = text::chars_of(to);
    text::replace(s, token.as_slice(), to.as_slice())
}

/// Fills in a log path template of SLURM.
///
/// - `%j` and `%A` are the job id.
/// - `%x` is the job name and `%a` the array task id, where there is one; else the
///   token stays.
/// - `%u` is the user and `%N` the host, as the caller knows them.
///
/// All other tokens (`%5j`, `%t`) stay as they are.
pub fn resolve_log_path(
    template: &str,
    jobid: u64,
    array_task_id: Option<u32>,
    job_name: Option<&str>,
    user: &str,
    hostname: &str,
) -> (r: String)
    ensures
        r@ == resolved(template@, jobid, array_task_id, opt_text(job_name), user@, hostname@),
{
    let id = number::decimal(jobid);
    let mut s = text::chars_of(template);
    s = fill(s.as_slice(), 'A', id.as_str());
    s = fill(s.as_slice(), 'j', id.as_str());
    if let Some(i) = array_task_id {
        let index = number::decimal(i as u64);
        s = fill(s.as_slice(), 'a', index.as_str());
    }
    if let Some(name) = job_name {
        s = fill(s.as_slice(), 'x', name);
    }
    s = fill(s.as_slice(), 'u', user);
    s = fill(s.as_slice(), 'N', hostname);
    text::string_of(s.as_slice())
}

/// A template without any of the tokens is a path as it stands.
pub proof fn law_plain_template_stays(
    template: Seq<char>,
    jobid: u64,
    array_task_id: Option<u32>,
    job_name: Option<Seq<char>>,
    user: Seq<char>,
    hostname: Seq<char>,
)
    requires
        !model::contains(template, seq!['%', 'A']),
        !model::contains(template, seq!['%', 'j']),
        !model::contains(template, seq!['%', 'a']),
        !model::contains(template, seq!['%', 'x']),
        !model::contains(template, seq!['%', 'u']),
        !model::contains(template, seq!['%', 'N']),
    ensures
        resolved(template, jobid, array_task_id, job_name, user, hostname) == template,
{
    let id = model::decimal(jobid as nat);
    lemmas::lemma_replace_absent(template, seq!['%', 'A'], id);
    lemmas::lemma_replace_absent(template, seq!['%', 'j'], id);
    if let Some(i) = array_task_id {
        lemmas::lemma_replace_absent(template, seq!['%', 'a'], model::decimal(i as nat));
    }
    if let Some(name) = job_name {
        lemmas::lemma_replace_absent(template, seq!['%', 'x'], name);
    }
    lemmas::lemma_replace_absent(template, seq!['%', 'u'], user);
    lemmas::lemma_replace_absent(template, seq!['%', 'N'], hostname);
}

/// The exit status and the signal of `<exit>:<signal>`.
pub open spec fn exit_and_signal(field: Seq<char>) -> Option<(int, int)> {
    match model::split_once(field, ':') {
        Some((a, b)) => match (model::parse_i32(a), model::parse_i32(b)) {
            (Some(exit), Some(signal)) => Some((exit, signal)),
            _ => None,
        },
        None => None,
    }
}

/// The exit code that the field stands for: where a signal ended the job, 128 more
/// than the signal, as shells have it.
pub open spec fn exit_code(field: Seq<char>) -> Option<int> {
    match exit_and_signal(field) {
        Some((exit, signal)) => if signal != 0 {
            Some(128 + signal)
        } else {
            Some(exit)
        },
        None => None,
    }
}

/// The exit code, where there is one, is of 32 bits.
pub open spec fn exit_code_fits(field: Seq<char>) -> bool {
    exit_code(field) is Some ==> exit_code(field)->0 <= i32::MAX
}

/// What `sacct` writes for an exit status and a signal is read as the exit status, or
/// as 128 more than the signal where there is one.
pub proof fn law_exit_code_is_read(exit: nat, signal: nat)
    requires
        exit <= i32::MAX,
        signal <= i32::MAX,
    ensures
        exit_code(model::decimal(exit) + seq![':'] + model::decimal(signal)) == Some(
            if signal != 0 {
                128 + signal as int
            } else {
                exit as int
            },
        ),
{
    lemmas::lemma_decimal(exit);
    lemmas::lemma_decimal(signal);
    lemmas::lemma_digits_without(model::decimal(exit), ':');
    lemmas::lemma_split_some(model::decimal(exit), ':', model::decimal(signal));
    assert(model::is_digit(model::decimal(exit)[0]));
    assert(model::is_digit(model::decimal(signal)[0]));
}

/// An exit code of 32 bits as a number.
pub open spec fn opt_code(x: Option<i32>) -> Option<int> {
    match x {
        Some(n) => Some(n as int),
        None => None,
    }
}

/// Reads the `ExitCode` column of `sacct`, `<exit>:<signal>`.
///
/// - `"0:0"` is success, `"139:0"` an exit with 139
/// - `"0:9"` is an end by SIGKILL, which is 137
pub fn parse_sacct_exit_code(field: &str) -> (r: Option<i32>)
    requires
        exit_code_fits(field@),
    ensures
        opt_code(r) == exit_code(field@),
{
    let cs = text::chars_of(field);
    parse_exit_chars(cs.as_slice())
}

/// Reads the `ExitCode` column of `sacct` from its characters.
pub fn parse_exit_chars(field: &[char]) -> (r: Option<i32>)
    requires
        exit_code_fits(field@),
    ensures
        opt_code(r) == exit_code(field@),
{
    match text::split_once(field, ':') {
        Some((a, b)) => match (number::parse_i32(a), number::parse_i32(b)) {
            (Some(exit), Some(signal)) => if signal != 0 {
                assert(exit_code(field@) == Some(128 + signal));
                Some(128 + signal)
            } else {
                Some(exit)
            },
            _ => None,
        },
        None => None,
    }
}

/// Whether the `ExitCode` column stands for a code of 32 bits, or for none.
pub fn exit_field_fits(field: &[char]) -> (r: bool)
    ensures
        r == exit_code_fits(field@),
{
    match text::split_once(field, ':') {
        Some((a, b)) => match (number::parse_i32(a), number::parse_i32(b)) {
            (Some(_), Some(signal)) => signal <= i32::MAX - 128,
            _ => true,
        },
        None => true,
    }
}

/// The indices that an entry covers, in order.
pub open spec fn entry_indices(x: ArrayIndex) -> Seq<u32> {
    match x {
        ArrayIndex::Single(i) => seq![i],
        ArrayIndex::Range { start, end } => stepped(start, end, 1),
        ArrayIndex::Stepped { start, end, step } => stepped(start, end, step),
    }
}

/// `start`, `start + step`, ... up to `end`.
pub open spec fn stepped(start: u32, end: u32, step: u32) -> Seq<u32> {
    if start <= end && step > 0 {
        Seq::new(
            ((end - start) / step as int + 1) as nat,
            |k: int| (start + k * step) as u32,
        )
    } else {
        Seq::empty()
    }
}

/// The indices that the entries cover, in the order of the entries.
pub open spec fn expanded(entries: Seq<ArrayIndex>) -> Seq<u32>
    decreases entries.len(),
{
    if entries.len() == 0 {
        Seq::empty()
    } else {
        expanded(entries.drop_last()) + entry_indices(entries.last())
    }
}

/// The step of the entry, where it has one, moves on.
pub open spec fn advances(x: ArrayIndex) -> bool {
    x matches ArrayIndex::Stepped { start, end, step } ==> start <= end ==> step > 0
}

/// Whether the steps of all entries move on. The list of one that does not would have no
/// end.
pub fn check_steps(spec: &SlurmArraySpec) -> (r: bool)
    ensures
        r == (forall|i: int|
            0 <= i < spec@.indices.len() ==> advances(#[trigger] spec@.indices[i])),
{
    let mut i: usize = 0;
    while i < spec.indices.len()
        invariant
            i <= spec.indices.len(),
            forall|k: int| 0 <= k < i ==> advances(#[trigger] spec@.indices[k]),
        decreases spec.indices.len() - i,
    {
        if let ArrayIndex::Stepped { start, end, step } = spec.indices[i] {
            if start <= end && step == 0 {
                assert(!advances(spec@.indices[i as int]));
                return false;
            }
        }
        i = i + 1;
    }
    true
}

/// Appends `start`, `start + step`, ... up to `end`.
fn push_stepped(out: &mut Vec<u32>, start: u32, end: u32, step: u32)
    requires
        start <= end ==> step > 0,
    ensures
        final(out)@ == old(out)@ + stepped(start, end, step),
{
    if start > end {
        assert(out@ + Seq::<u32>::empty() == out@);
        return;
    }
    let ghost all = stepped(start, end, step);
    let mut i: u32 = start;
    let mut k: u64 = 0;
    proof {
        lemma_stepped_reach(start, end, step, 0);
        assert(0 * step == 0) by (nonlinear_arith);
        assert(all.take(0) == Seq::<u32>::empty());
        assert(out@ + Seq::<u32>::empty() == out@);
    }
    loop
        invariant
            start <= end,
            step > 0,
            all == stepped(start, end, step),
            i == start + k * step,
            k <= all.len(),
            i <= end ==> k < all.len(),
            out@ == old(out)@ + all.take(k as int),
        decreases end as int + step - i,
    {
        if i > end {
            proof {
                lemma_stepped_past(start, end, step, k as int);
            }
            assert(all.take(k as int) == all);
            return;
        }
        out.push(i);
        assert(all[k as int] == i);
        assert(all.take(k + 1) == all.take(k as int).push(i));
        proof {
            lemma_stepped_reach(start, end, step, k + 1);
            assert((k + 1) * step == k * step + step) by (nonlinear_arith);
        }
        match i.checked_add(step) {
            Some(next) => {
                k = k + 1;
                i = next;
            },
            None => {
                proof {
                    lemma_stepped_past(start, end, step, k + 1);
                }
                assert(all.take(k + 1) == all);
                return;
            },
        }
    }
}

/// An index within the bounds is in the list.
proof fn lemma_stepped_reach(start: u32, end: u32, step: u32, k: int)
    requires
        start <= end,
        step > 0,
        k >= 0,
    ensures
        start + k * step <= end ==> k < stepped(start, end, step).len(),
{
    if start + k * step <= end {
        assert(k <= (end - start) / step as int) by (nonlinear_arith)
            requires
                k * step <= end - start,
                step > 0,
        ;
    }
}

/// Past the bounds the list has ended.
proof fn lemma_stepped_past(start: u32, end: u32, step: u32, k: int)
    requires
        start <= end,
        step > 0,
        k >= 0,
        start + k * step > end,
    ensures
        k >= stepped(start, end, step).len(),
{
    assert(k > (end - start) / step as int) by (nonlinear_arith)
        requires
            k * step > end - start,
            step > 0,
    ;
}

/// Every task index that the spec covers, in the order written. How many may run at
/// once does not matter.
pub fn expand_array_indices(spec: &SlurmArraySpec) -> (r: Vec<u32>)
    requires
        forall|i: int| 0 <= i < spec@.indices.len() ==> advances(#[trigger] spec@.indices[i]),
    ensures
        r@ == expanded(spec@.indices),
{
    let mut out: Vec<u32> = Vec::new();
    let mut n: usize = 0;
    let ghost entries = spec@.indices;
    while n < spec.indices.len()
        invariant
            n <= spec.indices.len(),
            entries == spec@.indices,
            forall|i: int| 0 <= i < entries.len() ==> advances(#[trigger] entries[i]),
            out@ == expanded(entries.take(n as int)),
        decreases spec.indices.len() - n,
    {
        proof {
            assert(entries.take(n + 1).drop_last() == entries.take(n as int));
            assert(entries.take(n + 1).last() == entries[n as int]);
            assert(advances(entries[n as int]));
        }
        match spec.indices[n] {
            ArrayIndex::Single(i) => {
                let ghost before = out@;
                out.push(i);
                assert(out@ == before + seq![i]);
            },
            ArrayIndex::Range { start, end } => {
                push_stepped(&mut out, start, end, 1);
            },
            ArrayIndex::Stepped { start, end, step } => {
                push_stepped(&mut out, start, end, step);
            },
        }
        n = n + 1;
    }
    assert(entries.take(n as int) == entries);
    out
}

/// An index is among the expanded ones exactly where some entry covers it.
pub proof fn law_expanded_members(entries: Seq<ArrayIndex>, i: u32)
    ensures
        expanded(entries).contains(i) <==> exists|n: int|
            0 <= n < entries.len() && #[trigger] covers(entries[n], i),
    decreases entries.len(),
{
    if entries.len() > 0 {
        let before = entries.drop_last();
        law_expanded_members(before, i);
        lemma_entry_members(entries.last(), i);
        let a = expanded(before);
        let b = entry_indices(entries.last());
        let all = expanded(entries);
        assert(all == a + b);
        if all.contains(i) {
            let k = choose|k: int| 0 <= k < all.len() && all[k] == i;
            if k < a.len() {
                assert(a[k] == i);
                let n = choose|n: int| 0 <= n < before.len() && #[trigger] covers(before[n], i);
                assert(covers(entries[n], i));
            } else {
                assert(b[k - a.len()] == i);
                assert(covers(entries[entries.len() - 1], i));
            }
        }
        if exists|n: int| 0 <= n < entries.len() && #[trigger] covers(entries[n], i) {
            let n = choose|n: int| 0 <= n < entries.len() && #[trigger] covers(entries[n], i);
            if n < before.len() {
                assert(covers(before[n], i));
                let k = choose|k: int| 0 <= k < a.len() && a[k] == i;
                assert(all[k] == i);
            } else {
                let k = choose|k: int| 0 <= k < b.len() && b[k] == i;
                assert(all[a.len() + k] == i);
            }
        }
    }
}

/// The entry covers the index.
pub open spec fn covers(x: ArrayIndex, i: u32) -> bool {
    match x {
        ArrayIndex::Single(n) => i == n,
        ArrayIndex::Range { start, end } => start <= i <= end,
        ArrayIndex::Stepped { start, end, step } => start <= i <= end && step > 0 && (i - start)
            % (step as int) == 0,
    }
}

/// The list of an entry holds what the entry covers.
proof fn lemma_entry_members(x: ArrayIndex, i: u32)
    ensures
        entry_indices(x).contains(i) <==> covers(x, i),
{
    match x {
        ArrayIndex::Single(n) => {
            assert(seq![n][0] == n);
        },
        ArrayIndex::Range { start, end } => {
            lemma_stepped_members(start, end, 1, i);
        },
        ArrayIndex::Stepped { start, end, step } => {
            lemma_stepped_members(start, end, step, i);
        },
    }
}

/// The stepped list holds the multiples of the step above its start.
proof fn lemma_stepped_members(start: u32, end: u32, step: u32, i: u32)
    ensures
        stepped(start, end, step).contains(i) <==> start <= i <= end && step > 0 && (i - start)
            % (step as int) == 0,
{
    let all = stepped(start, end, step);
    if start <= end && step > 0 {
        if all.contains(i) {
            let k = choose|k: int| 0 <= k < all.len() && all[k] == i;
            assert(0 <= k * step <= end - start) by (nonlinear_arith)
                requires
                    0 <= k <= (end - start) / step as int,
                    step > 0,
            ;
            assert(i == start + k * step);
            assert((k * step) % (step as int) == 0) by (nonlinear_arith)
                requires
                    step > 0,
            ;
        }
        if start <= i <= end && (i - start) % (step as int) == 0 {
            let k = (i - start) / step as int;
            assert(k * step == i - start && 0 <= k) by (nonlinear_arith)
                requires
                    (i - start) % (step as int) == 0,
                    step > 0,
                    start <= i,
                    k == (i - start) / step as int,
            ;
            lemma_stepped_reach(start, end, step, k);
            assert(all[k] == i);
        }
    }
}

/// Behind each percent sign stands something else.
pub open spec fn is_tidy(s: Seq<char>) -> bool {
    forall|i: int| 0 <= i < s.len() && #[trigger] s[i] == '%' ==> i + 1 < s.len() && s[i + 1] != '%'
}

/// Tokens are replaced piece by piece.
proof fn lemma_replace_sum(a: Seq<char>, b: Seq<char>, letter: char, to: Seq<char>)
    requires
        a.len() > 0 ==> a.last() != '%',
    ensures
        model::replace(a + b, seq!['%', letter], to) == model::replace(a, seq!['%', letter], to)
            + model::replace(b, seq!['%', letter], to),
    decreases a.len(),
{
    let from = seq!['%', letter];
    let s = a + b;
    if a.len() == 0 {
        assert(s == b);
        assert(model::replace(a, from, to) == a);
        assert(a + model::replace(b, from, to) == model::replace(b, from, to));
    } else if model::stands_at(s, from, 0) {
        assert(s.subrange(0, 2)[0] == s[0]);
        assert(s.subrange(0, 2)[1] == s[1]);
        assert(s[0] == '%');
        assert(a[0] == '%');
        assert(a.len() >= 2);
        assert(a.subrange(0, 2) == s.subrange(0, 2));
        let rest = a.skip(2);
        if rest.len() > 0 {
            assert(rest.last() == a.last());
        }
        lemma_replace_sum(rest, b, letter, to);
        assert(s.skip(2) == rest + b);
        assert(to + (model::replace(rest, from, to) + model::replace(b, from, to)) == to
            + model::replace(rest, from, to) + model::replace(b, from, to));
    } else {
        if model::stands_at(a, from, 0) {
            assert(s.subrange(0, 2) == a.subrange(0, 2));
        }
        let rest = a.skip(1);
        if rest.len() > 0 {
            assert(rest.last() == a.last());
        }
        lemma_replace_sum(rest, b, letter, to);
        assert(s.skip(1) == rest + b);
        assert(s[0] == a[0]);
        assert(seq![a[0]] + (model::replace(rest, from, to) + model::replace(b, from, to))
            == seq![a[0]] + model::replace(rest, from, to) + model::replace(b, from, to));
    }
}

/// Filling in keeps a text tidy.
proof fn lemma_replace_tidy(a: Seq<char>, letter: char, to: Seq<char>)
    requires
        is_tidy(a),
        !to.contains('%'),
    ensures
        is_tidy(model::replace(a, seq!['%', letter], to)),
    decreases a.len(),
{
    let from = seq!['%', letter];
    let all = model::replace(a, from, to);
    if a.len() == 0 {
    } else if model::stands_at(a, from, 0) {
        let rest = a.skip(2);
        assert forall|i: int| 0 <= i < rest.len() && #[trigger] rest[i] == '%' implies i + 1
            < rest.len() && rest[i + 1] != '%' by {
            assert(rest[i] == a[i + 2]);
            assert(a[i + 3] != '%');
        }
        lemma_replace_tidy(rest, letter, to);
        let r = model::replace(rest, from, to);
        assert(all == to + r);
        assert forall|i: int| 0 <= i < all.len() && #[trigger] all[i] == '%' implies i + 1
            < all.len() && all[i + 1] != '%' by {
            if i < to.len() {
                assert(to[i] == '%');
                assert(to.contains('%'));
            } else {
                assert(r[i - to.len()] == '%');
                assert(all[i + 1] == r[i - to.len() + 1]);
            }
        }
    } else {
        let rest = a.skip(1);
        assert forall|i: int| 0 <= i < rest.len() && #[trigger] rest[i] == '%' implies i + 1
            < rest.len() && rest[i + 1] != '%' by {
            assert(rest[i] == a[i + 1]);
            assert(a[i + 2] != '%');
        }
        lemma_replace_tidy(rest, letter, to);
        let r = model::replace(rest, from, to);
        assert(all == seq![a[0]] + r);
        if a[0] == '%' {
            assert(a[1] != '%');
            assert(rest[0] == a[1]);
            if model::stands_at(rest, from, 0) {
                assert(rest.subrange(0, 2)[0] == rest[0]);
            }
            assert(r == seq![rest[0]] + model::replace(rest.skip(1), from, to));
            assert(r[0] == a[1]);
        }
        assert forall|i: int| 0 <= i < all.len() && #[trigger] all[i] == '%' implies i + 1
            < all.len() && all[i + 1] != '%' by {
            if i > 0 {
                assert(r[i - 1] == '%');
                assert(all[i + 1] == r[i]);
            } else {
                assert(all[1] == r[0]);
            }
        }
    }
}

/// A text without the sign has no token.
proof fn lemma_replace_plain(s: Seq<char>, letter: char, to: Seq<char>)
    requires
        !s.contains('%'),
    ensures
        model::replace(s, seq!['%', letter], to) == s,
{
    let from = seq!['%', letter];
    if model::contains(s, from) {
        let i = choose|i: int| model::stands_at(s, from, i);
        assert(s.subrange(i, i + 2)[0] == s[i]);
        assert(s[i] == '%');
    }
    lemmas::lemma_replace_absent(s, from, to);
}

/// A token of another letter stays.
proof fn lemma_replace_other(other: char, letter: char, to: Seq<char>)
    requires
        other != letter,
        other != '%',
    ensures
        model::replace(seq!['%', other], seq!['%', letter], to) == seq!['%', other],
{
    let s = seq!['%', other];
    let from = seq!['%', letter];
    if model::contains(s, from) {
        let i = choose|i: int| model::stands_at(s, from, i);
        assert(i == 0);
        assert(s.subrange(0, 2)[1] == s[1]);
    }
    lemmas::lemma_replace_absent(s, from, to);
}

/// A token is what it stands for.
proof fn lemma_replace_token(letter: char, to: Seq<char>)
    ensures
        model::replace(seq!['%', letter], seq!['%', letter], to) == to,
{
    let s = seq!['%', letter];
    assert(s.subrange(0, 2) == s);
    assert(s.skip(2) == Seq::<char>::empty());
    assert(model::replace(s.skip(2), s, to) == Seq::<char>::empty());
    assert(to + Seq::<char>::empty() == to);
}

/// Three pieces, of which the first is tidy and the second is filled in or not.
proof fn lemma_replace_pieces(
    a: Seq<char>,
    m: Seq<char>,
    b: Seq<char>,
    letter: char,
    to: Seq<char>,
)
    requires
        is_tidy(a),
        is_tidy(m),
        !to.contains('%'),
    ensures
        model::replace(a + m + b, seq!['%', letter], to) == model::replace(
            a,
            seq!['%', letter],
            to,
        ) + model::replace(m, seq!['%', letter], to) + model::replace(b, seq!['%', letter], to),
        is_tidy(model::replace(a, seq!['%', letter], to)),
        is_tidy(model::replace(m, seq!['%', letter], to)),
{
    lemma_replace_tidy(a, letter, to);
    lemma_replace_tidy(m, letter, to);
    let am = a + m;
    if a.len() > 0 {
        assert(a[a.len() - 1] == a.last());
    }
    if m.len() > 0 {
        assert(m[m.len() - 1] == m.last());
        assert(am.last() == m.last());
    } else {
        assert(am == a);
    }
    lemma_replace_sum(a, m, letter, to);
    lemma_replace_sum(am, b, letter, to);
}

/// What a token stands for: the job id, the index of the array task, the name of the job,
/// the user or the host. A token of another letter, or of something that there is not,
/// stays.
pub open spec fn token_text(
    letter: char,
    jobid: u64,
    array_task_id: Option<u32>,
    job_name: Option<&str>,
    user: Seq<char>,
    hostname: Seq<char>,
) -> Seq<char> {
    if letter == 'A' || letter == 'j' {
        model::decimal(jobid as nat)
    } else if letter == 'a' && array_task_id is Some {
        model::decimal(array_task_id->0 as nat)
    } else if letter == 'x' && job_name is Some {
        job_name->0@
    } else if letter == 'u' {
        user
    } else if letter == 'N' {
        hostname
    } else {
        seq!['%', letter]
    }
}

/// Every token is filled in on its own, wherever it stands and whatever stands around it:
/// the path of a text with a token in it is the path of what stands before it, then what
/// the token stands for, then the path of what stands behind it. What the tokens stand for
/// has no percent sign here.
pub proof fn law_tokens_are_filled_in(
    template: &str,
    before: &str,
    letter: char,
    after: &str,
    jobid: u64,
    array_task_id: Option<u32>,
    job_name: Option<&str>,
    user: &str,
    hostname: &str,
    r: String,
    r_before: String,
    r_after: String,
)
    requires
        call_ensures(
            resolve_log_path,
            (template, jobid, array_task_id, job_name, user, hostname),
            r,
        ),
        call_ensures(
            resolve_log_path,
            (before, jobid, array_task_id, job_name, user, hostname),
            r_before,
        ),
        call_ensures(
            resolve_log_path,
            (after, jobid, array_task_id, job_name, user, hostname),
            r_after,
        ),
        template@ == before@ + seq!['%', letter] + after@,
        letter != '%',
        is_tidy(before@),
        job_name matches Some(name) ==> !name@.contains('%'),
        !user@.contains('%'),
        !hostname@.contains('%'),
    ensures
        r@ == r_before@ + token_text(
            letter,
            jobid,
            array_task_id,
            job_name,
            user@,
            hostname@,
        ) + r_after@,
{
    let id = model::decimal(jobid as nat);
    lemmas::lemma_decimal(jobid as nat);
    lemmas::lemma_digits_without(id, '%');
    let (a, m, b) = (before@, seq!['%', letter], after@);
    assert(is_tidy(m));
    let (a, m, b) = lemma_fill_step(a, m, b, letter, 'A', id);
    let (a, m, b) = lemma_fill_step(a, m, b, letter, 'j', id);
    let (a, m, b) = match array_task_id {
        Some(i) => {
            lemmas::lemma_decimal(i as nat);
            lemmas::lemma_digits_without(model::decimal(i as nat), '%');
            lemma_fill_step(a, m, b, letter, 'a', model::decimal(i as nat))
        },
        None => (a, m, b),
    };
    let (a, m, b) = match job_name {
        Some(name) => lemma_fill_step(a, m, b, letter, 'x', name@),
        None => (a, m, b),
    };
    let (a, m, b) = lemma_fill_step(a, m, b, letter, 'u', user@);
    let (a, m, b) = lemma_fill_step(a, m, b, letter, 'N', hostname@);
}

/// One kind of token filled in, in three pieces: the one in the middle is a token that
/// stays until its letter comes, or a text without any.
proof fn lemma_fill_step(
    a: Seq<char>,
    m: Seq<char>,
    b: Seq<char>,
    token: char,
    letter: char,
    to: Seq<char>,
) -> (r: (Seq<char>, Seq<char>, Seq<char>))
    requires
        is_tidy(a),
        token != '%',
        m == seq!['%', token] || !m.contains('%'),
        !to.contains('%'),
    ensures
        r.0 == model::replace(a, seq!['%', letter], to),
        r.1 == (if m == seq!['%', token] && token == letter {
            to
        } else {
            m
        }),
        r.2 == model::replace(b, seq!['%', letter], to),
        model::replace(a + m + b, seq!['%', letter], to) == r.0 + r.1 + r.2,
        is_tidy(r.0),
        r.1 == seq!['%', token] || !r.1.contains('%'),
{
    if m == seq!['%', token] {
        assert(m[0] == '%' && m[1] == token);
        if token == letter {
            lemma_replace_token(letter, to);
        } else {
            lemma_replace_other(token, letter, to);
        }
    } else {
        assert forall|i: int| 0 <= i < m.len() implies #[trigger] m[i] != '%' by {
            if m[i] == '%' {
                assert(m.contains('%'));
            }
        }
        lemma_replace_plain(m, letter, to);
    }
    assert(is_tidy(m));
    lemma_replace_pieces(a, m, b, letter, to);
    (
        model::replace(a, seq!['%', letter], to),
        if m == seq!['%', token] && token == letter {
            to
        } else {
            m
        },
        model::replace(b, seq!['%', letter], to),
    )
}

/// A text without percent sign is a path as it stands.
pub proof fn law_plain_path_stays(
    template: &str,
    jobid: u64,
    array_task_id: Option<u32>,
    job_name: Option<&str>,
    user: &str,
    hostname: &str,
    r: String,
)
    requires
        call_ensures(
            resolve_log_path,
            (template, jobid, array_task_id, job_name, user, hostname),
            r,
        ),
        !template@.contains('%'),
    ensures
        r@ == template@,
{
    let id = model::decimal(jobid as nat);
    lemma_replace_plain(template@, 'A', id);
    lemma_replace_plain(template@, 'j', id);
    if let Some(i) = array_task_id {
        lemma_replace_plain(template@, 'a', model::decimal(i as nat));
    }
    if let Some(name) = job_name {
        lemma_replace_plain(template@, 'x', name@);
    }
    lemma_replace_plain(template@, 'u', user@);
    lemma_replace_plain(template@, 'N', hostname@);
}

/// The line says that a job was submitted, with or without white space around it.
pub open spec fn announces(line: Seq<char>) -> bool {
    model::stands_at(model::trim(line), "Submitted batch job "@, 0)
}

/// The job id that is read is the number behind `Submitted batch job `, in the first line
/// that has one: whatever white space stands before it, whatever follows the number and
/// whatever other lines there are.
pub proof fn law_submitted_job_is_read(
    stdout: &str,
    r: Option<u64>,
    before: Seq<Seq<char>>,
    pad: Seq<char>,
    jobid: u64,
    rest: Seq<char>,
    after: Seq<Seq<char>>,
)
    requires
        call_ensures(parse_submitted_jobid, (stdout,), r),
        model::lines(stdout@) == before + seq![
            pad + ("Submitted batch job "@ + model::decimal(jobid as nat) + rest),
        ] + after,
        forall|i: int| 0 <= i < before.len() ==> !announces(#[trigger] before[i]),
        forall|i: int| 0 <= i < pad.len() ==> model::is_white(#[trigger] pad[i]),
        rest.len() > 0 ==> !model::is_digit(rest[0]),
    ensures
        r == Some(jobid),
{
    let core = "Submitted batch job "@ + model::decimal(jobid as nat) + rest;
    law_reported_job_is_read(jobid, rest);
    lemma_trim_pad(pad, core);
    assert(line_jobid(pad + core) == line_jobid(core));
    assert forall|i: int| 0 <= i < before.len() implies line_jobid(#[trigger] before[i]) is None by {
        assert(!announces(before[i]));
    }
    law_first_report_counts(before, pad + core, after, jobid);
}

/// White space at the front makes no difference.
proof fn lemma_trim_pad(pad: Seq<char>, s: Seq<char>)
    requires
        forall|i: int| 0 <= i < pad.len() ==> model::is_white(#[trigger] pad[i]),
    ensures
        model::trim(pad + s) == model::trim(s),
    decreases pad.len(),
{
    if pad.len() == 0 {
        assert(pad + s == s);
    } else {
        let all = pad + s;
        assert(all[0] == pad[0]);
        let rest = pad.skip(1);
        assert forall|i: int| 0 <= i < rest.len() implies model::is_white(#[trigger] rest[i]) by {
            assert(rest[i] == pad[i + 1]);
        }
        lemma_trim_pad(rest, s);
        assert(all.skip(1) == rest + s);
        assert(model::trim_start(all) == model::trim_start(all.skip(1)));
    }
}

/// Where no line says that a job was submitted, none is read; and one that is read stands,
/// as a number, behind the words in some line.
pub proof fn law_no_submission_is_made_up(stdout: &str, r: Option<u64>)
    requires
        call_ensures(parse_submitted_jobid, (stdout,), r),
    ensures
        r is Some ==> exists|n: int|
            {
                &&& 0 <= n < model::lines(stdout@).len()
                &&& announces(#[trigger] model::lines(stdout@)[n])
                &&& exists|digits: Seq<char>, rest: Seq<char>|
                    {
                        &&& model::trim(model::lines(stdout@)[n]) == "Submitted batch job "@
                            + digits + rest
                        &&& digits.len() > 0
                        &&& model::all_digits(digits)
                        &&& #[trigger] model::digits_value(digits) == r->0
                        &&& #[trigger] rest.len() > 0 ==> !model::is_digit(rest[0])
                    }
            },
{
    if let Some(id) = r {
        let lines = model::lines(stdout@);
        lemma_first_jobid(lines);
        let n = choose|n: int| 0 <= n < lines.len() && line_jobid(#[trigger] lines[n]) == Some(id);
        let t = model::trim(lines[n]);
        let prefix = "Submitted batch job "@;
        let rest = t.skip(prefix.len() as int);
        lemma_digit_run(rest);
        let k = digit_run(rest) as int;
        let digits = rest.take(k);
        let tail = rest.skip(k);
        lemma_digit_run_ends(rest);
        assert(t == prefix + digits + tail) by {
            assert(t.subrange(0, prefix.len() as int) == prefix);
            assert(t == t.subrange(0, prefix.len() as int) + rest);
            assert(rest == digits + tail);
        }
        assert(model::digits_value(digits) == id);
        assert(announces(lines[n]));
        assert(tail.len() > 0 ==> !model::is_digit(tail[0]));
    }
}

/// Behind the run of digits stands no digit.
proof fn lemma_digit_run_ends(s: Seq<char>)
    ensures
        digit_run(s) <= s.len(),
        digit_run(s) < s.len() ==> !model::is_digit(s[digit_run(s) as int]),
    decreases s.len(),
{
    if s.len() > 0 && model::is_digit(s[0]) {
        lemma_digit_run_ends(s.skip(1));
        if digit_run(s) < s.len() {
            assert(s.skip(1)[digit_run(s.skip(1)) as int] == s[digit_run(s) as int]);
        }
    }
}

/// The id stands in some line.
proof fn lemma_first_jobid(lines: Seq<Seq<char>>)
    requires
        first_jobid(lines) is Some,
    ensures
        exists|n: int|
            0 <= n < lines.len() && line_jobid(#[trigger] lines[n]) == first_jobid(lines),
    decreases lines.len(),
{
    if line_jobid(lines[0]) is None {
        let rest = lines.skip(1);
        lemma_first_jobid(rest);
        let n = choose|n: int|
            0 <= n < rest.len() && line_jobid(#[trigger] rest[n]) == first_jobid(rest);
        assert(rest[n] == lines[n + 1]);
    }
}

/// What `sacct` writes as `<exit>:<signal>` is read as the exit status, or as 128 more than
/// the signal where there is one. What has no colon is read as no code, and so is what has
/// something other than a number before or behind it.
pub proof fn law_exit_codes(field: &str, r: Option<i32>, exit: nat, signal: nat)
    requires
        call_ensures(parse_sacct_exit_code, (field,), r),
        exit <= i32::MAX,
        signal <= i32::MAX - 128,
    ensures
        field@ == model::decimal(exit) + seq![':'] + model::decimal(signal) ==> r is Some && r->0
            == (if signal != 0 {
            128 + signal as int
        } else {
            exit as int
        }),
        !field@.contains(':') ==> r is None,
        forall|a: Seq<char>, b: Seq<char>|
            field@ == #[trigger] (a + seq![':'] + b) && !a.contains(':') && (model::parse_i32(
                a,
            ) is None || model::parse_i32(b) is None) ==> r is None,
{
    law_exit_code_is_read(exit, signal);
    if !field@.contains(':') {
        lemmas::lemma_split_none(field@, ':');
    }
    assert forall|a: Seq<char>, b: Seq<char>|
        field@ == #[trigger] (a + seq![':'] + b) && !a.contains(':') && (model::parse_i32(
            a,
        ) is None || model::parse_i32(b) is None) implies r is None by {
        lemmas::lemma_split_some(a, ':', b);
    }
}

/// The indices of an array come entry by entry, in the order written, and those of an entry
/// rise from its first index by its step.
pub proof fn law_indices_come_in_order(
    spec: SlurmArraySpec,
    first: SlurmArraySpec,
    last: SlurmArraySpec,
    r: Vec<u32>,
    r_first: Vec<u32>,
    r_last: Vec<u32>,
)
    requires
        call_ensures(expand_array_indices, (&spec,), r),
        call_ensures(expand_array_indices, (&first,), r_first),
        call_ensures(expand_array_indices, (&last,), r_last),
        spec@.indices == first@.indices + last@.indices,
    ensures
        r@ == r_first@ + r_last@,
        spec@.indices.len() == 1 ==> match spec@.indices[0] {
            ArrayIndex::Single(i) => r@ == seq![i],
            ArrayIndex::Range { start, end } => is_progression(r@, start, end, 1),
            ArrayIndex::Stepped { start, end, step } => step > 0 ==> is_progression(
                r@,
                start,
                end,
                step,
            ),
        },
        forall|i: u32|
            r@.contains(i) <==> exists|n: int|
                0 <= n < spec@.indices.len() && #[trigger] covers(spec@.indices[n], i),
{
    lemma_expanded_sum(first@.indices, last@.indices);
    if spec@.indices.len() == 1 {
        let x = spec@.indices[0];
        assert(spec@.indices.drop_last() == Seq::<ArrayIndex>::empty());
        reveal_with_fuel(expanded, 2);
        assert(r@ == entry_indices(x));
        match x {
            ArrayIndex::Single(_) => {},
            ArrayIndex::Range { start, end } => {
                lemma_progression(start, end, 1);
            },
            ArrayIndex::Stepped { start, end, step } => {
                if step > 0 {
                    lemma_progression(start, end, step);
                }
            },
        }
    }
    assert forall|i: u32|
        r@.contains(i) <==> exists|n: int|
            0 <= n < spec@.indices.len() && #[trigger] covers(spec@.indices[n], i) by {
        law_expanded_members(spec@.indices, i);
    }
}

/// The numbers start at `start`, rise by `step` and go on as long as they do not pass `end`.
pub open spec fn is_progression(s: Seq<u32>, start: u32, end: u32, step: u32) -> bool {
    &&& s.len() == 0 <==> start > end
    &&& s.len() > 0 ==> s[0] == start && s.last() <= end && s.last() + step > end
    &&& forall|k: int| 0 <= k && k + 1 < s.len() ==> #[trigger] s[k] + step == s[k + 1]
}

/// The list of a step is a progression.
proof fn lemma_progression(start: u32, end: u32, step: u32)
    requires
        step > 0,
    ensures
        is_progression(stepped(start, end, step), start, end, step),
{
    let s = stepped(start, end, step);
    if start <= end {
        let n = (end - start) / step as int;
        assert(0 <= n && n * step <= end - start && (n + 1) * step > end - start) by (nonlinear_arith)
            requires
                n == (end - start) / step as int,
                step > 0,
                start <= end,
        ;
        assert(s.len() == n + 1);
        assert(0 * step == 0) by (nonlinear_arith);
        assert(s[0] == start);
        assert(s.last() == start + n * step);
        assert((n + 1) * step == n * step + step) by (nonlinear_arith);
        assert forall|k: int| 0 <= k && k + 1 < s.len() implies #[trigger] s[k] + step == s[k + 1] by {
            assert((k + 1) * step == k * step + step) by (nonlinear_arith);
            assert(0 <= k * step && (k + 1) * step <= n * step) by (nonlinear_arith)
                requires
                    0 <= k,
                    k + 1 <= n,
                    step > 0,
            ;
            assert(s[k] == start + k * step);
            assert(s[k + 1] == start + (k + 1) * step);
        }
    }
}

/// Entries are listed one after the other.
proof fn lemma_expanded_sum(a: Seq<ArrayIndex>, b: Seq<ArrayIndex>)
    ensures
        expanded(a + b) == expanded(a) + expanded(b),
    decreases b.len(),
{
    if b.len() == 0 {
        assert(a + b == a);
        assert(expanded(a) + expanded(b) == expanded(a));
    } else {
        lemma_expanded_sum(a, b.drop_last());
        assert((a + b).drop_last() == a + b.drop_last());
        assert((a + b).last() == b.last());
    }
}

/// Every code but one of more than 32 bits can be read, and every array whose steps move on
/// can be listed; that is what is checked.
pub proof fn law_what_can_be_read(field: &[char], fits: bool, spec: SlurmArraySpec, steps: bool)
    requires
        call_ensures(exit_field_fits, (field,), fits),
        call_ensures(check_steps, (&spec,), steps),
    ensures
        fits ==> call_requires(parse_exit_chars, (field,)),
        steps ==> call_requires(expand_array_indices, (&spec,)),
        fits <==> (exit_code(field@) is Some ==> exit_code(field@)->0 <= i32::MAX),
        steps <==> forall|i: int|
            0 <= i < spec.indices@.len() ==> (#[trigger] spec.indices@[i] matches
                ArrayIndex::Stepped { start, end, step } ==> start > end || step > 0),
{
    if steps {
        assert forall|i: int| 0 <= i < spec.indices@.len() implies (#[trigger] spec.indices@[i]
            matches ArrayIndex::Stepped { start, end, step } ==> start > end || step > 0) by {
            assert(advances(spec@.indices[i]));
        }
    } else {
        let i = choose|i: int|
            0 <= i < spec@.indices.len() && !advances(#[trigger] spec@.indices[i]);
        assert(!advances(spec.indices@[i]));
    }
}

} // verus!

//! The texts that show a run: the status line, the results and the log
//! entry.
//!
//! The figures come in as digits, made by whoever did the floating-point
//! arithmetic. The library lays them out, and guards the speeds of a pass
//! that took no time: whatever digits came in, such a speed is shown as
//! zero.

use vstd::prelude::*;
use vstd::string::*;
use crate::meter::Pass;
use crate::text::{pad_left, pad_right, push_spaces, spaces};

verus! {

/// The figures of one pass, as digits: each a number with two decimal
/// places, as the formatting of floating-point numbers gives it.
#[derive(Clone, Debug, PartialEq, Eq)]
pub struct Figures {
    /// The time of the pass in nanoseconds; only whether it is zero is
    /// looked at.
    pub elapsed_nanos: u64,
    /// Decimal megabytes per second: bytes / 1e6 / seconds.
    pub megabytes_per_second: String,
    /// Decimal megabits per second: bytes * 8 / 1e6 / seconds.
    pub megabits_per_second: String,
    /// The time of the pass in seconds.
    pub seconds: String,
}

/// The speed to show for a pass: `digits`, or zero for a pass that took no
/// time, of which the division gives no number.
pub open spec fn shown_speed(elapsed_nanos: u64, digits: Seq<char>) -> Seq<char> {
    if elapsed_nanos == 0 {
        "0.00"@
    } else {
        digits
    }
}

/// The word that the status line of `pass` starts with.
pub open spec fn pass_word(pass: Pass) -> Seq<char> {
    match pass {
        Pass::Write => "Writing"@,
        Pass::Read => "Reading"@,
    }
}

/// The status line of a pass: it starts with a carriage return, so that it
/// overwrites the one before it, and does not end the line. `percent` has
/// one decimal place, `speed` two.
pub open spec fn progress_text(
    pass: Pass,
    percent: Seq<char>,
    speed: Seq<char>,
    elapsed_nanos: u64,
) -> Seq<char> {
    seq!['\r'] + pass_word(pass) + "... "@ + pad_left(percent, 5) + "% ("@ + shown_speed(
        elapsed_nanos,
        speed,
    ) + " MB/s)"@
}

/// The line of the results for one pass, without its end.
pub open spec fn pass_text(label: Seq<char>, figures: Figures) -> Seq<char> {
    pad_right(label, 6) + seq![' '] + pad_left(
        shown_speed(figures.elapsed_nanos, figures.megabytes_per_second@),
        9,
    ) + " MB/s ("@ + pad_left(shown_speed(figures.elapsed_nanos, figures.megabits_per_second@), 8)
        + " Mbps) in "@ + pad_left(figures.seconds@, 6) + seq!['s']
}

/// The line of the results for one size, without its end.
pub open spec fn size_text(label: Seq<char>, figure: Seq<char>, unit: Seq<char>) -> Seq<char> {
    pad_right(label, 8) + seq![' '] + pad_left(figure, 6) + seq![' '] + unit
}

/// `count` times the character `c`.
pub open spec fn repeated(c: char, count: nat) -> Seq<char> {
    Seq::new(count, |i: int| c)
}

/// The head of the results: a box around the title.
pub open spec fn head_text() -> Seq<char> {
    seq!['\n', '\u{2554}'] + repeated('\u{2550}', 46) + seq!['\u{2557}', '\n', '\u{2551}']
        + spaces(12) + "USB Benchmark Results"@ + spaces(13) + seq!['\u{2551}', '\n', '\u{255A}']
        + repeated('\u{2550}', 46) + seq!['\u{255D}', '\n']
}

/// The two lines that name the device and the test file.
pub open spec fn paths_text(device: Seq<char>, location: Seq<char>, test_file: Seq<char>) -> Seq<
    char,
> {
    pad_right("Device:"@, 8) + seq![' '] + device + seq![' ', '\u{2014}', ' '] + location
        + seq!['\n'] + pad_right("Test:"@, 8) + seq![' '] + test_file + seq!['\n']
}

/// The two lines that echo the sizes of the run, in gibibytes and in
/// mebibytes, and the empty line after them.
pub open spec fn sizes_text(size_gib: Seq<char>, block_mib: Seq<char>) -> Seq<char> {
    size_text("Size:"@, size_gib, "GiB"@) + seq!['\n'] + size_text("Block:"@, block_mib, "MiB"@)
        + seq!['\n', '\n']
}

/// The two lines of the passes, the empty line after them, and the rule
/// that ends the results.
pub open spec fn passes_text(write: Figures, read: Figures) -> Seq<char> {
    pass_text("WRITE:"@, write) + seq!['\n'] + pass_text("READ:"@, read) + seq!['\n', '\n']
        + repeated('\u{2550}', 48) + seq!['\n']
}

/// The results of a run, as the text to print: the head, the device and
/// the test file, the two sizes, the two passes, and a rule.
pub open spec fn report_text(
    device: Seq<char>,
    location: Seq<char>,
    test_file: Seq<char>,
    size_gib: Seq<char>,
    block_mib: Seq<char>,
    write: Figures,
    read: Figures,
) -> Seq<char> {
    head_text() + paths_text(device, location, test_file) + sizes_text(size_gib, block_mib)
        + passes_text(write, read)
}

/// The entry of the log for a run: the session, the read speed, the write
/// speed and the time of the entry, in columns, as one line.
pub open spec fn log_text(
    session: Seq<char>,
    read: Figures,
    write: Figures,
    timestamp: Seq<char>,
) -> Seq<char> {
    pad_right(session, 30) + " | "@ + pad_left(
        shown_speed(read.elapsed_nanos, read.megabits_per_second@),
        7,
    ) + " Mbps | "@ + pad_left(shown_speed(write.elapsed_nanos, write.megabits_per_second@), 7)
        + " Mbps | "@ + timestamp + seq!['\n']
}

/// The name under which a run is logged: what the user entered, or
/// `fallback` where that is empty.
pub open spec fn session_of(entered: Seq<char>, fallback: Seq<char>) -> Seq<char> {
    if entered.len() == 0 {
        fallback
    } else {
        entered
    }
}

/// The speed to show for a pass.
pub fn speed_to_show(elapsed_nanos: u64, digits: &str) -> (text: String)
    ensures
        text@ == shown_speed(elapsed_nanos, digits@),
        elapsed_nanos == 0 ==> text@ == "0.00"@,
{
    if elapsed_nanos == 0 {
        "0.00".to_owned()
    } else {
        digits.to_owned()
    }
}

fn push_left_padded(out: &mut String, s: &str, width: usize)
    ensures
        final(out)@ == old(out)@ + pad_left(s@, width as nat),
{
    let len = s.unicode_len();
    if len < width {
        push_spaces(out, width - len);
    }
    out.append(s);
    assert(out@ == old(out)@ + pad_left(s@, width as nat));
}

fn push_right_padded(out: &mut String, s: &str, width: usize)
    ensures
        final(out)@ == old(out)@ + pad_right(s@, width as nat),
{
    let len = s.unicode_len();
    out.append(s);
    if len < width {
        push_spaces(out, width - len);
    }
    assert(out@ == old(out)@ + pad_right(s@, width as nat));
}

fn push_repeated(out: &mut String, c: char, count: usize)
    ensures
        final(out)@ == old(out)@ + repeated(c, count as nat),
{
    let mut i: usize = 0;
    while i < count
        invariant
            i <= count,
            out@ == old(out)@ + repeated(c, i as nat),
        decreases count - i,
    {
        out.push(c);
        i += 1;
        assert(repeated(c, i as nat) == repeated(c, (i - 1) as nat).push(c));
    }
}

/// The status line of a pass.
pub fn progress_line(pass: Pass, percent: &str, speed: &str, elapsed_nanos: u64) -> (line: String)
    ensures
        line@ == progress_text(pass, percent@, speed@, elapsed_nanos),
{
    let mut line = String::new();
    line.push('\r');
    match pass {
        Pass::Write => line.append("Writing"),
        Pass::Read => line.append("Reading"),
    }
    line.append("... ");
    push_left_padded(&mut line, percent, 5);
    line.append("% (");
    line.append(speed_to_show(elapsed_nanos, speed).as_str());
    line.append(" MB/s)");
    assert(line@ == progress_text(pass, percent@, speed@, elapsed_nanos));
    line
}

fn push_pass(out: &mut String, label: &str, figures: &Figures)
    ensures
        final(out)@ == old(out)@ + pass_text(label@, *figures),
{
    let mut line = String::new();
    push_right_padded(&mut line, label, 6);
    line.push(' ');
    let speed = speed_to_show(figures.elapsed_nanos, figures.megabytes_per_second.as_str());
    push_left_padded(&mut line, speed.as_str(), 9);
    line.append(" MB/s (");
    let bits = speed_to_show(figures.elapsed_nanos, figures.megabits_per_second.as_str());
    push_left_padded(&mut line, bits.as_str(), 8);
    line.append(" Mbps) in ");
    push_left_padded(&mut line, figures.seconds.as_str(), 6);
    line.push('s');
    assert(line@ == pass_text(label@, *figures));
    out.append(line.as_str());
}

fn push_size(out: &mut String, label: &str, figure: &str, unit: &str)
    ensures
        final(out)@ == old(out)@ + size_text(label@, figure@, unit@),
{
    let mut line = String::new();
    push_right_padded(&mut line, label, 8);
    line.push(' ');
    push_left_padded(&mut line, figure, 6);
    line.push(' ');
    line.append(unit);
    assert(line@ == size_text(label@, figure@, unit@));
    out.append(line.as_str());
}

fn head() -> (out: String)
    ensures
        out@ == head_text(),
{
    let mut out = String::new();
    out.push('\n');
    out.push('\u{2554}');
    push_repeated(&mut out, '\u{2550}', 46);
    out.push('\u{2557}');
    out.push('\n');
    out.push('\u{2551}');
    push_spaces(&mut out, 12);
    out.append("USB Benchmark Results");
    push_spaces(&mut out, 13);
    out.push('\u{2551}');
    out.push('\n');
    out.push('\u{255A}');
    push_repeated(&mut out, '\u{2550}', 46);
    out.push('\u{255D}');
    out.push('\n');
    assert(out@ == head_text());
    out
}

fn paths(device: &str, location: &str, test_file: &str) -> (out: String)
    ensures
        out@ == paths_text(device@, location@, test_file@),
{
    let mut out = String::new();
    push_right_padded(&mut out, "Device:", 8);
    out.push(' ');
    out.append(device);
    out.push(' ');
    out.push('\u{2014}');
    out.push(' ');
    out.append(location);
    out.push('\n');
    push_right_padded(&mut out, "Test:", 8);
    out.push(' ');
    out.append(test_file);
    out.push('\n');
    assert(out@ == paths_text(device@, location@, test_file@));
    out
}

fn sizes(size_gib: &str, block_mib: &str) -> (out: String)
    ensures
        out@ == sizes_text(size_gib@, block_mib@),
{
    let mut out = String::new();
    push_size(&mut out, "Size:", size_gib, "GiB");
    out.push('\n');
    push_size(&mut out, "Block:", block_mib, "MiB");
    out.push('\n');
    out.push('\n');
    assert(out@ == sizes_text(size_gib@, block_mib@));
    out
}

fn passes(write: &Figures, read: &Figures) -> (out: String)
    ensures
        out@ == passes_text(*write, *read),
{
    let mut out = String::new();
    push_pass(&mut out, "WRITE:", write);
    out.push('\n');
    push_pass(&mut out, "READ:", read);
    out.push('\n');
    out.push('\n');
    push_repeated(&mut out, '\u{2550}', 48);
    out.push('\n');
    assert(out@ == passes_text(*write, *read));
    out
}

/// The results of a run, as the text to print. `device` is the directory
/// under test, `location` the directory of the test file and `test_file`
/// its path; `size_gib` and `block_mib` are the sizes of the run as digits
/// with two decimal places.
pub fn render_report(
    device: &str,
    location: &str,
    test_file: &str,
    size_gib: &str,
    block_mib: &str,
    write: &Figures,
    read: &Figures,
) -> (out: String)
    ensures
        out@ == report_text(
            device@,
            location@,
            test_file@,
            size_gib@,
            block_mib@,
            *write,
            *read,
        ),
{
    let mut out = head();
    out.append(paths(device, location, test_file).as_str());
    out.append(sizes(size_gib, block_mib).as_str());
    out.append(passes(write, read).as_str());
    out
}

/// The name under which a run is logged.
pub fn session_name(entered: &str, fallback: &str) -> (name: String)
    ensures
        name@ == session_of(entered@, fallback@),
{
    if entered.unicode_len() == 0 {
        fallback.to_owned()
    } else {
        entered.to_owned()
    }
}

/// The entry of the log for a run.
pub fn log_line(session: &str, read: &Figures, write: &Figures, timestamp: &str) -> (line: String)
    ensures
        line@ == log_text(session@, *read, *write, timestamp@),
{
    let mut line = String::new();
    push_right_padded(&mut line, session, 30);
    line.append(" | ");
    let r = speed_to_show(read.elapsed_nanos, read.megabits_per_second.as_str());
    push_left_padded(&mut line, r.as_str(), 7);
    line.append(" Mbps | ");
    let w = speed_to_show(write.elapsed_nanos, write.megabits_per_second.as_str());
    push_left_padded(&mut line, w.as_str(), 7);
    line.append(" Mbps | ");
    line.append(timestamp);
    line.push('\n');
    assert(line@ == log_text(session@, *read, *write, timestamp@));
    line
}

/// The guard against a pass that took no time: its speeds are shown as
/// zero, in the results, in the log and in the status line, whatever
/// digits came in.
pub proof fn lemma_no_time_no_speed(label: Seq<char>, figures: Figures, pass: Pass, percent: Seq<char>)
    requires
        figures.elapsed_nanos == 0,
    ensures
        pass_text(label, figures) == pad_right(label, 6) + seq![' '] + pad_left("0.00"@, 9)
            + " MB/s ("@ + pad_left("0.00"@, 8) + " Mbps) in "@ + pad_left(figures.seconds@, 6)
            + seq!['s'],
        forall|speed: Seq<char>| #[trigger]
            progress_text(pass, percent, speed, 0) == progress_text(pass, percent, "0.00"@, 0),
        forall|other: Figures, session: Seq<char>, timestamp: Seq<char>| #[trigger]
            log_text(session, figures, other, timestamp) == pad_right(session, 30) + " | "@
                + pad_left("0.00"@, 7) + " Mbps | "@ + pad_left(
                shown_speed(other.elapsed_nanos, other.megabits_per_second@),
                7,
            ) + " Mbps | "@ + timestamp + seq!['\n'],
{
}

} // verus!

//! The collector of kernel counters: the lines of `/proc/stat`, rendered as
//! a fragment.

use vstd::prelude::*;
use vstd::string::*;
use crate::text::{
    is_block,
    has_prefix, metric_line, push_line, same_text, split_words, starts_with, texts, words,
    ParseError, ParseErrorKind,
};

verus! {

/// The name of the counter at a place of a `cpu` line, for the first ten
/// places.
pub open spec fn cpu_field(place: int) -> Seq<char> {
    if place == 0 {
        "user"@
    } else if place == 1 {
        "nice"@
    } else if place == 2 {
        "system"@
    } else if place == 3 {
        "idle"@
    } else if place == 4 {
        "iowait"@
    } else if place == 5 {
        "irq"@
    } else if place == 6 {
        "softirq"@
    } else if place == 7 {
        "steal"@
    } else if place == 8 {
        "guest"@
    } else {
        "guestnice"@
    }
}

/// The metric name of a line that holds one counter, for the counters that
/// are exported.
pub open spec fn stat_metric(field: Seq<char>) -> Option<Seq<char>> {
    if field == "ctxt"@ {
        Some("procstat_ctxt"@)
    } else if field == "btime"@ {
        Some("procstat_btime_seconds"@)
    } else if field == "processes"@ {
        Some("procstat_processes"@)
    } else if field == "procs_running"@ {
        Some("procstat_procs_running"@)
    } else if field == "procs_blocked"@ {
        Some("procstat_procs_blocked"@)
    } else if field == "procs_softirq"@ {
        Some("procstat_procs_blocked"@)
    } else {
        None
    }
}

/// The line of one counter of a `cpu` line.
pub open spec fn cpu_line(id: Seq<char>, place: int, value: Seq<char>) -> Seq<char> {
    "procstat_"@ + id + "_"@ + cpu_field(place) + "_hz "@ + value + "\n"@
}

/// The lines of the first `n` counters of a `cpu` line, `words` being the
/// words of that line: the processor's name, then the counters.
pub open spec fn cpu_lines(words: Seq<Seq<char>>, n: nat) -> Seq<char>
    decreases n,
{
    if n == 0 {
        Seq::empty()
    } else {
        cpu_lines(words, (n - 1) as nat) + cpu_line(words[0], n - 1, words[n as int])
    }
}

/// What one line of `/proc/stat` adds to the fragment. A line that begins
/// with `cpu` gives a line for each of its first ten counters; a line of an
/// exported counter gives one line; any other line gives nothing. A line
/// without a word, and a line of an exported counter without a value,
/// cannot be read.
pub open spec fn stat_line(line: Seq<char>) -> Result<Seq<char>, ParseErrorKind> {
    let w = words(line);
    if w.len() == 0 {
        Err(ParseErrorKind::MissingField)
    } else if has_prefix(line, "cpu"@) {
        Ok(
            cpu_lines(
                w,
                if w.len() - 1 < 10 {
                    (w.len() - 1) as nat
                } else {
                    10
                },
            ),
        )
    } else {
        match stat_metric(w[0]) {
            Some(name) => if w.len() < 2 {
                Err(ParseErrorKind::MissingField)
            } else {
                Ok(metric_line(name, w[1]))
            },
            None => Ok(Seq::empty()),
        }
    }
}

/// The fragment of the first `n` lines, or the first of them that cannot be
/// read.
pub open spec fn stat_fragment(lines: Seq<Seq<char>>, n: nat) -> Result<Seq<char>, ParseError>
    decreases n,
{
    if n == 0 {
        Ok(Seq::empty())
    } else {
        match stat_fragment(lines, (n - 1) as nat) {
            Err(e) => Err(e),
            Ok(before) => match stat_line(lines[n - 1]) {
                Ok(text) => Ok(before + text),
                Err(kind) => Err(ParseError { line: (n - 1) as usize, kind }),
            },
        }
    }
}

fn cpu_field_name(place: usize) -> (name: &'static str)
    requires
        place < 10,
    ensures
        name@ == cpu_field(place as int),
{
    if place == 0 {
        "user"
    } else if place == 1 {
        "nice"
    } else if place == 2 {
        "system"
    } else if place == 3 {
        "idle"
    } else if place == 4 {
        "iowait"
    } else if place == 5 {
        "irq"
    } else if place == 6 {
        "softirq"
    } else if place == 7 {
        "steal"
    } else if place == 8 {
        "guest"
    } else {
        "guestnice"
    }
}

fn stat_metric_name(field: &str) -> (r: Option<&'static str>)
    ensures
        match r {
            Some(name) => stat_metric(field@) == Some(name@),
            None => stat_metric(field@) is None,
        },
{
    if same_text(field, "ctxt") {
        Some("procstat_ctxt")
    } else if same_text(field, "btime") {
        Some("procstat_btime_seconds")
    } else if same_text(field, "processes") {
        Some("procstat_processes")
    } else if same_text(field, "procs_running") {
        Some("procstat_procs_running")
    } else if same_text(field, "procs_blocked") {
        Some("procstat_procs_blocked")
    } else if same_text(field, "procs_softirq") {
        Some("procstat_procs_blocked")
    } else {
        None
    }
}

/// Appends what one line of `/proc/stat` adds to the fragment.
fn push_stat_line(out: &mut String, line: &str) -> (r: Result<(), ParseErrorKind>)
    ensures
        is_block(old(out)@) ==> is_block(final(out)@),
        match r {
            Ok(_) => stat_line(line@) is Ok && final(out)@ == old(out)@ + stat_line(line@)->Ok_0,
            Err(kind) => stat_line(line@) == Err::<Seq<char>, ParseErrorKind>(kind) && final(out)@
                == old(out)@,
        },
{
    let w = split_words(line);
    proof {
        assert(texts(w@).len() == w@.len());
    }
    if w.len() == 0 {
        return Err(ParseErrorKind::MissingField);
    }
    proof {
        assert(texts(w@)[0] == w@[0]@);
    }
    if starts_with(line, "cpu") {
        let n: usize = if w.len() - 1 < 10 {
            w.len() - 1
        } else {
            10
        };
        let mut place: usize = 0;
        while place < n
            invariant
                place <= n <= 10,
                n < w@.len(),
                texts(w@) == words(line@),
                out@ == old(out)@ + cpu_lines(words(line@), place as nat),
                is_block(old(out)@) ==> is_block(out@),
            decreases n - place,
        {
            proof {
                assert(texts(w@)[0] == w@[0]@);
                assert(texts(w@)[place + 1] == w@[place + 1]@);
            }
            let ghost before = out@;
            out.append("procstat_");
            out.append(w[0].as_str());
            out.append("_");
            out.append(cpu_field_name(place));
            out.append("_hz ");
            out.append(w[place + 1].as_str());
            out.append("\n");
            proof {
                assert(out@ =~= before + cpu_line(w@[0]@, place as int, w@[place + 1]@));
                reveal_strlit("\n");
                assert(out@.last() == '\n');
                assert(out@ =~= old(out)@ + cpu_lines(words(line@), (place + 1) as nat));
            }
            place += 1;
        }
        Ok(())
    } else {
        match stat_metric_name(w[0].as_str()) {
            Some(name) => {
                if w.len() < 2 {
                    Err(ParseErrorKind::MissingField)
                } else {
                    proof {
                        assert(texts(w@)[1] == w@[1]@);
                    }
                    push_line(out, name, w[1].as_str());
                    Ok(())
                }
            },
            None => {
                proof {
                    assert(out@ =~= old(out)@ + Seq::<char>::empty());
                }
                Ok(())
            },
        }
    }
}

/// Renders the lines of `/proc/stat` as a fragment; fails at the first line
/// that cannot be read.
pub fn get_proc_stat(lines: &Vec<String>) -> (out: Result<String, ParseError>)
    ensures
        out matches Ok(text) ==> is_block(text@),
        match out {
            Ok(text) => stat_fragment(texts(lines@), lines@.len()) == Ok::<Seq<char>, ParseError>(
                text@,
            ),
            Err(e) => stat_fragment(texts(lines@), lines@.len()) == Err::<Seq<char>, ParseError>(e),
        },
{
    let mut out = String::new();
    let mut i: usize = 0;
    while i < lines.len()
        invariant
            i <= lines.len(),
            stat_fragment(texts(lines@), i as nat) == Ok::<Seq<char>, ParseError>(out@),
            is_block(out@),
        decreases lines.len() - i,
    {
        proof {
            assert(texts(lines@)[i as int] == lines@[i as int]@);
        }
        match push_stat_line(&mut out, lines[i].as_str()) {
            Ok(_) => {},
            Err(kind) => {
                proof {
                    lemma_stat_error_stays(texts(lines@), (i + 1) as nat, lines@.len());
                }
                return Err(ParseError { line: i, kind });
            },
        }
        i += 1;
    }
    Ok(out)
}

/// Once a line cannot be read, the lines after it change nothing.
pub proof fn lemma_stat_error_stays(lines: Seq<Seq<char>>, n: nat, m: nat)
    requires
        n <= m,
        stat_fragment(lines, n) is Err,
    ensures
        stat_fragment(lines, m) == stat_fragment(lines, n),
    decreases m,
{
    if m > n {
        lemma_stat_error_stays(lines, n, (m - 1) as nat);
    }
}

} // verus!

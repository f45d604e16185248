//! The collector of network counters: the lines of `/proc/net/dev`,
//! rendered as a fragment with the interface as label.

use vstd::prelude::*;
use vstd::string::*;
use crate::text::{
    chars_of, is_block, split_words, texts, words, ParseError, ParseErrorKind,
};

verus! {

/// The name of the counter at a place of an interface's line.
pub open spec fn iface_field(place: int) -> Seq<char> {
    if place == 0 {
        "rx"@
    } else if place == 1 {
        "rx_packets"@
    } else if place == 2 {
        "rx_errs"@
    } else if place == 3 {
        "rx_drop"@
    } else if place == 4 {
        "rx_fifo"@
    } else if place == 5 {
        "rx_frame"@
    } else if place == 6 {
        "rx_compressed"@
    } else if place == 7 {
        "rx_multicast"@
    } else if place == 8 {
        "tx"@
    } else if place == 9 {
        "tx_packets"@
    } else if place == 10 {
        "tx_errs"@
    } else if place == 11 {
        "tx_drop"@
    } else if place == 12 {
        "tx_fifo"@
    } else if place == 13 {
        "tx_colls"@
    } else if place == 14 {
        "tx_carrier"@
    } else {
        "tx_compressed"@
    }
}

/// The line of one counter of an interface.
pub open spec fn netdev_value_line(place: int, iface: Seq<char>, value: Seq<char>) -> Seq<char> {
    "procnetdev_"@ + iface_field(place) + "_bytes{label=\""@ + iface + "\"} "@ + value + "\n"@
}

/// The lines of the first `n` counters of an interface's line, `words` being
/// the words of that line: the interface with its colon, then the counters.
pub open spec fn netdev_lines(words: Seq<Seq<char>>, n: nat) -> Seq<char>
    decreases n,
{
    if n == 0 {
        Seq::empty()
    } else {
        netdev_lines(words, (n - 1) as nat) + netdev_value_line(
            n - 1,
            words[0].drop_last(),
            words[n as int],
        )
    }
}

/// Whether a word names an interface: it ends in a colon.
pub open spec fn is_iface_word(word: Seq<char>) -> bool {
    word.len() > 0 && word.last() == ':'
}

/// What one line of `/proc/net/dev` adds to the fragment. A line whose
/// first word ends in a colon is an interface's line and has sixteen
/// counters, each of which gives a line; any other line gives nothing. A
/// line without a word, and an interface's line with another number of
/// counters, cannot be read.
pub open spec fn netdev_line(line: Seq<char>) -> Result<Seq<char>, ParseErrorKind> {
    let w = words(line);
    if w.len() == 0 {
        Err(ParseErrorKind::MissingField)
    } else if is_iface_word(w[0]) {
        if w.len() == 17 {
            Ok(netdev_lines(w, 16))
        } else {
            Err(ParseErrorKind::FieldCount)
        }
    } else {
        Ok(Seq::empty())
    }
}

/// The fragment of the first `n` lines, or the first of them that cannot be
/// read.
pub open spec fn netdev_fragment(lines: Seq<Seq<char>>, n: nat) -> Result<Seq<char>, ParseError>
    decreases n,
{
    if n == 0 {
        Ok(Seq::empty())
    } else {
        match netdev_fragment(lines, (n - 1) as nat) {
            Err(e) => Err(e),
            Ok(before) => match netdev_line(lines[n - 1]) {
                Ok(text) => Ok(before + text),
                Err(kind) => Err(ParseError { line: (n - 1) as usize, kind }),
            },
        }
    }
}

fn iface_field_name(place: usize) -> (name: &'static str)
    requires
        place < 16,
    ensures
        name@ == iface_field(place as int),
{
    if place == 0 {
        "rx"
    } else if place == 1 {
        "rx_packets"
    } else if place == 2 {
        "rx_errs"
    } else if place == 3 {
        "rx_drop"
    } else if place == 4 {
        "rx_fifo"
    } else if place == 5 {
        "rx_frame"
    } else if place == 6 {
        "rx_compressed"
    } else if place == 7 {
        "rx_multicast"
    } else if place == 8 {
        "tx"
    } else if place == 9 {
        "tx_packets"
    } else if place == 10 {
        "tx_errs"
    } else if place == 11 {
        "tx_drop"
    } else if place == 12 {
        "tx_fifo"
    } else if place == 13 {
        "tx_colls"
    } else if place == 14 {
        "tx_carrier"
    } else {
        "tx_compressed"
    }
}

/// The name of the interface of a word that ends in a colon.
fn iface_name(word: &str) -> (r: Option<String>)
    ensures
        match r {
            Some(name) => is_iface_word(word@) && name@ == word@.drop_last(),
            None => !is_iface_word(word@),
        },
{
    let chars = chars_of(word);
    let n: usize = chars.len();
    if n > 0 && chars[n - 1] == ':' {
        let name = String::from_str(word.substring_char(0, n - 1));
        proof {
            assert(word@.subrange(0, n - 1) =~= word@.drop_last());
        }
        Some(name)
    } else {
        None
    }
}

/// Appends what one line of `/proc/net/dev` adds to the fragment.
fn push_netdev_line(out: &mut String, line: &str) -> (r: Result<(), ParseErrorKind>)
    ensures
        is_block(old(out)@) ==> is_block(final(out)@),
        match r {
            Ok(_) => netdev_line(line@) is Ok && final(out)@ == old(out)@ + netdev_line(
                line@,
            )->Ok_0,
            Err(kind) => netdev_line(line@) == Err::<Seq<char>, ParseErrorKind>(kind)
                && final(out)@ == old(out)@,
        },
{
    let w = split_words(line);
    proof {
        assert(texts(w@).len() == w@.len());
    }
    if w.len() == 0 {
        return Err(ParseErrorKind::MissingField);
    }
    proof {
        assert(texts(w@)[0] == w@[0]@);
    }
    match iface_name(w[0].as_str()) {
        None => {
            proof {
                assert(out@ =~= old(out)@ + Seq::<char>::empty());
            }
            Ok(())
        },
        Some(iface) => {
            if w.len() != 17 {
                return Err(ParseErrorKind::FieldCount);
            }
            let mut place: usize = 0;
            while place < 16
                invariant
                    place <= 16,
                    w@.len() == 17,
                    texts(w@) == words(line@),
                    iface@ == words(line@)[0].drop_last(),
                    out@ == old(out)@ + netdev_lines(words(line@), place as nat),
                    is_block(old(out)@) ==> is_block(out@),
                decreases 16 - place,
            {
                proof {
                    assert(texts(w@)[place + 1] == w@[place + 1]@);
                }
                let ghost before = out@;
                out.append("procnetdev_");
                out.append(iface_field_name(place));
                out.append("_bytes{label=\"");
                out.append(iface.as_str());
                out.append("\"} ");
                out.append(w[place + 1].as_str());
                out.append("\n");
                proof {
                    assert(out@ =~= before + netdev_value_line(
                        place as int,
                        iface@,
                        w@[place + 1]@,
                    ));
                    reveal_strlit("\n");
                    assert(out@.last() == '\n');
                    assert(out@ =~= old(out)@ + netdev_lines(words(line@), (place + 1) as nat));
                }
                place += 1;
            }
            Ok(())
        },
    }
}

/// Renders the lines of `/proc/net/dev` as a fragment; fails at the first
/// line that cannot be read.
pub fn get_proc_netdev(lines: &Vec<String>) -> (out: Result<String, ParseError>)
    ensures
        out matches Ok(text) ==> is_block(text@),
        match out {
            Ok(text) => netdev_fragment(texts(lines@), lines@.len()) == Ok::<Seq<char>, ParseError>(
                text@,
            ),
            Err(e) => netdev_fragment(texts(lines@), lines@.len()) == Err::<Seq<char>, ParseError>(
                e,
            ),
        },
{
    let mut out = String::new();
    let mut i: usize = 0;
    while i < lines.len()
        invariant
            i <= lines.len(),
            netdev_fragment(texts(lines@), i as nat) == Ok::<Seq<char>, ParseError>(out@),
            is_block(out@),
        decreases lines.len() - i,
    {
        proof {
            assert(texts(lines@)[i as int] == lines@[i as int]@);
        }
        match push_netdev_line(&mut out, lines[i].as_str()) {
            Ok(_) => {},
            Err(kind) => {
                proof {
                    lemma_netdev_error_stays(texts(lines@), (i + 1) as nat, lines@.len());
                }
                return Err(ParseError { line: i, kind });
            },
        }
        i += 1;
    }
    Ok(out)
}

/// Once a line cannot be read, the lines after it change nothing.
pub proof fn lemma_netdev_error_stays(lines: Seq<Seq<char>>, n: nat, m: nat)
    requires
        n <= m,
        netdev_fragment(lines, n) is Err,
    ensures
        netdev_fragment(lines, m) == netdev_fragment(lines, n),
    decreases m,
{
    if m > n {
        lemma_netdev_error_stays(lines, n, (m - 1) as nat);
    }
}

} // verus!

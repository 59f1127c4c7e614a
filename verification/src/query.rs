//! One resolver's query: name normalization and the printed outcome.
//!
//! The DNS encoding wants a fully-qualified name, so the queried domain
//! first gains a trailing separator if it lacks one. The network round
//! trip itself belongs to the binary; it hands back a plain outcome —
//! a transport error's text, or the decoded answers in the resolver's
//! order — and the functions here turn that outcome into the exact lines
//! to print, one block per resolver.

use crate::addr::{addr_chars, address_string, IpAddress};
use vstd::prelude::*;

verus! {

/// The fully-qualified form of a domain: unchanged if it already ends in
/// the separator, otherwise with exactly one separator appended.
pub open spec fn normalize_chars(s: Seq<char>) -> Seq<char> {
    if s.len() > 0 && s.last() == '.' {
        s
    } else {
        s.push('.')
    }
}

/// A normalized name is fully qualified: it ends in the separator.
pub proof fn lemma_normalize_fully_qualifies(s: Seq<char>)
    ensures
        normalize_chars(s).len() > 0,
        normalize_chars(s).last() == '.',
{
    if !(s.len() > 0 && s.last() == '.') {
        assert(s.push('.').last() == '.');
    }
}

/// Normalization is idempotent: a name it has produced it leaves alone.
pub proof fn lemma_normalize_idempotent(s: Seq<char>)
    ensures
        normalize_chars(normalize_chars(s)) == normalize_chars(s),
{
    lemma_normalize_fully_qualifies(s);
}

/// The fully-qualified form of `name`, as [`normalize_chars`] states it.
pub fn normalize_domain(name: &str) -> (r: String)
    ensures
        r@ == normalize_chars(name@),
{
    let n = name.unicode_len();
    let ends_in_sep = n > 0 && name.get_char(n - 1) == '.';
    if ends_in_sep {
        String::from_str(name)
    } else {
        let r = String::from_str(name).concat(".");
        proof {
            reveal_strlit(".");
            assert(r@ =~= name@.push('.'));
        }
        r
    }
}

/// One decoded answer record: an IPv4 address record, a canonical-name
/// record, or some other kind this tool does not interpret.
#[derive(Clone, Debug)]
pub enum DnsAnswer {
    A(u8, u8, u8, u8),
    Cname(String),
    Other,
}

/// The outcome of one resolver's query: the text of a transport or
/// protocol error, or the decoded answers in the order the resolver
/// returned them (possibly none).
#[derive(Clone, Debug)]
pub enum QueryOutcome {
    Failure(String),
    Answers(Vec<DnsAnswer>),
}

/// The line printed for one interpreted answer, if any: address records
/// and canonical-name records each get one line; other kinds get none.
pub open spec fn answer_lines(resolver: IpAddress, a: DnsAnswer) -> Seq<Seq<char>> {
    match a {
        DnsAnswer::A(b0, b1, b2, b3) => seq![
            addr_chars(resolver) + ": IPv4 "@ + addr_chars(IpAddress::V4(b0, b1, b2, b3)),
        ],
        DnsAnswer::Cname(name) => seq![addr_chars(resolver) + ": CNAME "@ + name@],
        DnsAnswer::Other => seq![],
    }
}

/// The lines printed for a list of answers, in the resolver's order.
pub open spec fn all_answer_lines(resolver: IpAddress, answers: Seq<DnsAnswer>) -> Seq<Seq<char>>
    decreases answers.len(),
{
    if answers.len() == 0 {
        seq![]
    } else {
        all_answer_lines(resolver, answers.drop_last()) + answer_lines(resolver, answers.last())
    }
}

/// The full block printed for one resolver: its error line, its
/// no-response line, or one line per interpreted answer.
pub open spec fn outcome_lines(resolver: IpAddress, outcome: QueryOutcome) -> Seq<Seq<char>> {
    match outcome {
        QueryOutcome::Failure(msg) => seq![addr_chars(resolver) + ": Error "@ + msg@],
        QueryOutcome::Answers(answers) => if answers@.len() == 0 {
            seq![addr_chars(resolver) + ": No response"@]
        } else {
            all_answer_lines(resolver, answers@)
        },
    }
}

/// The views of a list of built lines.
pub open spec fn line_views(lines: Seq<String>) -> Seq<Seq<char>> {
    lines.map_values(|s: String| s@)
}

fn answer_line(resolver: &IpAddress, a: &DnsAnswer) -> (lines: Vec<String>)
    ensures
        line_views(lines@) == answer_lines(*resolver, *a),
{
    let mut lines: Vec<String> = Vec::new();
    match a {
        DnsAnswer::A(b0, b1, b2, b3) => {
            let mut line = address_string(resolver);
            line.append(": IPv4 ");
            line.append(address_string(&IpAddress::V4(*b0, *b1, *b2, *b3)).as_str());
            lines.push(line);
        },
        DnsAnswer::Cname(name) => {
            let mut line = address_string(resolver);
            line.append(": CNAME ");
            line.append(name.as_str());
            lines.push(line);
        },
        DnsAnswer::Other => {},
    }
    proof {
        assert(line_views(lines@) =~= answer_lines(*resolver, *a));
    }
    lines
}

/// The lines to print for one resolver's outcome, exactly as
/// [`outcome_lines`] states them: `"<resolver>: Error <text>"` on
/// failure, `"<resolver>: No response"` on an empty answer list, and
/// otherwise one `"<resolver>: IPv4 <address>"` or
/// `"<resolver>: CNAME <name>"` line per interpreted answer, in the
/// resolver's order, uninterpreted kinds skipped.
pub fn render_outcome(resolver: &IpAddress, outcome: &QueryOutcome) -> (lines: Vec<String>)
    ensures
        line_views(lines@) == outcome_lines(*resolver, *outcome),
{
    match outcome {
        QueryOutcome::Failure(msg) => {
            let mut line = address_string(resolver);
            line.append(": Error ");
            line.append(msg.as_str());
            let mut lines: Vec<String> = Vec::new();
            lines.push(line);
            proof {
                assert(line_views(lines@) =~= outcome_lines(*resolver, *outcome));
            }
            lines
        },
        QueryOutcome::Answers(answers) => {
            if answers.len() == 0 {
                let mut line = address_string(resolver);
                line.append(": No response");
                let mut lines: Vec<String> = Vec::new();
                lines.push(line);
                proof {
                    assert(line_views(lines@) =~= outcome_lines(*resolver, *outcome));
                }
                lines
            } else {
                let mut lines: Vec<String> = Vec::new();
                let n = answers.len();
                for i in 0..n
                    invariant
                        n == answers@.len(),
                        line_views(lines@) == all_answer_lines(*resolver, answers@.take(i as int)),
                {
                    let mut next = answer_line(resolver, &answers[i]);
                    let ghost lines_before = lines@;
                    let ghost next_view = next@;
                    lines.append(&mut next);
                    proof {
                        let taken = answers@.take(i + 1);
                        assert(taken.drop_last() =~= answers@.take(i as int));
                        assert(taken.last() == answers@[i as int]);
                        assert(line_views(lines_before + next_view) =~= line_views(lines_before)
                            + line_views(next_view));
                    }
                }
                proof {
                    assert(answers@.take(n as int) =~= answers@);
                }
                lines
            }
        },
    }
}

} // verus!

//! IP addresses as plain values, and their textual form.
//!
//! A resolver is identified by its IP address; the routing message hands a
//! gateway address over as 4 or 16 raw bytes. Both are held here as plain
//! integers so every function that reads them can be verified.

use vstd::prelude::*;

verus! {

/// An IP address: four octets, or eight 16-bit groups.
#[derive(Clone, Copy, PartialEq, Eq, Structural, Debug)]
pub enum IpAddress {
    V4(u8, u8, u8, u8),
    V6(u16, u16, u16, u16, u16, u16, u16, u16),
}

/// The decimal digit character for `d`.
pub open spec fn digit_char(d: int) -> char {
    if d == 0 {
        '0'
    } else if d == 1 {
        '1'
    } else if d == 2 {
        '2'
    } else if d == 3 {
        '3'
    } else if d == 4 {
        '4'
    } else if d == 5 {
        '5'
    } else if d == 6 {
        '6'
    } else if d == 7 {
        '7'
    } else if d == 8 {
        '8'
    } else {
        '9'
    }
}

/// The decimal form of an octet: one to three digits, no leading zero.
pub open spec fn dec_octet_chars(n: int) -> Seq<char> {
    if n < 10 {
        seq![digit_char(n)]
    } else if n < 100 {
        seq![digit_char(n / 10), digit_char(n % 10)]
    } else {
        seq![digit_char(n / 100), digit_char((n / 10) % 10), digit_char(n % 10)]
    }
}

fn digit_str(d: u8) -> (s: &'static str)
    requires
        d < 10,
    ensures
        s@ == seq![digit_char(d as int)],
{
    let s: &'static str = match d {
        0 => "0",
        1 => "1",
        2 => "2",
        3 => "3",
        4 => "4",
        5 => "5",
        6 => "6",
        7 => "7",
        8 => "8",
        _ => "9",
    };
    proof {
        reveal_strlit("0");
        reveal_strlit("1");
        reveal_strlit("2");
        reveal_strlit("3");
        reveal_strlit("4");
        reveal_strlit("5");
        reveal_strlit("6");
        reveal_strlit("7");
        reveal_strlit("8");
        reveal_strlit("9");
        assert(s@ =~= seq![digit_char(d as int)]);
    }
    s
}

/// The decimal form of one octet of an IPv4 address.
pub fn dec_octet(n: u8) -> (s: String)
    ensures
        s@ == dec_octet_chars(n as int),
{
    if n < 10 {
        let s = String::from_str(digit_str(n));
        proof {
            assert(s@ =~= dec_octet_chars(n as int));
        }
        s
    } else if n < 100 {
        let s = String::from_str(digit_str(n / 10)).concat(digit_str(n % 10));
        proof {
            assert(s@ =~= dec_octet_chars(n as int));
        }
        s
    } else {
        let s = String::from_str(digit_str(n / 100)).concat(digit_str((n / 10) % 10)).concat(
            digit_str(n % 10),
        );
        proof {
            assert(s@ =~= dec_octet_chars(n as int));
        }
        s
    }
}

/// The lowercase hexadecimal digit character for `d`.
pub open spec fn hex_digit_char(d: int) -> char {
    if d < 10 {
        digit_char(d)
    } else if d == 10 {
        'a'
    } else if d == 11 {
        'b'
    } else if d == 12 {
        'c'
    } else if d == 13 {
        'd'
    } else if d == 14 {
        'e'
    } else {
        'f'
    }
}

/// The hexadecimal form of a 16-bit group: one to four digits, no leading zero.
pub open spec fn hex_group_chars(n: int) -> Seq<char> {
    if n < 16 {
        seq![hex_digit_char(n)]
    } else if n < 256 {
        seq![hex_digit_char(n / 16), hex_digit_char(n % 16)]
    } else if n < 4096 {
        seq![hex_digit_char(n / 256), hex_digit_char((n / 16) % 16), hex_digit_char(n % 16)]
    } else {
        seq![
            hex_digit_char(n / 4096),
            hex_digit_char((n / 256) % 16),
            hex_digit_char((n / 16) % 16),
            hex_digit_char(n % 16),
        ]
    }
}

fn hex_digit_str(d: u16) -> (s: &'static str)
    requires
        d < 16,
    ensures
        s@ == seq![hex_digit_char(d as int)],
{
    let s: &'static str = match d {
        0 => "0",
        1 => "1",
        2 => "2",
        3 => "3",
        4 => "4",
        5 => "5",
        6 => "6",
        7 => "7",
        8 => "8",
        9 => "9",
        10 => "a",
        11 => "b",
        12 => "c",
        13 => "d",
        14 => "e",
        _ => "f",
    };
    proof {
        reveal_strlit("0");
        reveal_strlit("1");
        reveal_strlit("2");
        reveal_strlit("3");
        reveal_strlit("4");
        reveal_strlit("5");
        reveal_strlit("6");
        reveal_strlit("7");
        reveal_strlit("8");
        reveal_strlit("9");
        reveal_strlit("a");
        reveal_strlit("b");
        reveal_strlit("c");
        reveal_strlit("d");
        reveal_strlit("e");
        reveal_strlit("f");
        assert(s@ =~= seq![hex_digit_char(d as int)]);
    }
    s
}

/// The hexadecimal form of one 16-bit group of an IPv6 address.
pub fn hex_group(n: u16) -> (s: String)
    ensures
        s@ == hex_group_chars(n as int),
{
    if n < 16 {
        let s = String::from_str(hex_digit_str(n));
        proof {
            assert(s@ =~= hex_group_chars(n as int));
        }
        s
    } else if n < 256 {
        let s = String::from_str(hex_digit_str(n / 16)).concat(hex_digit_str(n % 16));
        proof {
            assert(s@ =~= hex_group_chars(n as int));
        }
        s
    } else if n < 4096 {
        let s = String::from_str(hex_digit_str(n / 256)).concat(hex_digit_str((n / 16) % 16))
            .concat(hex_digit_str(n % 16));
        proof {
            assert(s@ =~= hex_group_chars(n as int));
        }
        s
    } else {
        let s = String::from_str(hex_digit_str(n / 4096)).concat(hex_digit_str((n / 256) % 16))
            .concat(hex_digit_str((n / 16) % 16)).concat(hex_digit_str(n % 16));
        proof {
            assert(s@ =~= hex_group_chars(n as int));
        }
        s
    }
}

/// The colon-separated hexadecimal join of a run of groups.
pub open spec fn joined_group_chars(groups: Seq<u16>) -> Seq<char>
    decreases groups.len(),
{
    if groups.len() == 0 {
        Seq::empty()
    } else if groups.len() == 1 {
        hex_group_chars(groups[0] as int)
    } else {
        joined_group_chars(groups.drop_last()) + ":"@ + hex_group_chars(groups.last() as int)
    }
}

/// The number of consecutive zero groups starting at `i`.
pub open spec fn zero_run_len(groups: Seq<u16>, i: int) -> int
    decreases groups.len() - i,
{
    if i < 0 || i >= groups.len() || groups[i] != 0 {
        0
    } else {
        1 + zero_run_len(groups, i + 1)
    }
}

/// The start of the longest zero run at or after `i`, the leftmost
/// winning a tie.
pub open spec fn best_zero_run(groups: Seq<u16>, i: int) -> int
    decreases groups.len() - i,
{
    if i >= groups.len() - 1 {
        i
    } else {
        let rest = best_zero_run(groups, i + 1);
        if zero_run_len(groups, i) >= zero_run_len(groups, rest) {
            i
        } else {
            rest
        }
    }
}

/// The textual form of eight 16-bit groups: lowercase hexadecimal,
/// colon-separated, with the longest run of two or more zero groups
/// shortened to `::`, the leftmost such run winning a tie. (An address
/// that embeds an IPv4 one is written in group form too, not with a
/// trailing dotted quad.)
pub open spec fn v6_chars(groups: Seq<u16>) -> Seq<char> {
    let start = best_zero_run(groups, 0);
    let run = zero_run_len(groups, start);
    if run >= 2 {
        joined_group_chars(groups.take(start)) + "::"@ + joined_group_chars(
            groups.skip(start + run),
        )
    } else {
        joined_group_chars(groups)
    }
}

/// The textual form of an address: dotted decimal for IPv4, the
/// zero-compressed group form of [`v6_chars`] for IPv6.
pub open spec fn addr_chars(a: IpAddress) -> Seq<char> {
    match a {
        IpAddress::V4(b0, b1, b2, b3) => dec_octet_chars(b0 as int) + "."@ + dec_octet_chars(
            b1 as int,
        ) + "."@ + dec_octet_chars(b2 as int) + "."@ + dec_octet_chars(b3 as int),
        IpAddress::V6(g0, g1, g2, g3, g4, g5, g6, g7) => v6_chars(
            seq![g0, g1, g2, g3, g4, g5, g6, g7],
        ),
    }
}

/// The join of the groups in `[from, to)`, as [`joined_group_chars`]
/// states it of that subrange.
fn join_groups(groups: &Vec<u16>, from: usize, to: usize) -> (s: String)
    requires
        from <= to <= groups@.len(),
    ensures
        s@ == joined_group_chars(groups@.subrange(from as int, to as int)),
{
    let mut s = String::new();
    let mut i = from;
    while i < to
        invariant
            from <= i <= to <= groups@.len(),
            s@ == joined_group_chars(groups@.subrange(from as int, i as int)),
        decreases to - i,
    {
        if i > from {
            s.append(":");
        }
        s.append(hex_group(groups[i]).as_str());
        proof {
            let sub = groups@.subrange(from as int, i + 1);
            assert(sub.drop_last() =~= groups@.subrange(from as int, i as int));
            assert(sub.last() == groups@[i as int]);
        }
        i = i + 1;
    }
    s
}

/// The textual form of `a`, as [`addr_chars`] states it.
pub fn address_string(a: &IpAddress) -> (s: String)
    ensures
        s@ == addr_chars(*a),
{
    match a {
        IpAddress::V4(b0, b1, b2, b3) => {
            let mut s = dec_octet(*b0);
            s.append(".");
            s.append(dec_octet(*b1).as_str());
            s.append(".");
            s.append(dec_octet(*b2).as_str());
            s.append(".");
            s.append(dec_octet(*b3).as_str());
            s
        },
        IpAddress::V6(g0, g1, g2, g3, g4, g5, g6, g7) => {
            let mut groups: Vec<u16> = Vec::new();
            groups.push(*g0);
            groups.push(*g1);
            groups.push(*g2);
            groups.push(*g3);
            groups.push(*g4);
            groups.push(*g5);
            groups.push(*g6);
            groups.push(*g7);
            proof {
                assert(groups@ =~= seq![*g0, *g1, *g2, *g3, *g4, *g5, *g6, *g7]);
            }
            let mut runs: Vec<usize> = Vec::new();
            let mut k: usize = 0;
            while k < 8
                invariant
                    k <= 8,
                    runs@.len() == k,
                decreases 8 - k,
            {
                runs.push(0);
                k = k + 1;
            }
            let mut i: usize = 8;
            while i > 0
                invariant
                    i <= 8,
                    groups@.len() == 8,
                    runs@.len() == 8,
                    forall|j: int| i <= j < 8 ==> runs@[j] == zero_run_len(groups@, j),
                    forall|j: int| i <= j < 8 ==> runs@[j] <= 8,
                decreases i,
            {
                i = i - 1;
                proof {
                    lemma_zero_run_bound(groups@, i as int);
                    if i < 7 {
                        lemma_zero_run_bound(groups@, i + 1);
                    }
                }
                if groups[i] == 0 {
                    if i == 7 {
                        runs.set(i, 1);
                    } else {
                        let next = runs[i + 1];
                        runs.set(i, next + 1);
                    }
                } else {
                    runs.set(i, 0);
                }
                proof {
                    assert(zero_run_len(groups@, 8) == 0);
                    assert(runs@[i as int] == zero_run_len(groups@, i as int));
                }
            }
            let mut best: usize = 7;
            let mut i: usize = 7;
            while i > 0
                invariant
                    i <= 7,
                    best < 8,
                    groups@.len() == 8,
                    runs@.len() == 8,
                    forall|j: int| 0 <= j < 8 ==> runs@[j] == zero_run_len(groups@, j),
                    best == best_zero_run(groups@, i as int),
                decreases i,
            {
                i = i - 1;
                if runs[i] >= runs[best] {
                    best = i;
                }
            }
            let run = runs[best];
            proof {
                lemma_zero_run_bound(groups@, best as int);
            }
            if run >= 2 {
                let mut s = join_groups(&groups, 0, best);
                s.append("::");
                s.append(join_groups(&groups, best + run, 8).as_str());
                proof {
                    assert(groups@.subrange(0, best as int) =~= groups@.take(best as int));
                    assert(groups@.subrange(best + run, 8) =~= groups@.skip(best + run));
                }
                s
            } else {
                let s = join_groups(&groups, 0, 8);
                proof {
                    assert(groups@.subrange(0, 8) =~= groups@);
                }
                s
            }
        },
    }
}

/// A zero run starting inside the group list ends inside it.
proof fn lemma_zero_run_bound(groups: Seq<u16>, i: int)
    requires
        0 <= i <= groups.len(),
    ensures
        0 <= zero_run_len(groups, i),
        i + zero_run_len(groups, i) <= groups.len(),
    decreases groups.len() - i,
{
    if i < groups.len() && groups[i] == 0 {
        lemma_zero_run_bound(groups, i + 1);
    }
}

} // verus!

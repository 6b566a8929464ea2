//! The note the client leaves for its operator: how to reach this machine
//! through the bastion.

use vstd::prelude::*;
use vstd::string::*;

verus! {

/// The decimal digit `d` as a character.
pub open spec fn digit_char(d: nat) -> char {
    (48 + d) as char
}

/// The decimal notation of `n`, without leading zeros.
pub open spec fn decimal(n: nat) -> Seq<char>
    decreases n,
{
    if n < 10 {
        seq![digit_char(n)]
    } else {
        decimal(n / 10) + seq![digit_char(n % 10)]
    }
}

/// The host part of a `host:port` address: everything before the first
/// colon, or the whole address when it has none.
pub open spec fn host_part(addr: Seq<char>) -> Seq<char>
    decreases addr.len(),
{
    if addr.len() == 0 || addr[0] == ':' {
        Seq::empty()
    } else {
        seq![addr[0]] + host_part(addr.drop_first())
    }
}

/// The host part ends at the first colon.
proof fn lemma_host_part_ends_at_colon(addr: Seq<char>, i: int)
    requires
        0 <= i <= addr.len(),
        forall|j: int| 0 <= j < i ==> addr[j] != ':',
        i < addr.len() ==> addr[i] == ':',
    ensures
        host_part(addr) == addr.take(i),
    decreases i,
{
    if i == 0 {
        assert(addr.take(0) =~= Seq::<char>::empty());
    } else {
        let rest = addr.drop_first();
        assert forall|j: int| 0 <= j < i - 1 implies rest[j] != ':' by {
            assert(rest[j] == addr[j + 1]);
        }
        lemma_host_part_ends_at_colon(rest, i - 1);
        assert(addr.take(i) =~= seq![addr[0]] + rest.take(i - 1));
    }
}

/// The note for a machine reachable as `host`, forward port `port`.
pub open spec fn ssh_info_content(host: Seq<char>, port: u16) -> Seq<char> {
    "SSH Config:\n\nHost: "@ + host + "\nPort: "@ + decimal(port as nat) + "\n\nCommand: ssh root@"@
        + host + " -p "@ + decimal(port as nat)
        + "\n\nPlease change your password using `passwd` command before making a connection.\n\n"@
}

/// The one-character string of the decimal digit `d`.
fn digit_str(d: u16) -> (s: &'static str)
    requires
        d < 10,
    ensures
        s@ == seq![digit_char(d as nat)],
{
    match d {
        0 => {
            proof {
                reveal_strlit("0");
            }
            "0"
        },
        1 => {
            proof {
                reveal_strlit("1");
            }
            "1"
        },
        2 => {
            proof {
                reveal_strlit("2");
            }
            "2"
        },
        3 => {
            proof {
                reveal_strlit("3");
            }
            "3"
        },
        4 => {
            proof {
                reveal_strlit("4");
            }
            "4"
        },
        5 => {
            proof {
                reveal_strlit("5");
            }
            "5"
        },
        6 => {
            proof {
                reveal_strlit("6");
            }
            "6"
        },
        7 => {
            proof {
                reveal_strlit("7");
            }
            "7"
        },
        8 => {
            proof {
                reveal_strlit("8");
            }
            "8"
        },
        _ => {
            proof {
                reveal_strlit("9");
            }
            "9"
        },
    }
}

/// The decimal notation of `n`.
pub fn decimal_string(n: u16) -> (s: String)
    ensures
        s@ == decimal(n as nat),
    decreases n,
{
    if n < 10 {
        String::from_str(digit_str(n))
    } else {
        let mut s = decimal_string(n / 10);
        s.append(digit_str(n % 10));
        s
    }
}

/// The host part of a `host:port` address: everything before the first
/// colon, or the whole address when it has none.
pub fn host_of(addr: &str) -> (host: String)
    ensures
        host@ == host_part(addr@),
        host@.len() <= addr@.len(),
        host@ == addr@.take(host@.len() as int),
        !host@.contains(':'),
        host@.len() < addr@.len() ==> addr@[host@.len() as int] == ':',
{
    let n = addr.unicode_len();
    let mut i: usize = 0;
    while i < n && addr.get_char(i) != ':'
        invariant
            n == addr@.len(),
            i <= n,
            forall|j: int| 0 <= j < i ==> addr@[j] != ':',
        decreases n - i,
    {
        i = i + 1;
    }
    let host = addr.substring_char(0, i).to_owned();
    proof {
        assert(host@ =~= addr@.take(i as int));
        lemma_host_part_ends_at_colon(addr@, i as int);
        if host@.contains(':') {
            let j = choose|j: int| 0 <= j < host@.len() && host@[j] == ':';
            assert(addr@[j] == ':');
        }
    }
    host
}

/// The note for a machine reachable as `host`, forward port `port`.
pub fn ssh_info_text(host: &str, port: u16) -> (text: String)
    ensures
        text@ == ssh_info_content(host@, port),
{
    let digits = decimal_string(port);
    let mut text = String::from_str("SSH Config:\n\nHost: ");
    text.append(host);
    text.append("\nPort: ");
    text.append(digits.as_str());
    text.append("\n\nCommand: ssh root@");
    text.append(host);
    text.append(" -p ");
    text.append(digits.as_str());
    text.append(
        "\n\nPlease change your password using `passwd` command before making a connection.\n\n",
    );
    text
}

/// The number that a string of decimal digits spells.
pub open spec fn digits_value(s: Seq<char>) -> int
    decreases s.len(),
{
    if s.len() == 0 {
        0
    } else {
        digits_value(s.drop_last()) * 10 + (s.last() as int - 48)
    }
}

/// Whether `c` is one of the digits `0` to `9`.
pub open spec fn is_decimal_digit(c: char) -> bool {
    '0' <= c && c <= '9'
}

/// The decimal notation of `n` is made of digits only, has no leading zero,
/// and spells `n` back.
pub proof fn lemma_decimal_reads_back(n: nat)
    ensures
        decimal(n).len() >= 1,
        forall|i: int| 0 <= i < decimal(n).len() ==> is_decimal_digit(#[trigger] decimal(n)[i]),
        n > 0 ==> decimal(n)[0] != '0',
        digits_value(decimal(n)) == n,
    decreases n,
{
    if n < 10 {
        assert(digit_char(n) as int == 48 + n);
        assert(decimal(n).drop_last() =~= Seq::<char>::empty());
        assert(digits_value(Seq::<char>::empty()) == 0);
        assert(digits_value(decimal(n)) == digits_value(decimal(n).drop_last()) * 10 + (
        decimal(n).last() as int - 48));
    } else {
        assert(digit_char(n % 10) as int == 48 + n % 10);
        lemma_decimal_reads_back(n / 10);
        let s = decimal(n);
        let q = decimal(n / 10);
        assert(s.drop_last() =~= q);
        assert(s.last() == digit_char(n % 10));
        assert(n == (n / 10) * 10 + n % 10) by (nonlinear_arith);
        assert(digits_value(s) == digits_value(q) * 10 + (n % 10));
        assert forall|i: int| 0 <= i < s.len() implies is_decimal_digit(#[trigger] s[i]) by {
            if i < q.len() {
                assert(s[i] == q[i]);
            }
        }
        assert(s[0] == q[0]);
    }
}

/// The operator's note names the whole host, verbatim, both on its `Host:`
/// line and in the `ssh root@<host> -p <port>` command, and gives the port
/// there in decimal digits that spell the port back; nothing else in the
/// note depends on the host or the port, and its length grows by exactly two
/// characters for each character of the host.
pub proof fn lemma_ssh_info_names_host(h: Seq<char>, p: u16)
    ensures
        ({
            let t = ssh_info_content(h, p);
            let hl = h.len() as int;
            let d = decimal(p as nat);
            let dl = d.len() as int;
            &&& t.take(19) == "SSH Config:\n\nHost: "@
            &&& t.subrange(19, 19 + hl) == h
            &&& t.subrange(19 + hl, 26 + hl) == "\nPort: "@
            &&& t.subrange(26 + hl, 26 + hl + dl) == d
            &&& digits_value(t.subrange(26 + hl, 26 + hl + dl)) == p
            &&& t.subrange(26 + hl + dl, 46 + hl + dl) == "\n\nCommand: ssh root@"@
            &&& t.subrange(46 + hl + dl, 46 + 2 * hl + dl) == h
            &&& t.subrange(46 + 2 * hl + dl, 50 + 2 * hl + dl) == " -p "@
            &&& t.subrange(50 + 2 * hl + dl, 50 + 2 * hl + 2 * dl) == d
            &&& digits_value(t.subrange(50 + 2 * hl + dl, 50 + 2 * hl + 2 * dl)) == p
            &&& t.len() == 132 + 2 * hl + 2 * dl
        }),
{
    reveal_strlit("SSH Config:\n\nHost: ");
    reveal_strlit("\nPort: ");
    reveal_strlit("\n\nCommand: ssh root@");
    reveal_strlit(" -p ");
    reveal_strlit(
        "\n\nPlease change your password using `passwd` command before making a connection.\n\n",
    );
    lemma_decimal_reads_back(p as nat);
    let t = ssh_info_content(h, p);
    let hl = h.len() as int;
    let d = decimal(p as nat);
    let dl = d.len() as int;
    let l1 = "SSH Config:\n\nHost: "@;
    let l2 = "\nPort: "@;
    let l3 = "\n\nCommand: ssh root@"@;
    let l4 = " -p "@;
    let l5 = "\n\nPlease change your password using `passwd` command before making a connection.\n\n"@;
    assert(l1.len() == 19 && l2.len() == 7 && l3.len() == 20 && l4.len() == 4 && l5.len() == 82);
    assert(t == l1 + h + l2 + d + l3 + h + l4 + d + l5);
    assert(t.take(19) =~= l1);
    assert(t.subrange(19, 19 + hl) =~= h);
    assert(t.subrange(19 + hl, 26 + hl) =~= l2);
    assert(t.subrange(26 + hl, 26 + hl + dl) =~= d);
    assert(t.subrange(26 + hl + dl, 46 + hl + dl) =~= l3);
    assert(t.subrange(46 + hl + dl, 46 + 2 * hl + dl) =~= h);
    assert(t.subrange(46 + 2 * hl + dl, 50 + 2 * hl + dl) =~= l4);
    assert(t.subrange(50 + 2 * hl + dl, 50 + 2 * hl + 2 * dl) =~= d);
}

} // verus!

//! Decimal numbers as text, and the lines that the service logs for each
//! request and response.
use vstd::prelude::*;

verus! {

/// The character of a decimal digit.
pub open spec fn digit_char(d: nat) -> char {
    (48 + d) as char
}

/// The decimal text of `n`, most significant digit first, with no leading zero.
pub open spec fn decimal(n: nat) -> Seq<char>
    decreases n,
{
    if n < 10 {
        seq![digit_char(n)]
    } else {
        decimal(n / 10).push(digit_char(n % 10))
    }
}

/// The value of a decimal digit character.
pub open spec fn digit_value(c: char) -> int {
    c as int - 48
}

/// The number that a text of decimal digits stands for, read most significant
/// digit first.
pub open spec fn decimal_value(digits: Seq<char>) -> int
    decreases digits.len(),
{
    if digits.len() == 0 {
        0
    } else {
        decimal_value(digits.drop_last()) * 10 + digit_value(digits.last())
    }
}

/// The decimal text of a number reads back as that number: it is made of
/// decimal digits only, most significant first, has no leading zero, and its
/// value is the number.
pub proof fn lemma_decimal_reads_back(n: nat)
    ensures
        decimal_value(decimal(n)) == n,
        decimal(n).len() > 0,
        forall|i: int| 0 <= i < decimal(n).len() ==> 48 <= #[trigger] (decimal(n)[i] as int) <= 57,
        decimal(n).len() > 1 ==> decimal(n)[0] != '0',
    decreases n,
{
    if n < 10 {
        assert(decimal(n).drop_last() =~= Seq::<char>::empty());
        assert(digit_value(digit_char(n)) == n);
        assert(decimal_value(decimal(n)) == decimal_value(decimal(n).drop_last()) * 10 + digit_value(digit_char(n)));
        assert(decimal_value(Seq::<char>::empty()) == 0);
    } else {
        let high = (n / 10) as nat;
        lemma_decimal_reads_back(high);
        let d = decimal(n);
        assert(d == decimal(high).push(digit_char((n % 10) as nat)));
        assert(d.drop_last() =~= decimal(high));
        assert(decimal_value(d) == high * 10 + (n % 10));
        assert forall|i: int| 0 <= i < d.len() implies 48 <= #[trigger] (d[i] as int) <= 57 by {
            if i < d.len() - 1 {
                assert(d[i] == decimal(high)[i]);
            }
        }
        assert(d[0] == decimal(high)[0]);
        if decimal(high).len() == 1 {
            assert(high < 10) by {
                if high >= 10 {
                    assert(decimal(high) == decimal((high / 10) as nat).push(digit_char((high % 10) as nat)));
                    lemma_decimal_reads_back((high / 10) as nat);
                }
            }
            assert(decimal(high)[0] == digit_char(high));
        }
    }
}

/// Distinct numbers have distinct decimal texts.
pub proof fn lemma_decimal_is_one_to_one(m: nat, n: nat)
    ensures
        decimal(m) == decimal(n) ==> m == n,
{
    lemma_decimal_reads_back(m);
    lemma_decimal_reads_back(n);
}

/// The text of one decimal digit.
fn digit_text(d: u128) -> (text: &'static str)
    requires
        d < 10,
    ensures
        text@ == seq![digit_char(d as nat)],
{
    if d == 0 {
        proof { reveal_strlit("0"); }
        "0"
    } else if d == 1 {
        proof { reveal_strlit("1"); }
        "1"
    } else if d == 2 {
        proof { reveal_strlit("2"); }
        "2"
    } else if d == 3 {
        proof { reveal_strlit("3"); }
        "3"
    } else if d == 4 {
        proof { reveal_strlit("4"); }
        "4"
    } else if d == 5 {
        proof { reveal_strlit("5"); }
        "5"
    } else if d == 6 {
        proof { reveal_strlit("6"); }
        "6"
    } else if d == 7 {
        proof { reveal_strlit("7"); }
        "7"
    } else if d == 8 {
        proof { reveal_strlit("8"); }
        "8"
    } else {
        proof { reveal_strlit("9"); }
        "9"
    }
}

/// The decimal text of `n`.
pub fn decimal_text(n: u128) -> (text: String)
    ensures
        text@ == decimal(n as nat),
    decreases n,
{
    if n < 10 {
        let text = digit_text(n).to_owned();
        proof {
            assert(text@ =~= decimal(n as nat));
        }
        text
    } else {
        let mut text = decimal_text(n / 10);
        text.append(digit_text(n % 10));
        text
    }
}

/// The line logged for a request: its method, a tab and its path, then where
/// it came from when that is known.
pub open spec fn request_line_text(method: Seq<char>, path: Seq<char>, ip: Option<Seq<char>>) -> Seq<char> {
    let line = method + " \t"@ + path;
    match ip {
        Some(ip) => line + " -> from: "@ + ip,
        None => line,
    }
}

/// The line logged for a response: its status and how many microseconds it took.
pub open spec fn response_line_text(status: Seq<char>, elapsed_micros: nat) -> Seq<char> {
    "Response code: "@ + status + ", Elapsed: "@ + decimal(elapsed_micros) + "us"@
}

/// The marker of the request logging layer; the layer itself is the caller's.
pub struct RequestLogger;

impl RequestLogger {
    /// The line to log for a request.
    pub fn request_line(method: &str, path: &str, ip: Option<&str>) -> (line: String)
        ensures
            line@ == request_line_text(method@, path@, match ip {
                Some(ip) => Some(ip@),
                None => None,
            }),
    {
        let mut line = method.to_owned();
        line.append(" \t");
        line.append(path);
        match ip {
            Some(ip) => {
                line.append(" -> from: ");
                line.append(ip);
            },
            None => {},
        }
        line
    }

    /// The line to log for a response, where `status` is the status as text.
    pub fn response_line(status: &str, elapsed_micros: u128) -> (line: String)
        ensures
            line@ == response_line_text(status@, elapsed_micros as nat),
    {
        let mut line = "Response code: ".to_owned();
        line.append(status);
        line.append(", Elapsed: ");
        let micros = decimal_text(elapsed_micros);
        line.append(micros.as_str());
        line.append("us");
        line
    }
}

} // verus!

//! The textual form of a host with its port.
use vstd::prelude::*;
use vstd::string::*;

verus! {

/// The decimal digit `digit`.
pub open spec fn digit_char(digit: int) -> char {
    (('0' as int) + digit) as char
}

/// `number` in decimal notation, without leading zeros.
pub open spec fn decimal(number: nat) -> Seq<char>
    decreases number,
{
    if number < 10 {
        seq![digit_char(number as int)]
    } else {
        decimal(number / 10).push(digit_char((number % 10) as int))
    }
}

/// `host:port`.
pub open spec fn spec_host_port(host: Seq<char>, port: u16) -> Seq<char> {
    host.push(':') + decimal(port as nat)
}

fn push_digit(text: &mut String, digit: u16)
    requires
        digit < 10,
    ensures
        final(text)@ == old(text)@.push(digit_char(digit as int)),
{
    proof {
        reveal_strlit("0");
        reveal_strlit("1");
        reveal_strlit("2");
        reveal_strlit("3");
        reveal_strlit("4");
        reveal_strlit("5");
        reveal_strlit("6");
        reveal_strlit("7");
        reveal_strlit("8");
        reveal_strlit("9");
    }
    let symbol: &str = match digit {
        0 => "0",
        1 => "1",
        2 => "2",
        3 => "3",
        4 => "4",
        5 => "5",
        6 => "6",
        7 => "7",
        8 => "8",
        _ => "9",
    };
    assert(symbol@ =~= seq![digit_char(digit as int)]);
    text.append(symbol);
    assert(text@ =~= old(text)@.push(digit_char(digit as int)));
}

fn push_decimal(text: &mut String, number: u16)
    ensures
        final(text)@ == old(text)@ + decimal(number as nat),
    decreases number,
{
    if number >= 10 {
        push_decimal(text, number / 10);
    }
    push_digit(text, number % 10);
    assert(text@ =~= old(text)@ + decimal(number as nat));
}

/// Writes `host` and `port` as `host:port`, the form in which the system resolves them.
pub fn host_port(host: &String, port: u16) -> (text: String)
    ensures
        text@ == spec_host_port(host@, port),
{
    let mut text = host.clone();
    proof {
        reveal_strlit(":");
    }
    text.append(":");
    push_decimal(&mut text, port);
    assert(text@ =~= spec_host_port(host@, port));
    text
}

/// The ten digits are written `0` to `9`.
pub proof fn law_digits()
    ensures
        digit_char(0) == '0',
        digit_char(1) == '1',
        digit_char(2) == '2',
        digit_char(3) == '3',
        digit_char(4) == '4',
        digit_char(5) == '5',
        digit_char(6) == '6',
        digit_char(7) == '7',
        digit_char(8) == '8',
        digit_char(9) == '9',
{
}

/// A number below ten is written as its digit, and a digit behind a number is written behind it.
pub proof fn law_decimal_grows_by_its_last_digit(number: nat, digit: nat)
    requires
        digit < 10,
    ensures
        decimal(digit) == seq![(('0' as int) + digit) as char],
        number > 0 ==> decimal(10 * number + digit) == decimal(number).push(
            (('0' as int) + digit) as char,
        ),
{
    if number > 0 {
        let longer = 10 * number + digit;
        assert(longer / 10 == number && longer % 10 == digit) by (nonlinear_arith)
            requires
                longer == 10 * number + digit,
                digit < 10,
        ;
    }
}

/// A number is written in digits alone, and 0 is the only number that is written with a zero in
/// front.
pub proof fn law_decimal_is_made_of_digits(number: nat)
    ensures
        decimal(number).len() > 0,
        forall|i: int| 0 <= i < decimal(number).len() ==> '0' <= #[trigger] decimal(number)[i] <= '9',
        decimal(number)[0] == '0' ==> number == 0,
    decreases number,
{
    if number >= 10 {
        law_decimal_is_made_of_digits(number / 10);
    }
}

/// Different numbers are written differently.
pub proof fn law_decimal_tells_numbers_apart(left: nat, right: nat)
    requires
        decimal(left) == decimal(right),
    ensures
        left == right,
    decreases left,
{
    law_decimal_is_made_of_digits(left / 10);
    law_decimal_is_made_of_digits(right / 10);
    assert(decimal(left).last() == digit_char((left % 10) as int));
    assert(decimal(right).last() == digit_char((right % 10) as int));
    assert(left % 10 == right % 10);
    if left >= 10 && right >= 10 {
        assert(decimal(left).drop_last() =~= decimal(left / 10));
        assert(decimal(right).drop_last() =~= decimal(right / 10));
        law_decimal_tells_numbers_apart(left / 10, right / 10);
    } else if left >= 10 {
        assert(decimal(left).len() == decimal(left / 10).len() + 1);
    } else if right >= 10 {
        assert(decimal(right).len() == decimal(right / 10).len() + 1);
    }
}

/// The text starts with the host, goes on with one colon, and ends with the port.
pub proof fn law_host_port_in_parts(host: String, port: u16, text: String)
    requires
        call_ensures(host_port, (&host, port), text),
    ensures
        text@ == host@ + seq![':'] + decimal(port as nat),
        text@ == spec_host_port(host@, port),
{
    assert(text@ =~= host@ + seq![':'] + decimal(port as nat));
}

/// Texts for two ports of a host differ.
pub proof fn law_host_port_tells_ports_apart(host: Seq<char>, left: u16, right: u16)
    requires
        spec_host_port(host, left) == spec_host_port(host, right),
    ensures
        left == right,
{
    let start = (host.len() + 1) as int;
    assert(spec_host_port(host, left).skip(start) =~= decimal(left as nat));
    assert(spec_host_port(host, right).skip(start) =~= decimal(right as nat));
    law_decimal_tells_numbers_apart(left as nat, right as nat);
}

} // verus!

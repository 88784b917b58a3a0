//! Hexadecimal numbers.
use vstd::prelude::*;
use vstd::string::StringExecFns;

verus! {

/// The hexadecimal digit for a number below 16.
pub open spec fn digit(d: u16, upper: bool) -> char {
    match d {
        0 => '0',
        1 => '1',
        2 => '2',
        3 => '3',
        4 => '4',
        5 => '5',
        6 => '6',
        7 => '7',
        8 => '8',
        9 => '9',
        10 => if upper { 'A' } else { 'a' },
        11 => if upper { 'B' } else { 'b' },
        12 => if upper { 'C' } else { 'c' },
        13 => if upper { 'D' } else { 'd' },
        14 => if upper { 'E' } else { 'e' },
        _ => if upper { 'F' } else { 'f' },
    }
}

/// The four hexadecimal digits of a number.
pub open spec fn four_digits(n: u16, upper: bool) -> Seq<char> {
    seq![
        digit((n / 4096) as u16, upper),
        digit((n / 256 % 16) as u16, upper),
        digit((n / 16 % 16) as u16, upper),
        digit((n % 16) as u16, upper),
    ]
}

fn digit_text(d: u16, upper: bool) -> (r: &'static str)
    requires
        d < 16,
    ensures
        r@ == seq![digit(d, upper)],
{
    proof {
        reveal_strlit("0");
        reveal_strlit("1");
        reveal_strlit("2");
        reveal_strlit("3");
        reveal_strlit("4");
        reveal_strlit("5");
        reveal_strlit("6");
        reveal_strlit("7");
        reveal_strlit("8");
        reveal_strlit("9");
        reveal_strlit("a");
        reveal_strlit("b");
        reveal_strlit("c");
        reveal_strlit("d");
        reveal_strlit("e");
        reveal_strlit("f");
        reveal_strlit("A");
        reveal_strlit("B");
        reveal_strlit("C");
        reveal_strlit("D");
        reveal_strlit("E");
        reveal_strlit("F");
    }
    let r: &'static str = match d {
        0 => "0",
        1 => "1",
        2 => "2",
        3 => "3",
        4 => "4",
        5 => "5",
        6 => "6",
        7 => "7",
        8 => "8",
        9 => "9",
        10 => if upper { "A" } else { "a" },
        11 => if upper { "B" } else { "b" },
        12 => if upper { "C" } else { "c" },
        13 => if upper { "D" } else { "d" },
        14 => if upper { "E" } else { "e" },
        _ => if upper { "F" } else { "f" },
    };
    assert(r@ =~= seq![digit(d, upper)]);
    r
}

/// The four hexadecimal digits of a number.
pub fn four_digits_text(n: u16, upper: bool) -> (r: String)
    ensures
        r@ == four_digits(n, upper),
{
    let r = digit_text(n / 4096, upper).to_owned().concat(
        digit_text(n / 256 % 16, upper),
    ).concat(digit_text(n / 16 % 16, upper)).concat(digit_text(n % 16, upper));
    assert(r@ =~= four_digits(n, upper));
    r
}

/// The number that a hexadecimal digit stands for.
pub open spec fn digit_value(c: char) -> int {
    if '0' <= c && c <= '9' {
        c as u32 - 48
    } else if 'A' <= c && c <= 'F' {
        c as u32 - 55
    } else {
        c as u32 - 87
    }
}

/// The four digits of a number, read as a hexadecimal number, give the number. Letters
/// are all large, or all small.
pub proof fn digits_can_be_read_back(n: u16, upper: bool)
    ensures
        four_digits(n, upper).len() == 4,
        forall|i: int|
            0 <= i < 4 ==> {
                let c = #[trigger] four_digits(n, upper)[i];
                ('0' <= c && c <= '9') || (upper && 'A' <= c && c <= 'F') || (!upper && 'a' <= c
                    && c <= 'f')
            },
        ({
            let s = four_digits(n, upper);
            n == digit_value(s[0]) * 4096 + digit_value(s[1]) * 256 + digit_value(s[2]) * 16
                + digit_value(s[3])
        }),
{
    let s = four_digits(n, upper);
    assert(n / 4096 < 16 && n / 256 % 16 < 16 && n / 16 % 16 < 16 && n % 16 < 16);
    assert(n == n / 4096 * 4096 + n / 256 % 16 * 256 + n / 16 % 16 * 16 + n % 16);
    assert(digit_value(s[0]) == n / 4096);
    assert(digit_value(s[1]) == n / 256 % 16);
    assert(digit_value(s[2]) == n / 16 % 16);
    assert(digit_value(s[3]) == n % 16);
}

} // verus!

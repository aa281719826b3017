//! What the environment of the process settles.

use vstd::prelude::*;

use crate::publish::UpdateHost;

verus! {

/// The port to listen on where the environment names none.
pub const DEFAULT_PORT: u16 = 7878;

/// The digits of a number in decimal, which stand behind an optional plus.
pub open spec fn digits_of(text: Seq<char>) -> Seq<char> {
    if text.len() > 0 && text[0] == '+' {
        text.skip(1)
    } else {
        text
    }
}

/// One digit or more, and nothing else.
pub open spec fn all_digits(digits: Seq<char>) -> bool {
    &&& digits.len() > 0
    &&& forall|i: int| 0 <= i < digits.len() ==> '0' <= #[trigger] digits[i] <= '9'
}

/// The number that decimal digits stand for.
pub open spec fn decimal(digits: Seq<char>) -> int
    decreases digits.len(),
{
    if digits.len() == 0 {
        0
    } else {
        decimal(digits.drop_last()) * 10 + (digits.last() as int - '0' as int)
    }
}

/// The text is a port number.
pub open spec fn names_port(text: Seq<char>) -> bool {
    all_digits(digits_of(text)) && decimal(digits_of(text)) <= u16::MAX
}

/// What one more character does to the digits of a text.
proof fn lemma_digits_of_push(text: Seq<char>, c: char)
    ensures
        text.len() > 0 ==> digits_of(text.push(c)) == digits_of(text).push(c),
        text.len() == 0 && c == '+' ==> digits_of(text.push(c)) == Seq::<char>::empty(),
        text.len() == 0 && c != '+' ==> digits_of(text.push(c)) == seq![c],
{
    let longer = text.push(c);
    if text.len() > 0 {
        assert(longer[0] == text[0]);
        if text[0] == '+' {
            assert(longer.skip(1) =~= text.skip(1).push(c));
        }
    } else if c == '+' {
        assert(longer.skip(1) =~= Seq::empty());
    } else {
        assert(longer =~= seq![c]);
    }
}

/// What one more character does to the number that digits stand for.
proof fn lemma_decimal_push(digits: Seq<char>, c: char)
    ensures
        decimal(digits.push(c)) == decimal(digits) * 10 + (c as int - '0' as int),
{
    assert(digits.push(c).drop_last() =~= digits);
}

/// The number that the text names, or `None` where it is no port number.
fn parse_port(text: &str) -> (number: Option<u16>)
    ensures
        number is Some <==> names_port(text@),
        number is Some ==> number->0 == decimal(digits_of(text@)),
{
    let mut first = true;
    let mut any = false;
    let mut only_digits = true;
    let mut fits = true;
    let mut value: u32 = 0;
    for c in it: text.chars()
        invariant
            it.seq() == text@,
            first == (it.index() == 0),
            any == (digits_of(text@.take(it.index())).len() > 0),
            only_digits == (forall|i: int|
                0 <= i < digits_of(text@.take(it.index())).len() ==> '0'
                    <= #[trigger] digits_of(text@.take(it.index()))[i] <= '9'),
            value <= u16::MAX,
            only_digits && fits ==> value == decimal(digits_of(text@.take(it.index()))),
            only_digits && !fits ==> decimal(digits_of(text@.take(it.index()))) > u16::MAX,
    {
        let ghost before = digits_of(text@.take(it.index()));
        let ghost after = digits_of(text@.take(it.index() + 1));
        proof {
            assert(text@.take(it.index() + 1) =~= text@.take(it.index()).push(c));
            lemma_digits_of_push(text@.take(it.index()), c);
            lemma_decimal_push(before, c);
            if first && c != '+' {
                assert(before =~= Seq::empty());
                assert(after =~= before.push(c));
            }
            assert(!(first && c == '+') ==> after == before.push(c));
            assert(!(first && c == '+') ==> after[before.len() as int] == c);
            assert(forall|i: int|
                0 <= i < before.len() && !(first && c == '+') ==> after[i] == before[i]);
        }
        if !(first && c == '+') {
            any = true;
            if '0' <= c && c <= '9' {
                let digit: u32 = c as u32 - '0' as u32;
                if value * 10 + digit <= u16::MAX as u32 {
                    value = value * 10 + digit;
                } else {
                    fits = false;
                }
            } else {
                only_digits = false;
            }
        }
        first = false;
    }
    assert(text@.take(text@.len() as int) =~= text@);
    if any && only_digits && fits {
        Some(value as u16)
    } else {
        None
    }
}

/// The port to listen on, from the value of `PORT`, if it has one: that number, or
/// else the default, also where the value is no port number.
pub fn listen_port(port: Option<String>) -> (number: u16)
    ensures
        number == (match port {
            Some(text) if names_port(text@) => decimal(digits_of(text@)),
            _ => 7878,
        }),
{
    match port {
        Some(text) => {
            match parse_port(text.as_str()) {
                Some(number) => number,
                None => DEFAULT_PORT,
            }
        },
        None => DEFAULT_PORT,
    }
}

/// The update host, from the values of `UPDATES_DIR` and `UPDATE_UPLOAD_TOKEN`,
/// where they have one: the directory is `updates` where none is named.
pub fn update_host(updates_dir: Option<String>, upload_token: Option<String>) -> (host: UpdateHost)
    ensures
        host.updates_dir@ == (match updates_dir {
            Some(dir) => dir@,
            None => "updates"@,
        }),
        host.upload_token == upload_token,
{
    let updates_dir = match updates_dir {
        Some(dir) => dir,
        None => "updates".to_owned(),
    };
    UpdateHost { updates_dir, upload_token }
}

/// What the number that digits stand for is: zero for none, and with one more digit
/// ten times as much and that digit.
pub proof fn law_what_digits_stand_for(digits: Seq<char>, c: char)
    ensures
        digits.len() == 0 ==> decimal(digits) == 0,
        decimal(digits.push(c)) == 10 * decimal(digits) + c as int - 48,
{
    lemma_decimal_push(digits, c);
}

/// What a port number is: digits, one at least, of a number below 65536, with a plus
/// before them or not.
pub proof fn law_which_texts_name_a_port(text: Seq<char>, plus: int)
    requires
        plus == 0 || plus == 1,
        plus == 1 <==> text.len() > 0 && text[0] == '+',
    ensures
        digits_of(text).len() == text.len() - plus,
        forall|i: int|
            0 <= i < text.len() - plus ==> #[trigger] digits_of(text)[i] == text[plus + i],
        names_port(text) <==> {
            &&& text.len() > plus
            &&& forall|i: int| plus <= i < text.len() ==> 48 <= (#[trigger] text[i]) as int <= 57
            &&& decimal(digits_of(text)) < 65536
        },
{
    let digits = digits_of(text);
    if all_digits(digits) {
        assert forall|i: int| plus <= i < text.len() implies 48 <= (#[trigger] text[i]) as int
            <= 57 by {
            assert(digits[i - plus] == text[i]);
        }
    }
}

/// Zeros before a number do not change it.
pub proof fn law_leading_zeros_do_not_count(digits: Seq<char>)
    ensures
        decimal(seq!['0'] + digits) == decimal(digits),
    decreases digits.len(),
{
    let longer = seq!['0'] + digits;
    if digits.len() == 0 {
        assert(longer =~= Seq::<char>::empty().push('0'));
        lemma_decimal_push(Seq::empty(), '0');
    } else {
        law_leading_zeros_do_not_count(digits.drop_last());
        assert(longer.drop_last() =~= seq!['0'] + digits.drop_last());
        assert(longer.last() == digits.last());
    }
}

/// Every port can be named: some text names it, and is read as that very number.
pub proof fn law_every_port_can_be_named(port: u16)
    ensures
        exists|text: Seq<char>| #[trigger] names_port(text) && decimal(digits_of(text)) == port,
    decreases port,
{
    let c = (port % 10 + 48) as char;
    if port < 10 {
        let text = Seq::<char>::empty().push(c);
        lemma_decimal_push(Seq::empty(), c);
        assert(digits_of(text) == text);
        assert(names_port(text));
    } else {
        law_every_port_can_be_named(port / 10);
        let shorter = choose|text: Seq<char>| #[trigger]
            names_port(text) && decimal(digits_of(text)) == port / 10;
        let text = digits_of(shorter).push(c);
        lemma_decimal_push(digits_of(shorter), c);
        assert(digits_of(shorter)[0] == text[0]);
        assert(digits_of(text) == text);
        assert(names_port(text));
    }
}

} // verus!

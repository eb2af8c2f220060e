//! The line that shows how far a training run has come.

use vstd::prelude::*;

verus! {

/// The number of places in the bar.
pub const BAR_LENGTH: usize = 50;

/// The character of a decimal digit.
pub open spec fn digit_of(d: nat) -> char {
    if d == 0 {
        '0'
    } else if d == 1 {
        '1'
    } else if d == 2 {
        '2'
    } else if d == 3 {
        '3'
    } else if d == 4 {
        '4'
    } else if d == 5 {
        '5'
    } else if d == 6 {
        '6'
    } else if d == 7 {
        '7'
    } else if d == 8 {
        '8'
    } else {
        '9'
    }
}

/// The decimal digits of `n`, the most significant first.
pub open spec fn decimal(n: nat) -> Seq<char>
    decreases n,
{
    if n < 10 {
        seq![digit_of(n)]
    } else {
        decimal(n / 10).push(digit_of(n % 10))
    }
}

/// The line for `epoch` with `filled` places of the bar filled: the word
/// and the number of the epoch, and between brackets a bar of `BAR_LENGTH`
/// places, the filled ones first.
pub open spec fn bar_of(epoch: nat, filled: nat) -> Seq<char> {
    seq!['\r', 'E', 'p', 'o', 'c', 'h', ' '] + decimal(epoch) + seq![' ', '['] + Seq::new(
        filled,
        |i: int| '=',
    ) + Seq::new((BAR_LENGTH - filled) as nat, |i: int| ' ') + seq![']', ' ']
}

/// The digits of what is left of a number when digits have been taken off
/// its end: none where nothing is left.
spec fn leading(n: nat) -> Seq<char> {
    if n == 0 {
        Seq::empty()
    } else {
        decimal(n)
    }
}

fn digit(d: usize) -> (c: char)
    requires
        d < 10,
    ensures
        c == digit_of(d as nat),
{
    if d == 0 {
        '0'
    } else if d == 1 {
        '1'
    } else if d == 2 {
        '2'
    } else if d == 3 {
        '3'
    } else if d == 4 {
        '4'
    } else if d == 5 {
        '5'
    } else if d == 6 {
        '6'
    } else if d == 7 {
        '7'
    } else if d == 8 {
        '8'
    } else {
        '9'
    }
}

/// Writes a number in decimal.
pub fn decimal_digits(n: usize) -> (digits: Vec<char>)
    ensures
        digits@ == decimal(n as nat),
{
    // The digits come out least significant first.
    let mut backwards: Vec<char> = Vec::new();
    let mut left = n;
    backwards.push(digit(left % 10));
    left = left / 10;
    assert(decimal(n as nat) =~= leading(left as nat) + backwards@.reverse());
    while left > 0
        invariant
            decimal(n as nat) == leading(left as nat) + backwards@.reverse(),
        decreases left,
    {
        let ghost before = backwards@;
        let ghost more = left;
        backwards.push(digit(left % 10));
        left = left / 10;
        assert(leading(more as nat) =~= leading(left as nat).push(digit_of((more % 10) as nat)));
        assert(backwards@.reverse() =~= seq![digit_of((more % 10) as nat)] + before.reverse());
        assert(decimal(n as nat) =~= leading(left as nat) + backwards@.reverse());
    }
    let mut digits: Vec<char> = Vec::with_capacity(backwards.len());
    let mut i: usize = backwards.len();
    while i > 0
        invariant
            i <= backwards.len(),
            digits@ == backwards@.reverse().take(backwards.len() - i),
        decreases i,
    {
        i -= 1;
        digits.push(backwards[i]);
        assert(digits@ =~= backwards@.reverse().take(backwards.len() - i));
    }
    assert(digits@ =~= backwards@.reverse());
    digits
}

/// Appends `count` copies of `c`.
fn push_run(line: &mut Vec<char>, c: char, count: usize)
    ensures
        final(line)@ == old(line)@ + Seq::new(count as nat, |i: int| c),
{
    let mut i: usize = 0;
    while i < count
        invariant
            i <= count,
            line@ == old(line)@ + Seq::new(i as nat, |i: int| c),
        decreases count - i,
    {
        line.push(c);
        i += 1;
        assert(line@ =~= old(line)@ + Seq::new(i as nat, |i: int| c));
    }
}

/// Makes the line for `epoch` with `filled` places of the bar filled.
pub fn progress_bar(epoch: usize, filled: usize) -> (line: Vec<char>)
    requires
        filled <= BAR_LENGTH,
    ensures
        line@ == bar_of(epoch as nat, filled as nat),
{
    let mut line: Vec<char> = Vec::new();
    line.push('\r');
    line.push('E');
    line.push('p');
    line.push('o');
    line.push('c');
    line.push('h');
    line.push(' ');
    let mut number = decimal_digits(epoch);
    line.append(&mut number);
    line.push(' ');
    line.push('[');
    assert(line@ =~= seq!['\r', 'E', 'p', 'o', 'c', 'h', ' '] + decimal(epoch as nat) + seq![' ', '[']);
    push_run(&mut line, '=', filled);
    push_run(&mut line, ' ', BAR_LENGTH - filled);
    line.push(']');
    line.push(' ');
    assert(line@ =~= bar_of(epoch as nat, filled as nat));
    line
}

} // verus!

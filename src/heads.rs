use vstd::prelude::*;

use crate::render::push_char;

verus! {

/// What one poll of a subscription to new block heads gave.
#[derive(Clone, Copy, Debug, PartialEq, Eq, Structural)]
pub enum HeadEvent {
    /// A new head arrived, with its block number.
    Head(u64),
    /// The subscription reported an error.
    Failed,
    /// The subscription has no more items.
    Ended,
}

/// What the loop does next.
#[derive(Clone, Debug, PartialEq, Eq)]
pub enum HeadStep {
    /// Print this line and poll again.
    Print(String),
    /// Leave the loop: the subscription failed or ended.
    Stop,
}

/// The decimal digit `d`.
pub open spec fn digit(d: nat) -> char {
    "0123456789"@[d as int]
}

/// The decimal notation of `n`, without leading zeros.
pub open spec fn decimal(n: nat) -> Seq<char>
    decreases n,
{
    if n < 10 {
        seq![digit(n)]
    } else {
        decimal(n / 10).push(digit(n % 10))
    }
}

/// The line printed for a new head.
pub open spec fn head_line(n: nat) -> Seq<char> {
    "BLOCK EVENT #"@ + decimal(n)
}

fn push_decimal(out: &mut String, n: u64)
    ensures
        final(out)@ == old(out)@ + decimal(n as nat),
    decreases n,
{
    let digits = "0123456789";
    proof {
        reveal_strlit("0123456789");
    }
    if n >= 10 {
        push_decimal(out, n / 10);
    }
    push_char(out, digits.get_char((n % 10) as usize));
    proof {
        assert(out@ =~= old(out)@ + decimal(n as nat));
    }
}

/// The decimal notation of a number.
pub fn decimal_string(n: u64) -> (r: String)
    ensures
        r@ == decimal(n as nat),
{
    let mut out = String::new();
    push_decimal(&mut out, n);
    proof {
        assert(out@ =~= decimal(n as nat));
    }
    out
}

/// The line printed for a new head with block number `n`.
pub fn head_message(n: u64) -> (r: String)
    ensures
        r@ == head_line(n as nat),
{
    let mut line = String::from_str("BLOCK EVENT #");
    let number = decimal_string(n);
    line.append(number.as_str());
    line
}

/// Decides what follows one poll of the subscription: each new head is
/// printed with its block number; the first error, or the end of the
/// subscription, ends the loop.
pub fn next_step(event: HeadEvent) -> (r: HeadStep)
    ensures
        match event {
            HeadEvent::Head(n) => r matches HeadStep::Print(line) && line@ == head_line(n as nat),
            _ => r is Stop,
        },
{
    match event {
        HeadEvent::Head(n) => HeadStep::Print(head_message(n)),
        _ => HeadStep::Stop,
    }
}

} // verus!

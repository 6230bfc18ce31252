//! Storage keys: `"ticket-"` followed by the decimal digits of a ticket id.
use vstd::prelude::*;

verus! {

/// The character of a decimal digit.
pub open spec fn digit_char(d: nat) -> char {
    seq!['0', '1', '2', '3', '4', '5', '6', '7', '8', '9'][d as int]
}

/// The decimal representation of `n`, without leading zeros.
pub open spec fn decimal(n: nat) -> Seq<char>
    decreases n,
{
    if n < 10 {
        seq![digit_char(n)]
    } else {
        decimal(n / 10).push(digit_char(n % 10))
    }
}

/// The prefix of every ticket key.
pub open spec fn key_prefix() -> Seq<char> {
    seq!['t', 'i', 'c', 'k', 'e', 't', '-']
}

/// The storage key of ticket `id`.
pub open spec fn ticket_key(id: nat) -> Seq<char> {
    key_prefix() + decimal(id)
}

fn digit_str(d: u32) -> (s: &'static str)
    requires
        d < 10,
    ensures
        s@ == seq![digit_char(d as nat)],
{
    proof {
        reveal_strlit("0");
        reveal_strlit("1");
        reveal_strlit("2");
        reveal_strlit("3");
        reveal_strlit("4");
        reveal_strlit("5");
        reveal_strlit("6");
        reveal_strlit("7");
        reveal_strlit("8");
        reveal_strlit("9");
    }
    let s = if d == 0 {
        "0"
    } else if d == 1 {
        "1"
    } else if d == 2 {
        "2"
    } else if d == 3 {
        "3"
    } else if d == 4 {
        "4"
    } else if d == 5 {
        "5"
    } else if d == 6 {
        "6"
    } else if d == 7 {
        "7"
    } else if d == 8 {
        "8"
    } else {
        "9"
    };
    assert(s@ =~= seq![digit_char(d as nat)]);
    s
}

/// The decimal digits of `n`.
pub fn decimal_string(n: u32) -> (r: String)
    ensures
        r@ == decimal(n as nat),
    decreases n,
{
    if n < 10 {
        digit_str(n).to_owned()
    } else {
        let head = decimal_string(n / 10);
        let r = head.concat(digit_str(n % 10));
        assert(r@ =~= decimal(n as nat));
        r
    }
}

/// The storage key `"ticket-{id}"` of ticket `id`.
pub fn ticket_key_string(id: u32) -> (r: String)
    ensures
        r@ == ticket_key(id as nat),
{
    proof {
        reveal_strlit("ticket-");
    }
    let prefix: &str = "ticket-";
    assert(prefix@ =~= key_prefix());
    let digits = decimal_string(id);
    let r = prefix.to_owned().concat(digits.as_str());
    r
}

/// The read/write set of a reservation request: the single key of the ticket
/// it claims. The identity fields play no part in it, and the store is not
/// consulted.
pub fn get_rw_set(ticket_id: u32, _res_email: &str, _res_name: &str, _res_card: &str) -> (r: Vec<
    String,
>)
    ensures
        r@.len() == 1,
        r@[0]@ == ticket_key(ticket_id as nat),
{
    let mut r: Vec<String> = Vec::new();
    r.push(ticket_key_string(ticket_id));
    r
}

} // verus!

//! Verified text for the inspector's rows: decimal notation, the colour
//! swatch label, and the per-node line of the tree listing.
//!
//! The host only lays these strings out; everything they say about a node
//! is fixed here.

use vstd::prelude::*;

use crate::registry::{NodeRecord, RecordModel};

verus! {

/// The character for one decimal digit.
pub open spec fn digit_char(d: nat) -> char {
    if d == 0 {
        '0'
    } else if d == 1 {
        '1'
    } else if d == 2 {
        '2'
    } else if d == 3 {
        '3'
    } else if d == 4 {
        '4'
    } else if d == 5 {
        '5'
    } else if d == 6 {
        '6'
    } else if d == 7 {
        '7'
    } else if d == 8 {
        '8'
    } else {
        '9'
    }
}

/// Decimal notation of `n`, most significant digit first, no padding.
pub open spec fn dec_str(n: nat) -> Seq<char>
    decreases n,
{
    if n < 10 {
        seq![digit_char(n)]
    } else {
        dec_str(n / 10) + seq![digit_char(n % 10)]
    }
}

/// Appends one digit.
fn append_digit(s: &mut String, d: u64)
    requires
        d < 10,
    ensures
        final(s)@ == old(s)@ + seq![digit_char(d as nat)],
{
    if d == 0 {
        s.append("0");
        proof {
            reveal_strlit("0");
            assert("0"@ =~= seq!['0']);
        }
    } else if d == 1 {
        s.append("1");
        proof {
            reveal_strlit("1");
            assert("1"@ =~= seq!['1']);
        }
    } else if d == 2 {
        s.append("2");
        proof {
            reveal_strlit("2");
            assert("2"@ =~= seq!['2']);
        }
    } else if d == 3 {
        s.append("3");
        proof {
            reveal_strlit("3");
            assert("3"@ =~= seq!['3']);
        }
    } else if d == 4 {
        s.append("4");
        proof {
            reveal_strlit("4");
            assert("4"@ =~= seq!['4']);
        }
    } else if d == 5 {
        s.append("5");
        proof {
            reveal_strlit("5");
            assert("5"@ =~= seq!['5']);
        }
    } else if d == 6 {
        s.append("6");
        proof {
            reveal_strlit("6");
            assert("6"@ =~= seq!['6']);
        }
    } else if d == 7 {
        s.append("7");
        proof {
            reveal_strlit("7");
            assert("7"@ =~= seq!['7']);
        }
    } else if d == 8 {
        s.append("8");
        proof {
            reveal_strlit("8");
            assert("8"@ =~= seq!['8']);
        }
    } else {
        s.append("9");
        proof {
            reveal_strlit("9");
            assert("9"@ =~= seq!['9']);
        }
    }
}

/// Appends the decimal notation of `n`.
pub fn append_decimal(s: &mut String, n: u64)
    ensures
        final(s)@ == old(s)@ + dec_str(n as nat),
    decreases n,
{
    if n < 10 {
        append_digit(s, n);
    } else {
        append_decimal(s, n / 10);
        append_digit(s, n % 10);
        proof {
            assert((old(s)@ + dec_str((n / 10) as nat)) + seq![digit_char((n % 10) as nat)]
                =~= old(s)@ + dec_str(n as nat));
        }
    }
}

/// Decimal notation of `n` as its own string.
pub fn decimal(n: u64) -> (s: String)
    ensures
        s@ == dec_str(n as nat),
{
    let mut s = String::new();
    append_decimal(&mut s, n);
    proof {
        assert(Seq::<char>::empty() + dec_str(n as nat) =~= dec_str(n as nat));
    }
    s
}

/// The label shown beside a resolved colour value: `rgb(r, g, b)`.
pub open spec fn rgb_str(r: nat, g: nat, b: nat) -> Seq<char> {
    "rgb("@ + dec_str(r) + ", "@ + dec_str(g) + ", "@ + dec_str(b) + ")"@
}

/// Renders [`rgb_str`] for one colour's channels.
pub fn rgb_label(r: u8, g: u8, b: u8) -> (out: String)
    ensures
        out@ == rgb_str(r as nat, g as nat, b as nat),
{
    let mut s = String::from_str("rgb(");
    append_decimal(&mut s, r as u64);
    s.append(", ");
    append_decimal(&mut s, g as u64);
    s.append(", ");
    append_decimal(&mut s, b as u64);
    s.append(")");
    proof {
        assert(s@ =~= rgb_str(r as nat, g as nat, b as nat));
    }
    s
}

/// The listener-count suffix of a node's line: `(k)` for an element with
/// `k` listeners, nothing for text and placeholder nodes.  In a
/// well-formed record the names are pairwise distinct, so `k` is the
/// size of the listener set.
pub open spec fn listener_suffix(listeners: Option<Seq<Seq<char>>>) -> Seq<char> {
    match listeners {
        Option::Some(l) => "("@ + dec_str(l.len()) + ")"@,
        Option::None => Seq::empty(),
    }
}

/// One line of the tree listing: the tag, the stable identity, and the
/// listener count, as in `rect #7 (2)`.
pub open spec fn node_label_str(m: RecordModel) -> Seq<char> {
    m.tag + " #"@ + dec_str(m.id.0 as nat) + " "@ + listener_suffix(m.listeners)
}

/// Renders [`node_label_str`] for one record.
pub fn node_label(record: &NodeRecord) -> (out: String)
    ensures
        out@ == node_label_str(record@),
{
    let mut s = record.tag.clone();
    s.append(" #");
    append_decimal(&mut s, record.id.0);
    s.append(" ");
    match &record.listeners {
        Some(l) => {
            s.append("(");
            append_decimal(&mut s, l.len() as u64);
            s.append(")");
            proof {
                assert(record@.listeners->0.len() == l@.len());
                assert(s@ =~= node_label_str(record@));
            }
        },
        None => {
            proof {
                assert(s@ =~= node_label_str(record@));
            }
        },
    }
    s
}

/// Whether the inspector offers a trigger for this listener: only the
/// pointer pair `mousedown` and `click` get one.
pub fn pointer_trigger_available(name: &str) -> (b: bool)
    ensures
        b == (name@ == "mousedown"@ || name@ == "click"@),
{
    let s = String::from_str(name);
    let down = String::from_str("mousedown");
    let click = String::from_str("click");
    s == down || s == click
}

/// The colour a listener row is written in: white for the pointer pair
/// that can be triggered, grey for the rest.
pub fn listener_label_color(name: &str) -> (c: &'static str)
    ensures
        (name@ == "mousedown"@ || name@ == "click"@) ==> c@ == "white"@,
        !(name@ == "mousedown"@ || name@ == "click"@) ==> c@ == "rgb(200, 200, 200)"@,
{
    if pointer_trigger_available(name) {
        "white"
    } else {
        "rgb(200, 200, 200)"
    }
}

} // verus!

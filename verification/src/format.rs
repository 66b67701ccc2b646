//! Amounts and durations as text for display.

use vstd::prelude::*;
use vstd::string::*;

use crate::text::{decimal_text, lemma_decimal_round_trip, u64_to_string};

verus! {

/// An amount as shown to the user: in whole units where it is a multiple of
/// a thousand, in thousandths otherwise, and `Any amount` where none is set.
pub open spec fn amount_text(amount_msats: Option<u64>) -> Seq<char> {
    match amount_msats {
        None => "Any amount"@,
        Some(msats) => if msats % 1000 == 0 {
            decimal_text((msats / 1000) as nat) + " sats"@
        } else {
            decimal_text(msats as nat) + " msats"@
        },
    }
}

/// `text` with one more part, `count` followed by `unit`, set off by a space;
/// a count of zero adds nothing.
pub open spec fn with_part(text: Seq<char>, count: nat, unit: Seq<char>) -> Seq<char> {
    if count == 0 {
        text
    } else if text.len() == 0 {
        decimal_text(count) + unit
    } else {
        text + " "@ + decimal_text(count) + unit
    }
}

/// A number of seconds as days, hours, minutes and seconds, leaving out the
/// parts that are zero; `0s` for no time at all.
pub open spec fn expiry_text(seconds: u64) -> Seq<char> {
    if seconds == 0 {
        "0s"@
    } else {
        with_part(
            with_part(
                with_part(
                    with_part(Seq::empty(), (seconds / 86_400) as nat, "d"@),
                    (seconds % 86_400 / 3_600) as nat,
                    "h"@,
                ),
                (seconds % 3_600 / 60) as nat,
                "m"@,
            ),
            (seconds % 60) as nat,
            "s"@,
        )
    }
}

/// Formats an amount in thousandths of the smallest unit for display.
pub fn format_amount(amount_msats: Option<u64>) -> (text: String)
    ensures
        text@ == amount_text(amount_msats),
{
    match amount_msats {
        None => String::from_str("Any amount"),
        Some(msats) => if msats % 1000 == 0 {
            u64_to_string(msats / 1000).concat(" sats")
        } else {
            u64_to_string(msats).concat(" msats")
        },
    }
}

fn push_part(text: &mut String, count: u64, unit: &str)
    ensures
        final(text)@ == with_part(old(text)@, count as nat, unit@),
{
    if count > 0 {
        proof {
            lemma_decimal_round_trip(count as nat);
        }
        if text.as_str().unicode_len() > 0 {
            text.append(" ");
        }
        text.append(u64_to_string(count).as_str());
        text.append(unit);
        assert(text@ =~= with_part(old(text)@, count as nat, unit@));
    }
}

proof fn lemma_split_seconds(seconds: u64)
    ensures
        seconds % 86_400 % 3_600 == seconds % 3_600,
        seconds % 86_400 % 3_600 % 60 == seconds % 60,
{
}

/// Formats a number of seconds as a short duration such as `1h 30m`.
pub fn format_expiry(seconds: u64) -> (text: String)
    ensures
        text@ == expiry_text(seconds),
{
    if seconds == 0 {
        return String::from_str("0s");
    }
    let mut remaining = seconds;
    let days = remaining / 86_400;
    remaining = remaining % 86_400;
    let hours = remaining / 3_600;
    remaining = remaining % 3_600;
    let minutes = remaining / 60;
    let secs = remaining % 60;
    proof {
        lemma_split_seconds(seconds);
    }
    let mut text = String::new();
    push_part(&mut text, days, "d");
    push_part(&mut text, hours, "h");
    push_part(&mut text, minutes, "m");
    push_part(&mut text, secs, "s");
    text
}

} // verus!

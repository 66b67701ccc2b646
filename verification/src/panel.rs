//! What the panels of the wallet decide before they draw anything.

use vstd::prelude::*;

use crate::decoder::{decode_payment_request_local, decoded, DecodedFields, DecodedInvoice};
use crate::models::{Key, Record, Transaction, TxStatus, TxType};
use crate::store::{is_position, records_of};
use crate::text::{chars_of, decimal_u64, parse_decimal, same_text, trim, trim_range};

verus! {

/// `i` is the first position of a record with the key.
pub open spec fn is_first_position(s: Seq<Record>, key: Key, i: int) -> bool {
    is_position(s, key, i) && forall|j: int| 0 <= j < i ==> !is_position(s, key, j)
}

/// The list of a panel after a change to a record came in: the record takes
/// the place of the first one with its key, or goes to the front where the
/// list has none.
pub open spec fn merged(s: Seq<Record>, record: Record) -> Seq<Record> {
    if exists|i: int| is_first_position(s, record.key(), i) {
        s.update(choose|i: int| is_first_position(s, record.key(), i), record)
    } else {
        s.insert(0, record)
    }
}

/// Brings a changed record into the list that a panel shows.
pub fn merge_transaction(txs: &mut Vec<Transaction>, tx: Transaction)
    ensures
        records_of(final(txs)@) == merged(records_of(old(txs)@), tx@),
{
    let ghost before = records_of(txs@);
    let ghost key = tx@.key();
    let mut i: usize = 0;
    while i < txs.len()
        invariant
            i <= txs.len(),
            txs@ == old(txs)@,
            before == records_of(txs@),
            key == tx@.key(),
            forall|j: int| 0 <= j < i ==> !is_position(before, key, j),
        decreases txs.len() - i,
    {
        if txs[i].tx_type == tx.tx_type && same_text(
            txs[i].payment_hash.as_str(),
            tx.payment_hash.as_str(),
        ) {
            proof {
                assert(is_first_position(before, key, i as int));
                let chosen = choose|k: int| is_first_position(before, key, k);
                assert(is_first_position(before, key, chosen));
                if chosen < i {
                    assert(!is_position(before, key, chosen));
                } else if i < chosen {
                    assert(is_position(before, key, i as int));
                }
                assert(records_of(txs@.update(i as int, tx)) =~= before.update(i as int, tx@));
            }
            txs.set(i, tx);
            return ;
        }
        assert(!is_position(before, key, i as int));
        i += 1;
    }
    proof {
        if exists|k: int| is_first_position(before, key, k) {
            let k = choose|k: int| is_first_position(before, key, k);
            assert(is_position(before, key, k));
        }
        assert(records_of(txs@.insert(0, tx)) =~= before.insert(0, tx@));
    }
    txs.insert(0, tx);
}

/// Opens the details of a record, or closes them where they are open.
pub fn toggle_expanded(current: Option<i64>, id: i64) -> (next: Option<i64>)
    ensures
        next == if current == Some(id) {
            None
        } else {
            Some(id)
        },
{
    match current {
        Some(open) if open == id => None,
        _ => Some(id),
    }
}

/// The word under which a kind of record is shown.
pub fn kind_label(kind: TxType) -> (label: &'static str)
    ensures
        label@ == match kind {
            TxType::Invoice => "Invoice"@,
            TxType::Payment => "Payment"@,
        },
{
    match kind {
        TxType::Invoice => "Invoice",
        TxType::Payment => "Payment",
    }
}

/// The word under which a status is shown.
pub fn status_label(status: TxStatus) -> (label: &'static str)
    ensures
        label@ == match status {
            TxStatus::Pending => "Pending"@,
            TxStatus::Succeeded => "Succeeded"@,
            TxStatus::Failed => "Failed"@,
            TxStatus::Expired => "Expired"@,
        },
{
    match status {
        TxStatus::Pending => "Pending",
        TxStatus::Succeeded => "Succeeded",
        TxStatus::Failed => "Failed",
        TxStatus::Expired => "Expired",
    }
}

/// The badge that marks a status.
pub fn status_badge(status: TxStatus) -> (badge: &'static str)
    ensures
        badge@ == match status {
            TxStatus::Pending => "pending"@,
            TxStatus::Succeeded => "success"@,
            TxStatus::Failed => "error"@,
            TxStatus::Expired => "expired"@,
        },
{
    match status {
        TxStatus::Pending => "pending",
        TxStatus::Succeeded => "success",
        TxStatus::Failed => "error",
        TxStatus::Expired => "expired",
    }
}

/// What the send panel shows of the request that was typed so far.
#[derive(Debug, Clone)]
pub enum Preview {
    /// Nothing: nothing was typed but whitespace.
    Cleared,
    /// What the request states.
    Decoded(DecodedInvoice),
    /// That the request is no valid invoice.
    Invalid,
}

/// The mathematical content of a `Preview`.
pub enum Previewed {
    Cleared,
    Decoded(DecodedFields),
    Invalid,
}

impl View for Preview {
    type V = Previewed;

    open spec fn view(&self) -> Previewed {
        match self {
            Preview::Cleared => Previewed::Cleared,
            Preview::Decoded(invoice) => Previewed::Decoded(invoice@),
            Preview::Invalid => Previewed::Invalid,
        }
    }
}

/// What is shown for a typed request: nothing for whitespace, otherwise what
/// the request decodes to, or that it does not decode.
pub open spec fn previewed(value: Seq<char>) -> Previewed {
    if trim(value).len() == 0 {
        Previewed::Cleared
    } else {
        match decoded(value) {
            Ok(fields) => Previewed::Decoded(fields),
            Err(_) => Previewed::Invalid,
        }
    }
}

/// Decodes what was typed into the send panel, for a preview.
pub fn preview_payment_request(value: &str) -> (preview: Preview)
    ensures
        preview@ == previewed(value@),
{
    let chars = chars_of(value);
    let (from, to) = trim_range(&chars, 0, chars.len());
    proof {
        assert(chars@.subrange(0, chars.len() as int) =~= value@);
    }
    if from == to {
        return Preview::Cleared;
    }
    match decode_payment_request_local(value) {
        Ok(invoice) => Preview::Decoded(invoice),
        Err(_) => Preview::Invalid,
    }
}

/// The amount that a text states for a new invoice: a decimal numeral, with
/// or without a plus sign before it, of a positive number that fits 64 bits
/// with a sign.
pub open spec fn stated_amount(text: Seq<char>) -> Option<i64> {
    let digits = if text.len() > 0 && text[0] == '+' {
        text.skip(1)
    } else {
        text
    };
    match decimal_u64(digits) {
        Some(value) => if 0 < value <= i64::MAX {
            Some(value as i64)
        } else {
            None
        },
        None => None,
    }
}

/// Reads the amount that was typed into the receive panel.
pub fn parse_amount_sats(text: &str) -> (amount: Option<i64>)
    ensures
        amount == stated_amount(text@),
{
    let chars = chars_of(text);
    let from: usize = if chars.len() > 0 && chars[0] == '+' {
        1
    } else {
        0
    };
    proof {
        assert(chars@.subrange(from as int, chars.len() as int) =~= if from == 1 {
            text@.skip(1)
        } else {
            text@
        });
    }
    match parse_decimal(&chars, from, chars.len()) {
        Some(value) => if 0 < value && value <= i64::MAX as u64 {
            Some(value as i64)
        } else {
            None
        },
        None => None,
    }
}

} // verus!

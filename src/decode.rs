//! Decoding a row of fields `type, client, tx, amount` into a transaction.

use vstd::prelude::*;
use crate::money::{in_money_range, Money, MONEY_LIMIT};
use crate::text::{
    all_digits, are_digits, digits_up_to, digits_value, is_digit, leading_digits,
    lemma_leading_digits, pow10, trim, trim_bounds,
};
use crate::transactions::{Chargeback, Deposit, Dispute, Resolve, Transaction, Withdrawal};
use crate::{TClientId, TTrxID};

verus! {

/// The kind of a transaction, as named in the first field of a row.
#[derive(Clone, Copy, Debug, PartialEq, Eq, Structural)]
pub enum TransactionRecType {
    Deposit,
    Withdrawal,
    Dispute,
    Resolve,
    Chargeback,
}

/// A row as typed values.
#[derive(Clone, Copy, Debug, PartialEq, Eq, Structural)]
pub struct TransactionRec {
    pub ttype: TransactionRecType,
    pub client: TClientId,
    pub tx: TTrxID,
    pub amount: Option<Money>,
}

/// Why a row was rejected.
#[derive(Clone, Copy, Debug, PartialEq, Eq, Structural)]
pub enum DecodeError {
    /// The row could not be read as CSV.
    Unreadable,
    /// Fewer than the three fields `type, client, tx`.
    MissingField,
    /// The type is none of the five keywords.
    UnknownType,
    /// The client is not an unsigned 16-bit integer.
    BadClient,
    /// The transaction id is not an unsigned 32-bit integer.
    BadTx,
    /// A deposit or withdrawal without an amount.
    MissingAmount,
    /// An amount that is not a decimal literal.
    BadAmount,
    /// A decimal amount that money cannot represent: more than four
    /// fractional digits, or out of range.
    UnrepresentableAmount,
    /// A record of another kind than the transaction asked for.
    IncompatibleType,
}

impl DecodeError {
    /// A message describing the error.
    pub fn message(&self) -> &'static str {
        match self {
            DecodeError::Unreadable => "row could not be read",
            DecodeError::MissingField => "fewer than three fields",
            DecodeError::UnknownType => "unknown transaction type",
            DecodeError::BadClient => "client is not an unsigned 16-bit integer",
            DecodeError::BadTx => "transaction ID is not an unsigned 32-bit integer",
            DecodeError::MissingAmount => "amount is missing",
            DecodeError::BadAmount => "amount is not a decimal literal",
            DecodeError::UnrepresentableAmount => "amount has more than four fractional digits or is out of range",
            DecodeError::IncompatibleType => "incompatible transaction type",
        }
    }
}

/// The keyword of a kind, in lower case.
pub open spec fn keyword(k: TransactionRecType) -> Seq<u8> {
    match k {
        TransactionRecType::Deposit => seq![100u8, 101, 112, 111, 115, 105, 116],
        TransactionRecType::Withdrawal => seq![119u8, 105, 116, 104, 100, 114, 97, 119, 97, 108],
        TransactionRecType::Dispute => seq![100u8, 105, 115, 112, 117, 116, 101],
        TransactionRecType::Resolve => seq![114u8, 101, 115, 111, 108, 118, 101],
        TransactionRecType::Chargeback => seq![99u8, 104, 97, 114, 103, 101, 98, 97, 99, 107],
    }
}

/// The lower-case form of an ASCII byte.
pub open spec fn to_lower(c: u8) -> u8 {
    if 65 <= c <= 90 {
        (c + 32) as u8
    } else {
        c
    }
}

/// Whether `s` is `kw` up to ASCII case.
pub open spec fn folds_to(s: Seq<u8>, kw: Seq<u8>) -> bool {
    s.len() == kw.len() && forall|i: int| 0 <= i < s.len() ==> #[trigger] to_lower(s[i]) == kw[i]
}

/// The kind that a type field names.
pub open spec fn rec_type_of(s: Seq<u8>) -> Option<TransactionRecType> {
    let t = trim(s);
    if folds_to(t, keyword(TransactionRecType::Deposit)) {
        Some(TransactionRecType::Deposit)
    } else if folds_to(t, keyword(TransactionRecType::Withdrawal)) {
        Some(TransactionRecType::Withdrawal)
    } else if folds_to(t, keyword(TransactionRecType::Dispute)) {
        Some(TransactionRecType::Dispute)
    } else if folds_to(t, keyword(TransactionRecType::Resolve)) {
        Some(TransactionRecType::Resolve)
    } else if folds_to(t, keyword(TransactionRecType::Chargeback)) {
        Some(TransactionRecType::Chargeback)
    } else {
        None
    }
}

/// The unsigned integer that a field spells (optional `+`, then at least one
/// digit), if it is at most `max`.
pub open spec fn unsigned_of(s: Seq<u8>, max: int) -> Option<int> {
    let t = trim(s);
    let d = if t.len() > 0 && t[0] == 43 {
        t.drop_first()
    } else {
        t
    };
    if d.len() > 0 && all_digits(d) && digits_value(d) <= max {
        Some(digits_value(d) as int)
    } else {
        None
    }
}

/// The magnitude, in units, that the unsigned part of an amount spells:
/// digits, and optionally a point followed by at most four digits, with at
/// least one digit in all.
pub open spec fn magnitude_of(body: Seq<u8>) -> Option<nat> {
    let p = leading_digits(body) as int;
    let rest = body.skip(p);
    let frac = if rest.len() > 0 {
        rest.drop_first()
    } else {
        rest
    };
    if (rest.len() == 0 || (rest[0] == 46 && all_digits(frac))) && frac.len() <= 4 && p
        + frac.len() >= 1 {
        Some(
            digits_value(body.take(p)) * 10000 + digits_value(frac) * pow10(
                (4 - frac.len()) as nat,
            ),
        )
    } else {
        None
    }
}

/// The number of units that an amount field spells: an optional sign, then
/// a magnitude; `None` for anything else or a value out of the money range.
pub open spec fn amount_of(s: Seq<u8>) -> Option<int> {
    let t = trim(s);
    let body = if t.len() > 0 && (t[0] == 45 || t[0] == 43) {
        t.drop_first()
    } else {
        t
    };
    match magnitude_of(body) {
        Some(m) => {
            let v: int = if t[0] == 45 {
                -m
            } else {
                m as int
            };
            if in_money_range(v) {
                Some(v)
            } else {
                None
            }
        },
        None => None,
    }
}

/// An amount field without surrounding whitespace and without its sign.
pub open spec fn amount_body(s: Seq<u8>) -> Seq<u8> {
    let t = trim(s);
    if t.len() > 0 && (t[0] == 45 || t[0] == 43) {
        t.drop_first()
    } else {
        t
    }
}

/// Whether an amount field is a decimal literal: an optional sign, digits,
/// and optionally a point followed by digits, with at least one digit in all.
/// Such a literal may still be one that money cannot represent.
pub open spec fn well_formed_amount(s: Seq<u8>) -> bool {
    well_formed_body(amount_body(s))
}

/// Whether the unsigned part of an amount is digits, and optionally a point
/// followed by digits, with at least one digit in all.
pub open spec fn well_formed_body(body: Seq<u8>) -> bool {
    let p = leading_digits(body) as int;
    let rest = body.skip(p);
    let frac = if rest.len() > 0 {
        rest.drop_first()
    } else {
        rest
    };
    (rest.len() == 0 || (rest[0] == 46 && all_digits(frac))) && p + frac.len() >= 1
}

/// Whether a field holds anything but whitespace.
pub open spec fn present(s: Seq<u8>) -> bool {
    trim(s).len() > 0
}

/// A dispute, resolve or chargeback row that carries an amount, which is
/// ignored.
pub open spec fn extraneous_amount(fields: Seq<Vec<u8>>) -> bool {
    &&& fields.len() > 3
    &&& present(fields[3]@)
    &&& rec_type_of(fields[0]@) is Some
    &&& rec_type_of(fields[0]@) != Some(TransactionRecType::Deposit)
    &&& rec_type_of(fields[0]@) != Some(TransactionRecType::Withdrawal)
}

/// The record that a row of fields decodes to. The amount is read for a
/// deposit or withdrawal only, and only where the fourth field is present.
pub open spec fn record_of(fields: Seq<Vec<u8>>) -> Result<TransactionRec, DecodeError> {
    if fields.len() < 3 {
        Err(DecodeError::MissingField)
    } else {
        match rec_type_of(fields[0]@) {
            None => Err(DecodeError::UnknownType),
            Some(k) => match unsigned_of(fields[1]@, 65535) {
                None => Err(DecodeError::BadClient),
                Some(c) => match unsigned_of(fields[2]@, 4294967295) {
                    None => Err(DecodeError::BadTx),
                    Some(t) => if (k == TransactionRecType::Deposit || k
                        == TransactionRecType::Withdrawal) && fields.len() > 3 && present(
                        fields[3]@,
                    ) {
                        match amount_of(fields[3]@) {
                            None => if well_formed_amount(fields[3]@) {
                                Err(DecodeError::UnrepresentableAmount)
                            } else {
                                Err(DecodeError::BadAmount)
                            },
                            Some(v) => Ok(
                                TransactionRec {
                                    ttype: k,
                                    client: c as u16,
                                    tx: t as u32,
                                    amount: Some(Money { units: v as i128 }),
                                },
                            ),
                        }
                    } else {
                        Ok(TransactionRec { ttype: k, client: c as u16, tx: t as u32, amount: None })
                    },
                },
            },
        }
    }
}

/// The transaction that a record makes: a deposit or withdrawal needs an
/// amount.
pub open spec fn transaction_of(r: TransactionRec) -> Result<Transaction, DecodeError> {
    match r.ttype {
        TransactionRecType::Deposit => match r.amount {
            Some(a) => Ok(Transaction::Deposit(Deposit { client: r.client, tx: r.tx, amount: a })),
            None => Err(DecodeError::MissingAmount),
        },
        TransactionRecType::Withdrawal => match r.amount {
            Some(a) => Ok(
                Transaction::Withdrawal(Withdrawal { client: r.client, tx: r.tx, amount: a }),
            ),
            None => Err(DecodeError::MissingAmount),
        },
        TransactionRecType::Dispute => Ok(
            Transaction::Dispute(Dispute { client: r.client, tx: r.tx }),
        ),
        TransactionRecType::Resolve => Ok(
            Transaction::Resolve(Resolve { client: r.client, tx: r.tx }),
        ),
        TransactionRecType::Chargeback => Ok(
            Transaction::Chargeback(Chargeback { client: r.client, tx: r.tx }),
        ),
    }
}

/// The transaction that a row of fields decodes to.
pub open spec fn decoded(fields: Seq<Vec<u8>>) -> Result<Transaction, DecodeError> {
    match record_of(fields) {
        Ok(r) => transaction_of(r),
        Err(e) => Err(e),
    }
}

fn keyword_bytes(k: TransactionRecType) -> (r: Vec<u8>)
    ensures
        r@ == keyword(k),
{
    let r = match k {
        TransactionRecType::Deposit => vec![100u8, 101, 112, 111, 115, 105, 116],
        TransactionRecType::Withdrawal => vec![119u8, 105, 116, 104, 100, 114, 97, 119, 97, 108],
        TransactionRecType::Dispute => vec![100u8, 105, 115, 112, 117, 116, 101],
        TransactionRecType::Resolve => vec![114u8, 101, 115, 111, 108, 118, 101],
        TransactionRecType::Chargeback => vec![99u8, 104, 97, 114, 103, 101, 98, 97, 99, 107],
    };
    assert(r@ =~= keyword(k));
    r
}

fn folds_to_keyword(s: &[u8], lo: usize, hi: usize, k: TransactionRecType) -> (r: bool)
    requires
        lo <= hi <= s@.len(),
    ensures
        r == folds_to(s@.subrange(lo as int, hi as int), keyword(k)),
{
    let kw = keyword_bytes(k);
    if hi - lo != kw.len() {
        return false;
    }
    let mut i: usize = 0;
    while i < kw.len()
        invariant
            lo <= hi <= s@.len(),
            hi - lo == kw@.len(),
            kw@ == keyword(k),
            i <= kw@.len(),
            forall|j: int| 0 <= j < i ==> #[trigger] to_lower(s@[lo + j]) == kw@[j],
        decreases kw@.len() - i,
    {
        let c = s[lo + i];
        let lc: u8 = if 65 <= c && c <= 90 {
            c + 32
        } else {
            c
        };
        if lc != kw[i] {
            assert(to_lower(s@.subrange(lo as int, hi as int)[i as int]) != keyword(k)[i as int]);
            return false;
        }
        i = i + 1;
    }
    assert forall|j: int| 0 <= j < hi - lo implies #[trigger] to_lower(
        s@.subrange(lo as int, hi as int)[j],
    ) == keyword(k)[j] by {
        assert(to_lower(s@[lo + j]) == kw@[j]);
    }
    true
}

/// The kind that a type field names, ignoring case and surrounding
/// whitespace.
pub fn parse_rec_type(s: &[u8]) -> (r: Option<TransactionRecType>)
    ensures
        r == rec_type_of(s@),
{
    let (a, b) = trim_bounds(s, 0, s.len());
    assert(s@.subrange(0, s@.len() as int) =~= s@);
    if folds_to_keyword(s, a, b, TransactionRecType::Deposit) {
        Some(TransactionRecType::Deposit)
    } else if folds_to_keyword(s, a, b, TransactionRecType::Withdrawal) {
        Some(TransactionRecType::Withdrawal)
    } else if folds_to_keyword(s, a, b, TransactionRecType::Dispute) {
        Some(TransactionRecType::Dispute)
    } else if folds_to_keyword(s, a, b, TransactionRecType::Resolve) {
        Some(TransactionRecType::Resolve)
    } else if folds_to_keyword(s, a, b, TransactionRecType::Chargeback) {
        Some(TransactionRecType::Chargeback)
    } else {
        None
    }
}

/// The unsigned integer that a field spells, if it is at most `max`.
pub fn parse_unsigned(s: &[u8], max: u32) -> (r: Option<u32>)
    ensures
        match unsigned_of(s@, max as int) {
            Some(v) => r == Some(v as u32),
            None => r is None,
        },
{
    let (a0, b) = trim_bounds(s, 0, s.len());
    assert(s@.subrange(0, s@.len() as int) =~= s@);
    let ghost t = trim(s@);
    let a: usize = if a0 < b && s[a0] == 43 {
        a0 + 1
    } else {
        a0
    };
    assert(s@.subrange(a as int, b as int) =~= (if t.len() > 0 && t[0] == 43 {
        t.drop_first()
    } else {
        t
    }));
    if a == b || !are_digits(s, a, b) {
        return None;
    }
    match digits_up_to(s, a, b, max as u128) {
        Some(v) => Some(v as u32),
        None => None,
    }
}

fn scale_for(n: usize) -> (r: u128)
    requires
        n <= 4,
    ensures
        r == pow10((4 - n) as nat),
        r * pow10(n as nat) == 10000,
{
    reveal_with_fuel(pow10, 5);
    assert(pow10(0) == 1 && pow10(1) == 10 && pow10(2) == 100 && pow10(3) == 1000 && pow10(4)
        == 10000);
    if n == 0 {
        10000
    } else if n == 1 {
        1000
    } else if n == 2 {
        100
    } else if n == 3 {
        10
    } else {
        1
    }
}

/// Digits spell a number below ten to the power of their count.
proof fn lemma_digits_bound(f: Seq<u8>)
    requires
        all_digits(f),
    ensures
        digits_value(f) < pow10(f.len()),
    decreases f.len(),
{
    if f.len() > 0 {
        let g = f.drop_last();
        assert(all_digits(g)) by {
            assert forall|i: int| 0 <= i < g.len() implies #[trigger] is_digit(g[i]) by {
                assert(is_digit(f[i]));
            }
        }
        lemma_digits_bound(g);
        assert(is_digit(f[f.len() - 1]));
        let a = digits_value(g);
        let b = pow10(g.len());
        assert(a * 10 + 9 < b * 10) by (nonlinear_arith)
            requires
                a < b,
        ;
    }
}

/// The magnitude that `s[lo..hi]` spells, if it is at most the money limit.
fn parse_magnitude(s: &[u8], lo: usize, hi: usize) -> (r: Option<u128>)
    requires
        lo <= hi <= s@.len(),
    ensures
        match magnitude_of(s@.subrange(lo as int, hi as int)) {
            Some(m) => if m <= MONEY_LIMIT {
                r == Some(m as u128)
            } else {
                r is None
            },
            None => r is None,
        },
{
    let ghost body = s@.subrange(lo as int, hi as int);
    let mut i: usize = lo;
    while i < hi && 48 <= s[i] && s[i] <= 57
        invariant
            lo <= i <= hi <= s@.len(),
            body == s@.subrange(lo as int, hi as int),
            forall|j: int| 0 <= j < i - lo ==> #[trigger] is_digit(body[j]),
        decreases hi - i,
    {
        i = i + 1;
    }
    proof {
        lemma_leading_digits(body, i - lo);
    }
    let ghost p = (i - lo) as int;
    assert(body.take(p) =~= s@.subrange(lo as int, i as int));
    assert(body.skip(p) =~= s@.subrange(i as int, hi as int));
    let fs: usize = if i < hi {
        i + 1
    } else {
        i
    };
    let ghost frac = s@.subrange(fs as int, hi as int);
    assert(frac =~= (if body.skip(p).len() > 0 {
        body.skip(p).drop_first()
    } else {
        body.skip(p)
    }));
    if i < hi && (s[i] != 46 || !are_digits(s, fs, hi)) {
        return None;
    }
    if hi - fs > 4 || (i - lo) + (hi - fs) < 1 {
        return None;
    }
    assert(all_digits(s@.subrange(lo as int, i as int)));
    proof {
        lemma_digits_bound(frac);
        reveal_with_fuel(pow10, 5);
    }
    let fv = match digits_up_to(s, fs, hi, 10000u128) {
        Some(v) => v,
        None => {
            return None;
        },
    };
    let ip = match digits_up_to(s, lo, i, 1_000_000_000_000_000_000_000_000u128) {
        Some(v) => v,
        None => {
            return None;
        },
    };
    let scale = scale_for(hi - fs);
    assert(fv * scale <= 10000) by (nonlinear_arith)
        requires
            fv < pow10((hi - fs) as nat),
            scale == pow10((4 - (hi - fs)) as nat),
            pow10((hi - fs) as nat) * scale == 10000,
    ;
    let mag: u128 = ip * 10000 + fv * scale;
    if mag > MONEY_LIMIT as u128 {
        return None;
    }
    Some(mag)
}

/// The amount that a field spells: an optional sign, digits, and optionally
/// a point followed by at most four digits, with at least one digit in all.
pub fn parse_amount(s: &[u8]) -> (r: Option<Money>)
    ensures
        match amount_of(s@) {
            Some(v) => r == Some(Money { units: v as i128 }),
            None => r is None,
        },
{
    let (a, b) = trim_bounds(s, 0, s.len());
    assert(s@.subrange(0, s@.len() as int) =~= s@);
    let ghost t = trim(s@);
    assert(t =~= s@.subrange(a as int, b as int));
    if a == b {
        return None;
    }
    let neg = s[a] == 45;
    let start: usize = if s[a] == 45 || s[a] == 43 {
        a + 1
    } else {
        a
    };
    assert(s@.subrange(start as int, b as int) =~= (if t.len() > 0 && (t[0] == 45 || t[0]
        == 43) {
        t.drop_first()
    } else {
        t
    }));
    match parse_magnitude(s, start, b) {
        None => None,
        Some(mag) => {
            let units: i128 = if neg {
                -(mag as i128)
            } else {
                mag as i128
            };
            Some(Money { units })
        },
    }
}

fn is_well_formed_body(s: &[u8], lo: usize, hi: usize) -> (r: bool)
    requires
        lo <= hi <= s@.len(),
    ensures
        r == well_formed_body(s@.subrange(lo as int, hi as int)),
{
    let ghost body = s@.subrange(lo as int, hi as int);
    let mut i: usize = lo;
    while i < hi && 48 <= s[i] && s[i] <= 57
        invariant
            lo <= i <= hi <= s@.len(),
            body == s@.subrange(lo as int, hi as int),
            forall|j: int| 0 <= j < i - lo ==> #[trigger] is_digit(body[j]),
        decreases hi - i,
    {
        i = i + 1;
    }
    proof {
        lemma_leading_digits(body, i - lo);
    }
    let ghost p = (i - lo) as int;
    assert(body.skip(p) =~= s@.subrange(i as int, hi as int));
    let fs: usize = if i < hi {
        i + 1
    } else {
        i
    };
    assert(s@.subrange(fs as int, hi as int) =~= (if body.skip(p).len() > 0 {
        body.skip(p).drop_first()
    } else {
        body.skip(p)
    }));
    if i < hi && (s[i] != 46 || !are_digits(s, fs, hi)) {
        return false;
    }
    (i - lo) + (hi - fs) >= 1
}

/// Whether an amount field is a decimal literal, representable or not.
pub fn is_well_formed_amount(s: &[u8]) -> (r: bool)
    ensures
        r == well_formed_amount(s@),
{
    let (a, b) = trim_bounds(s, 0, s.len());
    assert(s@.subrange(0, s@.len() as int) =~= s@);
    let ghost t = trim(s@);
    assert(t =~= s@.subrange(a as int, b as int));
    let start: usize = if a < b && (s[a] == 45 || s[a] == 43) {
        a + 1
    } else {
        a
    };
    assert(amount_body(s@) =~= s@.subrange(start as int, b as int));
    is_well_formed_body(s, start, b)
}

fn is_present(s: &[u8]) -> (r: bool)
    ensures
        r == present(s@),
{
    let (a, b) = trim_bounds(s, 0, s.len());
    assert(s@.subrange(0, s@.len() as int) =~= s@);
    a < b
}

/// Whether a dispute, resolve or chargeback row carries an amount.
pub fn has_extraneous_amount(fields: &Vec<Vec<u8>>) -> (r: bool)
    ensures
        r == extraneous_amount(fields@),
{
    if fields.len() <= 3 || !is_present(fields[3].as_slice()) {
        return false;
    }
    match parse_rec_type(fields[0].as_slice()) {
        Some(TransactionRecType::Dispute) => true,
        Some(TransactionRecType::Resolve) => true,
        Some(TransactionRecType::Chargeback) => true,
        _ => false,
    }
}

impl TransactionRec {
    /// Decodes a row of fields `type, client, tx, amount`. Surrounding
    /// whitespace is ignored, as are fields after the fourth; the amount is
    /// read for a deposit or withdrawal only.
    pub fn from_fields(fields: &Vec<Vec<u8>>) -> (r: Result<TransactionRec, DecodeError>)
        ensures
            r == record_of(fields@),
    {
        if fields.len() < 3 {
            return Err(DecodeError::MissingField);
        }
        let ttype = match parse_rec_type(fields[0].as_slice()) {
            Some(k) => k,
            None => {
                return Err(DecodeError::UnknownType);
            },
        };
        let client = match parse_unsigned(fields[1].as_slice(), 65535) {
            Some(c) => c as u16,
            None => {
                return Err(DecodeError::BadClient);
            },
        };
        let tx = match parse_unsigned(fields[2].as_slice(), 4294967295) {
            Some(t) => t,
            None => {
                return Err(DecodeError::BadTx);
            },
        };
        let wants_amount = match ttype {
            TransactionRecType::Deposit => true,
            TransactionRecType::Withdrawal => true,
            _ => false,
        };
        if wants_amount && fields.len() > 3 && is_present(fields[3].as_slice()) {
            match parse_amount(fields[3].as_slice()) {
                Some(a) => Ok(TransactionRec { ttype, client, tx, amount: Some(a) }),
                None => if is_well_formed_amount(fields[3].as_slice()) {
                    Err(DecodeError::UnrepresentableAmount)
                } else {
                    Err(DecodeError::BadAmount)
                },
            }
        } else {
            Ok(TransactionRec { ttype, client, tx, amount: None })
        }
    }
}

impl Deposit {
    /// The deposit that a deposit record with an amount makes.
    pub fn try_from(value: TransactionRec) -> (r: Result<Deposit, DecodeError>)
        ensures
            value.ttype != TransactionRecType::Deposit ==> r == Err::<Deposit, DecodeError>(
                DecodeError::IncompatibleType,
            ),
            value.ttype == TransactionRecType::Deposit ==> match value.amount {
                Some(a) => r == Ok::<Deposit, DecodeError>(
                    Deposit { client: value.client, tx: value.tx, amount: a },
                ),
                None => r == Err::<Deposit, DecodeError>(DecodeError::MissingAmount),
            },
    {
        match value.ttype {
            TransactionRecType::Deposit => match value.amount {
                Some(a) => Ok(Deposit { client: value.client, tx: value.tx, amount: a }),
                None => Err(DecodeError::MissingAmount),
            },
            _ => Err(DecodeError::IncompatibleType),
        }
    }
}

impl Withdrawal {
    /// The withdrawal that a withdrawal record with an amount makes.
    pub fn try_from(value: TransactionRec) -> (r: Result<Withdrawal, DecodeError>)
        ensures
            value.ttype != TransactionRecType::Withdrawal ==> r == Err::<Withdrawal, DecodeError>(
                DecodeError::IncompatibleType,
            ),
            value.ttype == TransactionRecType::Withdrawal ==> match value.amount {
                Some(a) => r == Ok::<Withdrawal, DecodeError>(
                    Withdrawal { client: value.client, tx: value.tx, amount: a },
                ),
                None => r == Err::<Withdrawal, DecodeError>(DecodeError::MissingAmount),
            },
    {
        match value.ttype {
            TransactionRecType::Withdrawal => match value.amount {
                Some(a) => Ok(Withdrawal { client: value.client, tx: value.tx, amount: a }),
                None => Err(DecodeError::MissingAmount),
            },
            _ => Err(DecodeError::IncompatibleType),
        }
    }
}

impl Dispute {
    /// The dispute that a dispute record makes.
    pub fn try_from(value: TransactionRec) -> (r: Result<Dispute, DecodeError>)
        ensures
            value.ttype == TransactionRecType::Dispute ==> r == Ok::<Dispute, DecodeError>(
                Dispute { client: value.client, tx: value.tx },
            ),
            value.ttype != TransactionRecType::Dispute ==> r == Err::<Dispute, DecodeError>(
                DecodeError::IncompatibleType,
            ),
    {
        match value.ttype {
            TransactionRecType::Dispute => Ok(Dispute { client: value.client, tx: value.tx }),
            _ => Err(DecodeError::IncompatibleType),
        }
    }
}

impl Resolve {
    /// The resolution that a resolve record makes.
    pub fn try_from(value: TransactionRec) -> (r: Result<Resolve, DecodeError>)
        ensures
            value.ttype == TransactionRecType::Resolve ==> r == Ok::<Resolve, DecodeError>(
                Resolve { client: value.client, tx: value.tx },
            ),
            value.ttype != TransactionRecType::Resolve ==> r == Err::<Resolve, DecodeError>(
                DecodeError::IncompatibleType,
            ),
    {
        match value.ttype {
            TransactionRecType::Resolve => Ok(Resolve { client: value.client, tx: value.tx }),
            _ => Err(DecodeError::IncompatibleType),
        }
    }
}

impl Chargeback {
    /// The chargeback that a chargeback record makes.
    pub fn try_from(value: TransactionRec) -> (r: Result<Chargeback, DecodeError>)
        ensures
            value.ttype == TransactionRecType::Chargeback ==> r == Ok::<Chargeback, DecodeError>(
                Chargeback { client: value.client, tx: value.tx },
            ),
            value.ttype != TransactionRecType::Chargeback ==> r == Err::<Chargeback, DecodeError>(
                DecodeError::IncompatibleType,
            ),
    {
        match value.ttype {
            TransactionRecType::Chargeback => Ok(Chargeback { client: value.client, tx: value.tx }),
            _ => Err(DecodeError::IncompatibleType),
        }
    }
}

impl Transaction {
    /// The transaction of the kind that the record names.
    pub fn try_from(td: TransactionRec) -> (r: Result<Transaction, DecodeError>)
        ensures
            r == transaction_of(td),
    {
        match td.ttype {
            TransactionRecType::Deposit => match Deposit::try_from(td) {
                Ok(t) => Ok(Transaction::Deposit(t)),
                Err(e) => Err(e),
            },
            TransactionRecType::Withdrawal => match Withdrawal::try_from(td) {
                Ok(t) => Ok(Transaction::Withdrawal(t)),
                Err(e) => Err(e),
            },
            TransactionRecType::Dispute => match Dispute::try_from(td) {
                Ok(t) => Ok(Transaction::Dispute(t)),
                Err(e) => Err(e),
            },
            TransactionRecType::Resolve => match Resolve::try_from(td) {
                Ok(t) => Ok(Transaction::Resolve(t)),
                Err(e) => Err(e),
            },
            TransactionRecType::Chargeback => match Chargeback::try_from(td) {
                Ok(t) => Ok(Transaction::Chargeback(t)),
                Err(e) => Err(e),
            },
        }
    }
}

/// Decodes a row of fields into a transaction.
pub fn decode_record(fields: &Vec<Vec<u8>>) -> (r: Result<Transaction, DecodeError>)
    ensures
        r == decoded(fields@),
{
    match TransactionRec::from_fields(fields) {
        Ok(rec) => Transaction::try_from(rec),
        Err(e) => Err(e),
    }
}

} // verus!

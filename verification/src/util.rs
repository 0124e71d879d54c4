//! Conversions of the oracle's raw data.
use vstd::prelude::*;

use vstd::string::{StrSliceExecFns, StringSliceAdditionalSpecFns};
use vstd::utf8::valid_utf8;

use crate::ocw_oracle::{Error, Pallet};
use crate::types::Timestamp;
use crate::wrappers::str_from_utf8;

verus! {

/// The bytes of a string field of a response.
pub fn de_string_to_bytes(s: &str) -> (r: Vec<u8>)
    ensures
        r@ == s.spec_bytes(),
{
    s.as_bytes_vec()
}

/// The chain time `now` as a timestamp; `ParseTimestampError` if it does not fit.
pub fn timestamp_from_moment(now: u128) -> (r: Result<Timestamp, Error>)
    ensures
        now <= u64::MAX ==> r == Ok::<Timestamp, Error>(now as u64),
        now > u64::MAX ==> r == Err::<Timestamp, Error>(Error::ParseTimestampError),
{
    match u64::try_from(now) {
        Ok(t) => Ok(t),
        Err(_) => Err(Error::ParseTimestampError),
    }
}

/// The ASCII decimal digits of `n`, most significant first, without leading zeros.
pub open spec fn decimal_digits(n: nat) -> Seq<u8>
    decreases n,
{
    if n < 10 {
        seq![(48 + n) as u8]
    } else {
        decimal_digits(n / 10).push((48 + n % 10) as u8)
    }
}

/// The decimal representation of `n`.
pub fn u64_to_decimal(n: u64) -> (r: Vec<u8>)
    ensures
        r@ == decimal_digits(n as nat),
    decreases n,
{
    if n < 10 {
        let d: u8 = 48u8 + (n as u8);
        let r = vec![d];
        assert(r@ =~= seq![d]);
        r
    } else {
        let mut r = u64_to_decimal(n / 10);
        let d: u8 = 48u8 + ((n % 10) as u8);
        r.push(d);
        r
    }
}

/// Appends the bytes `s` to `v`.
pub fn append_bytes(v: &mut Vec<u8>, s: &[u8])
    ensures
        final(v)@ == old(v)@ + s@,
{
    let mut i: usize = 0;
    while i < s.len()
        invariant
            i <= s@.len(),
            v@ == old(v)@ + s@.take(i as int),
        decreases s@.len() - i,
    {
        v.push(s[i]);
        assert(s@.take(i + 1) =~= s@.take(i as int).push(s@[i as int]));
        i = i + 1;
    }
    assert(s@.take(s@.len() as int) =~= s@);
}

impl Pallet {
    /// The text of a price field: the first step of converting it into a
    /// price, failing with `ConvertToStringError` on bytes that are not UTF-8.
    pub fn price_text(val_u8: &[u8]) -> (r: Result<&str, Error>)
        ensures
            valid_utf8(val_u8@) <==> r is Ok,
            r matches Ok(s) ==> s.spec_bytes() == val_u8@,
            !valid_utf8(val_u8@) ==> r == Err::<&str, Error>(Error::ConvertToStringError),
    {
        match str_from_utf8(val_u8) {
            Some(s) => Ok(s),
            None => Err(Error::ConvertToStringError),
        }
    }
}

} // verus!

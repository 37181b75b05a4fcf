//! Archive names of monthly candle files, such as `BTCUSDT-5m-2020-01.zip`.
use vstd::prelude::*;
use vstd::string::*;

verus! {

/// Number of `'-'` in `s`.
pub open spec fn dash_count(s: Seq<char>) -> nat
    decreases s.len(),
{
    if s.len() == 0 {
        0
    } else {
        dash_count(s.drop_last()) + if s.last() == '-' { 1nat } else { 0nat }
    }
}

/// The third and fourth `'-'`-separated fields of `s`, joined by `'-'`: every
/// character that follows the second dash and precedes the fourth.
pub open spec fn date_of(s: Seq<char>) -> Seq<char>
    decreases s.len(),
{
    if s.len() == 0 {
        Seq::empty()
    } else {
        let k = dash_count(s.drop_last());
        let c = s.last();
        if (c != '-' && (k == 2 || k == 3)) || (c == '-' && k == 2) {
            date_of(s.drop_last()).push(c)
        } else {
            date_of(s.drop_last())
        }
    }
}

/// Relies on String::push: appends one character.
#[verifier::external_body]
fn push_char(s: &mut String, c: char)
    ensures
        final(s)@ == old(s)@.push(c),
{
    s.push(c)
}

/// The date part of an archive name: its third and fourth dash-separated
/// fields, so `"BTCUSDT-5m-2020-01.zip"` gives `"2020-01.zip"`.
pub fn extract_date_from_key(key: &str) -> (r: String)
    ensures
        r@ == date_of(key@),
{
    let n = key.unicode_len();
    let mut out = String::new();
    let mut dashes: usize = 0;
    let mut i: usize = 0;
    while i < n
        invariant
            n == key@.len(),
            0 <= i <= n,
            dashes == dash_count(key@.take(i as int)),
            dashes <= i,
            out@ == date_of(key@.take(i as int)),
        decreases n - i,
    {
        let c = key.get_char(i);
        proof {
            assert(key@.take(i + 1).drop_last() =~= key@.take(i as int));
        }
        if (c != '-' && (dashes == 2 || dashes == 3)) || (c == '-' && dashes == 2) {
            push_char(&mut out, c);
        }
        if c == '-' {
            dashes = dashes + 1;
        }
        i = i + 1;
    }
    proof {
        assert(key@.take(n as int) =~= key@);
    }
    out
}

} // verus!

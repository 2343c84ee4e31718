//! A clock time split into hours, minutes and seconds, with parsing from
//! colon-delimited text, rendering back, and conversion to whole seconds.

use vstd::prelude::*;

use crate::text::{
    dec_rep, digits_val, is_u32_text, lemma_dec_rep_digits, lemma_dec_rep_val,
    lemma_split_sep_prepend, lemma_split_sep_whole, parse_u32, split_parts, split_sep, u64_to_dec,
};

verus! {

/// A clock time. Components are not bounded above: minutes or seconds of 60
/// and over are accepted and rendered verbatim.
#[derive(Clone, Copy, PartialEq, Eq, Structural, Debug)]
pub struct Duration {
    pub h: u32,
    pub m: u32,
    pub s: u32,
}

/// Which component of a duration text failed to parse.
#[derive(Clone, Copy, PartialEq, Eq, Structural, Debug)]
pub enum DurationField {
    Hours,
    Minutes,
    Seconds,
}

/// Why a duration text was rejected.
#[derive(Clone, Copy, PartialEq, Eq, Structural, Debug)]
pub enum ParseError {
    /// More than three colon-separated components.
    WrongComponentCount,
    /// The named component is not an unsigned integer that fits 32 bits.
    NotAnInteger(DurationField),
}

impl Duration {
    /// The rendered text `H:M:S`, each component plain decimal, no padding.
    pub open spec fn text_spec(self) -> Seq<char> {
        dec_rep(self.h as nat) + seq![':'] + dec_rep(self.m as nat) + seq![':'] + dec_rep(
            self.s as nat,
        )
    }

    /// Whole seconds under the additive formula `h*3600 + m*60 + s`.
    pub open spec fn to_seconds_spec(self) -> int {
        self.h * 3600 + self.m * 60 + self.s
    }

    /// Exactly what `from_str` returns on the text `s`: one part is seconds,
    /// two are minutes:seconds, three are hours:minutes:seconds, any other
    /// count is rejected; a malformed part names the first field that failed,
    /// fields checked left to right.
    pub open spec fn from_str_spec(s: Seq<char>) -> Result<Duration, ParseError> {
        let parts = split_sep(s, ':');
        if parts.len() == 1 {
            if is_u32_text(parts[0]) {
                Ok(Duration { h: 0, m: 0, s: digits_val(parts[0]) as u32 })
            } else {
                Err(ParseError::NotAnInteger(DurationField::Seconds))
            }
        } else if parts.len() == 2 {
            if !is_u32_text(parts[0]) {
                Err(ParseError::NotAnInteger(DurationField::Minutes))
            } else if !is_u32_text(parts[1]) {
                Err(ParseError::NotAnInteger(DurationField::Seconds))
            } else {
                Ok(
                    Duration {
                        h: 0,
                        m: digits_val(parts[0]) as u32,
                        s: digits_val(parts[1]) as u32,
                    },
                )
            }
        } else if parts.len() == 3 {
            if !is_u32_text(parts[0]) {
                Err(ParseError::NotAnInteger(DurationField::Hours))
            } else if !is_u32_text(parts[1]) {
                Err(ParseError::NotAnInteger(DurationField::Minutes))
            } else if !is_u32_text(parts[2]) {
                Err(ParseError::NotAnInteger(DurationField::Seconds))
            } else {
                Ok(
                    Duration {
                        h: digits_val(parts[0]) as u32,
                        m: digits_val(parts[1]) as u32,
                        s: digits_val(parts[2]) as u32,
                    },
                )
            }
        } else {
            Err(ParseError::WrongComponentCount)
        }
    }

    /// Parses colon-delimited duration text.
    pub fn from_str(s: &str) -> (r: Result<Duration, ParseError>)
        ensures
            r == Duration::from_str_spec(s@),
    {
        let parts = split_parts(s, ':');
        if parts.len() == 1 {
            match parse_u32(parts[0].as_str()) {
                Some(v) => Ok(Duration { h: 0, m: 0, s: v }),
                None => Err(ParseError::NotAnInteger(DurationField::Seconds)),
            }
        } else if parts.len() == 2 {
            match parse_u32(parts[0].as_str()) {
                None => Err(ParseError::NotAnInteger(DurationField::Minutes)),
                Some(m) => match parse_u32(parts[1].as_str()) {
                    None => Err(ParseError::NotAnInteger(DurationField::Seconds)),
                    Some(sv) => Ok(Duration { h: 0, m, s: sv }),
                },
            }
        } else if parts.len() == 3 {
            match parse_u32(parts[0].as_str()) {
                None => Err(ParseError::NotAnInteger(DurationField::Hours)),
                Some(h) => match parse_u32(parts[1].as_str()) {
                    None => Err(ParseError::NotAnInteger(DurationField::Minutes)),
                    Some(m) => match parse_u32(parts[2].as_str()) {
                        None => Err(ParseError::NotAnInteger(DurationField::Seconds)),
                        Some(sv) => Ok(Duration { h, m, s: sv }),
                    },
                },
            }
        } else {
            Err(ParseError::WrongComponentCount)
        }
    }

    /// Decomposes a whole-second count: `h = total/3600`, `m = (total%3600)/60`,
    /// `s = total%60`.
    pub fn from_seconds(total: u32) -> (r: Duration)
        ensures
            r.h == total / 3600,
            r.m == (total % 3600) / 60,
            r.s == total % 60,
    {
        Duration { h: total / 3600, m: (total % 3600) / 60, s: total % 60 }
    }

    /// Whole seconds under the additive formula.
    pub fn to_seconds(&self) -> (r: u64)
        ensures
            r == self.to_seconds_spec(),
    {
        (self.h as u64) * 3600 + (self.m as u64) * 60 + (self.s as u64)
    }

    /// Renders `H:M:S` without zero padding.
    pub fn to_text(&self) -> (r: String)
        ensures
            r@ == self.text_spec(),
    {
        let mut r = u64_to_dec(self.h as u64);
        r.append(":");
        let m = u64_to_dec(self.m as u64);
        r.append(m.as_str());
        r.append(":");
        let s = u64_to_dec(self.s as u64);
        r.append(s.as_str());
        proof {
            reveal_strlit(":");
            assert(":"@ =~= seq![':']);
            assert(r@ =~= self.text_spec());
        }
        r
    }
}

/// Rendering then parsing restores the duration: for components in the
/// canonical display ranges, `from_str` applied to the rendered text gives
/// the same value back.
pub proof fn lemma_parse_of_text_round_trip(d: Duration)
    requires
        d.m < 60,
        d.s < 60,
    ensures
        Duration::from_str_spec(d.text_spec()) == Ok::<Duration, ParseError>(d),
{
    let hs = dec_rep(d.h as nat);
    let ms = dec_rep(d.m as nat);
    let ss = dec_rep(d.s as nat);
    lemma_dec_rep_digits(d.h as nat);
    lemma_dec_rep_digits(d.m as nat);
    lemma_dec_rep_digits(d.s as nat);
    lemma_dec_rep_val(d.h as nat);
    lemma_dec_rep_val(d.m as nat);
    lemma_dec_rep_val(d.s as nat);
    assert(forall|j: int| 0 <= j < hs.len() ==> #[trigger] hs[j] != ':');
    assert(forall|j: int| 0 <= j < ms.len() ==> #[trigger] ms[j] != ':');
    assert(forall|j: int| 0 <= j < ss.len() ==> #[trigger] ss[j] != ':');
    let rest = ms + seq![':'] + ss;
    assert(d.text_spec() =~= hs + seq![':'] + rest);
    lemma_split_sep_prepend(hs, ':', rest);
    lemma_split_sep_prepend(ms, ':', ss);
    lemma_split_sep_whole(ss, ':');
    let parts = split_sep(d.text_spec(), ':');
    assert(parts =~~= seq![hs, ms, ss]);
    assert(is_u32_text(hs));
    assert(is_u32_text(ms));
    assert(is_u32_text(ss));
}

} // verus!

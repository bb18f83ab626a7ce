//! Terms of the academic calendar: seasons and years.

use crate::text::{all_digits, chars_of, is_digit, is_digit_char, same_text, string_of};
use crate::unit_number::{decimal_value, digit_char};
use vstd::prelude::*;

verus! {

/// A term of the academic year.
#[derive(Debug, Clone, Copy, PartialEq, Eq, Structural, Hash)]
pub enum Season {
    Fall,
    Spring,
    Summer1,
    Summer2,
}

/// A calendar year.
#[derive(Debug, Clone, Copy, PartialEq, Eq, Structural, Hash)]
pub struct Year(pub u16);

impl Season {
    /// The one-letter code of the season.
    pub open spec fn code(self) -> Seq<char> {
        match self {
            Season::Fall => "F"@,
            Season::Spring => "S"@,
            Season::Summer1 => "M"@,
            Season::Summer2 => "N"@,
        }
    }

    /// The name of the season as the feed's address spells it.
    pub open spec fn full_name(self) -> Seq<char> {
        match self {
            Season::Fall => "fall"@,
            Season::Spring => "spring"@,
            Season::Summer1 => "summer_1"@,
            Season::Summer2 => "summer_2"@,
        }
    }

    /// The one-letter code of the season.
    pub fn as_str(&self) -> (r: &'static str)
        ensures
            r@ == self.code(),
    {
        match self {
            Season::Fall => "F",
            Season::Spring => "S",
            Season::Summer1 => "M",
            Season::Summer2 => "N",
        }
    }

    /// The name of the season as the feed's address spells it.
    pub fn as_full_str(&self) -> (r: &'static str)
        ensures
            r@ == self.full_name(),
    {
        match self {
            Season::Fall => "fall",
            Season::Spring => "spring",
            Season::Summer1 => "summer_1",
            Season::Summer2 => "summer_2",
        }
    }

    /// The four seasons, in the order fall, spring, first and second summer.
    pub fn all() -> (r: Vec<Season>)
        ensures
            r@ == seq![Season::Fall, Season::Spring, Season::Summer1, Season::Summer2],
    {
        let mut v: Vec<Season> = Vec::new();
        v.push(Season::Fall);
        v.push(Season::Spring);
        v.push(Season::Summer1);
        v.push(Season::Summer2);
        assert(v@ =~= seq![Season::Fall, Season::Spring, Season::Summer1, Season::Summer2]);
        v
    }

    /// The season with the one-letter code `s`.
    pub fn from_str(s: &str) -> (r: Result<Season, ()>)
        ensures
            r == season_of(s@),
    {
        if same_text(s, "F") {
            Ok(Season::Fall)
        } else if same_text(s, "S") {
            Ok(Season::Spring)
        } else if same_text(s, "M") {
            Ok(Season::Summer1)
        } else if same_text(s, "N") {
            Ok(Season::Summer2)
        } else {
            Err(())
        }
    }
}

/// The season with the one-letter code `s`, if there is one.
pub open spec fn season_of(s: Seq<char>) -> Result<Season, ()> {
    if s == "F"@ {
        Ok(Season::Fall)
    } else if s == "S"@ {
        Ok(Season::Spring)
    } else if s == "M"@ {
        Ok(Season::Summer1)
    } else if s == "N"@ {
        Ok(Season::Summer2)
    } else {
        Err(())
    }
}

/// Reading the code of a season gives the season back.
pub proof fn lemma_season_round_trip(season: Season)
    ensures
        season_of(season.code()) == Ok::<Season, ()>(season),
{
    reveal_strlit("F");
    reveal_strlit("S");
    reveal_strlit("M");
    reveal_strlit("N");
    assert("F"@[0] == 'F');
    assert("S"@[0] == 'S');
    assert("M"@[0] == 'M');
    assert("N"@[0] == 'N');
}

/// The first year of which syllabi are kept.
pub const FIRST_YEAR: u16 = 2018;

/// The years from `FIRST_YEAR` to `last`, in order; none where `last` is
/// earlier.
pub open spec fn years_through(last: u16) -> Seq<Year> {
    if last < FIRST_YEAR {
        Seq::empty()
    } else {
        Seq::new((last - FIRST_YEAR + 1) as nat, |i: int| Year((FIRST_YEAR + i) as u16))
    }
}

/// The number that `s` denotes as a year: digits, with an optional plus sign
/// before them, of a value up to `u16::MAX`.
pub open spec fn year_of(s: Seq<char>) -> Option<Year> {
    let digits = if s.len() > 0 && s[0] == '+' {
        s.drop_first()
    } else {
        s
    };
    if digits.len() > 0 && all_digits(digits) && decimal_value(digits) <= u16::MAX {
        Some(Year(decimal_value(digits) as u16))
    } else {
        None
    }
}

/// `std::time::SystemTime`: a reading of the clock. What it holds is not
/// looked into.
#[verifier::external_type_specification]
#[verifier::external_body]
pub struct ExSystemTime(std::time::SystemTime);

/// `std::time::SystemTime::now`: the present reading of the clock. Nothing
/// is claimed of the result, which depends on the clock.
#[verifier::external_body]
fn read_clock() -> std::time::SystemTime {
    std::time::SystemTime::now()
}

/// `std::time::SystemTime::duration_since` against `std::time::UNIX_EPOCH`,
/// and `Duration::as_secs` on what it returns: the whole seconds from the
/// start of 1970 to the reading, `None` where the reading lies before.
/// Nothing is claimed of the result, which depends on the reading.
#[verifier::external_body]
fn seconds_since_epoch(reading: &std::time::SystemTime) -> Option<u64> {
    match reading.duration_since(std::time::UNIX_EPOCH) {
        Ok(elapsed) => Some(elapsed.as_secs()),
        Err(_) => None,
    }
}

/// The calendar year in UTC that `chrono::DateTime::from_timestamp` and
/// `Datelike::year` give for the moment `seconds` seconds and `nanos`
/// nanoseconds after the start of 1970; `None` where `from_timestamp`
/// returns none.
pub uninterp spec fn timestamp_year(seconds: i64, nanos: u32) -> Option<i32>;

/// `chrono::DateTime::from_timestamp` on `seconds` and `nanos`, and
/// `Datelike::year` on what it returns. The result is named, not described.
#[verifier::external_body]
fn year_of_timestamp(seconds: i64, nanos: u32) -> (r: Option<i32>)
    ensures
        r == timestamp_year(seconds, nanos),
{
    match chrono::DateTime::from_timestamp(seconds, nanos) {
        Some(moment) => Some(chrono::Datelike::year(&moment)),
        None => None,
    }
}

/// The calendar year in UTC at `seconds` whole seconds after the start of
/// 1970: none where the seconds are missing or beyond what a calendar date
/// holds.
pub open spec fn year_at(seconds: Option<u64>) -> Option<i32> {
    match seconds {
        Some(s) => if s <= i64::MAX {
            timestamp_year(s as i64, 0)
        } else {
            None
        },
        None => None,
    }
}

/// The years kept up to `year`: from `FIRST_YEAR` to the year, which counts
/// by its low sixteen bits; none where there is no year.
pub open spec fn years_until(year: Option<i32>) -> Seq<Year> {
    match year {
        Some(y) => years_through(y as u16),
        None => Seq::empty(),
    }
}

/// The calendar year in UTC at `seconds` whole seconds after the start of
/// 1970.
pub fn calendar_year(seconds: Option<u64>) -> (r: Option<i32>)
    ensures
        r == year_at(seconds),
{
    match seconds {
        Some(s) => {
            if s <= i64::MAX as u64 {
                year_of_timestamp(s as i64, 0)
            } else {
                None
            }
        },
        None => None,
    }
}

impl Year {
    /// The last two digits of the year.
    pub open spec fn text(self) -> Seq<char> {
        seq![digit_char((self.0 % 100 / 10) as nat), digit_char((self.0 % 10) as nat)]
    }

    /// The last two digits of the year, such as `20` for 2020.
    pub fn to_string(&self) -> (r: String)
        ensures
            r@ == self.text(),
    {
        let two = self.0 % 100;
        let mut out: Vec<char> = Vec::new();
        out.push(((48 + two / 10) as u8) as char);
        out.push(((48 + two % 10) as u8) as char);
        assert(out@ =~= self.text());
        string_of(&out)
    }

    /// The years from `FIRST_YEAR` to `last`.
    pub fn through(last: u16) -> (r: Vec<Year>)
        ensures
            r@ == years_through(last),
    {
        let mut v: Vec<Year> = Vec::new();
        if last < FIRST_YEAR {
            return v;
        }
        let mut y: u16 = FIRST_YEAR;
        while y < last
            invariant
                FIRST_YEAR <= y <= last,
                v@.len() == y - FIRST_YEAR,
                forall|i: int| 0 <= i < v@.len() ==> v@[i] == Year((FIRST_YEAR + i) as u16),
            decreases last - y,
        {
            v.push(Year(y));
            y += 1;
        }
        v.push(Year(last));
        assert(v@ =~= years_through(last));
        v
    }

    /// The years from `FIRST_YEAR` to `year`; none where there is no year.
    pub fn all_until(year: Option<i32>) -> (r: Vec<Year>)
        ensures
            r@ == years_until(year),
    {
        match year {
            Some(y) => {
                let last = #[verifier::truncate] (y as u16);
                Year::through(last)
            },
            None => {
                let none: Vec<Year> = Vec::new();
                none
            },
        }
    }

    /// The years from `FIRST_YEAR` to the current one in UTC; none where the
    /// clock stands before 1970 or beyond what a calendar date holds. What
    /// the clock reads is the clock's to say.
    pub fn all() -> (r: Vec<Year>)
        ensures
            exists|seconds: Option<u64>| r@ == years_until(year_at(seconds)),
    {
        let reading = read_clock();
        let seconds = seconds_since_epoch(&reading);
        Year::all_until(calendar_year(seconds))
    }

    /// Reads a year from characters.
    pub fn from_chars(v: &Vec<char>) -> (r: Option<Year>)
        ensures
            r == year_of(v@),
    {
        let n = v.len();
        let start: usize = if n > 0 && v[0] == '+' {
            1
        } else {
            0
        };
        let ghost digits = v@.skip(start as int);
        let ghost signless = if v@.len() > 0 && v@[0] == '+' {
            v@.drop_first()
        } else {
            v@
        };
        assert(digits == signless) by {
            assert(v@.skip(0) =~= v@);
        }
        if start == n {
            return None;
        }
        let mut acc: u32 = 0;
        let mut i: usize = start;
        assert(digits.take(0) =~= Seq::<char>::empty());
        while i < n
            invariant
                start <= i <= n == v.len(),
                digits == v@.skip(start as int),
                digits == signless,
                signless == (if v@.len() > 0 && v@[0] == '+' {
                    v@.drop_first()
                } else {
                    v@
                }),
                forall|j: int| 0 <= j < i - start ==> is_digit(#[trigger] digits[j]),
                acc == decimal_value(digits.take(i - start)),
                acc <= u16::MAX,
            decreases n - i,
        {
            if !is_digit_char(v[i]) {
                assert(digits[i - start] == v@[i as int]);
                return None;
            }
            let d = v[i] as u32 - '0' as u32;
            proof {
                assert(digits[i - start] == v@[i as int]);
                assert(digits.take(i - start + 1).drop_last() =~= digits.take(i - start));
            }
            acc = acc * 10 + d;
            if acc > u16::MAX as u32 {
                proof {
                    crate::unit_number::lemma_decimal_value_prefix(digits, i - start + 1);
                }
                return None;
            }
            i += 1;
        }
        assert(digits.take(digits.len() as int) =~= digits);
        Some(Year(acc as u16))
    }

    /// Reads a year, such as `2025`.
    pub fn from_str(s: &str) -> (r: Result<Year, ()>)
        ensures
            r is Ok <==> year_of(s@) is Some,
            r matches Ok(y) ==> year_of(s@) == Some(y),
    {
        let v = chars_of(s);
        match Year::from_chars(&v) {
            Some(y) => Ok(y),
            None => Err(()),
        }
    }
}

} // verus!

//! How long a text like `1h 30min` can be at most: its numbers and their units.
use crate::text::{char_is_space, chars_of, is_digit, is_space, same};
use vstd::prelude::*;

verus! {

/// The seconds of a unit, rounded up to one; `None` where the word is no unit.
pub open spec fn unit_seconds(word: Seq<char>) -> Option<nat> {
    if word == "nanos"@ || word == "nsec"@ || word == "ns"@ || word == "usec"@ || word == "us"@
        || word == "µs"@ || word == "millis"@ || word == "msec"@ || word == "ms"@ {
        Some(1)
    } else if word == "seconds"@ || word == "second"@ || word == "secs"@ || word == "sec"@ || word
        == "s"@ {
        Some(1)
    } else if word == "minutes"@ || word == "minute"@ || word == "min"@ || word == "mins"@ || word
        == "m"@ {
        Some(60)
    } else if word == "hours"@ || word == "hour"@ || word == "hr"@ || word == "hrs"@ || word
        == "h"@ {
        Some(3_600)
    } else if word == "days"@ || word == "day"@ || word == "d"@ {
        Some(86_400)
    } else if word == "weeks"@ || word == "week"@ || word == "wk"@ || word == "wks"@ || word
        == "w"@ {
        Some(604_800)
    } else if word == "months"@ || word == "month"@ || word == "M"@ {
        Some(2_630_016)
    } else if word == "years"@ || word == "year"@ || word == "yr"@ || word == "yrs"@ || word
        == "y"@ {
        Some(31_557_600)
    } else {
        None
    }
}

fn seconds_of_unit(word: &str) -> (r: Option<u64>)
    ensures
        match r {
            Some(n) => unit_seconds(word@) == Some(n as nat) && 1 <= n <= 31_557_600,
            None => unit_seconds(word@) is None,
        },
{
    if same(word, "nanos") || same(word, "nsec") || same(word, "ns") || same(word, "usec") || same(
        word,
        "us",
    ) || same(word, "µs") || same(word, "millis") || same(word, "msec") || same(word, "ms") {
        return Some(1);
    }
    if same(word, "seconds") || same(word, "second") || same(word, "secs") || same(word, "sec")
        || same(word, "s") {
        return Some(1);
    }
    if same(word, "minutes") || same(word, "minute") || same(word, "min") || same(word, "mins")
        || same(word, "m") {
        return Some(60);
    }
    if same(word, "hours") || same(word, "hour") || same(word, "hr") || same(word, "hrs") || same(
        word,
        "h",
    ) {
        return Some(3_600);
    }
    if same(word, "days") || same(word, "day") || same(word, "d") {
        return Some(86_400);
    }
    if same(word, "weeks") || same(word, "week") || same(word, "wk") || same(word, "wks") || same(
        word,
        "w",
    ) {
        return Some(604_800);
    }
    if same(word, "months") || same(word, "month") || same(word, "M") {
        return Some(2_630_016);
    }
    if same(word, "years") || same(word, "year") || same(word, "yr") || same(word, "yrs") || same(
        word,
        "y",
    ) {
        return Some(31_557_600);
    }
    None
}

/// What has been read of a text: the number that stands before the next unit and
/// whether its point has come, the letters of the unit, how many numbers with their
/// units have come, the most seconds that they make, and whether reading has
/// stopped at a number that is too large or a word that is no unit.
pub struct UnitsRead {
    pub number: nat,
    pub pointed: bool,
    pub word: Seq<char>,
    pub count: nat,
    pub seconds: nat,
    pub stopped: bool,
}

/// The number and its unit are complete. A fraction adds less than one of the unit,
/// and what is carried over from parts of seconds less than 62 seconds.
pub open spec fn unit_read(read: UnitsRead) -> UnitsRead {
    match unit_seconds(read.word) {
        Some(unit) if read.number * unit <= u64::MAX => UnitsRead {
            number: 0,
            pointed: false,
            word: Seq::empty(),
            count: read.count + 1,
            seconds: read.seconds + read.number * unit + unit + 62,
            stopped: false,
        },
        _ => UnitsRead { stopped: true, ..read },
    }
}

/// What has been read with one character more.
pub open spec fn char_read(read: UnitsRead, c: char) -> UnitsRead {
    if read.stopped {
        read
    } else if is_digit(c) {
        let digit: nat = (c as u32 - '0' as u32) as nat;
        if read.word.len() > 0 {
            let done = unit_read(read);
            if done.stopped {
                done
            } else {
                UnitsRead { number: digit, ..done }
            }
        } else if read.pointed {
            read
        } else if read.number * 10 + digit > u64::MAX {
            UnitsRead { stopped: true, ..read }
        } else {
            UnitsRead { number: read.number * 10 + digit, ..read }
        }
    } else if is_space(c) {
        if read.word.len() > 0 {
            unit_read(read)
        } else {
            read
        }
    } else if c == '.' && read.word.len() == 0 {
        UnitsRead { pointed: true, ..read }
    } else {
        UnitsRead { word: read.word.push(c), ..read }
    }
}

/// What has been read at the end of a text.
pub open spec fn text_read(s: Seq<char>) -> UnitsRead
    decreases s.len(),
{
    if s.len() == 0 {
        UnitsRead {
            number: 0,
            pointed: false,
            word: Seq::empty(),
            count: 0,
            seconds: 0,
            stopped: false,
        }
    } else {
        char_read(text_read(s.drop_last()), s.last())
    }
}

/// The numbers of a text and the most seconds that they make.
pub open spec fn whole_read(s: Seq<char>) -> UnitsRead {
    let read = text_read(s);
    if read.stopped || read.word.len() == 0 {
        read
    } else {
        unit_read(read)
    }
}

/// Whether a text is sure not to add up to the very largest length of time and
/// one second more: it holds one number, or makes fewer seconds than that.
pub open spec fn duration_fits(s: Seq<char>) -> bool {
    whole_read(s).count <= 1 || whole_read(s).seconds < u64::MAX
}

/// Reading on never makes less.
proof fn read_grows(s: Seq<char>, n: int)
    requires
        0 <= n <= s.len(),
    ensures
        text_read(s).count >= text_read(s.take(n)).count,
        text_read(s).seconds >= text_read(s.take(n)).seconds,
    decreases s.len() - n,
{
    if n == s.len() {
        assert(s.take(n) =~= s);
    } else {
        assert(s.take(n + 1).drop_last() =~= s.take(n));
        read_grows(s, n + 1);
    }
}

/// What has been read, where the seconds are still below the largest number.
struct Reader {
    number: u64,
    pointed: bool,
    word: String,
    count: u64,
    seconds: u128,
    stopped: bool,
}

impl Reader {
    spec fn is(&self, read: UnitsRead) -> bool {
        &&& self.number == read.number
        &&& self.pointed == read.pointed
        &&& self.word@ == read.word
        &&& (self.count >= 2) == (read.count >= 2)
        &&& self.count <= 2
        &&& self.count <= 1 ==> self.count == read.count
        &&& self.seconds == read.seconds
        &&& self.count == 0 ==> self.seconds == 0
        &&& self.count <= 1 ==> self.seconds <= 0x1_0000_0001_0000_0000
        &&& self.seconds <= 0x4_0000_0000_0000_0000
        &&& self.stopped == read.stopped
    }

    /// Ends the unit.
    fn end_unit(&mut self, Ghost(read): Ghost<UnitsRead>)
        requires
            old(self).is(read),
            old(self).count <= 1 || old(self).seconds <= u64::MAX,
            !read.stopped,
        ensures
            final(self).is(unit_read(read)),
    {
        match seconds_of_unit(self.word.as_str()) {
            Some(unit) => {
                proof {
                    assert(self.number * unit <= 0xffff_ffff_ffff_ffff * 31_557_600)
                        by (nonlinear_arith)
                        requires
                            self.number <= 0xffff_ffff_ffff_ffff,
                            unit <= 31_557_600,
                    ;
                }
                let whole: u128 = self.number as u128 * unit as u128;
                if whole <= u64::MAX as u128 {
                    self.seconds = self.seconds + whole + unit as u128 + 62;
                    self.number = 0;
                    self.pointed = false;
                    self.word = String::new();
                    if self.count < 2 {
                        self.count = self.count + 1;
                    }
                } else {
                    self.stopped = true;
                }
            },
            None => {
                self.stopped = true;
            },
        }
    }
}

/// Whether the text fits, as nearly every one does.
pub fn duration_text_fits(text: &str) -> (r: bool)
    ensures
        r == duration_fits(text@),
{
    let chars = chars_of(text);
    let mut reader = Reader {
        number: 0,
        pointed: false,
        word: String::new(),
        count: 0,
        seconds: 0,
        stopped: false,
    };
    let mut i: usize = 0;
    assert(text@.take(0) =~= Seq::<char>::empty());
    while i < chars.len()
        invariant
            i <= chars@.len(),
            chars@ == text@,
            reader.is(text_read(text@.take(i as int))),
        decreases chars@.len() - i,
    {
        let ghost read = text_read(text@.take(i as int));
        let c = chars[i];
        assert(text@.take(i + 1).drop_last() =~= text@.take(i as int));
        assert(text@.take(i + 1).last() == c);
        if reader.stopped {
            i += 1;
            continue ;
        }
        if reader.seconds >= u64::MAX as u128 && reader.count >= 2 {
            proof {
                read_grows(text@, i as int);
            }
            return false;
        }
        if '0' <= c && c <= '9' {
            let digit: u64 = (c as u32 - '0' as u32) as u64;
            if !reader.word.as_str().is_empty() {
                reader.end_unit(Ghost(read));
                if !reader.stopped {
                    reader.number = digit;
                }
            } else if !reader.pointed {
                let next: u128 = reader.number as u128 * 10 + digit as u128;
                if next > u64::MAX as u128 {
                    reader.stopped = true;
                } else {
                    reader.number = next as u64;
                }
            }
        } else if char_is_space(c) {
            if !reader.word.as_str().is_empty() {
                reader.end_unit(Ghost(read));
            }
        } else if c == '.' && reader.word.as_str().is_empty() {
            reader.pointed = true;
        } else {
            reader.word.push(c);
        }
        i += 1;
    }
    assert(text@.take(i as int) =~= text@);
    if !reader.stopped && !reader.word.as_str().is_empty() {
        if reader.seconds >= u64::MAX as u128 && reader.count >= 2 {
            return false;
        }
        reader.end_unit(Ghost(text_read(text@)));
    }
    reader.count <= 1 || reader.seconds < u64::MAX as u128
}

/// The names of units, letter by letter.
proof fn names_are_spelled()
    ensures
        "nanos"@.len() == 5 && "nanos"@[0] == 'n',
        "nsec"@.len() == 4 && "nsec"@[0] == 'n',
        "ns"@.len() == 2 && "ns"@[0] == 'n',
        "usec"@.len() == 4 && "usec"@[0] == 'u',
        "us"@.len() == 2 && "us"@[0] == 'u',
        "µs"@.len() == 2 && "µs"@[0] == 'µ',
        "millis"@.len() == 6 && "millis"@[0] == 'm',
        "msec"@.len() == 4 && "msec"@[0] == 'm',
        "ms"@.len() == 2 && "ms"@[0] == 'm',
        "seconds"@.len() == 7 && "seconds"@[0] == 's',
        "second"@.len() == 6 && "second"@[0] == 's',
        "secs"@.len() == 4 && "secs"@[0] == 's',
        "sec"@.len() == 3 && "sec"@[0] == 's',
        "s"@.len() == 1 && "s"@[0] == 's',
        "minutes"@.len() == 7 && "minutes"@[0] == 'm',
        "minute"@.len() == 6 && "minute"@[0] == 'm',
        "min"@.len() == 3 && "min"@[0] == 'm',
        "mins"@.len() == 4 && "mins"@[0] == 'm',
        "m"@.len() == 1 && "m"@[0] == 'm',
        "hours"@.len() == 5 && "hours"@[0] == 'h',
        "hour"@.len() == 4 && "hour"@[0] == 'h',
        "hr"@.len() == 2 && "hr"@[0] == 'h',
        "hrs"@.len() == 3 && "hrs"@[0] == 'h',
        "h"@.len() == 1 && "h"@[0] == 'h',
        "days"@.len() == 4 && "days"@[0] == 'd',
        "day"@.len() == 3 && "day"@[0] == 'd',
        "d"@.len() == 1 && "d"@[0] == 'd',
        "weeks"@.len() == 5 && "weeks"@[0] == 'w',
        "week"@.len() == 4 && "week"@[0] == 'w',
        "wk"@.len() == 2 && "wk"@[0] == 'w',
        "wks"@.len() == 3 && "wks"@[0] == 'w',
        "w"@.len() == 1 && "w"@[0] == 'w',
        "months"@.len() == 6 && "months"@[0] == 'm',
        "month"@.len() == 5 && "month"@[0] == 'm',
        "M"@.len() == 1 && "M"@[0] == 'M',
        "years"@.len() == 5 && "years"@[0] == 'y',
        "year"@.len() == 4 && "year"@[0] == 'y',
        "yr"@.len() == 2 && "yr"@[0] == 'y',
        "yrs"@.len() == 3 && "yrs"@[0] == 'y',
        "y"@.len() == 1 && "y"@[0] == 'y',
        "months"@[1] == 'o',
        "millis"@[1] == 'i',
        "minute"@[1] == 'i',
{
    reveal_strlit("nanos");
    reveal_strlit("nsec");
    reveal_strlit("ns");
    reveal_strlit("usec");
    reveal_strlit("us");
    reveal_strlit("µs");
    reveal_strlit("millis");
    reveal_strlit("msec");
    reveal_strlit("ms");
    reveal_strlit("seconds");
    reveal_strlit("second");
    reveal_strlit("secs");
    reveal_strlit("sec");
    reveal_strlit("s");
    reveal_strlit("minutes");
    reveal_strlit("minute");
    reveal_strlit("min");
    reveal_strlit("mins");
    reveal_strlit("m");
    reveal_strlit("hours");
    reveal_strlit("hour");
    reveal_strlit("hr");
    reveal_strlit("hrs");
    reveal_strlit("h");
    reveal_strlit("days");
    reveal_strlit("day");
    reveal_strlit("d");
    reveal_strlit("weeks");
    reveal_strlit("week");
    reveal_strlit("wk");
    reveal_strlit("wks");
    reveal_strlit("w");
    reveal_strlit("months");
    reveal_strlit("month");
    reveal_strlit("M");
    reveal_strlit("years");
    reveal_strlit("year");
    reveal_strlit("yr");
    reveal_strlit("yrs");
    reveal_strlit("y");
}

/// The units of time are told by their letter or by their name, and each is a multiple of
/// the one below; no unit has a longer name than these.
pub proof fn units_are_multiples(word: Seq<char>)
    ensures
        unit_seconds("s"@) == Some(1nat) && unit_seconds("seconds"@) == Some(1nat),
        unit_seconds("m"@) == Some(60nat) && unit_seconds("minutes"@) == Some(60nat),
        unit_seconds("h"@) == Some(60nat * 60) && unit_seconds("hours"@) == Some(60nat * 60),
        unit_seconds("d"@) == Some(24nat * 60 * 60) && unit_seconds("days"@) == Some(
            24nat * 60 * 60,
        ),
        unit_seconds("w"@) == Some(7nat * 24 * 60 * 60) && unit_seconds("weeks"@) == Some(
            7nat * 24 * 60 * 60,
        ),
        unit_seconds("months"@) == Some(2_630_016nat),
        unit_seconds("years"@) == Some(31_557_600nat) && unit_seconds("y"@) == Some(
            31_557_600nat,
        ),
        word.len() == 0 || word.len() > 7 ==> unit_seconds(word) is None,
{
    names_are_spelled();
}

/// A text is read number by number and unit by unit: digits make up a number, letters
/// the name of a unit, and each unit adds its number of seconds and never less.
pub proof fn units_are_added(s: Seq<char>, c: char)
    ensures
        text_read(Seq::empty()).count == 0 && text_read(Seq::empty()).seconds == 0,
        ({
            let read = text_read(s);
            let next = text_read(s.push(c));
            &&& read.stopped ==> next == read
            &&& !read.stopped && '0' <= c && c <= '9' && read.word.len() == 0 && !read.pointed
                && read.number * 10 + (c as int - 48) <= u64::MAX ==> next.number == read.number
                * 10 + (c as int - 48) && next.count == read.count && next.seconds == read.seconds
            &&& !read.stopped && 'a' <= c && c <= 'z' ==> next.word == read.word.push(c)
                && next.number == read.number && next.count == read.count
            &&& !read.stopped && c == ' ' && read.word.len() > 0 ==> (unit_seconds(read.word)
                matches Some(unit) ==> (read.number * unit <= u64::MAX ==> next.count == read.count
                + 1 && next.seconds >= read.seconds + read.number * unit && !next.stopped))
            &&& !read.stopped && c == ' ' && read.word.len() > 0 && unit_seconds(read.word) is None
                ==> next.stopped
            &&& !read.stopped && '0' <= c && c <= '9' && read.word.len() > 0 ==> (unit_seconds(
                read.word,
            ) matches Some(unit) ==> (read.number * unit <= u64::MAX ==> next.count == read.count
                + 1 && next.number == c as int - 48 && next.word.len() == 0))
        }),
        duration_fits(s) <==> whole_read(s).count <= 1 || whole_read(s).seconds < u64::MAX,
        !text_read(s).stopped && text_read(s).word.len() > 0 ==> (unit_seconds(
            text_read(s).word,
        ) matches Some(unit) ==> (text_read(s).number * unit <= u64::MAX ==> whole_read(s).count
            == text_read(s).count + 1)),
        text_read(s).word.len() == 0 ==> whole_read(s) == text_read(s),
{
    assert(s.push(c).drop_last() =~= s);
}

} // verus!

//! Historical daily-bar archives: the path bookkeeping and file-name
//! logic of the bar loader. Reading directories and decompressing the
//! archives is I/O and stays with the caller; this module decides which
//! entry comes next and what date its name carries.

use vstd::prelude::*;
use crate::quote::Bar;

verus! {

/// Whether a character is a decimal digit.
pub open spec fn is_digit(c: char) -> bool {
    48 <= c as int <= 57
}

/// The value of a decimal digit character.
pub open spec fn digit_val(c: char) -> int {
    c as int - 48
}

/// Whether a path name ends in the archive suffix `.zip`.
pub open spec fn is_zip_name(s: Seq<char>) -> bool {
    &&& s.len() >= 4
    &&& s[s.len() - 4] as int == 46
    &&& s[s.len() - 3] as int == 122
    &&& s[s.len() - 2] as int == 105
    &&& s[s.len() - 1] as int == 112
}

/// Whether the eight characters of `s` starting at `start` are digits —
/// a `yyyymmdd` day stamp.
pub open spec fn has_day_stamp(s: Seq<char>, start: int) -> bool {
    &&& start + 8 <= s.len()
    &&& forall|j: int| start <= j < start + 8 ==> is_digit(#[trigger] s[j])
}

/// The number the digits of `s` at `start .. start + n` spell.
pub open spec fn stamp_num(s: Seq<char>, start: int, n: int) -> int
    decreases n,
{
    if n <= 0 {
        0
    } else {
        stamp_num(s, start, n - 1) * 10 + digit_val(s[start + n - 1])
    }
}

/// Whether `s` ends in `.zip`.
pub fn path_is_zip(s: &String) -> (r: bool)
    ensures
        r == is_zip_name(s@),
{
    let sl: &str = s.as_str();
    let n: usize = sl.unicode_len();
    if n < 4 {
        return false;
    }
    let dot: u32 = sl.get_char(n - 4) as u32;
    let z: u32 = sl.get_char(n - 3) as u32;
    let i: u32 = sl.get_char(n - 2) as u32;
    let p: u32 = sl.get_char(n - 1) as u32;
    dot == 46 && z == 122 && i == 105 && p == 112
}

/// The index just after the last path separator of `s`: where the file
/// name begins.
pub fn file_stem_start(s: &String) -> (r: usize)
    ensures
        r <= s@.len(),
        r > 0 ==> s@[r - 1] as int == 47,
        forall|j: int| r <= j < s@.len() ==> (#[trigger] s@[j]) as int != 47,
{
    let sl: &str = s.as_str();
    let n: usize = sl.unicode_len();
    let mut i: usize = n;
    while i > 0
        invariant
            i <= n,
            n == s@.len(),
            sl@ == s@,
            forall|j: int| i <= j < s@.len() ==> (#[trigger] s@[j]) as int != 47,
        decreases i,
    {
        let c: u32 = sl.get_char(i - 1) as u32;
        if c == 47 {
            return i;
        }
        i = i - 1;
    }
    0
}

/// The `(year, month, day)` a file name beginning with a `yyyymmdd`
/// stamp at `start` names, or nothing when the stamp is malformed.
pub fn date_of_stamp(s: &String, start: usize) -> (r: Option<(i64, i64, i64)>)
    requires
        start <= s@.len(),
    ensures
        r is Some <==> has_day_stamp(s@, start as int),
        r matches Some(d) ==> {
            &&& d.0 == stamp_num(s@, start as int, 4)
            &&& d.1 == stamp_num(s@, start as int + 4, 2)
            &&& d.2 == stamp_num(s@, start as int + 6, 2)
        },
{
    let sl: &str = s.as_str();
    let n: usize = sl.unicode_len();
    if n - start < 8 || n < 8 {
        return None;
    }
    let mut year: i64 = 0;
    let mut month: i64 = 0;
    let mut day: i64 = 0;
    let mut k: usize = 0;
    while k < 8
        invariant
            k <= 8,
            start + 8 <= n,
            n == s@.len(),
            sl@ == s@,
            forall|j: int| start <= j < start + k ==> is_digit(#[trigger] s@[j]),
            year == stamp_num(s@, start as int, (if k < 4 { k as int } else { 4 })),
            month == (if k <= 4 {
                0int
            } else {
                stamp_num(s@, start as int + 4, (if k < 6 { k - 4 } else { 2 }))
            }),
            day == (if k <= 6 {
                0int
            } else {
                stamp_num(s@, start as int + 6, k - 6)
            }),
            0 <= year < (if k == 0 { 1int } else if k == 1 { 10int } else if k == 2 {
                100int
            } else if k == 3 { 1000int } else { 10000int }),
            0 <= month < (if k <= 4 { 1int } else if k == 5 { 10int } else { 100int }),
            0 <= day < (if k <= 6 { 1int } else if k == 7 { 10int } else { 100int }),
        decreases 8 - k,
    {
        let c: u32 = sl.get_char(start + k) as u32;
        if c < 48 || c > 57 {
            return None;
        }
        proof {
            assert(s@[start as int + k as int] as u32 == c);
            assert(is_digit(s@[start as int + k as int]));
            assert(digit_val(s@[start as int + k as int]) == c - 48);
            assert(stamp_num(s@, start as int + 4, 0) == 0);
            assert(stamp_num(s@, start as int + 6, 0) == 0);
        }
        let d: i64 = (c - 48) as i64;
        if k < 4 {
            year = year * 10 + d;
        } else if k < 6 {
            month = month * 10 + d;
        } else {
            day = day * 10 + d;
        }
        k = k + 1;
    }
    Some((year, month, day))
}

/// An ordered run of daily archive paths with a cursor.
#[derive(Debug)]
pub struct DayBars {
    /// The archive paths, in order.
    pub daypaths: Vec<String>,
    /// The next entry to hand out.
    pub iter: usize,
}

impl DayBars {
    /// A run with no paths.
    pub fn empty() -> (r: DayBars)
        ensures
            r.daypaths@.len() == 0,
            r.iter == 0,
    {
        let dta: Vec<String> = Vec::new();
        DayBars::new(dta)
    }

    /// A run over the given paths, starting at the first.
    pub fn new(day_paths: Vec<String>) -> (r: DayBars)
        ensures
            r.daypaths@ == day_paths@,
            r.iter == 0,
    {
        DayBars { daypaths: day_paths, iter: 0 }
    }

    /// Advance to the next archive entry: skip paths that are not `.zip`
    /// archives, return the first archive path, and leave the cursor just
    /// past it. Nothing is returned once the paths are exhausted.
    pub fn next_zip_path(&mut self) -> (r: Option<String>)
        requires
            old(self).iter <= old(self).daypaths@.len(),
        ensures
            final(self).daypaths@ == old(self).daypaths@,
            final(self).iter <= final(self).daypaths@.len(),
            old(self).iter <= final(self).iter,
            r matches Some(p) ==> {
                &&& final(self).iter >= 1
                &&& p@ == final(self).daypaths@[final(self).iter - 1]@
                &&& is_zip_name(p@)
                &&& forall|j: int| old(self).iter <= j < final(self).iter - 1
                    ==> !is_zip_name((#[trigger] final(self).daypaths@[j])@)
            },
            r is None ==> {
                &&& final(self).iter == final(self).daypaths@.len()
                &&& forall|j: int| old(self).iter <= j < final(self).daypaths@.len()
                    ==> !is_zip_name((#[trigger] final(self).daypaths@[j])@)
            },
    {
        let n: usize = self.daypaths.len();
        while self.iter < n
            invariant
                self.iter <= n,
                n == self.daypaths@.len(),
                self.daypaths@ == old(self).daypaths@,
                old(self).iter <= self.iter,
                forall|j: int| old(self).iter <= j < self.iter
                    ==> !is_zip_name((#[trigger] self.daypaths@[j])@),
            decreases n - self.iter,
        {
            let here: usize = self.iter;
            self.iter = self.iter + 1;
            if path_is_zip(&self.daypaths[here]) {
                let p: String = self.daypaths[here].clone();
                return Some(p);
            }
        }
        None
    }
}

/// A root directory of daily-bar archives.
#[derive(Debug)]
pub struct Lean {
    /// The data directory root.
    pub dir: String,
}

impl Lean {
    /// The run of archive paths for one instrument: the caller lists the
    /// instrument's directory and hands the entries in, sorted.
    pub fn list_entries(&self, entries: Vec<String>) -> (r: DayBars)
        ensures
            r.daypaths@ == entries@,
            r.iter == 0,
    {
        DayBars::new(entries)
    }
}


/// Ten to the `n`th power.
pub open spec fn pow10(n: int) -> int
    decreases n,
{
    if n <= 0 {
        1
    } else {
        10 * pow10(n - 1)
    }
}

/// A digit run spells a number below ten to its length.
proof fn lemma_stamp_num_bound(s: Seq<char>, start: int, n: int)
    requires
        n >= 0,
        forall|j: int| start <= j < start + n ==> is_digit(#[trigger] s[j]),
    ensures
        0 <= stamp_num(s, start, n) < pow10(n),
    decreases n,
{
    if n > 0 {
        lemma_stamp_num_bound(s, start, n - 1);
        assert(is_digit(s[start + n - 1]));
        assert(pow10(n) == 10 * pow10(n - 1));
    }
}

/// The index of the comma that ends the field starting at `from`, or the
/// text's end.
pub open spec fn field_end(s: Seq<char>, from: int) -> int
    decreases s.len() - from,
{
    if from < 0 || from >= s.len() || s[from] as int == 44 {
        from
    } else {
        field_end(s, from + 1)
    }
}

/// Basic shape of a field's end: it is between `from` and the text's
/// end, no comma stands before it, and a comma stands at it unless the
/// text ends there.
proof fn lemma_field_end(s: Seq<char>, from: int)
    requires
        0 <= from <= s.len(),
    ensures
        from <= field_end(s, from) <= s.len(),
        field_end(s, from) < s.len() ==> s[field_end(s, from)] as int == 44,
        forall|j: int| from <= j < field_end(s, from) ==> (#[trigger] s[j]) as int != 44,
    decreases s.len() - from,
{
    if from < s.len() && s[from] as int != 44 {
        lemma_field_end(s, from + 1);
    }
}

/// Whether a leading minus sign starts the field at `from`.
pub open spec fn field_neg(s: Seq<char>, from: int) -> bool {
    0 <= from < s.len() && s[from] as int == 45
}

/// Where the field's digits begin: past the sign when there is one.
pub open spec fn field_digits(s: Seq<char>, from: int) -> int {
    if field_neg(s, from) {
        from + 1
    } else {
        from
    }
}

/// A well-formed integer field: one to fourteen digits up to the next
/// comma, with an optional leading minus sign.
pub open spec fn field_ok(s: Seq<char>, from: int) -> bool {
    let ds = field_digits(s, from);
    let e = field_end(s, from);
    &&& 0 <= from <= s.len()
    &&& 1 <= e - ds <= 14
    &&& forall|j: int| ds <= j < e ==> is_digit(#[trigger] s[j])
}

/// The signed value the field at `from` spells.
pub open spec fn field_val(s: Seq<char>, from: int) -> int {
    let ds = field_digits(s, from);
    let e = field_end(s, from);
    if field_neg(s, from) {
        -stamp_num(s, ds, e - ds)
    } else {
        stamp_num(s, ds, e - ds)
    }
}

/// The index of the comma that closes the field at `from`, or the text
/// end.
fn field_end_exec(s: &String, from: usize) -> (r: usize)
    requires
        from <= s@.len(),
    ensures
        r == field_end(s@, from as int),
        from <= r <= s@.len(),
{
    proof {
        lemma_field_end(s@, from as int);
    }
    let sl: &str = s.as_str();
    let n: usize = sl.unicode_len();
    let mut j: usize = from;
    while j < n
        invariant
            from <= j <= n,
            n == s@.len(),
            sl@ == s@,
            forall|l: int| from <= l < j ==> (#[trigger] s@[l]) as int != 44,
        decreases n - j,
    {
        let c: u32 = sl.get_char(j) as u32;
        if c == 44 {
            proof {
                lemma_field_end_pin(s@, from as int, j as int);
            }
            return j;
        }
        j = j + 1;
    }
    proof {
        lemma_field_end_pin(s@, from as int, n as int);
    }
    n
}

/// Parse the integer field starting at `from`: its value and the index
/// of the comma (or text end) that closes it.
pub fn parse_int_field(s: &String, from: usize) -> (r: Option<(i64, usize)>)
    requires
        from <= s@.len(),
    ensures
        r is Some <==> field_ok(s@, from as int),
        r matches Some(v) ==> {
            &&& v.0 == field_val(s@, from as int)
            &&& v.1 == field_end(s@, from as int)
            &&& from <= v.1 <= s@.len()
            &&& (v.1 < s@.len() ==> s@[v.1 as int] as int == 44)
        },
{
    proof {
        lemma_field_end(s@, from as int);
    }
    let sl: &str = s.as_str();
    let n: usize = sl.unicode_len();
    let mut ds: usize = from;
    let mut neg: bool = false;
    if from < n {
        let c: u32 = sl.get_char(from) as u32;
        if c == 45 {
            neg = true;
            ds = from + 1;
        }
    }
    proof {
        assert(ds == field_digits(s@, from as int));
        if field_neg(s@, from as int) {
            assert(field_end(s@, from as int) == field_end(s@, from as int + 1));
        }
        lemma_field_end(s@, ds as int);
    }
    let e: usize = field_end_exec(s, ds);
    proof {
        assert(e == field_end(s@, from as int));
    }
    if e == ds || e - ds > 14 {
        return None;
    }
    let mut value: i64 = 0;
    let mut j: usize = ds;
    proof {
        reveal_with_fuel(pow10, 16);
        assert(pow10(14) == 100000000000000);
    }
    while j < e
        invariant
            ds <= j <= e,
            e <= n,
            1 <= e - ds <= 14,
            from <= ds,
            ds == field_digits(s@, from as int),
            e == field_end(s@, from as int),
            neg == field_neg(s@, from as int),
            n == s@.len(),
            sl@ == s@,
            forall|l: int| ds <= l < j ==> is_digit(#[trigger] s@[l]),
            value == stamp_num(s@, ds as int, j - ds),
            0 <= value < pow10(j - ds),
            pow10(j - ds) <= 100000000000000,
        decreases e - j,
    {
        let c: u32 = sl.get_char(j) as u32;
        proof {
            assert(s@[j as int] as u32 == c);
        }
        if c < 48 || c > 57 {
            proof {
                assert(!is_digit(s@[j as int]));
            }
            return None;
        }
        proof {
            assert(is_digit(s@[j as int]));
            assert(digit_val(s@[j as int]) == c - 48);
            assert(pow10(j - ds + 1) == 10 * pow10(j - ds));
            lemma_pow10_le(j + 1 - ds, 14);
            reveal_with_fuel(pow10, 16);
            assert(pow10(14) == 100000000000000);
        }
        value = value * 10 + ((c - 48) as i64);
        j = j + 1;
    }
    if neg {
        Some((-value, e))
    } else {
        Some((value, e))
    }
}

/// `pow10` grows with its argument.
proof fn lemma_pow10_le(a: int, b: int)
    requires
        0 <= a <= b,
    ensures
        pow10(a) <= pow10(b),
        pow10(a) >= 1,
    decreases b,
{
    if a < b {
        lemma_pow10_le(a, b - 1);
        assert(pow10(b) == 10 * pow10(b - 1));
    } else if b > 0 {
        lemma_pow10_le(a - 1, b - 1);
    }
}

/// A position with no comma before it and a comma (or the end) at it is
/// the field's end.
proof fn lemma_field_end_pin(s: Seq<char>, from: int, j: int)
    requires
        0 <= from <= j <= s.len(),
        forall|l: int| from <= l < j ==> (#[trigger] s[l]) as int != 44,
        j == s.len() || s[j] as int == 44,
    ensures
        field_end(s, from) == j,
    decreases j - from,
{
    if from < j {
        lemma_field_end_pin(s, from + 1, j);
    }
}

/// Where the `j`th comma-separated field of a bar line begins.
pub open spec fn bar_field_start(s: Seq<char>, j: int) -> int
    decreases j,
{
    if j <= 0 {
        0
    } else {
        field_end(s, bar_field_start(s, j - 1)) + 1
    }
}

/// A parseable bar line: five integer fields — time, open, high, low,
/// close — with the first four closed by commas. Anything after the
/// fifth field is ignored.
pub open spec fn bar_line_ok(s: Seq<char>) -> bool {
    &&& field_ok(s, bar_field_start(s, 0))
    &&& field_end(s, bar_field_start(s, 0)) < s.len()
    &&& field_ok(s, bar_field_start(s, 1))
    &&& field_end(s, bar_field_start(s, 1)) < s.len()
    &&& field_ok(s, bar_field_start(s, 2))
    &&& field_end(s, bar_field_start(s, 2)) < s.len()
    &&& field_ok(s, bar_field_start(s, 3))
    &&& field_end(s, bar_field_start(s, 3)) < s.len()
    &&& field_ok(s, bar_field_start(s, 4))
}

/// The bar a parseable line describes.
pub open spec fn bar_of_line(s: Seq<char>) -> Bar {
    Bar {
        t: field_val(s, bar_field_start(s, 0)) as i64,
        o: field_val(s, bar_field_start(s, 1)) as i64,
        h: field_val(s, bar_field_start(s, 2)) as i64,
        l: field_val(s, bar_field_start(s, 3)) as i64,
        c: field_val(s, bar_field_start(s, 4)) as i64,
    }
}

/// Parse one line of a daily archive into a bar: five comma-separated
/// integer fields, time first, then open, high, low and close.
pub fn parse_bar_line(s: &String) -> (r: Option<Bar>)
    ensures
        r is Some <==> bar_line_ok(s@),
        r matches Some(b) ==> b == bar_of_line(s@),
{
    let f0 = match parse_int_field(s, 0) {
        Some(v) => v,
        None => {
            return None;
        },
    };
    if f0.1 >= s.as_str().unicode_len() {
        return None;
    }
    let f1 = match parse_int_field(s, f0.1 + 1) {
        Some(v) => v,
        None => {
            return None;
        },
    };
    if f1.1 >= s.as_str().unicode_len() {
        return None;
    }
    let f2 = match parse_int_field(s, f1.1 + 1) {
        Some(v) => v,
        None => {
            return None;
        },
    };
    if f2.1 >= s.as_str().unicode_len() {
        return None;
    }
    let f3 = match parse_int_field(s, f2.1 + 1) {
        Some(v) => v,
        None => {
            return None;
        },
    };
    if f3.1 >= s.as_str().unicode_len() {
        return None;
    }
    let f4 = match parse_int_field(s, f3.1 + 1) {
        Some(v) => v,
        None => {
            return None;
        },
    };
    Some(Bar { t: f0.0, o: f1.0, h: f2.0, l: f3.0, c: f4.0 })
}

} // verus!

//! The launch options: flag lookup, decimal and `WxH` parsing, and the run
//! mode they select.

use vstd::prelude::*;

verus! {

use crate::behavior::str_eq;

/// Whether `c` is an ASCII decimal digit.
pub open spec fn is_digit(c: char) -> bool {
    '0' <= c && c <= '9'
}

/// The value of a decimal digit.
pub open spec fn digit_value(c: char) -> int {
    c as int - '0' as int
}

/// The value of a string of decimal digits, most significant first.
pub open spec fn digits_value(ds: Seq<char>) -> int
    decreases ds.len(),
{
    if ds.len() == 0 {
        0
    } else {
        10 * digits_value(ds.drop_last()) + digit_value(ds.last())
    }
}

/// Whether every character is a decimal digit.
pub open spec fn all_digits(ds: Seq<char>) -> bool {
    forall|i: int| 0 <= i < ds.len() ==> is_digit(#[trigger] ds[i])
}

/// The digits of an unsigned number: the text without one leading `+`.
pub open spec fn unsigned_digits(s: Seq<char>) -> Seq<char> {
    if s.len() > 0 && s[0] == '+' {
        s.drop_first()
    } else {
        s
    }
}

/// The `u32` that a text denotes: an optional `+`, then one or more decimal
/// digits, with a value that fits in 32 bits. Anything else (no digits, a
/// sign alone, a `-`, whitespace, any other character, a value too large)
/// denotes none.
pub open spec fn parse_u32_spec(s: Seq<char>) -> Option<u32> {
    let ds = unsigned_digits(s);
    if ds.len() > 0 && all_digits(ds) && digits_value(ds) <= u32::MAX {
        Some(digits_value(ds) as u32)
    } else {
        None
    }
}

/// The position of the first `c` in `s` at or after `i`.
pub open spec fn char_position_from(s: Seq<char>, c: char, i: int) -> Option<int>
    decreases s.len() - i,
{
    if i < 0 || i >= s.len() {
        None
    } else if s[i] == c {
        Some(i)
    } else {
        char_position_from(s, c, i + 1)
    }
}

/// The size a `WxH` text denotes: the text splits at its first `x` into a
/// width and a height, both `u32` texts.
pub open spec fn parse_size_spec(s: Seq<char>) -> Option<(u32, u32)> {
    match char_position_from(s, 'x', 0) {
        Some(i) => match (
            parse_u32_spec(s.subrange(0, i)),
            parse_u32_spec(s.subrange(i + 1, s.len() as int)),
        ) {
            (Some(w), Some(h)) => Some((w, h)),
            _ => None,
        },
        None => None,
    }
}

proof fn lemma_digits_value_nonneg(ds: Seq<char>)
    requires
        all_digits(ds),
    ensures
        digits_value(ds) >= 0,
    decreases ds.len(),
{
    if ds.len() > 0 {
        assert(is_digit(ds[ds.len() - 1]));
        lemma_digits_value_nonneg(ds.drop_last());
    }
}

/// The `u32` that the characters `from..to` of `s` denote.
fn parse_u32_range(s: &str, from: usize, to: usize) -> (r: Option<u32>)
    requires
        from <= to <= s@.len(),
    ensures
        r == parse_u32_spec(s@.subrange(from as int, to as int)),
{
    let ghost t = s@.subrange(from as int, to as int);
    let mut start = from;
    if from < to && s.get_char(from) == '+' {
        start = from + 1;
    }
    let ghost ds = s@.subrange(start as int, to as int);
    assert(ds =~= unsigned_digits(t));
    if start == to {
        return None;
    }
    let mut acc: u64 = 0;
    let mut too_large = false;
    let mut i = start;
    while i < to
        invariant
            start <= i <= to <= s@.len(),
            ds == s@.subrange(start as int, to as int),
            ds == unsigned_digits(s@.subrange(from as int, to as int)),
            start < to,
            all_digits(s@.subrange(start as int, i as int)),
            !too_large ==> acc == digits_value(s@.subrange(start as int, i as int)),
            !too_large ==> acc <= u32::MAX,
            too_large ==> digits_value(s@.subrange(start as int, i as int)) > u32::MAX,
        decreases to - i,
    {
        let c = s.get_char(i);
        if c < '0' || c > '9' {
            assert(ds[i - start] == c);
            assert(!all_digits(ds));
            return None;
        }
        let ghost prev = s@.subrange(start as int, i as int);
        let ghost next = s@.subrange(start as int, i + 1);
        proof {
            assert(next.drop_last() =~= prev);
            assert(next.last() == c);
            assert(all_digits(next)) by {
                assert forall|j: int| 0 <= j < next.len() implies is_digit(#[trigger] next[j]) by {
                    if j < prev.len() {
                        assert(next[j] == prev[j]);
                    }
                }
            }
            lemma_digits_value_nonneg(prev);
        }
        let d = (c as u32 - '0' as u32) as u64;
        if !too_large {
            acc = acc * 10 + d;
            if acc > 0xffff_ffff {
                too_large = true;
            }
        }
        i = i + 1;
    }
    assert(s@.subrange(start as int, i as int) =~= ds);
    if too_large {
        None
    } else {
        Some(acc as u32)
    }
}

/// The `u32` a text denotes, as `str::parse::<u32>` reads it.
pub fn parse_u32(s: &str) -> (r: Option<u32>)
    ensures
        r == parse_u32_spec(s@),
{
    let n = s.unicode_len();
    assert(s@.subrange(0, n as int) =~= s@);
    parse_u32_range(s, 0, n)
}

proof fn lemma_char_position_from(s: Seq<char>, c: char, i: int)
    requires
        0 <= i,
    ensures
        char_position_from(s, c, i) matches Some(p) ==> i <= p < s.len() && s[p] == c
            && forall|j: int| i <= j < p ==> s[j] != c,
        char_position_from(s, c, i) is None ==> forall|j: int| i <= j < s.len() ==> s[j] != c,
    decreases s.len() - i,
{
    if i < s.len() && s[i] != c {
        lemma_char_position_from(s, c, i + 1);
    }
}

/// The size a `WxH` text denotes: width and height split at the first `x`.
pub fn parse_size(s: &str) -> (r: Option<(u32, u32)>)
    ensures
        r == parse_size_spec(s@),
{
    let n = s.unicode_len();
    let mut i: usize = 0;
    while i < n
        invariant
            n == s@.len(),
            i <= n,
            char_position_from(s@, 'x', i as int) == char_position_from(s@, 'x', 0),
        decreases n - i,
    {
        if s.get_char(i) == 'x' {
            let w = parse_u32_range(s, 0, i);
            let h = parse_u32_range(s, i + 1, n);
            return match (w, h) {
                (Some(w), Some(h)) => Some((w, h)),
                _ => None,
            };
        }
        i = i + 1;
    }
    None
}

/// The value given after the first occurrence of `name` in `args`: the
/// argument right after it, if there is one.
pub open spec fn flag_value_spec(args: Seq<Seq<char>>, name: Seq<char>) -> Option<Seq<char>> {
    match crate::widget::position_of(args, name) {
        Some(i) => if i + 1 < args.len() {
            Some(args[i + 1])
        } else {
            None
        },
        None => None,
    }
}

/// The characters of an optional string.
pub open spec fn opt_view(o: Option<String>) -> Option<Seq<char>> {
    match o {
        Some(s) => Some(s@),
        None => None,
    }
}

/// The argument after the first occurrence of the flag `name`, if any.
pub fn flag_value(args: &Vec<String>, name: &str) -> (r: Option<String>)
    ensures
        opt_view(r) == flag_value_spec(crate::widget::names_view(args@), name@),
        r matches Some(v) ==> exists|i: int|
            0 <= i && i + 1 < args.len() && (#[trigger] args@[i])@ == name@ && v@ == args@[i + 1]@
                && forall|j: int| 0 <= j < i ==> (#[trigger] args@[j])@ != name@,
        r is None ==> forall|i: int|
            0 <= i < args.len() - 1 && (#[trigger] args@[i])@ == name@ ==> exists|j: int|
                0 <= j < i && (#[trigger] args@[j])@ == name@,
{
    let ghost av = crate::widget::names_view(args@);
    let mut i: usize = 0;
    while i < args.len()
        invariant
            i <= args.len(),
            av == crate::widget::names_view(args@),
            crate::widget::position_from(av, name@, i as int) == crate::widget::position_of(av, name@),
            forall|j: int| 0 <= j < i ==> (#[trigger] args@[j])@ != name@,
        decreases args.len() - i,
    {
        assert(av[i as int] == args@[i as int]@);
        if str_eq(args[i].as_str(), name) {
            assert(args@[i as int]@ == name@);
            if i + 1 < args.len() {
                return Some(args[i + 1].clone());
            } else {
                return None;
            }
        }
        i = i + 1;
    }
    None
}

/// The `u32` given by the flag `name`, if the flag is there with a value
/// that denotes one.
pub open spec fn u32_flag_spec(args: Seq<Seq<char>>, name: Seq<char>) -> Option<u32> {
    match flag_value_spec(args, name) {
        Some(v) => parse_u32_spec(v),
        None => None,
    }
}

/// The `u32` given by the flag `name`, or `default`.
pub open spec fn u32_flag_or_spec(args: Seq<Seq<char>>, name: Seq<char>, default: u32) -> u32 {
    match u32_flag_spec(args, name) {
        Some(v) => v,
        None => default,
    }
}

/// The `u32` given by the flag `name`: `None` when the flag is missing, has
/// no value after it, or its value is not a `u32`.
pub fn u32_flag(args: &Vec<String>, name: &str) -> (r: Option<u32>)
    ensures
        r == u32_flag_spec(crate::widget::names_view(args@), name@),
        flag_value_spec(crate::widget::names_view(args@), name@) matches Some(v) ==> r
            == parse_u32_spec(v),
        flag_value_spec(crate::widget::names_view(args@), name@) is None ==> r is None,
{
    match flag_value(args, name) {
        Some(v) => parse_u32(v.as_str()),
        None => None,
    }
}

/// The widget's default size: 450 by 600.
pub const DEFAULT_WIDTH: u32 = 450;

/// The widget's default height.
pub const DEFAULT_HEIGHT: u32 = 600;

/// The default number of ticks before a headless screenshot.
pub const SHOT_TICKS: u32 = 60;

/// The default number of ticks of a headless frame sequence.
pub const SEQ_TICKS: u32 = 300;

/// The window size: the `--size WxH` flag, or 450 by 600 when it is
/// missing or does not parse.
pub open spec fn launch_size_spec(args: Seq<Seq<char>>) -> (u32, u32) {
    match flag_value_spec(args, "--size"@) {
        Some(v) => match parse_size_spec(v) {
            Some(sz) => sz,
            None => (DEFAULT_WIDTH, DEFAULT_HEIGHT),
        },
        None => (DEFAULT_WIDTH, DEFAULT_HEIGHT),
    }
}

/// The window size from `--size WxH`, defaulting to 450 by 600.
pub fn launch_size(args: &Vec<String>) -> (r: (u32, u32))
    ensures
        r == launch_size_spec(crate::widget::names_view(args@)),
        match flag_value_spec(crate::widget::names_view(args@), "--size"@) {
            Some(v) => match parse_size_spec(v) {
                Some((w, h)) => r.0 == w && r.1 == h,
                None => r.0 == 450 && r.1 == 600,
            },
            None => r.0 == 450 && r.1 == 600,
        },
{
    match flag_value(args, "--size") {
        Some(v) => match parse_size(v.as_str()) {
            Some(sz) => sz,
            None => (DEFAULT_WIDTH, DEFAULT_HEIGHT),
        },
        None => (DEFAULT_WIDTH, DEFAULT_HEIGHT),
    }
}

/// What a launch does.
pub enum RunMode {
    /// Run `ticks` fixed steps without a window, then save one frame to
    /// `out`.
    HeadlessShot { out: String, ticks: u32 },
    /// Run `skip + ticks` fixed steps without a window, saving every frame
    /// after the first `skip` into the directory `dir`.
    HeadlessSeq { dir: String, ticks: u32, skip: u32 },
    /// Open the widget window.
    Windowed,
}

/// The run mode: `--headless-shot OUT` first (ticks from `--ticks`, else
/// 60), then `--headless-seq DIR` (ticks from `--ticks`, else 300; skip from
/// `--skip`, else 0), else the window.
pub fn run_mode(args: &Vec<String>) -> (r: RunMode)
    ensures
        ({
            let av = crate::widget::names_view(args@);
            &&& flag_value_spec(av, "--headless-shot"@) matches Some(out) ==> r matches RunMode::HeadlessShot { out: o, ticks }
                && o@ == out && ticks == u32_flag_or_spec(av, "--ticks"@, 60)
            &&& flag_value_spec(av, "--headless-shot"@) is None ==> (flag_value_spec(av, "--headless-seq"@) matches Some(dir)
                ==> r matches RunMode::HeadlessSeq { dir: d, ticks, skip } && d@ == dir
                && ticks == u32_flag_or_spec(av, "--ticks"@, 300)
                && skip == u32_flag_or_spec(av, "--skip"@, 0))
            &&& flag_value_spec(av, "--headless-shot"@) is None && flag_value_spec(av, "--headless-seq"@) is None
                ==> r is Windowed
        }),
{
    if let Some(out) = flag_value(args, "--headless-shot") {
        let ticks = match u32_flag(args, "--ticks") {
            Some(t) => t,
            None => SHOT_TICKS,
        };
        return RunMode::HeadlessShot { out, ticks };
    }
    if let Some(dir) = flag_value(args, "--headless-seq") {
        let ticks = match u32_flag(args, "--ticks") {
            Some(t) => t,
            None => SEQ_TICKS,
        };
        let skip = match u32_flag(args, "--skip") {
            Some(t) => t,
            None => 0,
        };
        return RunMode::HeadlessSeq { dir, ticks, skip };
    }
    RunMode::Windowed
}

/// The decimal digit character for `d` in `0..10`.
pub open spec fn digit_char(d: int) -> char {
    (d + '0' as int) as char
}

/// The decimal text of `n`: its digits, most significant first, without
/// leading zeros (`"0"` for zero).
pub open spec fn decimal(n: nat) -> Seq<char>
    decreases n,
{
    if n < 10 {
        seq![digit_char(n as int)]
    } else {
        decimal(n / 10).push(digit_char((n % 10) as int))
    }
}

proof fn lemma_decimal(n: nat)
    ensures
        decimal(n).len() > 0,
        all_digits(decimal(n)),
        digits_value(decimal(n)) == n,
        decimal(n)[0] != '+',
        forall|i: int| 0 <= i < decimal(n).len() ==> #[trigger] decimal(n)[i] != 'x',
    decreases n,
{
    if n < 10 {
        assert(decimal(n).drop_last() =~= Seq::<char>::empty());
        assert(digit_value(digit_char(n as int)) == n);
        assert(digits_value(Seq::<char>::empty()) == 0);
    } else {
        assert(digit_value(digit_char((n % 10) as int)) == n % 10);
        lemma_decimal(n / 10);
        let p = decimal(n / 10);
        assert(decimal(n).drop_last() =~= p);
        assert forall|i: int| 0 <= i < decimal(n).len() implies is_digit(#[trigger] decimal(n)[i]) by {
            if i < p.len() {
                assert(decimal(n)[i] == p[i]);
            }
        }
        assert forall|i: int| 0 <= i < decimal(n).len() implies #[trigger] decimal(n)[i] != 'x' by {
            if i < p.len() {
                assert(decimal(n)[i] == p[i]);
            }
        }
        assert(decimal(n)[0] == p[0]);
    }
}

/// Reading back a number written in decimal gives the same number.
pub proof fn lemma_u32_text_round_trip(n: u32)
    ensures
        parse_u32_spec(decimal(n as nat)) == Some(n),
{
    lemma_decimal(n as nat);
}

/// Reading back a size written as `WxH` in decimal gives the same size.
pub proof fn lemma_size_text_round_trip(w: u32, h: u32)
    ensures
        parse_size_spec(decimal(w as nat) + seq!['x'] + decimal(h as nat)) == Some((w, h)),
{
    let dw = decimal(w as nat);
    let dh = decimal(h as nat);
    let s = dw + seq!['x'] + dh;
    lemma_decimal(w as nat);
    lemma_decimal(h as nat);
    let n = dw.len() as int;
    assert(s[n] == 'x');
    assert forall|i: int| 0 <= i < n implies s[i] != 'x' by {
        assert(s[i] == dw[i]);
    }
    lemma_char_position_from(s, 'x', 0);
    assert(char_position_from(s, 'x', 0) == Some(n)) by {
        let p = char_position_from(s, 'x', 0);
        if p is None {
            assert(s[n] != 'x');
        } else {
            let q = p->0;
            if q < n {
                assert(s[q] != 'x');
            }
            if q > n {
                assert(s[n] != 'x');
            }
        }
    }
    assert(s.subrange(0, n) =~= dw);
    assert(s.subrange(n + 1, s.len() as int) =~= dh);
    assert(unsigned_digits(dw) == dw);
    assert(unsigned_digits(dh) == dh);
}

/// A numeric flag reads the number written after it: whenever the flag's
/// value is the decimal text of `n` (or any text that denotes `n`), the flag
/// gives `n`, for every `u32`; a missing flag gives the default.
pub proof fn lemma_u32_flag_reads_value(args: Seq<Seq<char>>, name: Seq<char>, n: u32, default: u32)
    ensures
        flag_value_spec(args, name) == Some(decimal(n as nat)) ==> u32_flag_spec(args, name)
            == Some(n) && u32_flag_or_spec(args, name, default) == n,
        forall|v: Seq<char>|
            flag_value_spec(args, name) == Some(v) && parse_u32_spec(v) == Some(n) ==> u32_flag_spec(
                args,
                name,
            ) == Some(n) && u32_flag_or_spec(args, name, default) == n,
        flag_value_spec(args, name) is None ==> u32_flag_spec(args, name) is None
            && u32_flag_or_spec(args, name, default) == default,
{
    lemma_u32_text_round_trip(n);
}

/// The window size reads `--size WxH` in order: the width is the number
/// before the first `x`, the height the one after it, for every pair of
/// `u32`s; without the flag the size is 450 by 600.
pub proof fn lemma_launch_size_reads_flag(args: Seq<Seq<char>>, w: u32, h: u32)
    ensures
        flag_value_spec(args, "--size"@) == Some(decimal(w as nat) + seq!['x'] + decimal(h as nat))
            ==> launch_size_spec(args) == (w, h),
        forall|v: Seq<char>|
            flag_value_spec(args, "--size"@) == Some(v) && parse_size_spec(v) == Some((w, h))
                ==> launch_size_spec(args) == (w, h),
        flag_value_spec(args, "--size"@) is None ==> launch_size_spec(args) == (450u32, 600u32),
{
    lemma_size_text_round_trip(w, h);
}

} // verus!

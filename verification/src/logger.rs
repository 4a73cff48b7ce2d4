//! Names of the hourly log files.
use vstd::prelude::*;
use crate::text::{all_decimal_digits, decimal_text, law_decimal_text_reads_back, push_decimal};

verus! {

/// The local month (1 to 12), day of month (1 to 31) and hour (0 to 23) at
/// the moment of the call, from `chrono::Local::now()`. The ranges are what
/// chrono's `Datelike::month`, `Datelike::day` and `Timelike::hour` document;
/// which moment it is depends on the clock and is not stated.
#[verifier::external_body]
fn local_month_day_hour() -> (res: (u32, u32, u32))
    ensures
        1 <= res.0 <= 12,
        1 <= res.1 <= 31,
        res.2 <= 23,
{
    let now = chrono::Local::now();
    (chrono::Datelike::month(&now), chrono::Datelike::day(&now), chrono::Timelike::hour(&now))
}

/// `/tmp/doomrakr/doomrakr.MONTH.DAY.HOUR.log`.
pub open spec fn log_file_name(month: nat, day: nat, hour: nat) -> Seq<char> {
    "/tmp/doomrakr/doomrakr."@ + decimal_text(month) + "."@ + decimal_text(day) + "."@
        + decimal_text(hour) + ".log"@
}

/// Two digit strings each followed by a dot and some text are equal only
/// when the digits and the texts are.
proof fn lemma_split_at_dot(x: Seq<char>, r: Seq<char>, y: Seq<char>, t: Seq<char>)
    requires
        all_decimal_digits(x),
        all_decimal_digits(y),
        x + seq!['.'] + r == y + seq!['.'] + t,
    ensures
        x == y,
        r == t,
{
    let a = x + seq!['.'] + r;
    let b = y + seq!['.'] + t;
    if x.len() < y.len() {
        assert(a[x.len() as int] == '.');
        assert(b[x.len() as int] == y[x.len() as int]);
    } else if y.len() < x.len() {
        assert(b[y.len() as int] == '.');
        assert(a[y.len() as int] == x[y.len() as int]);
    }
    assert(x =~= a.take(x.len() as int));
    assert(y =~= b.take(y.len() as int));
    assert(r =~= a.skip(x.len() + 1int));
    assert(t =~= b.skip(y.len() + 1int));
}

/// Each hour of the year has a log file of its own: log file names of
/// different months, days or hours differ.
pub proof fn law_log_file_names_differ(m1: nat, d1: nat, h1: nat, m2: nat, d2: nat, h2: nat)
    requires
        log_file_name(m1, d1, h1) == log_file_name(m2, d2, h2),
    ensures
        m1 == m2,
        d1 == d2,
        h1 == h2,
{
    reveal_strlit("/tmp/doomrakr/doomrakr.");
    reveal_strlit(".");
    reveal_strlit(".log");
    reveal_strlit("log");
    let pre = "/tmp/doomrakr/doomrakr."@;
    let tail1 = decimal_text(h1) + seq!['.'] + "log"@;
    let tail2 = decimal_text(h2) + seq!['.'] + "log"@;
    let rest1 = decimal_text(m1) + seq!['.'] + (decimal_text(d1) + seq!['.'] + tail1);
    let rest2 = decimal_text(m2) + seq!['.'] + (decimal_text(d2) + seq!['.'] + tail2);
    assert(".log"@ =~= seq!['.'] + "log"@);
    assert("."@ =~= seq!['.']);
    assert(log_file_name(m1, d1, h1) =~= pre + rest1);
    assert(log_file_name(m2, d2, h2) =~= pre + rest2);
    assert(rest1 =~= (pre + rest1).skip(pre.len() as int));
    assert(rest2 =~= (pre + rest2).skip(pre.len() as int));
    law_decimal_text_reads_back(m1);
    law_decimal_text_reads_back(m2);
    law_decimal_text_reads_back(d1);
    law_decimal_text_reads_back(d2);
    law_decimal_text_reads_back(h1);
    law_decimal_text_reads_back(h2);
    lemma_split_at_dot(
        decimal_text(m1),
        decimal_text(d1) + seq!['.'] + tail1,
        decimal_text(m2),
        decimal_text(d2) + seq!['.'] + tail2,
    );
    lemma_split_at_dot(decimal_text(d1), tail1, decimal_text(d2), tail2);
    lemma_split_at_dot(decimal_text(h1), "log"@, decimal_text(h2), "log"@);
}

/// The log file for the given local month, day and hour.
pub fn log_filename_for(month: u32, day: u32, hour: u32) -> (res: String)
    ensures
        res@ == log_file_name(month as nat, day as nat, hour as nat),
{
    let mut name = String::from_str("/tmp/doomrakr/doomrakr.");
    push_decimal(&mut name, month as u64);
    name.append(".");
    push_decimal(&mut name, day as u64);
    name.append(".");
    push_decimal(&mut name, hour as u64);
    name.append(".log");
    name
}

/// The log file for the current local hour.
pub fn gen_filename() -> (res: String)
    ensures
        exists|m: nat, d: nat, h: nat|
            1 <= m <= 12 && 1 <= d <= 31 && h <= 23 && res@ == #[trigger] log_file_name(m, d, h),
{
    let (month, day, hour) = local_month_day_hour();
    log_filename_for(month, day, hour)
}

} // verus!

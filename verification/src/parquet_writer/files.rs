//! Where sample files are stored and how they are named.

use vstd::prelude::*;

use crate::calendar::{date_is, date_of, UtcTime, SECS_PER_DAY, SECS_PER_HOUR};
use crate::config::RollPeriod;
use crate::text::{decimal, padded_decimal, zero_padded};

verus! {

/// Number of files that one roll window may have in a directory.
pub const MAX_FILES: u64 = 1000;

/// The two names of a sample file.
#[derive(Debug)]
pub struct FilePaths {
    /// Path while the file is written.
    pub inprogress: String,
    /// Path once the file is complete.
    pub complete: String,
}

/// Every file name of a roll window is taken.
#[derive(Clone, Copy, Debug, PartialEq, Eq, Structural)]
pub struct NoFreeName;

/// Seconds that a roll window lasts.
pub open spec fn window_secs(roll: RollPeriod) -> int {
    match roll {
        RollPeriod::Hourly => SECS_PER_HOUR as int,
        RollPeriod::Daily => SECS_PER_DAY as int,
    }
}

/// Whether a moment is the start of the roll window that another one falls in: the last
/// full hour or the last midnight.
pub open spec fn is_window_start(start: UtcTime, now: UtcTime, roll: RollPeriod) -> bool {
    &&& start.nanos == 0
    &&& start.secs as int % window_secs(roll) == 0
    &&& start.secs <= now.secs < start.secs + window_secs(roll)
}

/// Two parts of a path as one: a separator comes between them unless the first part is
/// empty or ends in one.
pub open spec fn joined(base: Seq<char>, name: Seq<char>) -> Seq<char> {
    if base.len() == 0 || base.last() == '/' {
        base + name
    } else {
        base + "/"@ + name
    }
}

/// A year in at least four characters, of which one is the sign of a year before zero.
pub open spec fn year_text(year: int) -> Seq<char> {
    if year < 0 {
        "-"@ + zero_padded(decimal((-year) as nat), 3)
    } else {
        zero_padded(decimal(year as nat), 4)
    }
}

/// A year in four digits, with a sign where these do not do.
pub open spec fn signed_year_text(year: int) -> Seq<char> {
    if year < 0 {
        "-"@ + zero_padded(decimal((-year) as nat), 4)
    } else if year > 9999 {
        "+"@ + decimal(year as nat)
    } else {
        zero_padded(decimal(year as nat), 4)
    }
}

/// A number below a hundred in two digits.
pub open spec fn two_digits(number: int) -> Seq<char> {
    zero_padded(decimal(number as nat), 2)
}

/// The directory name of a date.
pub open spec fn date_directory(year: int, month: int, day: int) -> Seq<char> {
    "date="@ + year_text(year) + "-"@ + two_digits(month) + "-"@ + two_digits(day)
}

/// The directory of a roll window that starts at this date and hour.
pub open spec fn directory_path(
    data_dir: Seq<char>,
    roll: RollPeriod,
    year: int,
    month: int,
    day: int,
    hour: int,
) -> Seq<char> {
    let date = joined(joined(data_dir, "samples"@), date_directory(year, month, day));
    match roll {
        RollPeriod::Hourly => joined(date, "hour="@ + two_digits(hour)),
        RollPeriod::Daily => date,
    }
}

/// The common start of the file names of a roll window.
pub open spec fn file_stem(roll: RollPeriod, year: int, month: int, day: int, hour: int) -> Seq<
    char,
> {
    let date = "part-"@ + signed_year_text(year) + two_digits(month) + two_digits(day);
    match roll {
        RollPeriod::Hourly => date + "T"@ + two_digits(hour) + "0000Z"@,
        RollPeriod::Daily => date,
    }
}

/// The name of the file number `index` of a roll window, once it is complete.
pub open spec fn complete_name(stem: Seq<char>, index: int) -> Seq<char> {
    if index == 0 {
        stem + ".parquet"@
    } else {
        stem + "-"@ + zero_padded(decimal(index as nat), 3) + ".parquet"@
    }
}

/// The name of a file while it is written.
pub open spec fn inprogress_name(complete: Seq<char>) -> Seq<char> {
    complete + ".inprogress"@
}

/// Whether a directory has a file of this name.
pub open spec fn has_name(existing: Seq<String>, name: Seq<char>) -> bool {
    exists|i: int| 0 <= i < existing.len() && #[trigger] existing[i]@ == name
}

/// Whether neither name of the file number `index` is in use.
pub open spec fn index_free(existing: Seq<String>, stem: Seq<char>, index: int) -> bool {
    &&& !has_name(existing, complete_name(stem, index))
    &&& !has_name(existing, inprogress_name(complete_name(stem, index)))
}

/// Whether `index` is the lowest that is free.
pub open spec fn is_first_free(existing: Seq<String>, stem: Seq<char>, index: int) -> bool {
    &&& 0 <= index < MAX_FILES
    &&& index_free(existing, stem, index)
    &&& forall|earlier: int|
        0 <= earlier < index ==> !#[trigger] index_free(existing, stem, earlier)
}

/// Returns the start of the roll window that a moment falls in.
pub fn roll_window_start(now: UtcTime, roll: RollPeriod) -> (start: UtcTime)
    requires
        now.valid(),
    ensures
        start.valid(),
        is_window_start(start, now, roll),
{
    let ghost secs = now.secs as int;
    assert((secs - secs % 3600) % 3600 == 0);
    assert((secs - secs % 86400) % 86400 == 0);
    match roll {
        RollPeriod::Hourly => now.floor_to(SECS_PER_HOUR),
        RollPeriod::Daily => now.floor_to(SECS_PER_DAY),
    }
}

/// A moment falls in one roll window only.
pub proof fn law_window_start_is_unique(
    start: UtcTime,
    other: UtcTime,
    now: UtcTime,
    roll: RollPeriod,
)
    requires
        is_window_start(start, now, roll),
        is_window_start(other, now, roll),
    ensures
        start == other,
{
    let period = window_secs(roll);
    if start.secs != other.secs {
        let (low, high) = if start.secs < other.secs {
            (start.secs as int, other.secs as int)
        } else {
            (other.secs as int, start.secs as int)
        };
        assert(high - low < period);
        assert(low % period == 0 && high % period == 0);
        assert(high - low >= period) by (nonlinear_arith)
            requires
                low < high,
                period > 0,
                low % period == 0,
                high % period == 0,
        ;
    }
}

/// Returns the directory of the files of a roll window.
pub fn partition_directory(data_dir: &str, roll: RollPeriod, window_start: UtcTime) -> (directory:
    String)
    requires
        window_start.valid(),
    ensures
        forall|year: int, month: int, day: int| #[trigger]
            date_is(window_start.days(), year, month, day) ==> directory@ == directory_path(
                data_dir@,
                roll,
                year,
                month,
                day,
                window_start.spec_hour(),
            ),
        exists|year: int, month: int, day: int| #[trigger]
            date_is(window_start.days(), year, month, day),
{
    let date = date_of(window_start);
    let mut name: String = "date=".to_owned();
    name.append(format_year(date.year).as_str());
    name.append("-");
    name.append(padded_decimal(date.month as u64, 2).as_str());
    name.append("-");
    name.append(padded_decimal(date.day as u64, 2).as_str());
    let directory = join(join(data_dir, "samples").as_str(), name.as_str());
    proof {
        lemma_one_date(window_start, date.year as int, date.month as int, date.day as int);
    }
    match roll {
        RollPeriod::Hourly => {
            let mut hour: String = "hour=".to_owned();
            hour.append(padded_decimal(window_start.hour(), 2).as_str());
            join(directory.as_str(), hour.as_str())
        },
        RollPeriod::Daily => directory,
    }
}

proof fn lemma_one_date(time: UtcTime, year: int, month: int, day: int)
    requires
        date_is(time.days(), year, month, day),
    ensures
        forall|other_year: int, other_month: int, other_day: int| #[trigger]
            date_is(time.days(), other_year, other_month, other_day) ==> other_year == year
                && other_month == month && other_day == day,
{
    assert forall|other_year: int, other_month: int, other_day: int| #[trigger]
        date_is(time.days(), other_year, other_month, other_day) implies other_year == year
        && other_month == month && other_day == day by {
        crate::calendar::law_date_is_unique(
            time.days(),
            year,
            month,
            day,
            other_year,
            other_month,
            other_day,
        );
    }
}

/// Returns the first pair of file names of a roll window that is not in use in a
/// directory that has files of the names `existing`.
///
/// # Errors
///
/// Returns an error if every name is taken.
pub fn unique_file_paths(
    directory: &str,
    roll: RollPeriod,
    window_start: UtcTime,
    existing: &Vec<String>,
) -> (result: Result<FilePaths, NoFreeName>)
    requires
        window_start.valid(),
    ensures
        forall|year: int, month: int, day: int| #[trigger]
            date_is(window_start.days(), year, month, day) ==> is_first_free_pair(
                result,
                directory@,
                existing@,
                file_stem(roll, year, month, day, window_start.spec_hour()),
            ),
        exists|year: int, month: int, day: int| #[trigger]
            date_is(window_start.days(), year, month, day),
{
    let date = date_of(window_start);
    let mut stem: String = "part-".to_owned();
    stem.append(format_signed_year(date.year).as_str());
    stem.append(padded_decimal(date.month as u64, 2).as_str());
    stem.append(padded_decimal(date.day as u64, 2).as_str());
    match roll {
        RollPeriod::Hourly => {
            stem.append("T");
            stem.append(padded_decimal(window_start.hour(), 2).as_str());
            stem.append("0000Z");
        },
        RollPeriod::Daily => {},
    }
    proof {
        lemma_one_date(window_start, date.year as int, date.month as int, date.day as int);
    }
    first_free_pair(directory, stem.as_str(), existing)
}

/// Whether a result is the first pair of paths that is free, or an error where none is.
pub open spec fn is_first_free_pair(
    result: Result<FilePaths, NoFreeName>,
    directory: Seq<char>,
    existing: Seq<String>,
    stem: Seq<char>,
) -> bool {
    match result {
        Ok(paths) => exists|index: int| #[trigger]
            is_first_free(existing, stem, index) && paths.complete@ == joined(
                directory,
                complete_name(stem, index),
            ) && paths.inprogress@ == joined(
                directory,
                inprogress_name(complete_name(stem, index)),
            ),
        Err(_) => forall|index: int|
            0 <= index < MAX_FILES ==> !#[trigger] index_free(existing, stem, index),
    }
}

fn first_free_pair(directory: &str, stem: &str, existing: &Vec<String>) -> (result: Result<
    FilePaths,
    NoFreeName,
>)
    ensures
        is_first_free_pair(result, directory@, existing@, stem@),
{
    let mut index: u64 = 0;
    while index < MAX_FILES
        invariant
            index <= MAX_FILES,
            forall|earlier: int|
                0 <= earlier < index ==> !#[trigger] index_free(existing@, stem@, earlier),
        decreases MAX_FILES - index,
    {
        let mut complete: String = stem.to_owned();
        if index > 0 {
            complete.append("-");
            complete.append(padded_decimal(index, 3).as_str());
        }
        complete.append(".parquet");
        assert(complete@ =~= complete_name(stem@, index as int));
        let mut inprogress: String = complete.clone();
        inprogress.append(".inprogress");
        if !name_exists(existing, complete.as_str()) && !name_exists(
            existing,
            inprogress.as_str(),
        ) {
            assert(is_first_free(existing@, stem@, index as int));
            return Ok(
                FilePaths {
                    inprogress: join(directory, inprogress.as_str()),
                    complete: join(directory, complete.as_str()),
                },
            );
        }
        index = index + 1;
    }
    Err(NoFreeName)
}

fn name_exists(existing: &Vec<String>, name: &str) -> (answer: bool)
    ensures
        answer == has_name(existing@, name@),
{
    let wanted: String = name.to_owned();
    let mut i: usize = 0;
    while i < existing.len()
        invariant
            wanted@ == name@,
            i <= existing.len(),
            forall|j: int| 0 <= j < i ==> #[trigger] existing[j]@ != name@,
        decreases existing.len() - i,
    {
        if existing[i] == wanted {
            assert(existing@[i as int]@ == name@);
            return true;
        }
        i = i + 1;
    }
    false
}

fn join(base: &str, name: &str) -> (path: String)
    ensures
        path@ == joined(base@, name@),
{
    let mut path: String = base.to_owned();
    let len: usize = base.unicode_len();
    if len > 0 && base.get_char(len - 1) != '/' {
        path.append("/");
    }
    path.append(name);
    path
}

fn format_year(year: i32) -> (text: String)
    requires
        -262_143 <= year <= 262_142,
    ensures
        text@ == year_text(year as int),
{
    if year < 0 {
        let mut text: String = "-".to_owned();
        text.append(padded_decimal((-year) as u64, 3).as_str());
        text
    } else {
        padded_decimal(year as u64, 4)
    }
}

fn format_signed_year(year: i32) -> (text: String)
    requires
        -262_143 <= year <= 262_142,
    ensures
        text@ == signed_year_text(year as int),
{
    if year < 0 {
        let mut text: String = "-".to_owned();
        text.append(padded_decimal((-year) as u64, 4).as_str());
        text
    } else if year > 9999 {
        let mut text: String = "+".to_owned();
        text.append(crate::text::decimal_text(year as u64).as_str());
        text
    } else {
        padded_decimal(year as u64, 4)
    }
}

/// The path of a file that is written is the path of the complete file with a suffix.
pub proof fn law_inprogress_path_extends_complete_path(
    directory: Seq<char>,
    stem: Seq<char>,
    index: int,
)
    ensures
        joined(directory, inprogress_name(complete_name(stem, index))) == joined(
            directory,
            complete_name(stem, index),
        ) + ".inprogress"@,
{
    let complete = complete_name(stem, index);
    assert(joined(directory, inprogress_name(complete)) =~= joined(directory, complete)
        + ".inprogress"@);
}

} // verus!

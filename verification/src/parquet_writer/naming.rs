//! How directories and files are named, character by character.

use vstd::prelude::*;

use crate::config::RollPeriod;
use crate::parquet_writer::files::{
    complete_name, date_directory, directory_path, file_stem, has_name, index_free,
    inprogress_name, is_first_free, is_first_free_pair, joined, signed_year_text, two_digits,
    year_text, FilePaths, NoFreeName,
};
use crate::text::numerals::law_decimal_reads_back;
use crate::text::{decimal, zero_padded};

verus! {

/// The character of a digit.
pub open spec fn numeral(value: int) -> char {
    if value == 0 {
        '0'
    } else if value == 1 {
        '1'
    } else if value == 2 {
        '2'
    } else if value == 3 {
        '3'
    } else if value == 4 {
        '4'
    } else if value == 5 {
        '5'
    } else if value == 6 {
        '6'
    } else if value == 7 {
        '7'
    } else if value == 8 {
        '8'
    } else {
        '9'
    }
}

/// The digits of a number below a hundred.
pub open spec fn pair(number: int) -> Seq<char> {
    seq![numeral(number / 10), numeral(number % 10)]
}

/// The digits of a number below ten thousand.
pub open spec fn two_pairs(number: int) -> Seq<char> {
    pair(number / 100) + pair(number % 100)
}

proof fn lemma_small(number: nat)
    ensures
        number < 10 ==> decimal(number) == seq![numeral(number as int)],
        10 <= number < 100 ==> decimal(number) == pair(number as int),
        100 <= number < 1000 ==> decimal(number) == seq![numeral(number as int / 100)] + pair(
            number as int % 100,
        ),
        1000 <= number < 10000 ==> decimal(number) == two_pairs(number as int),
{
    reveal_with_fuel(decimal, 4);
    let n = number as int;
    if number < 10 {
        assert(decimal(number) =~= seq![numeral(n)]);
    } else if number < 100 {
        assert(decimal(number) =~= pair(n));
    } else if number < 1000 {
        assert(n / 10 / 10 == n / 100);
        assert(n / 10 % 10 == n % 100 / 10);
        assert(n % 100 % 10 == n % 10);
        assert(decimal(number) =~= seq![numeral(n / 100)] + pair(n % 100));
    } else if number < 10000 {
        assert(n / 10 / 10 / 10 == n / 100 / 10);
        assert(n / 10 / 10 % 10 == n / 100 % 10);
        assert(n / 10 % 10 == n % 100 / 10);
        assert(n % 100 % 10 == n % 10);
        assert(decimal(number) =~= two_pairs(n));
    }
}

/// Numbers below a hundred have two digits, years from 0 to 9999 four, with zeros in front.
pub proof fn law_dates_have_fixed_width(number: int)
    ensures
        0 <= number < 100 ==> two_digits(number) == pair(number),
        0 <= number < 10000 ==> year_text(number) == two_pairs(number),
        0 <= number < 10000 ==> signed_year_text(number) == two_pairs(number),
        0 < number < 1000 ==> zero_padded(decimal(number as nat), 3) == seq![
            numeral(number / 100),
        ] + pair(number % 100),
{
    if 0 <= number < 10000 {
        lemma_small(number as nat);
        let text = decimal(number as nat);
        if number < 100 {
            assert(two_digits(number) =~= pair(number));
        }
        if 0 < number < 1000 {
            assert(zero_padded(text, 3) =~= seq![numeral(number / 100)] + pair(number % 100));
        }
        assert(zero_padded(text, 4) =~= two_pairs(number));
    }
}

/// Years outside of that are written with all their digits, and a sign where one is due: a
/// year before zero always has one, and a year after 9999 only in the name of a file.
pub proof fn law_other_years_are_written_in_full(year: nat)
    requires
        year > 9999,
    ensures
        year_text(year as int) == decimal(year),
        signed_year_text(year as int) == seq!['+'] + decimal(year),
        year_text(-(year as int)) == seq!['-'] + decimal(year),
        signed_year_text(-(year as int)) == seq!['-'] + decimal(year),
{
    reveal_strlit("+");
    reveal_strlit("-");
    lemma_long(year);
    assert("+"@ =~= seq!['+']);
    assert("-"@ =~= seq!['-']);
}

proof fn lemma_long(number: nat)
    requires
        number > 999,
    ensures
        decimal(number).len() >= 4,
{
    reveal_with_fuel(decimal, 4);
    law_decimal_reads_back(number / 1000);
}

/// A year before zero is written with its sign, and with zeros that bring it to four
/// characters in the name of a directory, and to four digits in the name of a file.
pub proof fn law_years_before_zero_have_a_sign(year: int)
    requires
        0 < year < 10000,
    ensures
        year < 1000 ==> year_text(-year) == seq!['-', numeral(year / 100)] + pair(year % 100),
        year >= 1000 ==> year_text(-year) == seq!['-'] + two_pairs(year),
        signed_year_text(-year) == seq!['-'] + two_pairs(year),
{
    reveal_strlit("-");
    law_dates_have_fixed_width(year);
    lemma_small(year as nat);
    assert("-"@ =~= seq!['-']);
    if year < 1000 {
        assert(year_text(-year) =~= seq!['-', numeral(year / 100)] + pair(year % 100));
    }
}

/// A path is put together with one separator.
pub proof fn law_paths_are_joined_by_one_separator(base: Seq<char>, name: Seq<char>)
    ensures
        base.len() == 0 ==> joined(base, name) == name,
        base.len() > 0 && base.last() == '/' ==> joined(base, name) == base + name,
        base.len() > 0 && base.last() != '/' ==> joined(base, name) == base + seq!['/'] + name,
{
    reveal_strlit("/");
    assert("/"@ =~= seq!['/']);
    if base.len() == 0 {
        assert(joined(base, name) =~= name);
    }
}

/// The files of an hour lie in a directory of their own inside that of the day, and those of
/// a day in that of the day: below the data directory come `samples`, the date and the hour.
pub proof fn law_directories_tell_date_and_hour(
    data_dir: Seq<char>,
    year: int,
    month: int,
    day: int,
    hour: int,
)
    requires
        1 <= month <= 12,
        1 <= day <= 31,
        0 <= hour < 24,
    ensures
        ({
            let base = if data_dir.len() == 0 || data_dir.last() == '/' {
                data_dir
            } else {
                data_dir + seq!['/']
            };
            let date = base + "samples/date="@ + year_text(year) + seq!['-'] + pair(month) + seq![
                '-',
            ] + pair(day);
            &&& directory_path(data_dir, RollPeriod::Daily, year, month, day, hour) == date
            &&& directory_path(data_dir, RollPeriod::Hourly, year, month, day, hour) == date
                + "/hour="@ + pair(hour)
        }),
{
    law_dates_have_fixed_width(month);
    law_dates_have_fixed_width(day);
    law_dates_have_fixed_width(hour);
    law_paths_are_joined_by_one_separator(data_dir, "samples"@);
    reveal_strlit("/");
    reveal_strlit("-");
    reveal_strlit("samples");
    reveal_strlit("date=");
    reveal_strlit("hour=");
    reveal_strlit("samples/date=");
    reveal_strlit("/hour=");
    let start = if data_dir.len() == 0 || data_dir.last() == '/' {
        data_dir
    } else {
        data_dir + seq!['/']
    };
    let date = start + "samples/date="@ + year_text(year) + seq!['-'] + pair(month) + seq!['-']
        + pair(day);
    let base = joined(data_dir, "samples"@);
    assert(base =~= start + "samples"@);
    assert("samples/date="@ =~= "samples"@ + "/"@ + "date="@);
    assert("/hour="@ =~= "/"@ + "hour="@);
    assert(base.last() == 's');
    assert(joined(base, date_directory(year, month, day)) =~= date);
    assert(date.last() == numeral(day % 10));
    assert(joined(date, "hour="@ + two_digits(hour)) =~= date + "/hour="@ + pair(hour));
}

/// The files of an hour are named after its first second and those of a day after the day.
/// The second and later files of one window are numbered, in three digits. While a file is
/// written its name has a further suffix.
pub proof fn law_files_tell_date_hour_and_number(
    year: int,
    month: int,
    day: int,
    hour: int,
    index: int,
    stem: Seq<char>,
)
    requires
        1 <= month <= 12,
        1 <= day <= 31,
        0 <= hour < 24,
        0 <= index < 1000,
    ensures
        ({
            let date = "part-"@ + signed_year_text(year) + pair(month) + pair(day);
            &&& file_stem(RollPeriod::Daily, year, month, day, hour) == date
            &&& file_stem(RollPeriod::Hourly, year, month, day, hour) == date + seq!['T'] + pair(
                hour,
            ) + "0000Z"@
        }),
        index == 0 ==> complete_name(stem, index) == stem + ".parquet"@,
        index > 0 ==> complete_name(stem, index) == stem + seq!['-', numeral(index / 100)] + pair(
            index % 100,
        ) + ".parquet"@,
        inprogress_name(complete_name(stem, index)) == complete_name(stem, index)
            + ".inprogress"@,
{
    law_dates_have_fixed_width(month);
    law_dates_have_fixed_width(day);
    law_dates_have_fixed_width(hour);
    law_dates_have_fixed_width(index);
    reveal_strlit("-");
    reveal_strlit("T");
    assert("-"@ =~= seq!['-']);
    assert("T"@ =~= seq!['T']);
    if index > 0 {
        assert(complete_name(stem, index) =~= stem + seq!['-', numeral(index / 100)] + pair(
            index % 100,
        ) + ".parquet"@);
    }
}

/// Whether a directory lists a name.
pub open spec fn listed(existing: Seq<String>, name: Seq<char>) -> bool {
    exists|i: int| 0 <= i < existing.len() && #[trigger] existing[i]@ == name
}

/// Whether a file of a window can be made: neither its name nor that while it is written is
/// listed.
pub open spec fn available(existing: Seq<String>, stem: Seq<char>, index: int) -> bool {
    &&& !listed(existing, complete_name(stem, index))
    &&& !listed(existing, complete_name(stem, index) + ".inprogress"@)
}

/// A new file takes the first of a thousand names that is available, in its two forms, and is
/// refused if none is: no file is ever written over.
pub proof fn law_new_file_takes_the_first_free_name(
    result: Result<FilePaths, NoFreeName>,
    directory: Seq<char>,
    existing: Seq<String>,
    stem: Seq<char>,
)
    requires
        is_first_free_pair(result, directory, existing, stem),
    ensures
        result is Ok <==> exists|index: int| 0 <= index < 1000 && available(existing, stem, index),
        result matches Ok(paths) ==> exists|index: int|
            0 <= index < 1000 && #[trigger] available(existing, stem, index) && paths.complete@
                == joined(directory, complete_name(stem, index)) && paths.inprogress@ == joined(
                directory,
                complete_name(stem, index) + ".inprogress"@,
            ) && forall|earlier: int|
                0 <= earlier < index ==> !#[trigger] available(existing, stem, earlier),
{
    match result {
        Ok(paths) => {
            let index = choose|index: int| #[trigger]
                is_first_free(existing, stem, index) && paths.complete@ == joined(
                    directory,
                    complete_name(stem, index),
                ) && paths.inprogress@ == joined(
                    directory,
                    inprogress_name(complete_name(stem, index)),
                );
            lemma_available(existing, stem, index);
            assert forall|earlier: int| 0 <= earlier < index implies !#[trigger] available(
                existing,
                stem,
                earlier,
            ) by {
                lemma_available(existing, stem, earlier);
                assert(!index_free(existing, stem, earlier));
            }
            assert(available(existing, stem, index));
        },
        Err(_) => {
            assert forall|index: int| 0 <= index < 1000 implies !#[trigger] available(
                existing,
                stem,
                index,
            ) by {
                lemma_available(existing, stem, index);
                assert(!index_free(existing, stem, index));
            }
        },
    }
}

proof fn lemma_available(existing: Seq<String>, stem: Seq<char>, index: int)
    ensures
        available(existing, stem, index) <==> index_free(existing, stem, index),
{
    assert(listed(existing, complete_name(stem, index)) == has_name(
        existing,
        complete_name(stem, index),
    ));
    assert(listed(existing, complete_name(stem, index) + ".inprogress"@) == has_name(
        existing,
        complete_name(stem, index) + ".inprogress"@,
    ));
}

} // verus!

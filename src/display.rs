//! Display text for file metadata: the coarse size buckets, the modification
//! time as `DD/MM/YYYY HH:MM`, and the type column.

use vstd::prelude::*;
use crate::listing::is_dot;
use crate::text::{chars_of, eq_chars, string_from};

verus! {

/// The character of a decimal digit `d < 10`.
pub open spec fn digit(d: nat) -> char {
    ((d + 48) as u8) as char
}

/// `n` in decimal, without leading zeros.
pub open spec fn decimal(n: nat) -> Seq<char>
    decreases n,
{
    if n < 10 {
        seq![digit(n)]
    } else {
        decimal(n / 10).push(digit(n % 10))
    }
}

/// The size of a file as shown: 0 bytes is `0 KB`, up to 999 bytes `1 KB`,
/// below a million whole thousands in `KB`, above that whole millions in `MB`.
pub open spec fn size_text(size: nat) -> Seq<char> {
    if size == 0 {
        decimal(0) + seq![' ', 'K', 'B']
    } else if size < 1000 {
        decimal(1) + seq![' ', 'K', 'B']
    } else if size < 1_000_000 {
        decimal(size / 1000) + seq![' ', 'K', 'B']
    } else {
        decimal(size / 1_000_000) + seq![' ', 'M', 'B']
    }
}

fn push_decimal(n: u64, out: &mut Vec<char>)
    ensures
        final(out)@ == old(out)@ + decimal(n as nat),
    decreases n,
{
    if n >= 10 {
        push_decimal(n / 10, out);
    }
    let d: u8 = (n % 10) as u8;
    out.push((d + 48) as char);
    assert(((n % 10) as nat) == (n as nat) % 10);
}

/// The size column of a listing entry: nothing for a directory, the size
/// bucket of `size` bytes for a file.
pub fn file_size(size: u64, is_dir: bool) -> (r: Option<String>)
    ensures
        is_dir ==> r is None,
        !is_dir ==> (r matches Some(t) && t@ == size_text(size as nat)),
{
    if is_dir {
        return None;
    }
    let mut text: Vec<char> = Vec::new();
    let unit: char;
    if size == 0 {
        push_decimal(0, &mut text);
        unit = 'K';
    } else if size < 1000 {
        push_decimal(1, &mut text);
        unit = 'K';
    } else if size < 1_000_000 {
        push_decimal(size / 1000, &mut text);
        unit = 'K';
    } else {
        push_decimal(size / 1_000_000, &mut text);
        unit = 'M';
    }
    let ghost digits = text@;
    text.push(' ');
    text.push(unit);
    text.push('B');
    assert(text@ =~= digits + seq![' ', unit, 'B']);
    Some(string_from(&text))
}

/// Seconds between 1601-01-01 and 1970-01-01, the two epochs of Windows file
/// times and of Unix time.
pub const EPOCH_GAP_SECS: i64 = 11_644_473_600;

/// A Windows file time (100 ns ticks since 1601-01-01 UTC) as whole seconds
/// since 1970-01-01 UTC and the nanoseconds within that second.
pub open spec fn unix_time_of(ticks: nat) -> (int, int) {
    ((ticks / 10_000_000) as int - 11_644_473_600, ((ticks % 10_000_000) * 100) as int)
}

/// Converts a Windows file time to Unix seconds and nanoseconds.
pub fn windows_date(ticks: u64) -> (r: (i64, u32))
    ensures
        (r.0 as int, r.1 as int) == unix_time_of(ticks as nat),
        r.1 < 1_000_000_000,
{
    let secs = (ticks / 10_000_000) as i64 - EPOCH_GAP_SECS;
    let nanos = ((ticks % 10_000_000) * 100) as u32;
    (secs, nanos)
}

/// The text that chrono writes for the UTC date and time `secs` seconds and
/// `nsecs` nanoseconds after 1970-01-01 under the strftime format `fmt`.
pub uninterp spec fn utc_text(secs: int, nsecs: int, fmt: Seq<char>) -> Seq<char>;

/// Relies on chrono's timestamp formatting: `DateTime::from_timestamp` turns
/// the arguments into a UTC date and time (`None` for a nanosecond count of
/// two seconds or more or a date outside years -262,143 to 262,142, so
/// `Some` within 8 * 10^12 seconds of 1970 and under one second of
/// nanoseconds), and `DateTime::format` writes it; the text depends on the
/// arguments alone. The format is one that chrono accepts, so writing it
/// cannot fail.
#[verifier::external_body]
fn format_utc(secs: i64, nsecs: u32, fmt: &str) -> (r: Option<String>)
    requires
        fmt@ == "%d/%m/%Y %H:%M"@,
    ensures
        nsecs >= 2_000_000_000 ==> r is None,
        -8_000_000_000_000 <= secs <= 8_000_000_000_000 && nsecs < 1_000_000_000 ==> r is Some,
        r matches Some(t) ==> t@ == utc_text(secs as int, nsecs as int, fmt@),
{
    match chrono::DateTime::from_timestamp(secs, nsecs) {
        Some(d) => Some(d.format(fmt).to_string()),
        None => None,
    }
}

/// The modification time column: the file time `ticks` moved by
/// `utc_offset` seconds into local time, written `DD/MM/YYYY HH:MM`.
pub fn last_modified(ticks: u64, utc_offset: i32) -> (r: Option<String>)
    ensures
        r matches Some(t) && t@ == utc_text(
            unix_time_of(ticks as nat).0 + utc_offset,
            unix_time_of(ticks as nat).1,
            "%d/%m/%Y %H:%M"@,
        ),
{
    let (secs, nanos) = windows_date(ticks);
    let local = secs + utc_offset as i64;
    format_utc(local, nanos, "%d/%m/%Y %H:%M")
}

/// The place of the last `.` among the first `n` characters of `name`, or -1.
pub open spec fn last_dot_in(name: Seq<char>, n: int) -> int
    decreases n,
{
    if n <= 0 {
        -1
    } else if name[n - 1] == '.' {
        n - 1
    } else {
        last_dot_in(name, n - 1)
    }
}

/// The extension of a file name: what follows its last `.`, when that `.` is
/// not the first character.
pub open spec fn extension_of(name: Seq<char>) -> Option<Seq<char>> {
    let d = last_dot_in(name, name.len() as int);
    if d <= 0 {
        None
    } else {
        Some(name.skip(d + 1))
    }
}

/// The type column of a listing entry: directories are file folders, a few
/// extensions and dot-files have names of their own, other extensions show
/// as `.ext file`; a file with neither extension nor leading dot shows
/// nothing.
pub open spec fn type_label(name: Seq<char>, is_dir: bool) -> Option<Seq<char>> {
    if is_dir {
        Some("File folder"@)
    } else {
        match extension_of(name) {
            Some(ext) => Some(
                if ext == "lnk"@ {
                    "Shortcut"@
                } else if ext == "zip"@ {
                    "zip Archive"@
                } else if ext == "exe"@ {
                    "Application"@
                } else {
                    seq!['.'] + ext + " file"@
                },
            ),
            None => if is_dot(name) {
                Some(
                    if name == ".gitignore"@ {
                        "Git Ignore"@
                    } else if name == ".gitconfig"@ {
                        "Git Config"@
                    } else {
                        "Unknown dot file"@
                    },
                )
            } else {
                None
            },
        }
    }
}

proof fn lemma_last_dot_range(name: Seq<char>, n: int)
    requires
        0 <= n <= name.len(),
    ensures
        -1 <= last_dot_in(name, n) < n,
        last_dot_in(name, n) >= 0 ==> name[last_dot_in(name, n)] == '.',
    decreases n,
{
    if n > 0 {
        lemma_last_dot_range(name, n - 1);
    }
}

fn last_dot(name: &Vec<char>) -> (r: Option<usize>)
    ensures
        match r {
            Some(i) => i as int == last_dot_in(name@, name@.len() as int),
            None => last_dot_in(name@, name@.len() as int) == -1,
        },
{
    let mut n: usize = name.len();
    while n > 0
        invariant
            n <= name.len(),
            last_dot_in(name@, n as int) == last_dot_in(name@, name@.len() as int),
        decreases n,
    {
        if name[n - 1] == '.' {
            return Some(n - 1);
        }
        n = n - 1;
    }
    None
}

/// The type column for an entry named `name`.
pub fn file_type(name: &str, is_dir: bool) -> (r: Option<String>)
    ensures
        match r {
            Some(t) => type_label(name@, is_dir) == Some(t@),
            None => type_label(name@, is_dir) is None,
        },
{
    if is_dir {
        return Some("File folder".to_owned());
    }
    let chars = chars_of(name);
    proof {
        lemma_last_dot_range(chars@, chars@.len() as int);
    }
    let found = last_dot(&chars);
    let d: usize = match found {
        Some(i) => i,
        None => 0,
    };
    if d > 0 {
        let mut ext: Vec<char> = Vec::new();
        let mut k: usize = d + 1;
        while k < chars.len()
            invariant
                0 < d < chars.len(),
                d + 1 <= k <= chars.len(),
                ext@ == chars@.subrange(d + 1, k as int),
            decreases chars.len() - k,
        {
            ext.push(chars[k]);
            k = k + 1;
            assert(ext@ =~= chars@.subrange(d + 1, k as int));
        }
        assert(ext@ =~= chars@.skip(d + 1));
        let label = if eq_chars(&ext, &chars_of("lnk")) {
            "Shortcut".to_owned()
        } else if eq_chars(&ext, &chars_of("zip")) {
            "zip Archive".to_owned()
        } else if eq_chars(&ext, &chars_of("exe")) {
            "Application".to_owned()
        } else {
            let mut text: Vec<char> = Vec::new();
            text.push('.');
            let tail = chars_of(" file");
            let mut all = text;
            let mut j: usize = 0;
            while j < ext.len()
                invariant
                    j <= ext.len(),
                    all@ == seq!['.'] + ext@.take(j as int),
                decreases ext.len() - j,
            {
                all.push(ext[j]);
                j = j + 1;
                assert(all@ =~= seq!['.'] + ext@.take(j as int));
            }
            let ghost mid = all@;
            let mut t: usize = 0;
            while t < tail.len()
                invariant
                    t <= tail.len(),
                    all@ == mid + tail@.take(t as int),
                decreases tail.len() - t,
            {
                all.push(tail[t]);
                t = t + 1;
                assert(all@ =~= mid + tail@.take(t as int));
            }
            assert(ext@.take(ext.len() as int) == ext@);
            assert(tail@.take(tail.len() as int) == tail@);
            string_from(&all)
        };
        return Some(label);
    }
    if chars.len() > 0 && chars[0] == '.' {
        let label = if eq_chars(&chars, &chars_of(".gitignore")) {
            "Git Ignore".to_owned()
        } else if eq_chars(&chars, &chars_of(".gitconfig")) {
            "Git Config".to_owned()
        } else {
            "Unknown dot file".to_owned()
        };
        return Some(label);
    }
    None
}

} // verus!

//! Directory entries, how they are shown, and how they are sorted.

use vstd::prelude::*;
use crate::text::{chars_of, string_from_chars, str_eq, to_lowercase, lowercase, order_int,
    order_chars, compare_chars, lemma_order_chars_antisym, lemma_order_chars_trans,
    lemma_order_chars_first_difference, lemma_order_chars_prefix, decimal,
    decimal_padded, digit_char, push_decimal, push_decimal_padded, push_str};
use crate::path::{path_extension, extension};
use crate::fs::calendar::{civil_date, civil_from_days};

verus! {

/// A point in time as seconds and nanoseconds relative to the Unix epoch
/// (seconds below zero are before the epoch; `nanos` counts forward within
/// the second).
#[derive(Debug, Clone, Copy, PartialEq, Eq)]
pub struct FileTime {
    pub secs: i64,
    pub nanos: u32,
}

/// One entry of a directory listing.
#[derive(Debug, Clone, PartialEq, Eq)]
pub struct FileEntry {
    pub name: String,
    pub path: String,
    pub is_dir: bool,
    pub size: u64,
    pub modified: Option<FileTime>,
}

impl FileEntry {
    /// The entry for `path`, given what the file system reported of it:
    /// none when there was no metadata or the path has no file name.
    pub fn from_path(path: &str, metadata: Option<EntryMetadata>) -> (r: Option<FileEntry>)
        ensures
            r is Some <==> (metadata is Some && crate::path::path_file_name(path@) is Some),
            r matches Some(e) ==> {
                &&& Some(e.name@) == crate::path::path_file_name(path@)
                &&& e.path@ == path@
                &&& e.is_dir == metadata->0.is_dir
                &&& e.size == metadata->0.size
                &&& e.modified == metadata->0.modified
            },
    {
        let m = match metadata {
            Some(m) => m,
            None => return None,
        };
        let name = match crate::path::file_name(path) {
            Some(n) => n,
            None => return None,
        };
        Some(FileEntry {
            name,
            path: String::from_str(path),
            is_dir: m.is_dir,
            size: m.size,
            modified: m.modified,
        })
    }

    /// The icon shown beside the entry.
    pub fn icon(&self) -> (r: &'static str)
        ensures
            r@ == icon_for(self.is_dir, path_extension(self.path@)),
    {
        if self.is_dir {
            return "\u{1F4C1}";
        }
        match extension(self.path.as_str()) {
            Some(e) => {
                let e = e.as_str();
                if str_eq(e, "md") || str_eq(e, "markdown") {
                    "\u{1F4DD}"
                } else if str_eq(e, "pdf") {
                    "\u{1F4C4}"
                } else if str_eq(e, "docx") {
                    "\u{1F4C3}"
                } else if str_eq(e, "pptx") {
                    "\u{1F4CA}"
                } else if str_eq(e, "rs") {
                    "\u{1F980}"
                } else if str_eq(e, "py") {
                    "\u{1F40D}"
                } else if str_eq(e, "js") || str_eq(e, "ts") {
                    "\u{1F4DC}"
                } else if str_eq(e, "toml") || str_eq(e, "yaml") || str_eq(e, "json") {
                    "\u{2699}\u{FE0F}"
                } else if str_eq(e, "png") || str_eq(e, "jpg") || str_eq(e, "jpeg") || str_eq(e, "gif")
                    || str_eq(e, "svg") {
                    "\u{1F5BC}\u{FE0F}"
                } else if str_eq(e, "zip") || str_eq(e, "tar") || str_eq(e, "gz") || str_eq(e, "7z") {
                    "\u{1F4E6}"
                } else if str_eq(e, "mp3") || str_eq(e, "wav") || str_eq(e, "flac") {
                    "\u{1F3B5}"
                } else if str_eq(e, "mp4") || str_eq(e, "mkv") || str_eq(e, "avi") {
                    "\u{1F3AC}"
                } else if str_eq(e, "sh") || str_eq(e, "bash") {
                    "\u{2328}\u{FE0F}"
                } else {
                    "\u{1F4C4}"
                }
            },
            None => "\u{1F4C4}",
        }
    }

    /// The size as shown in a listing.
    pub fn size_display(&self) -> (r: String)
        ensures
            r@ == size_text(self.is_dir, self.size as nat),
    {
        if self.is_dir {
            return String::from_str("--");
        }
        let size = self.size;
        let mut out: Vec<char> = Vec::new();
        if size < 1024 {
            push_decimal(&mut out, size);
            push_str(&mut out, " B");
        } else if size < 1024 * 1024 {
            push_tenths(&mut out, round_half_even_exec(size as u128 * 10, 1024));
            push_str(&mut out, " KB");
        } else if size < 1024 * 1024 * 1024 {
            push_tenths(&mut out, round_half_even_exec(size as u128 * 10, 1024 * 1024));
            push_str(&mut out, " MB");
        } else {
            let v = f64_value_exec(size);
            push_tenths(&mut out, round_half_even_exec(v * 10, 1024 * 1024 * 1024));
            push_str(&mut out, " GB");
        }
        string_from_chars(&out)
    }

    /// The modification time as shown in a listing.
    pub fn modified_display(&self) -> (r: String)
        ensures
            r@ == modified_text(self.modified),
    {
        match self.modified {
            Some(t) => {
                if t.secs >= 0 {
                    let secs = t.secs as u64;
                    let (year, month, day) = civil_from_days(secs / 86400);
                    let hours = (secs % 86400) / 3600;
                    let minutes = (secs % 3600) / 60;
                    let mut out: Vec<char> = Vec::new();
                    push_decimal_padded(&mut out, year, 4);
                    out.push('-');
                    push_decimal_padded(&mut out, month, 2);
                    out.push('-');
                    push_decimal_padded(&mut out, day, 2);
                    out.push(' ');
                    push_decimal_padded(&mut out, hours, 2);
                    out.push(':');
                    push_decimal_padded(&mut out, minutes, 2);
                    assert(out@ =~= date_text(t.secs as nat));
                    string_from_chars(&out)
                } else {
                    String::from_str("Unknown")
                }
            },
            None => String::from_str("--"),
        }
    }

    /// A copy of the entry.
    pub fn duplicate(&self) -> (r: FileEntry)
        ensures
            r == *self,
    {
        FileEntry {
            name: self.name.clone(),
            path: self.path.clone(),
            is_dir: self.is_dir,
            size: self.size,
            modified: self.modified,
        }
    }
}

/// The icon of an entry: a folder for directories, else by the exact
/// extension of its path.
pub open spec fn icon_for(is_dir: bool, ext: Option<Seq<char>>) -> Seq<char> {
    if is_dir {
        "\u{1F4C1}"@
    } else {
        match ext {
            Some(e) => if e == "md"@ || e == "markdown"@ {
                "\u{1F4DD}"@
            } else if e == "pdf"@ {
                "\u{1F4C4}"@
            } else if e == "docx"@ {
                "\u{1F4C3}"@
            } else if e == "pptx"@ {
                "\u{1F4CA}"@
            } else if e == "rs"@ {
                "\u{1F980}"@
            } else if e == "py"@ {
                "\u{1F40D}"@
            } else if e == "js"@ || e == "ts"@ {
                "\u{1F4DC}"@
            } else if e == "toml"@ || e == "yaml"@ || e == "json"@ {
                "\u{2699}\u{FE0F}"@
            } else if e == "png"@ || e == "jpg"@ || e == "jpeg"@ || e == "gif"@ || e == "svg"@ {
                "\u{1F5BC}\u{FE0F}"@
            } else if e == "zip"@ || e == "tar"@ || e == "gz"@ || e == "7z"@ {
                "\u{1F4E6}"@
            } else if e == "mp3"@ || e == "wav"@ || e == "flac"@ {
                "\u{1F3B5}"@
            } else if e == "mp4"@ || e == "mkv"@ || e == "avi"@ {
                "\u{1F3AC}"@
            } else if e == "sh"@ || e == "bash"@ {
                "\u{2328}\u{FE0F}"@
            } else {
                "\u{1F4C4}"@
            },
            None => "\u{1F4C4}"@,
        }
    }
}

/// `num / den` rounded to the nearest integer, ties to the even one.
pub open spec fn round_half_even(num: nat, den: nat) -> nat
    recommends
        den > 0,
{
    let q = num / den;
    let r = num % den;
    if 2 * r > den {
        q + 1
    } else if 2 * r < den {
        q
    } else if q % 2 == 0 {
        q
    } else {
        q + 1
    }
}

/// The number of tenths `t` written with one decimal: "12.3" for 123.
pub open spec fn tenths_text(t: nat) -> Seq<char> {
    decimal(t / 10) + seq!['.', digit_char((t % 10) as int)]
}

/// The smallest power of two `d`, starting from `from`, for which `n / d`
/// has at most 53 bits.
pub open spec fn significand_scale(n: nat, from: nat) -> nat
    decreases n + 1 - from,
{
    if from == 0 || n / from < 0x20_0000_0000_0000 || from > n {
        from
    } else {
        proof {
            assert(2 * from <= n) by (nonlinear_arith)
                requires
                    from > 0,
                    n / from >= 0x20_0000_0000_0000,
            ;
        }
        significand_scale(n, 2 * from)
    }
}

/// The value that `n as f64` holds: `n` rounded to 53 significant bits,
/// ties to even.
pub open spec fn f64_value(n: nat) -> nat {
    let d = significand_scale(n, 1);
    round_half_even(n, d) * d
}

/// How a size is shown: bytes below a KiB, else KB, MB or GB with one
/// decimal, rounded as `{:.1}` rounds the value of the float division.
pub open spec fn size_text(is_dir: bool, size: nat) -> Seq<char> {
    if is_dir {
        "--"@
    } else if size < 1024 {
        decimal(size) + " B"@
    } else if size < 1024 * 1024 {
        tenths_text(round_half_even(size * 10, 1024)) + " KB"@
    } else if size < 1024 * 1024 * 1024 {
        tenths_text(round_half_even(size * 10, 1024 * 1024)) + " MB"@
    } else {
        tenths_text(round_half_even(f64_value(size) * 10, 1024 * 1024 * 1024)) + " GB"@
    }
}

/// A time after the epoch shown as "YYYY-MM-DD HH:MM": its calendar date
/// (proleptic Gregorian, UTC) and the hour and minute of its day.
pub open spec fn date_text(secs: nat) -> Seq<char> {
    let date = civil_date((secs / 86400) as int);
    let hours = (secs % 86400) / 3600;
    let minutes = (secs % 3600) / 60;
    decimal_padded(date.0 as nat, 4) + seq!['-'] + decimal_padded(date.1 as nat, 2) + seq!['-']
        + decimal_padded(date.2 as nat, 2) + seq![' '] + decimal_padded(hours, 2) + seq![':']
        + decimal_padded(minutes, 2)
}

/// How a modification time is shown: "--" when unknown, "Unknown" before
/// the epoch.
pub open spec fn modified_text(modified: Option<FileTime>) -> Seq<char> {
    match modified {
        Some(t) => if t.secs >= 0 {
            date_text(t.secs as nat)
        } else {
            "Unknown"@
        },
        None => "--"@,
    }
}

/// What the file system reports of an entry.
#[derive(Debug, Clone, Copy, PartialEq, Eq)]
pub struct EntryMetadata {
    pub is_dir: bool,
    pub size: u64,
    pub modified: Option<FileTime>,
}

/// Whether a file name starts with `.`.
pub open spec fn is_hidden_name(name: Seq<char>) -> bool {
    name.len() > 0 && name[0] == '.'
}

/// The entries of a listing that are not hidden, in their order.
pub open spec fn visible_entries(entries: Seq<FileEntry>) -> Seq<FileEntry> {
    entries.filter(|e: FileEntry| !is_hidden_name(e.name@))
}

/// The field that a listing is sorted by.
#[derive(Debug, Clone, Copy, PartialEq, Eq, Structural)]
pub enum SortField {
    Name,
    Size,
    Modified,
}

/// The direction of a sort.
#[derive(Debug, Clone, Copy, PartialEq, Eq, Structural)]
pub enum SortDirection {
    Ascending,
    Descending,
}

/// Order of two times: earlier first.
pub open spec fn order_time(a: FileTime, b: FileTime) -> int {
    if a.secs != b.secs {
        order_int(a.secs as int, b.secs as int)
    } else {
        order_int(a.nanos as int, b.nanos as int)
    }
}

/// Order of two optional times: known times first, earlier first.
pub open spec fn order_modified(a: Option<FileTime>, b: Option<FileTime>) -> int {
    match (a, b) {
        (Some(x), Some(y)) => order_time(x, y),
        (Some(_), None) => -1,
        (None, Some(_)) => 1,
        (None, None) => 0,
    }
}

/// Order of two entries by one field, ascending: names compare by their
/// lowercase form.
pub open spec fn order_by_field(a: FileEntry, b: FileEntry, field: SortField) -> int {
    match field {
        SortField::Name => order_chars(lowercase(a.name@), lowercase(b.name@)),
        SortField::Size => order_int(a.size as int, b.size as int),
        SortField::Modified => order_modified(a.modified, b.modified),
    }
}

/// The order that a sort puts entries in: directories before files in
/// either direction, then by the field in the given direction.
pub open spec fn entry_order(a: FileEntry, b: FileEntry, field: SortField, direction: SortDirection) -> int {
    if a.is_dir != b.is_dir {
        if a.is_dir { -1 } else { 1 }
    } else {
        match direction {
            SortDirection::Ascending => order_by_field(a, b, field),
            SortDirection::Descending => -order_by_field(a, b, field),
        }
    }
}

/// `perm` lists each index below `n` exactly once.
pub open spec fn is_permutation(perm: Seq<int>, n: int) -> bool {
    &&& perm.len() == n
    &&& forall|k: int| 0 <= k < n ==> 0 <= #[trigger] perm[k] < n
    &&& forall|k: int, l: int| 0 <= k < l < n ==> perm[k] != perm[l]
}

/// `result` is `input` rearranged by `perm` into the entry order, with
/// entries that the order ties kept in their input order.
pub open spec fn stably_sorted_by(
    result: Seq<FileEntry>,
    input: Seq<FileEntry>,
    perm: Seq<int>,
    field: SortField,
    direction: SortDirection,
) -> bool {
    &&& result.len() == input.len()
    &&& is_permutation(perm, input.len() as int)
    &&& forall|k: int| 0 <= k < result.len() ==> #[trigger] result[k] == input[perm[k]]
    &&& forall|k: int, l: int|
        0 <= k < l < result.len() ==> entry_order(#[trigger] result[k], #[trigger] result[l], field, direction) <= 0
    &&& forall|k: int, l: int|
        0 <= k < l < result.len() && entry_order(#[trigger] result[k], #[trigger] result[l], field, direction) == 0
            ==> perm[k] < perm[l]
}

/// `result` is the stable sort of `input` in the entry order.
pub open spec fn stably_sorted(
    result: Seq<FileEntry>,
    input: Seq<FileEntry>,
    field: SortField,
    direction: SortDirection,
) -> bool {
    exists|perm: Seq<int>| stably_sorted_by(result, input, perm, field, direction)
}

/// The entry order is antisymmetric and takes the values -1, 0 and 1.
pub proof fn lemma_entry_order_antisym(a: FileEntry, b: FileEntry, field: SortField, direction: SortDirection)
    ensures
        entry_order(a, b, field, direction) == -entry_order(b, a, field, direction),
        -1 <= entry_order(a, b, field, direction) <= 1,
{
    lemma_order_chars_antisym(lowercase(a.name@), lowercase(b.name@));
}

/// The entry order is transitive.
pub proof fn lemma_entry_order_trans(
    a: FileEntry,
    b: FileEntry,
    c: FileEntry,
    field: SortField,
    direction: SortDirection,
)
    requires
        entry_order(a, b, field, direction) <= 0,
        entry_order(b, c, field, direction) <= 0,
    ensures
        entry_order(a, c, field, direction) <= 0,
{
    let (la, lb, lc) = (lowercase(a.name@), lowercase(b.name@), lowercase(c.name@));
    lemma_order_chars_antisym(la, lb);
    lemma_order_chars_antisym(lb, lc);
    lemma_order_chars_antisym(la, lc);
    if a.is_dir == b.is_dir && b.is_dir == c.is_dir && field == SortField::Name {
        match direction {
            SortDirection::Ascending => lemma_order_chars_trans(la, lb, lc),
            SortDirection::Descending => lemma_order_chars_trans(lc, lb, la),
        }
    }
}

fn compare_times(a: Option<FileTime>, b: Option<FileTime>) -> (r: i8)
    ensures
        r as int == order_modified(a, b),
{
    match (a, b) {
        (Some(x), Some(y)) => {
            if x.secs < y.secs {
                -1
            } else if x.secs > y.secs {
                1
            } else if x.nanos < y.nanos {
                -1
            } else if x.nanos > y.nanos {
                1
            } else {
                0
            }
        },
        (Some(_), None) => -1,
        (None, Some(_)) => 1,
        (None, None) => 0,
    }
}

/// Compares two entries, given their lowercase names, in the entry order.
fn compare_entries(
    a: &FileEntry,
    ka: &Vec<char>,
    b: &FileEntry,
    kb: &Vec<char>,
    field: SortField,
    direction: SortDirection,
) -> (r: i8)
    requires
        ka@ == lowercase(a.name@),
        kb@ == lowercase(b.name@),
    ensures
        r as int == entry_order(*a, *b, field, direction),
{
    proof {
        lemma_order_chars_antisym(ka@, kb@);
    }
    if a.is_dir != b.is_dir {
        return if a.is_dir { -1 } else { 1 };
    }
    let o: i8 = match field {
        SortField::Name => compare_chars(ka, kb),
        SortField::Size => {
            if a.size < b.size {
                -1
            } else if a.size > b.size {
                1
            } else {
                0
            }
        },
        SortField::Modified => compare_times(a.modified, b.modified),
    };
    match direction {
        SortDirection::Ascending => o,
        SortDirection::Descending => -o,
    }
}

fn round_half_even_exec(num: u128, den: u128) -> (r: u128)
    requires
        den > 0,
        num <= 0x1_0000_0000_0000_0000_0000,
    ensures
        r as nat == round_half_even(num as nat, den as nat),
        r <= num / den + 1,
{
    let q = num / den;
    let r = num % den;
    if r > den - r {
        q + 1
    } else if r < den - r {
        q
    } else if q % 2 == 0 {
        q
    } else {
        q + 1
    }
}

fn push_tenths(out: &mut Vec<char>, t: u128)
    requires
        t <= 0xFFFF_FFFF_FFFF_FFFF,
    ensures
        final(out)@ == old(out)@ + tenths_text(t as nat),
{
    let whole = (t / 10) as u64;
    let frac = (t % 10) as u64;
    push_decimal(out, whole);
    out.push('.');
    let mut d: Vec<char> = Vec::new();
    push_decimal(&mut d, frac);
    assert(decimal(frac as nat) =~= seq![digit_char(frac as int)]);
    out.push(d[0]);
    assert(final(out)@ =~= old(out)@ + tenths_text(t as nat));
}

fn f64_value_exec(n: u64) -> (r: u128)
    ensures
        r as nat == f64_value(n as nat),
        r <= 0x2_0000_0000_0000_0000,
{
    let big: u128 = n as u128;
    let mut d: u128 = 1;
    while d <= big && big / d >= 0x20_0000_0000_0000
        invariant
            1 <= d <= 0x1000,
            big == n as u128,
            significand_scale(n as nat, 1) == significand_scale(n as nat, d as nat),
        decreases big + 1 - d,
    {
        assert(d * 0x20_0000_0000_0000 <= big) by (nonlinear_arith)
            requires
                big / d >= 0x20_0000_0000_0000,
                d >= 1,
        ;
        d = d * 2;
    }
    let q = round_half_even_exec(big, d);
    assert(big / d < 0x20_0000_0000_0000) by (nonlinear_arith)
        requires
            big / d < 0x20_0000_0000_0000 || d > big,
            d >= 1,
    ;
    assert(q * d <= 0x2_0000_0000_0000_0000) by (nonlinear_arith)
        requires
            q <= 0x20_0000_0000_0000,
            d <= 0x1000,
    ;
    q * d
}

/// The invariant of the insertion sort over indices into `input`: `idx`
/// holds each index below `i` once, in entry order, ties by index.
pub open spec fn index_order_inv(
    input: Seq<FileEntry>,
    idx: Seq<usize>,
    i: int,
    field: SortField,
    direction: SortDirection,
) -> bool {
    &&& idx.len() == i
    &&& i <= input.len()
    &&& forall|k: int| 0 <= k < i ==> #[trigger] idx[k] < i
    &&& forall|k: int, l: int| 0 <= k < l < i ==> idx[k] != idx[l]
    &&& forall|k: int, l: int|
        0 <= k < l < i ==> entry_order(input[#[trigger] idx[k] as int], input[#[trigger] idx[l] as int], field, direction) <= 0
    &&& forall|k: int, l: int|
        0 <= k < l < i && entry_order(input[#[trigger] idx[k] as int], input[#[trigger] idx[l] as int], field, direction) == 0
            ==> idx[k] < idx[l]
}

proof fn lemma_insert_index(
    input: Seq<FileEntry>,
    idx: Seq<usize>,
    i: usize,
    p: usize,
    field: SortField,
    direction: SortDirection,
)
    requires
        index_order_inv(input, idx, i as int, field, direction),
        i < input.len(),
        p <= i,
        p > 0 ==> entry_order(input[idx[p - 1] as int], input[i as int], field, direction) <= 0,
        forall|q: int| p <= q < i ==> entry_order(input[#[trigger] idx[q] as int], input[i as int], field, direction) > 0,
    ensures
        index_order_inv(input, idx.insert(p as int, i), i + 1, field, direction),
{
    let new = idx.insert(p as int, i);
    let x = input[i as int];
    assert forall|k: int| 0 <= k < i + 1 implies #[trigger] new[k] < i + 1 by {
        if k < p {
            assert(new[k] == idx[k]);
        } else if k > p {
            assert(new[k] == idx[k - 1]);
        }
    }
    assert forall|k: int, l: int| 0 <= k < l < i + 1 implies
        entry_order(input[#[trigger] new[k] as int], input[#[trigger] new[l] as int], field, direction) <= 0
        && (entry_order(input[new[k] as int], input[new[l] as int], field, direction) == 0 ==> new[k] < new[l]) by {
        if l < p {
            assert(new[k] == idx[k] && new[l] == idx[l]);
            assert(entry_order(input[idx[k] as int], input[idx[l] as int], field, direction) <= 0);
        } else if l == p {
            assert(new[k] == idx[k] && new[l] == i);
            let y = input[idx[p - 1] as int];
            if k < p - 1 {
                assert(entry_order(input[idx[k] as int], input[idx[p - 1] as int], field, direction) <= 0);
            } else {
                lemma_entry_order_antisym(y, y, field, direction);
            }
            lemma_entry_order_trans(input[idx[k] as int], y, x, field, direction);
            assert(idx[k] < i);
        } else if k == p {
            assert(new[k] == i && new[l] == idx[l - 1]);
            assert(entry_order(input[idx[l - 1] as int], x, field, direction) > 0);
            lemma_entry_order_antisym(input[idx[l - 1] as int], x, field, direction);
        } else if k < p {
            assert(new[k] == idx[k] && new[l] == idx[l - 1]);
            assert(entry_order(input[idx[k] as int], input[idx[l - 1] as int], field, direction) <= 0);
        } else {
            assert(new[k] == idx[k - 1] && new[l] == idx[l - 1]);
            assert(entry_order(input[idx[k - 1] as int], input[idx[l - 1] as int], field, direction) <= 0);
        }
    }
    assert forall|k: int, l: int| 0 <= k < l < i + 1 implies new[k] != new[l] by {
        if l < p {
            assert(new[k] == idx[k] && new[l] == idx[l]);
        } else if l == p {
            assert(new[k] == idx[k] && new[l] == i);
            assert(idx[k] < i);
        } else if k == p {
            assert(new[k] == i && new[l] == idx[l - 1]);
            assert(idx[l - 1] < i);
        } else if k < p {
            assert(new[k] == idx[k] && new[l] == idx[l - 1]);
        } else {
            assert(new[k] == idx[k - 1] && new[l] == idx[l - 1]);
        }
    }
}

/// The entries of `input` in stable entry order.
pub fn stable_sorted(input: &Vec<FileEntry>, field: SortField, direction: SortDirection) -> (r: Vec<FileEntry>)
    ensures
        stably_sorted(r@, input@, field, direction),
{
    let n = input.len();
    let mut keys: Vec<Vec<char>> = Vec::new();
    let mut j: usize = 0;
    while j < n
        invariant
            n == input@.len(),
            j <= n,
            keys@.len() == j,
            forall|k: int| 0 <= k < j ==> #[trigger] keys@[k]@ == lowercase(input@[k].name@),
        decreases n - j,
    {
        let lower = to_lowercase(input[j].name.as_str());
        keys.push(chars_of(lower.as_str()));
        j = j + 1;
    }
    let mut idx: Vec<usize> = Vec::new();
    let mut i: usize = 0;
    while i < n
        invariant
            n == input@.len(),
            keys@.len() == n,
            forall|k: int| 0 <= k < n ==> #[trigger] keys@[k]@ == lowercase(input@[k].name@),
            i <= n,
            index_order_inv(input@, idx@, i as int, field, direction),
        decreases n - i,
    {
        let mut p = i;
        while p > 0
            invariant_except_break
                p <= i,
                forall|q: int| p <= q < i ==> entry_order(input@[#[trigger] idx@[q] as int], input@[i as int], field, direction) > 0,
            invariant
                n == input@.len(),
                keys@.len() == n,
                forall|k: int| 0 <= k < n ==> #[trigger] keys@[k]@ == lowercase(input@[k].name@),
                i < n,
                index_order_inv(input@, idx@, i as int, field, direction),
            ensures
                p <= i,
                p > 0 ==> entry_order(input@[idx@[p - 1] as int], input@[i as int], field, direction) <= 0,
                forall|q: int| p <= q < i ==> entry_order(input@[#[trigger] idx@[q] as int], input@[i as int], field, direction) > 0,
            decreases p,
        {
            let c = idx[p - 1];
            assert(c < i);
            let o = compare_entries(&input[c], &keys[c], &input[i], &keys[i], field, direction);
            if o <= 0 {
                break;
            }
            p = p - 1;
        }
        proof {
            lemma_insert_index(input@, idx@, i, p, field, direction);
        }
        idx.insert(p, i);
        i = i + 1;
    }
    let mut out: Vec<FileEntry> = Vec::new();
    let mut k: usize = 0;
    while k < n
        invariant
            n == input@.len(),
            index_order_inv(input@, idx@, n as int, field, direction),
            k <= n,
            out@.len() == k,
            forall|m: int| 0 <= m < k ==> #[trigger] out@[m] == input@[idx@[m] as int],
        decreases n - k,
    {
        let e = input[idx[k]].duplicate();
        out.push(e);
        k = k + 1;
    }
    let ghost perm = idx@.map_values(|x: usize| x as int);
    assert(stably_sorted_by(out@, input@, perm, field, direction)) by {
        assert forall|m: int, l: int|
            0 <= m < l < n && entry_order(#[trigger] out@[m], #[trigger] out@[l], field, direction) == 0
            implies perm[m] < perm[l] by {
            assert(out@[m] == input@[idx@[m] as int]);
            assert(out@[l] == input@[idx@[l] as int]);
        }
        assert forall|m: int, l: int| 0 <= m < l < n implies
            entry_order(#[trigger] out@[m], #[trigger] out@[l], field, direction) <= 0 by {
            assert(out@[m] == input@[idx@[m] as int]);
            assert(out@[l] == input@[idx@[l] as int]);
        }
        assert forall|m: int| 0 <= m < n implies 0 <= #[trigger] perm[m] < n by {
            assert(idx@[m] < n);
        }
    }
    out
}

/// A permutation lists every index below its length.
pub proof fn lemma_permutation_onto(perm: Seq<int>, n: int, v: int)
    requires
        is_permutation(perm, n),
        0 <= v < n,
    ensures
        exists|m: int| 0 <= m < n && perm[m] == v,
{
    assert(perm.no_duplicates()) by {
        assert forall|k: int, l: int| 0 <= k < perm.len() && 0 <= l < perm.len() && k != l implies perm[k] != perm[l] by {
            if k < l {
            } else {
            }
        }
    }
    perm.unique_seq_to_set();
    vstd::set_lib::lemma_int_range(0, n);
    let range = vstd::set_lib::set_int_range(0, n);
    assert(perm.to_set().subset_of(range)) by {
        assert forall|x: int| perm.to_set().contains(x) implies range.contains(x) by {
            let m = choose|m: int| 0 <= m < perm.len() && perm[m] == x;
            assert(0 <= perm[m] < n);
        }
    }
    vstd::seq_lib::seq_to_set_is_finite(perm);
    vstd::set_lib::lemma_subset_equality(perm.to_set(), range);
    assert(range.contains(v));
    assert(perm.to_set().contains(v));
}

proof fn lemma_same_prefix(
    r1: Seq<FileEntry>,
    r2: Seq<FileEntry>,
    input: Seq<FileEntry>,
    p1: Seq<int>,
    p2: Seq<int>,
    field: SortField,
    direction: SortDirection,
    k: int,
)
    requires
        stably_sorted_by(r1, input, p1, field, direction),
        stably_sorted_by(r2, input, p2, field, direction),
        0 <= k <= input.len(),
    ensures
        forall|j: int| 0 <= j < k ==> p1[j] == p2[j],
    decreases k,
{
    let n = input.len() as int;
    if k > 0 {
        lemma_same_prefix(r1, r2, input, p1, p2, field, direction, k - 1);
        let j = k - 1;
        let a = p1[j];
        let b = p2[j];
        if a != b {
            lemma_permutation_onto(p1, n, b);
            lemma_permutation_onto(p2, n, a);
            let m1 = choose|m: int| 0 <= m < n && p1[m] == b;
            let m2 = choose|m: int| 0 <= m < n && p2[m] == a;
            if m1 < j {
                assert(p2[m1] == b);
            }
            if m2 < j {
                assert(p1[m2] == a);
            }
            assert(m1 > j && m2 > j);
            assert(r1[j] == input[a] && r1[m1] == input[b]);
            assert(r2[j] == input[b] && r2[m2] == input[a]);
            assert(entry_order(r1[j], r1[m1], field, direction) <= 0);
            assert(entry_order(r2[j], r2[m2], field, direction) <= 0);
            lemma_entry_order_antisym(input[a], input[b], field, direction);
            assert(entry_order(input[a], input[b], field, direction) == 0);
            assert(a < b);
            assert(b < a);
        }
    }
}

/// A stable sort has one result: any two stable sorts of the same entries
/// by the same field and direction are equal.
pub proof fn lemma_stable_sort_unique(
    r1: Seq<FileEntry>,
    r2: Seq<FileEntry>,
    input: Seq<FileEntry>,
    field: SortField,
    direction: SortDirection,
)
    requires
        stably_sorted(r1, input, field, direction),
        stably_sorted(r2, input, field, direction),
    ensures
        r1 == r2,
{
    let p1 = choose|p: Seq<int>| stably_sorted_by(r1, input, p, field, direction);
    let p2 = choose|p: Seq<int>| stably_sorted_by(r2, input, p, field, direction);
    lemma_same_prefix(r1, r2, input, p1, p2, field, direction, input.len() as int);
    assert forall|k: int| 0 <= k < r1.len() implies r1[k] == r2[k] by {
        assert(r1[k] == input[p1[k]]);
        assert(r2[k] == input[p2[k]]);
    }
    assert(r1 =~= r2);
}

/// Entries already in the entry order are their own stable sort: sorting
/// them leaves them as they are.
pub proof fn lemma_sorted_input_unchanged(
    result: Seq<FileEntry>,
    input: Seq<FileEntry>,
    field: SortField,
    direction: SortDirection,
)
    requires
        forall|k: int, l: int| 0 <= k < l < input.len() ==> entry_order(#[trigger] input[k], #[trigger] input[l], field, direction) <= 0,
        stably_sorted(result, input, field, direction),
    ensures
        result == input,
{
    let id = Seq::new(input.len(), |k: int| k);
    assert(stably_sorted_by(input, input, id, field, direction));
    lemma_stable_sort_unique(result, input, input, field, direction);
}

/// Sorting twice by the same field and direction gives what sorting once
/// gives.
pub proof fn lemma_sort_idempotent(
    once: Seq<FileEntry>,
    twice: Seq<FileEntry>,
    input: Seq<FileEntry>,
    field: SortField,
    direction: SortDirection,
)
    requires
        stably_sorted(once, input, field, direction),
        stably_sorted(twice, once, field, direction),
    ensures
        twice == once,
{
    let p = choose|p: Seq<int>| stably_sorted_by(once, input, p, field, direction);
    lemma_sorted_input_unchanged(twice, once, field, direction);
}

/// In a listing sorted by name, two entries of the same kind (both
/// directories or both files) are ordered by their lowercase names compared
/// as plain strings of code points: when the names agree before position
/// `i` and there the first name has the smaller character, or ends, the
/// first entry comes earlier in ascending order and later in descending
/// order.
pub proof fn lemma_sorted_by_lowercase_name(
    result: Seq<FileEntry>,
    input: Seq<FileEntry>,
    direction: SortDirection,
    k: int,
    l: int,
    i: int,
)
    requires
        stably_sorted(result, input, SortField::Name, direction),
        0 <= k < result.len(),
        0 <= l < result.len(),
        result[k].is_dir == result[l].is_dir,
        0 <= i <= lowercase(result[k].name@).len(),
        i < lowercase(result[l].name@).len(),
        forall|j: int| 0 <= j < i ==> lowercase(result[k].name@)[j] == lowercase(result[l].name@)[j],
        i == lowercase(result[k].name@).len()
            || (lowercase(result[k].name@)[i] as int) < (lowercase(result[l].name@)[i] as int),
    ensures
        direction == SortDirection::Ascending ==> k < l,
        direction == SortDirection::Descending ==> l < k,
{
    let a = lowercase(result[k].name@);
    let b = lowercase(result[l].name@);
    if i == a.len() {
        lemma_order_chars_prefix(a, b);
    } else {
        lemma_order_chars_first_difference(a, b, i);
    }
    lemma_order_chars_antisym(a, b);
    let p = choose|p: Seq<int>| stably_sorted_by(result, input, p, SortField::Name, direction);
    if k == l {
        assert(false);
    } else if direction == SortDirection::Ascending && l < k {
        assert(entry_order(result[l], result[k], SortField::Name, direction) <= 0);
    } else if direction == SortDirection::Descending && k < l {
        assert(entry_order(result[k], result[l], SortField::Name, direction) <= 0);
    }
}

/// Without hidden files shown, a listing leaves out exactly the entries
/// whose name starts with `.`: every other entry (one starting with `_`,
/// say, or with no name at all) is in it, and none of those is.
pub proof fn lemma_only_dot_names_hidden(result: Seq<FileEntry>, entries: Seq<FileEntry>)
    requires
        stably_sorted(result, listed_entries(entries, false), SortField::Name, SortDirection::Ascending),
    ensures
        forall|k: int|
            0 <= k < entries.len() && (#[trigger] entries[k].name@.len() == 0 || entries[k].name@[0] != '.')
                ==> result.contains(entries[k]),
        forall|k: int|
            0 <= k < result.len() ==> #[trigger] result[k].name@.len() > 0 ==> result[k].name@[0] != '.',
        forall|k: int| 0 <= k < result.len() ==> entries.contains(#[trigger] result[k]),
{
    lemma_listing_contents(result, entries, false);
    assert forall|k: int|
        0 <= k < entries.len() && (#[trigger] entries[k].name@.len() == 0 || entries[k].name@[0] != '.')
            implies result.contains(entries[k]) by {
        assert(!is_hidden_name(entries[k].name@));
    }
    assert forall|k: int| 0 <= k < result.len() implies #[trigger] result[k].name@.len() > 0 ==> result[k].name@[0]
        != '.' by {
        assert(!is_hidden_name(result[k].name@));
    }
}

/// In a sorted listing every directory comes before every file, whatever
/// the field and direction.
pub proof fn lemma_directories_first(
    result: Seq<FileEntry>,
    input: Seq<FileEntry>,
    field: SortField,
    direction: SortDirection,
)
    requires
        stably_sorted(result, input, field, direction),
    ensures
        forall|k: int, l: int| 0 <= k < l < result.len() && #[trigger] result[l].is_dir ==> #[trigger] result[k].is_dir,
{
    let p = choose|p: Seq<int>| stably_sorted_by(result, input, p, field, direction);
    assert forall|k: int, l: int| 0 <= k < l < result.len() && #[trigger] result[l].is_dir implies #[trigger] result[k].is_dir by {
        assert(entry_order(result[k], result[l], field, direction) <= 0);
    }
}

/// The entries a listing holds: all of them when hidden files are shown,
/// else those whose name does not start with `.`.
pub open spec fn listed_entries(entries: Seq<FileEntry>, show_hidden: bool) -> Seq<FileEntry> {
    if show_hidden {
        entries
    } else {
        visible_entries(entries)
    }
}

/// The entries of a directory as a listing shows them: hidden entries
/// (names starting with `.`) left out unless they are to be shown,
/// directories first, then by lowercase name.
pub fn list_directory(entries: &Vec<FileEntry>, show_hidden: bool) -> (r: Vec<FileEntry>)
    ensures
        stably_sorted(r@, listed_entries(entries@, show_hidden), SortField::Name, SortDirection::Ascending),
{
    if show_hidden {
        return stable_sorted(entries, SortField::Name, SortDirection::Ascending);
    }
    let mut visible: Vec<FileEntry> = Vec::new();
    let mut i: usize = 0;
    while i < entries.len()
        invariant
            i <= entries@.len(),
            visible@ == visible_entries(entries@.take(i as int)),
        decreases entries@.len() - i,
    {
        let e = &entries[i];
        let hidden = e.name.unicode_len() > 0 && e.name.as_str().get_char(0) == '.';
        proof {
            assert(entries@.take(i + 1) =~= entries@.take(i as int).push(entries@[i as int]));
            entries@.take(i as int).lemma_filter_push(entries@[i as int], |e: FileEntry| !is_hidden_name(e.name@));
        }
        if !hidden {
            visible.push(e.duplicate());
        }
        i = i + 1;
    }
    assert(entries@.take(entries@.len() as int) =~= entries@);
    stable_sorted(&visible, SortField::Name, SortDirection::Ascending)
}

/// A listing holds every entry that is to be shown, and no hidden entry
/// unless hidden files are shown.
pub proof fn lemma_listing_contents(result: Seq<FileEntry>, entries: Seq<FileEntry>, show_hidden: bool)
    requires
        stably_sorted(result, listed_entries(entries, show_hidden), SortField::Name, SortDirection::Ascending),
    ensures
        !show_hidden ==> forall|k: int| 0 <= k < result.len() ==> !is_hidden_name(#[trigger] result[k].name@),
        forall|k: int|
            0 <= k < entries.len() && (show_hidden || !is_hidden_name(#[trigger] entries[k].name@)) ==> result.contains(
                entries[k],
            ),
        forall|k: int| 0 <= k < result.len() ==> entries.contains(#[trigger] result[k]),
{
    broadcast use vstd::seq_lib::group_filter_ensures;
    let pred = |e: FileEntry| !is_hidden_name(e.name@);
    let v = listed_entries(entries, show_hidden);
    let p = choose|p: Seq<int>| stably_sorted_by(result, v, p, SortField::Name, SortDirection::Ascending);
    assert forall|k: int| 0 <= k < result.len() implies entries.contains(#[trigger] result[k]) && (!show_hidden
        ==> !is_hidden_name(result[k].name@)) by {
        assert(result[k] == v[p[k]]);
        assert(v.contains(v[p[k]]));
        if !show_hidden {
            assert(pred(v[p[k]]));
            entries.lemma_filter_contains_rev(pred, v[p[k]]);
        }
    }
    assert forall|k: int|
        0 <= k < entries.len() && (show_hidden || !is_hidden_name(#[trigger] entries[k].name@)) implies result.contains(
        entries[k],
    ) by {
        if !show_hidden {
            assert(pred(entries[k]));
        }
        assert(v.contains(entries[k]));
        let j = choose|j: int| 0 <= j < v.len() && v[j] == entries[k];
        lemma_permutation_onto(p, v.len() as int, j);
        let m = choose|m: int| 0 <= m < v.len() && p[m] == j;
        assert(result[m] == v[j]);
    }
}

/// The parent of a path, as `Path::parent` gives it.
pub fn parent_dir(path: &str) -> (r: Option<String>)
    ensures
        crate::path::opt_view(r) == crate::path::path_parent(path@),
{
    crate::path::parent(path)
}

/// Whether a reported home directory is usable: when there is one, it is
/// not empty.
pub open spec fn home_reported(home: Option<Seq<char>>) -> bool {
    match home {
        Some(h) => h.len() > 0,
        None => true,
    }
}

/// The home directory when one is known; else the root.
pub open spec fn home_or_root(home: Option<Seq<char>>) -> Seq<char> {
    match home {
        Some(h) => h,
        None => "/"@,
    }
}

/// Calls `dirs::home_dir`, which reads `$HOME` and else the user database,
/// and gives the path as a (lossily converted) string.  On Unix it turns
/// an empty `$HOME` or an empty database entry into no directory, so a
/// directory it reports is never empty; which directory that is depends on
/// the environment and is not claimed.
#[verifier::external_body]
fn dirs_home_dir() -> (r: Option<String>)
    ensures
        home_reported(crate::path::opt_view(r)),
{
    dirs::home_dir().map(|p| p.to_string_lossy().into_owned())
}

/// The home directory when one is known; else the root.
pub fn home_dir_or_root(home: Option<String>) -> (r: String)
    ensures
        r@ == (match home {
            Some(h) => h@,
            None => "/"@,
        }),
{
    match home {
        Some(h) => h,
        None => String::from_str("/"),
    }
}

/// The user's home directory, or `/` when it cannot be found; never empty.
pub fn home_dir() -> (r: String)
    ensures
        exists|home: Option<Seq<char>>| home_reported(home) && r@ == home_or_root(home),
        r@.len() > 0,
{
    let home = dirs_home_dir();
    let ghost h = crate::path::opt_view(home);
    let r = home_dir_or_root(home);
    proof {
        reveal_strlit("/");
    }
    assert(home_reported(h) && r@ == home_or_root(h));
    r
}

/// Sorts the entries by the field in the direction, directories first.
pub fn sort_entries(entries: &mut Vec<FileEntry>, field: SortField, direction: SortDirection)
    ensures
        stably_sorted(final(entries)@, old(entries)@, field, direction),
{
    let sorted = stable_sorted(entries, field, direction);
    *entries = sorted;
}

} // verus!

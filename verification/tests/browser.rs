use felix::fs::browser::{
    home_dir, home_dir_or_root, list_directory, parent_dir, sort_entries, stable_sorted, EntryMetadata, FileEntry,
    FileTime, SortDirection, SortField,
};
use std::cmp::Ordering;

fn entry(name: &str, is_dir: bool, size: u64, modified: Option<(i64, u32)>) -> FileEntry {
    FileEntry {
        name: name.to_string(),
        path: format!("/tmp/{}", name),
        is_dir,
        size,
        modified: modified.map(|(secs, nanos)| FileTime { secs, nanos }),
    }
}

/// The comparison the listing sorts by, written with std's tools.
fn reference_order(a: &FileEntry, b: &FileEntry, field: SortField, direction: SortDirection) -> Ordering {
    if a.is_dir != b.is_dir {
        return if a.is_dir { Ordering::Less } else { Ordering::Greater };
    }
    let ord = match field {
        SortField::Name => a.name.to_lowercase().cmp(&b.name.to_lowercase()),
        SortField::Size => a.size.cmp(&b.size),
        SortField::Modified => match (a.modified, b.modified) {
            (Some(x), Some(y)) => (x.secs, x.nanos).cmp(&(y.secs, y.nanos)),
            (Some(_), None) => Ordering::Less,
            (None, Some(_)) => Ordering::Greater,
            (None, None) => Ordering::Equal,
        },
    };
    if direction == SortDirection::Descending {
        ord.reverse()
    } else {
        ord
    }
}

fn pseudo_random_entries(seed: u64, n: usize) -> Vec<FileEntry> {
    let names = ["b", "A", "a", "C", "éclair", "Zeta", "zeta", "x.txt", "X.TXT", "ß", "readme", "Readme"];
    let mut state = seed;
    let mut next = || {
        state = state.wrapping_mul(6364136223846793005).wrapping_add(1442695040888963407);
        state >> 33
    };
    (0..n)
        .map(|i| {
            let name = format!("{}{}", names[(next() as usize) % names.len()], if next() % 3 == 0 { "" } else { "" });
            let is_dir = next() % 3 == 0;
            let size = next() % 5;
            let modified = match next() % 4 {
                0 => None,
                k => Some(((next() % 3) as i64 - 1, (k as u32) * 10)),
            };
            let mut e = entry(&name, is_dir, size, modified);
            e.path = format!("/tmp/{}/{}", i, name);
            e
        })
        .collect()
}

#[test]
fn sort_agrees_with_stable_std_sort() {
    let fields = [SortField::Name, SortField::Size, SortField::Modified];
    let dirs = [SortDirection::Ascending, SortDirection::Descending];
    for seed in 0..40u64 {
        let input = pseudo_random_entries(seed, (seed % 17) as usize);
        for field in fields {
            for direction in dirs {
                let mut ours = input.clone();
                sort_entries(&mut ours, field, direction);
                let mut theirs = input.clone();
                theirs.sort_by(|a, b| reference_order(a, b, field, direction));
                assert_eq!(ours, theirs);
            }
        }
    }
}

#[test]
fn directories_come_first_in_both_directions() {
    let input = vec![
        entry("file_a", false, 10, None),
        entry("dir_z", true, 0, None),
        entry("file_b", false, 5, None),
        entry("dir_a", true, 0, None),
    ];
    for direction in [SortDirection::Ascending, SortDirection::Descending] {
        let mut v = input.clone();
        sort_entries(&mut v, SortField::Name, direction);
        assert!(v[0].is_dir && v[1].is_dir && !v[2].is_dir && !v[3].is_dir);
    }
    let mut v = input.clone();
    sort_entries(&mut v, SortField::Name, SortDirection::Descending);
    let names: Vec<&str> = v.iter().map(|e| e.name.as_str()).collect();
    assert_eq!(names, vec!["dir_z", "dir_a", "file_b", "file_a"]);
}

#[test]
fn sorting_twice_changes_nothing() {
    let input = pseudo_random_entries(7, 12);
    let mut once = input.clone();
    sort_entries(&mut once, SortField::Size, SortDirection::Descending);
    let twice = stable_sorted(&once, SortField::Size, SortDirection::Descending);
    assert_eq!(once, twice);
}

#[test]
fn equal_keys_keep_their_order() {
    let input = vec![entry("Readme", false, 1, None), entry("readme", false, 2, None), entry("README", false, 3, None)];
    let mut v = input.clone();
    sort_entries(&mut v, SortField::Name, SortDirection::Descending);
    assert_eq!(v, input);
}

#[test]
fn modified_sort_puts_unknown_times_last() {
    let input = vec![
        entry("a", false, 0, None),
        entry("b", false, 0, Some((20, 0))),
        entry("c", false, 0, Some((10, 5))),
        entry("d", false, 0, Some((10, 1))),
    ];
    let mut v = input.clone();
    sort_entries(&mut v, SortField::Modified, SortDirection::Ascending);
    let names: Vec<&str> = v.iter().map(|e| e.name.as_str()).collect();
    assert_eq!(names, vec!["d", "c", "b", "a"]);
}

#[test]
fn listing_hides_dot_files_and_sorts() {
    let raw = vec![
        entry("zeta.txt", false, 1, None),
        entry(".hidden", false, 1, None),
        entry("Alpha", false, 1, None),
        entry("src", true, 0, None),
        entry(".git", true, 0, None),
        entry("Docs", true, 0, None),
    ];
    let listed = list_directory(&raw, false);
    let names: Vec<&str> = listed.iter().map(|e| e.name.as_str()).collect();
    assert_eq!(names, vec!["Docs", "src", "Alpha", "zeta.txt"]);
    let all = list_directory(&raw, true);
    let names: Vec<&str> = all.iter().map(|e| e.name.as_str()).collect();
    assert_eq!(names, vec![".git", "Docs", "src", ".hidden", "Alpha", "zeta.txt"]);
}

#[test]
fn entry_from_path() {
    let meta = EntryMetadata { is_dir: false, size: 42, modified: Some(FileTime { secs: 5, nanos: 0 }) };
    let e = FileEntry::from_path("/tmp/x/report.md", Some(meta)).unwrap();
    assert_eq!(e.name, "report.md");
    assert_eq!(e.path, "/tmp/x/report.md");
    assert_eq!(e.size, 42);
    assert!(!e.is_dir);
    assert_eq!(FileEntry::from_path("/tmp/x/report.md", None), None);
    assert_eq!(FileEntry::from_path("/", Some(meta)), None);
    assert_eq!(FileEntry::from_path("a/..", Some(meta)), None);
}

#[test]
fn icons_by_extension() {
    assert_eq!(entry("d", true, 0, None).icon(), "📁");
    let cases = [
        ("a.md", "📝"),
        ("a.markdown", "📝"),
        ("a.pdf", "📄"),
        ("a.docx", "📃"),
        ("a.pptx", "📊"),
        ("a.rs", "🦀"),
        ("a.py", "🐍"),
        ("a.ts", "📜"),
        ("a.json", "⚙️"),
        ("a.svg", "🖼️"),
        ("a.7z", "📦"),
        ("a.flac", "🎵"),
        ("a.mkv", "🎬"),
        ("a.bash", "⌨️"),
        ("a.MD", "📄"),
        ("noext", "📄"),
    ];
    for (name, icon) in cases {
        assert_eq!(entry(name, false, 0, None).icon(), icon, "{}", name);
    }
}

/// The display the size had, computed with floats as the listing did.
fn float_size(size: u64) -> String {
    if size < 1024 {
        format!("{} B", size)
    } else if size < 1024 * 1024 {
        format!("{:.1} KB", size as f64 / 1024.0)
    } else if size < 1024 * 1024 * 1024 {
        format!("{:.1} MB", size as f64 / (1024.0 * 1024.0))
    } else {
        format!("{:.1} GB", size as f64 / (1024.0 * 1024.0 * 1024.0))
    }
}

#[test]
fn size_display_exact_values() {
    let show = |s: u64| entry("f", false, s, None).size_display();
    assert_eq!(show(0), "0 B");
    assert_eq!(show(1023), "1023 B");
    assert_eq!(show(1024), "1.0 KB");
    assert_eq!(show(1536), "1.5 KB");
    assert_eq!(show(1024 * 1024 - 1), "1024.0 KB");
    assert_eq!(show(5 * 1024 * 1024), "5.0 MB");
    assert_eq!(show(3 * 1024 * 1024 * 1024), "3.0 GB");
    assert_eq!(entry("d", true, 99, None).size_display(), "--");
}

#[test]
fn size_display_agrees_with_float_formatting() {
    let mut sizes: Vec<u64> = vec![1280, 1792, 1100, 2304, 10 * 1024 + 512, u64::MAX, u64::MAX - 1, (1 << 53) + 1,
        (1 << 60) + 3, 1 << 63, (1 << 30) * 5 + (1 << 29)];
    for k in 0..4000u64 {
        sizes.push(1024 + k * 7);
        sizes.push(1024 * 1024 + k * 262_147);
        sizes.push((1 << 30) + k * 26_843_549);
        sizes.push(k.wrapping_mul(0x9E37_79B9_7F4A_7C15));
    }
    for s in sizes {
        assert_eq!(entry("f", false, s, None).size_display(), float_size(s), "size {}", s);
    }
}

/// The calendar date of a day count, by the days-to-civil conversion.
fn reference_civil(days: i64) -> (i64, u32, u32) {
    let z = days + 719468;
    let era = if z >= 0 { z } else { z - 146096 } / 146097;
    let doe = (z - era * 146097) as u64;
    let yoe = (doe - doe / 1460 + doe / 36524 - doe / 146096) / 365;
    let y = yoe as i64 + era * 400;
    let doy = doe - (365 * yoe + yoe / 4 - yoe / 100);
    let mp = (5 * doy + 2) / 153;
    let d = (doy - (153 * mp + 2) / 5 + 1) as u32;
    let m = if mp < 10 { mp + 3 } else { mp - 9 } as u32;
    (if m <= 2 { y + 1 } else { y }, m, d)
}

fn reference_time(secs: u64) -> String {
    let (y, m, d) = reference_civil((secs / 86400) as i64);
    format!("{:04}-{:02}-{:02} {:02}:{:02}", y, m, d, (secs % 86400) / 3600, (secs % 3600) / 60)
}

#[test]
fn modified_display_values() {
    let show = |m: Option<(i64, u32)>| entry("f", false, 0, m).modified_display();
    assert_eq!(show(None), "--");
    assert_eq!(show(Some((-1, 0))), "Unknown");
    assert_eq!(show(Some((0, 0))), "1970-01-01 00:00");
    assert_eq!(show(Some((31_104_000, 0))), "1970-12-27 00:00");
    assert_eq!(show(Some((951_868_800, 0))), "2000-03-01 00:00");
    assert_eq!(show(Some((951_782_400 + 3600 * 23 + 60 * 59, 0))), "2000-02-29 23:59");
    assert_eq!(show(Some((1_700_000_000, 0))), "2023-11-14 22:13");
    for secs in [1u64, 59, 3600, 86399, 4_000_000_000, 253_402_300_799] {
        assert_eq!(show(Some((secs as i64, 0))), reference_time(secs));
    }
    let mut secs: u64 = 0;
    while secs < 20_000_000_000 {
        assert_eq!(show(Some((secs as i64, 0))), reference_time(secs));
        secs += 7_777_777;
    }
}

#[test]
fn parent_and_home() {
    assert_eq!(parent_dir("/home/user/docs"), Some("/home/user".to_string()));
    assert_eq!(parent_dir("/"), None);
    assert_eq!(home_dir_or_root(None), "/");
    assert_eq!(home_dir_or_root(Some("/home/me".to_string())), "/home/me");
    assert!(!home_dir().is_empty());
}

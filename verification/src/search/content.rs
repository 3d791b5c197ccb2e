//! Content search: the pattern a query becomes, which files are skipped,
//! and the collection of matches up to a limit.

use vstd::prelude::*;
use crate::path::{extension, path_extension};
use crate::text::{str_eq, to_lowercase, lowercase, trim_end, trimmed_end};

verus! {

/// A line that matched a search.
#[derive(Debug, Clone, PartialEq, Eq)]
pub struct SearchMatch {
    pub path: String,
    pub line_number: u64,
    pub line: String,
}

/// The (lowercase) extensions of binary files, which content search skips.
pub open spec fn is_binary_ext(e: Seq<char>) -> bool {
    e == "png"@
        || e == "jpg"@
        || e == "jpeg"@
        || e == "gif"@
        || e == "bmp"@
        || e == "ico"@
        || e == "webp"@
        || e == "svg"@
        || e == "mp3"@
        || e == "wav"@
        || e == "flac"@
        || e == "ogg"@
        || e == "aac"@
        || e == "mp4"@
        || e == "mkv"@
        || e == "avi"@
        || e == "mov"@
        || e == "webm"@
        || e == "zip"@
        || e == "tar"@
        || e == "gz"@
        || e == "7z"@
        || e == "rar"@
        || e == "bz2"@
        || e == "xz"@
        || e == "exe"@
        || e == "dll"@
        || e == "so"@
        || e == "dylib"@
        || e == "pdf"@
        || e == "docx"@
        || e == "pptx"@
        || e == "xlsx"@
        || e == "woff"@
        || e == "woff2"@
        || e == "ttf"@
        || e == "otf"@
        || e == "eot"@
        || e == "sqlite"@
        || e == "db"@
}

fn binary_ext(e: &str) -> (r: bool)
    ensures
        r == is_binary_ext(e@),
{
    str_eq(e, "png")
        || str_eq(e, "jpg")
        || str_eq(e, "jpeg")
        || str_eq(e, "gif")
        || str_eq(e, "bmp")
        || str_eq(e, "ico")
        || str_eq(e, "webp")
        || str_eq(e, "svg")
        || str_eq(e, "mp3")
        || str_eq(e, "wav")
        || str_eq(e, "flac")
        || str_eq(e, "ogg")
        || str_eq(e, "aac")
        || str_eq(e, "mp4")
        || str_eq(e, "mkv")
        || str_eq(e, "avi")
        || str_eq(e, "mov")
        || str_eq(e, "webm")
        || str_eq(e, "zip")
        || str_eq(e, "tar")
        || str_eq(e, "gz")
        || str_eq(e, "7z")
        || str_eq(e, "rar")
        || str_eq(e, "bz2")
        || str_eq(e, "xz")
        || str_eq(e, "exe")
        || str_eq(e, "dll")
        || str_eq(e, "so")
        || str_eq(e, "dylib")
        || str_eq(e, "pdf")
        || str_eq(e, "docx")
        || str_eq(e, "pptx")
        || str_eq(e, "xlsx")
        || str_eq(e, "woff")
        || str_eq(e, "woff2")
        || str_eq(e, "ttf")
        || str_eq(e, "otf")
        || str_eq(e, "eot")
        || str_eq(e, "sqlite")
        || str_eq(e, "db")
}

/// Whether the path has the extension of a binary file (in any case).
pub fn is_binary_extension(path: &str) -> (r: bool)
    ensures
        r == (match path_extension(path@) {
            Some(e) => is_binary_ext(lowercase(e)),
            None => false,
        }),
{
    match extension(path) {
        Some(e) => {
            let l = to_lowercase(e.as_str());
            binary_ext(l.as_str())
        },
        None => false,
    }
}

/// Content search passes over a file exactly when its lowercase extension
/// is in the fixed list of binary formats below; a file with any other
/// extension (`md`, `txt` or `rs`, say) is searched.
pub proof fn lemma_binary_extension_list(e: Seq<char>)
    ensures
        is_binary_ext(e) <==> set![
            "png"@, "jpg"@, "jpeg"@, "gif"@, "bmp"@, "ico"@, "webp"@, "svg"@,
            "mp3"@, "wav"@, "flac"@, "ogg"@, "aac"@,
            "mp4"@, "mkv"@, "avi"@, "mov"@, "webm"@,
            "zip"@, "tar"@, "gz"@, "7z"@, "rar"@, "bz2"@, "xz"@,
            "exe"@, "dll"@, "so"@, "dylib"@,
            "pdf"@, "docx"@, "pptx"@, "xlsx"@,
            "woff"@, "woff2"@, "ttf"@, "otf"@, "eot"@,
            "sqlite"@, "db"@,
        ].contains(e),
{
}

/// The characters that `regex::escape` puts a backslash before.
pub open spec fn is_regex_meta(c: char) -> bool {
    c == '\\' || c == '.' || c == '+' || c == '*' || c == '?' || c == '(' || c == ')' || c == '|'
        || c == '[' || c == ']' || c == '{' || c == '}' || c == '^' || c == '$' || c == '#' || c == '&'
        || c == '-' || c == '~'
}

/// `s` with a backslash before each regex meta character.
pub open spec fn regex_escaped(s: Seq<char>) -> Seq<char>
    decreases s.len(),
{
    if s.len() == 0 {
        Seq::empty()
    } else if is_regex_meta(s.last()) {
        regex_escaped(s.drop_last()) + seq!['\\', s.last()]
    } else {
        regex_escaped(s.drop_last()) + seq![s.last()]
    }
}

/// Calls `regex::escape`, which puts a backslash before each of the
/// characters `\ . + * ? ( ) | [ ] { } ^ $ # & - ~` and keeps the others.
#[verifier::external_body]
fn regex_escape(s: &str) -> (r: String)
    ensures
        r@ == regex_escaped(s@),
{
    regex::escape(s)
}

/// The pattern a content search uses for a query: none for an empty query,
/// else the query as a case-insensitive literal.
pub fn content_pattern(query: &str) -> (r: Option<String>)
    ensures
        query@.len() == 0 ==> r is None,
        query@.len() > 0 ==> crate::path::opt_view(r) == Some("(?i)"@ + regex_escaped(query@)),
{
    if query.unicode_len() == 0 {
        return None;
    }
    let escaped = regex_escape(query);
    let mut p = String::from_str("(?i)");
    p.append(escaped.as_str());
    Some(p)
}

/// The matches of a content search so far, with the limit on their number
/// (0 for none).
pub struct ContentResults {
    matches: Vec<SearchMatch>,
    limit: usize,
}

impl ContentResults {
    #[verifier::type_invariant]
    spec fn inv(self) -> bool {
        self.limit > 0 ==> self.matches@.len() <= self.limit
    }

    /// The matches found so far.
    pub closed spec fn found(&self) -> Seq<SearchMatch> {
        self.matches@
    }

    /// The limit on the number of matches; 0 means none.
    pub closed spec fn max(&self) -> usize {
        self.limit
    }

    /// Whether the limit has been reached.
    pub open spec fn full(&self) -> bool {
        self.max() > 0 && self.found().len() >= self.max()
    }

    /// No matches yet, with the given limit.
    pub fn new(limit: usize) -> (r: ContentResults)
        ensures
            r.found() == Seq::<SearchMatch>::empty(),
            r.max() == limit,
    {
        ContentResults { matches: Vec::new(), limit }
    }

    /// Whether the limit has been reached, so that the search stops.
    pub fn is_full(&self) -> (r: bool)
        ensures
            r == self.full(),
    {
        self.limit > 0 && self.matches.len() >= self.limit
    }

    /// What the walk does with the next path it meets: stop once the
    /// limit is reached, pass over what is not a file or has the extension
    /// of a binary file, and search the rest.
    pub fn file_step(&self, is_file: bool, path: &str) -> (r: FileStep)
        ensures
            r == (if self.full() {
                FileStep::Stop
            } else if !is_file {
                FileStep::Skip
            } else if (match path_extension(path@) {
                Some(e) => is_binary_ext(lowercase(e)),
                None => false,
            }) {
                FileStep::Skip
            } else {
                FileStep::Search
            }),
    {
        if self.is_full() {
            FileStep::Stop
        } else if !is_file {
            FileStep::Skip
        } else if is_binary_extension(path) {
            FileStep::Skip
        } else {
            FileStep::Search
        }
    }

    /// Records a matching line (its trailing whitespace trimmed) and tells
    /// whether the search of the file goes on.
    pub fn record(&mut self, path: &str, line_number: u64, line: &str) -> (r: bool)
        requires
            !old(self).full(),
        ensures
            final(self).max() == old(self).max(),
            final(self).found().len() == old(self).found().len() + 1,
            final(self).found().take(old(self).found().len() as int) == old(self).found(),
            final(self).found().last().path@ == path@,
            final(self).found().last().line_number == line_number,
            final(self).found().last().line@ == trimmed_end(line@),
            r == !final(self).full(),
    {
        proof {
            use_type_invariant(&*self);
        }
        let m = SearchMatch { path: String::from_str(path), line_number, line: trim_end(line) };
        let mut taken = ContentResults { matches: Vec::new(), limit: self.limit };
        std::mem::swap(self, &mut taken);
        proof {
            use_type_invariant(&taken);
        }
        let ContentResults { mut matches, limit } = taken;
        let ghost before = matches@;
        matches.push(m);
        assert(matches@.take(before.len() as int) =~= before);
        *self = ContentResults { matches, limit };
        !self.is_full()
    }

    /// The matches, never more than the limit when there is one.
    pub fn into_matches(self) -> (r: Vec<SearchMatch>)
        ensures
            r@ == self.found(),
            self.max() > 0 ==> r@.len() <= self.max(),
    {
        proof {
            use_type_invariant(&self);
        }
        self.matches
    }
}


/// What the content search does with a path of the walk.
#[derive(Debug, Clone, Copy, PartialEq, Eq, Structural)]
pub enum FileStep {
    /// The limit is reached: the walk ends.
    Stop,
    /// The path is passed over.
    Skip,
    /// The file is searched.
    Search,
}

/// The matches a search keeps when the matches of the whole walk, `stream`,
/// are offered in order and no more are taken once the limit is reached
/// (0 for no limit).
pub open spec fn kept_matches(limit: nat, stream: Seq<SearchMatch>) -> Seq<SearchMatch>
    decreases stream.len(),
{
    if stream.len() == 0 {
        Seq::empty()
    } else {
        let prev = kept_matches(limit, stream.drop_last());
        if limit > 0 && prev.len() >= limit {
            prev
        } else {
            prev.push(stream.last())
        }
    }
}

/// A limited search keeps the first `limit` matches of the unlimited one,
/// in order; without a limit it keeps them all.
pub proof fn lemma_limit_keeps_prefix(limit: nat, stream: Seq<SearchMatch>)
    ensures
        kept_matches(limit, stream) == (if limit == 0 || stream.len() <= limit {
            stream
        } else {
            stream.take(limit as int)
        }),
    decreases stream.len(),
{
    if stream.len() > 0 {
        let init = stream.drop_last();
        lemma_limit_keeps_prefix(limit, init);
        if limit == 0 || stream.len() <= limit {
            assert(init.push(stream.last()) =~= stream);
        } else if init.len() <= limit {
            assert(init.len() == limit);
            assert(init =~= stream.take(limit as int));
        } else {
            assert(init.take(limit as int) =~= stream.take(limit as int));
        }
    }
}

/// Recording a match offered while the limit is not reached keeps what
/// `kept_matches` describes.
pub proof fn lemma_record_follows_stream(
    before: ContentResults,
    after: ContentResults,
    stream: Seq<SearchMatch>,
)
    requires
        before.found() == kept_matches(before.max() as nat, stream),
        !before.full(),
        after.max() == before.max(),
        after.found().len() == before.found().len() + 1,
        after.found().take(before.found().len() as int) == before.found(),
    ensures
        after.found() == kept_matches(after.max() as nat, stream.push(after.found().last())),
{
    let m = after.found().last();
    assert(stream.push(m).drop_last() =~= stream);
    assert(after.found() =~= before.found().push(m));
}

/// A match offered once the limit is reached is not kept.
pub proof fn lemma_full_skips(results: ContentResults, stream: Seq<SearchMatch>, m: SearchMatch)
    requires
        results.found() == kept_matches(results.max() as nat, stream),
        results.full(),
    ensures
        results.found() == kept_matches(results.max() as nat, stream.push(m)),
{
    assert(stream.push(m).drop_last() =~= stream);
}

} // verus!

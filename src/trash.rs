//! Naming inside the trash directory and the text of its info records. The
//! host moves the files and reads and writes the records.
use vstd::prelude::*;
use vstd::string::*;
use crate::error::Error;
use crate::fs::FileTime;
use crate::fs::ops::{contains_name, names_of};
use crate::path::{join, join_of, last_dot};
use crate::text::{decimal, decimal_of};

verus! {

/// The highest counter a trash name may carry, less one.
pub const MAX_TRASH_COUNTER: u64 = 9999;

/// `<stem>.<n><ext>`, where the extension keeps its dot and is taken from
/// the last dot of the name, wherever it stands.
pub open spec fn trash_candidate(base: Seq<char>, n: nat) -> Seq<char> {
    let d = last_dot(base);
    if d >= 0 {
        base.subrange(0, d) + seq!['.'] + decimal_of(n) + base.subrange(d, base.len() as int)
    } else {
        base + seq!['.'] + decimal_of(n)
    }
}

/// The first free trash name, counting from `n`.
pub open spec fn trash_free_from(base: Seq<char>, taken: Seq<Seq<char>>, n: nat) -> Option<
    Seq<char>,
>
    decreases 10000 - n,
{
    if n >= 9999 {
        None
    } else if !taken.contains(trash_candidate(base, n)) {
        Some(trash_candidate(base, n))
    } else {
        trash_free_from(base, taken, n + 1)
    }
}

/// The name under which `base` enters the trash: itself when free, else the
/// first free numbered variant.
pub open spec fn trash_name_of(base: Seq<char>, taken: Seq<Seq<char>>) -> Option<Seq<char>> {
    if !taken.contains(base) {
        Some(base)
    } else {
        trash_free_from(base, taken, 1)
    }
}

/// The trash directories.
pub struct Trash {
    trash_dir: String,
    files_dir: String,
    info_dir: String,
}

/// One item in the trash.
#[derive(Clone, Debug)]
pub struct TrashItem {
    pub trash_name: String,
    pub original_path: String,
    pub deletion_date: FileTime,
    pub size: u64,
}

impl Trash {
    pub closed spec fn spec_files_dir(&self) -> Seq<char> {
        self.files_dir@
    }

    pub closed spec fn spec_info_dir(&self) -> Seq<char> {
        self.info_dir@
    }

    pub closed spec fn spec_trash_dir(&self) -> Seq<char> {
        self.trash_dir@
    }

    /// The trash under the user's data directory `data_home`.
    pub fn new(data_home: &str) -> (r: Trash)
        ensures
            r.spec_trash_dir() == join_of(data_home@, "Trash"@),
            r.spec_files_dir() == join_of(join_of(data_home@, "Trash"@), "files"@),
            r.spec_info_dir() == join_of(join_of(data_home@, "Trash"@), "info"@),
    {
        let trash_dir = join(data_home, "Trash");
        let files_dir = join(trash_dir.as_str(), "files");
        let info_dir = join(trash_dir.as_str(), "info");
        Trash { trash_dir, files_dir, info_dir }
    }

    pub fn trash_dir(&self) -> (r: &str)
        ensures
            r@ == self.spec_trash_dir(),
    {
        self.trash_dir.as_str()
    }

    pub fn files_dir(&self) -> (r: &str)
        ensures
            r@ == self.spec_files_dir(),
    {
        self.files_dir.as_str()
    }

    pub fn info_dir(&self) -> (r: &str)
        ensures
            r@ == self.spec_info_dir(),
    {
        self.info_dir.as_str()
    }

    /// A name for `base_name` that is not among `existing`, the names in the
    /// trash's files directory.
    pub fn find_unique_trash_name(&self, base_name: &str, existing: &Vec<String>) -> (r: Result<
        String,
        Error,
    >)
        ensures
            r matches Ok(s) ==> trash_name_of(base_name@, names_of(existing@)) == Some(s@),
            r matches Err(e) ==> e is TrashError && trash_name_of(
                base_name@,
                names_of(existing@),
            ) is None,
    {
        let ghost taken = names_of(existing@);
        if !contains_name(existing, base_name) {
            return Ok(base_name.to_owned());
        }
        let n = base_name.unicode_len();
        let mut k = n;
        assert(base_name@.subrange(0, n as int) =~= base_name@);
        while k > 0 && base_name.get_char(k - 1) != '.'
            invariant
                k <= n,
                n == base_name@.len(),
                last_dot(base_name@) == last_dot(base_name@.subrange(0, k as int)),
            decreases k,
        {
            assert(base_name@.subrange(0, k as int).drop_last() =~= base_name@.subrange(
                0,
                k - 1,
            ));
            k = k - 1;
        }
        proof {
            reveal_strlit(".");
            if k > 0 {
                assert(last_dot(base_name@) == k - 1);
            } else {
                assert(last_dot(base_name@.subrange(0, 0)) == -1);
            }
        }
        let mut counter: u64 = 1;
        loop
            invariant
                1 <= counter <= 9998,
                taken == names_of(existing@),
                taken.contains(base_name@),
                k <= n,
                n == base_name@.len(),
                k > 0 ==> last_dot(base_name@) == k - 1,
                k == 0 ==> last_dot(base_name@) == -1,
                trash_free_from(base_name@, taken, 1) == trash_free_from(
                    base_name@,
                    taken,
                    counter as nat,
                ),
            decreases 10000 - counter,
        {
            proof {
                reveal_strlit(".");
            }
            let mut cand: String;
            if k > 0 {
                cand = base_name.substring_char(0, k - 1).to_owned();
                cand.append(".");
                cand.append(decimal(counter).as_str());
                cand.append(base_name.substring_char(k - 1, n));
            } else {
                cand = base_name.to_owned();
                cand.append(".");
                cand.append(decimal(counter).as_str());
            }
            assert(cand@ =~= trash_candidate(base_name@, counter as nat));
            if !contains_name(existing, cand.as_str()) {
                return Ok(cand);
            }
            counter = counter + 1;
            if counter >= MAX_TRASH_COUNTER {
                return Err(
                    Error::TrashError(String::from_str("Too many files with same name in trash")),
                );
            }
        }
    }
}

/// The text of an info record.
pub open spec fn trash_info_of(original_path: Seq<char>, deletion_date: Seq<char>) -> Seq<char> {
    "[Trash Info]\nPath="@ + original_path + "\nDeletionDate="@ + deletion_date + "\n"@
}

/// The info record of an item: its original path and the deletion date
/// text, `YYYY-MM-DDTHH:MM:SS`.
pub fn trash_info_text(original_path: &str, deletion_date: &str) -> (r: String)
    ensures
        r@ == trash_info_of(original_path@, deletion_date@),
{
    let mut s = String::from_str("[Trash Info]\nPath=");
    s.append(original_path);
    s.append("\nDeletionDate=");
    s.append(deletion_date);
    s.append("\n");
    s
}

/// Index of the first line feed from `i` on, or the length.
pub open spec fn line_end(s: Seq<char>, i: int) -> int
    decreases s.len() - i,
{
    if i < 0 || i >= s.len() {
        s.len() as int
    } else if s[i] == '\n' {
        i
    } else {
        line_end(s, i + 1)
    }
}

/// The line from `start` to `end`, without the carriage return that ends
/// it when a line feed follows.
pub open spec fn line_text(s: Seq<char>, start: int, end: int) -> Seq<char> {
    if end < s.len() && end > start && s[end - 1] == '\r' {
        s.subrange(start, end - 1)
    } else {
        s.subrange(start, end)
    }
}

/// The text after `key` on the first line, from `start` on, that begins
/// with `key`.
pub open spec fn field_from(s: Seq<char>, key: Seq<char>, start: int) -> Option<Seq<char>>
    decreases s.len() - start,
{
    if start < 0 || start >= s.len() || line_end(s, start) < start {
        None
    } else {
        let line = line_text(s, start, line_end(s, start));
        if key.len() <= line.len() && line.subrange(0, key.len() as int) == key {
            Some(line.subrange(key.len() as int, line.len() as int))
        } else if line_end(s, start) >= s.len() {
            None
        } else {
            field_from(s, key, line_end(s, start) + 1)
        }
    }
}

proof fn lemma_line_end(s: Seq<char>, i: int)
    requires
        0 <= i <= s.len(),
    ensures
        i <= line_end(s, i) <= s.len(),
        line_end(s, i) < s.len() ==> s[line_end(s, i)] == '\n',
    decreases s.len() - i,
{
    if i < s.len() && s[i] != '\n' {
        lemma_line_end(s, i + 1);
    }
}

/// Whether the characters of `s` from `start` begin with `key`.
fn has_prefix_at(s: &str, start: usize, end: usize, key: &str) -> (r: bool)
    requires
        start <= end <= s@.len(),
    ensures
        r == (key@.len() <= end - start && s@.subrange(start as int, start + key@.len())
            == key@),
{
    let m = key.unicode_len();
    if m > end - start {
        return false;
    }
    let mut j: usize = 0;
    while j < m
        invariant
            j <= m,
            m == key@.len(),
            start + m <= end <= s@.len(),
            s@.subrange(start as int, start + j) == key@.subrange(0, j as int),
        decreases m - j,
    {
        if s.get_char(start + j) != key.get_char(j) {
            assert(s@.subrange(start as int, start + m)[j as int] != key@[j as int]);
            return false;
        }
        assert(s@.subrange(start as int, start + j + 1) =~= s@.subrange(start as int, start + j).push(
            s@[start + j],
        ));
        assert(key@.subrange(0, j + 1) =~= key@.subrange(0, j as int).push(key@[j as int]));
        j = j + 1;
    }
    assert(key@.subrange(0, m as int) =~= key@);
    true
}

/// Reads one field of an info record: the text after `key` on the first
/// line that begins with it.
pub fn info_field(content: &str, key: &str) -> (r: Option<String>)
    ensures
        r matches Some(v) ==> field_from(content@, key@, 0) == Some(v@),
        r is None ==> field_from(content@, key@, 0) is None,
{
    let n = content.unicode_len();
    let mut start: usize = 0;
    while start < n
        invariant
            start <= n,
            n == content@.len(),
            field_from(content@, key@, 0) == field_from(content@, key@, start as int),
        decreases n - start,
    {
        let mut end = start;
        proof {
            lemma_line_end(content@, start as int);
        }
        while end < n && content.get_char(end) != '\n'
            invariant
                start <= end <= n,
                n == content@.len(),
                line_end(content@, start as int) == line_end(content@, end as int),
            decreases n - end,
        {
            end = end + 1;
        }
        let stop = if end < n && end > start && content.get_char(end - 1) == '\r' {
            end - 1
        } else {
            end
        };
        let ghost line = line_text(content@, start as int, end as int);
        assert(line =~= content@.subrange(start as int, stop as int));
        if has_prefix_at(content, start, stop, key) {
            let m = key.unicode_len();
            assert(line.subrange(0, m as int) =~= content@.subrange(start as int, start + m));
            assert(line.subrange(m as int, line.len() as int) =~= content@.subrange(
                start + m,
                stop as int,
            ));
            return Some(content.substring_char(start + m, stop).to_owned());
        }
        assert(!(key@.len() <= line.len() && line.subrange(0, key@.len() as int) == key@)) by {
            if key@.len() <= line.len() && line.subrange(0, key@.len() as int) == key@ {
                assert(line.subrange(0, key@.len() as int) =~= content@.subrange(
                    start as int,
                    start + key@.len(),
                ));
            }
        }
        if end >= n {
            return None;
        }
        start = end + 1;
    }
    None
}

/// The original path recorded in an info record.
pub fn read_trash_path(content: &str) -> (r: Result<String, Error>)
    ensures
        r matches Ok(p) ==> field_from(content@, "Path="@, 0) == Some(p@),
        r is Err <==> field_from(content@, "Path="@, 0) is None,
        r matches Err(e) ==> e is TrashError,
{
    match info_field(content, "Path=") {
        Some(p) => Ok(p),
        None => Err(Error::TrashError(String::from_str("Invalid trash info format"))),
    }
}

} // verus!

//! Extended metadata and its human-readable renderings.
use vstd::prelude::*;
use vstd::string::*;
use std::collections::HashMap;
use crate::fs::{DirEntry, FileTime};
use crate::text::{decimal, decimal_of, digit_char, digit_of, push_char};

verus! {

broadcast use vstd::std_specs::hash::group_hash_axioms;

/// An entry with its owner, group, link target, MIME type and access flags.
#[derive(Clone, Debug)]
pub struct ExtendedMetadata {
    pub entry: DirEntry,
    pub owner: String,
    pub group: String,
    pub link_target: Option<String>,
    pub mime_type: String,
    pub is_executable: bool,
    pub is_readable: bool,
    pub is_writable: bool,
}

/// Whether any execute bit is set in a permission mode.
pub fn is_executable(mode: u32) -> (r: bool)
    ensures
        r == (mode & 0o111u32 != 0),
{
    mode & 0o111 != 0
}

/// 1024 to the power `k`.
pub open spec fn pow1024(k: nat) -> nat
    decreases k,
{
    if k == 0 {
        1
    } else {
        1024 * pow1024((k - 1) as nat)
    }
}

/// The largest unit, from `k` up to petabytes, that `b` reaches.
pub open spec fn unit_index(b: nat, k: nat) -> nat
    decreases 5 - k,
{
    if k < 5 && b >= pow1024(k + 1) {
        unit_index(b, k + 1)
    } else {
        k
    }
}

pub open spec fn unit_name(k: nat) -> Seq<char> {
    if k == 0 {
        seq!['B']
    } else if k == 1 {
        seq!['K', 'B']
    } else if k == 2 {
        seq!['M', 'B']
    } else if k == 3 {
        seq!['G', 'B']
    } else if k == 4 {
        seq!['T', 'B']
    } else {
        seq!['P', 'B']
    }
}

/// `b / d` in hundredths, rounded to nearest, ties to even.
pub open spec fn hundredths(b: nat, d: nat) -> nat {
    let q = b * 100 / d;
    let r = b * 100 % d;
    if 2 * r > d || (2 * r == d && q % 2 == 1) {
        q + 1
    } else {
        q
    }
}

/// A byte count in the largest binary unit it reaches: whole bytes as an
/// integer, larger units with two decimals.
pub open spec fn format_bytes_of(b: nat) -> Seq<char> {
    let k = unit_index(b, 0);
    if k == 0 {
        decimal_of(b) + seq![' ', 'B']
    } else {
        let h = hundredths(b, pow1024(k));
        decimal_of(h / 100) + seq!['.', digit_of((h % 100) / 10), digit_of(h % 10), ' ']
            + unit_name(k)
    }
}

/// The permission character for one bit.
pub open spec fn flag(mode: u32, bit: u32, c: char) -> char {
    if mode & bit != 0 {
        c
    } else {
        '-'
    }
}

/// `rwxrwxrwx`, with `-` for each bit that is clear: owner, group, others.
pub open spec fn permission_text(mode: u32) -> Seq<char> {
    seq![
        flag(mode, 0o400u32, 'r'),
        flag(mode, 0o200u32, 'w'),
        flag(mode, 0o100u32, 'x'),
        flag(mode, 0o040u32, 'r'),
        flag(mode, 0o020u32, 'w'),
        flag(mode, 0o010u32, 'x'),
        flag(mode, 0o004u32, 'r'),
        flag(mode, 0o002u32, 'w'),
        flag(mode, 0o001u32, 'x'),
    ]
}

fn unit_str(k: u64) -> (r: &'static str)
    requires
        k <= 5,
    ensures
        r@ == unit_name(k as nat),
{
    proof {
        reveal_strlit("B");
        reveal_strlit("KB");
        reveal_strlit("MB");
        reveal_strlit("GB");
        reveal_strlit("TB");
        reveal_strlit("PB");
    }
    if k == 0 {
        "B"
    } else if k == 1 {
        "KB"
    } else if k == 2 {
        "MB"
    } else if k == 3 {
        "GB"
    } else if k == 4 {
        "TB"
    } else {
        "PB"
    }
}

/// Renders a byte count: `0 B`, `512 B`, `1.00 KB`, `1.50 MB`, ...
pub fn format_bytes(bytes: u64) -> (r: String)
    ensures
        r@ == format_bytes_of(bytes as nat),
{
    let b = bytes as u128;
    let mut k: u64 = 0;
    let mut d: u128 = 1;
    proof {
        lemma_pow_five();
        lemma_pow_grows(0, 5);
    }
    while k < 5 && b >= d * 1024
        invariant
            k <= 5,
            d >= 1,
            pow1024(5) == 1125899906842624,
            d == pow1024(k as nat),
            d <= pow1024(5),
            unit_index(b as nat, 0) == unit_index(b as nat, k as nat),
            k > 0 ==> b >= d,
        decreases 5 - k,
    {
        assert(pow1024((k + 1) as nat) == 1024 * pow1024(k as nat));
        proof {
            lemma_pow_bound(k as nat);
            lemma_pow_five();
        }
        d = d * 1024;
        k = k + 1;
    }
    proof {
        reveal_strlit(" ");
        reveal_strlit(".");
    }
    if k == 0 {
        let mut s = decimal(bytes);
        s.append(" ");
        s.append(unit_str(0));
        assert(s@ =~= format_bytes_of(bytes as nat));
        return s;
    }
    let scaled = b * 100;
    let q = scaled / d;
    let rem = scaled % d;
    let h = if 2 * rem > d || (2 * rem == d && q % 2 == 1) {
        q + 1
    } else {
        q
    };
    assert(h == hundredths(b as nat, d as nat));
    assert(d >= 1024) by {
        assert(pow1024(1) == 1024);
        lemma_pow_grows(1, k as nat);
    }
    assert(q <= b) by (nonlinear_arith)
        requires
            q == scaled / d,
            scaled == b * 100,
            d >= 1024,
    ;
    let whole = (h / 100) as u64;
    let frac = (h % 100) as u64;
    let mut s = decimal(whole);
    s.append(".");
    push_char(&mut s, digit_char(frac / 10));
    push_char(&mut s, digit_char(frac % 10));
    s.append(" ");
    s.append(unit_str(k));
    assert(s@ =~= format_bytes_of(bytes as nat));
    s
}

proof fn lemma_pow_bound(k: nat)
    requires
        k < 5,
    ensures
        pow1024(k + 1) <= pow1024(5),
{
    lemma_pow_grows(k + 1, 5);
}

proof fn lemma_pow_five()
    ensures
        pow1024(5) == 1125899906842624,
{
    assert(pow1024(0) == 1);
    assert(pow1024(1) == 1024);
    assert(pow1024(2) == 1048576);
    assert(pow1024(3) == 1073741824);
    assert(pow1024(4) == 1099511627776);
}

proof fn lemma_pow_grows(a: nat, b: nat)
    requires
        a <= b,
    ensures
        pow1024(a) <= pow1024(b),
    decreases b - a,
{
    if a < b {
        lemma_pow_grows(a, (b - 1) as nat);
        assert(pow1024(b) == 1024 * pow1024((b - 1) as nat));
    }
}

fn flag_char(mode: u32, bit: u32, c: char) -> (r: char)
    ensures
        r == flag(mode, bit, c),
{
    if mode & bit != 0 {
        c
    } else {
        '-'
    }
}

/// Renders a permission mode as `rwxr-xr-x`.
pub fn format_permissions(mode: u32) -> (r: String)
    ensures
        r@ == permission_text(mode),
{
    let mut s = String::new();
    push_char(&mut s, flag_char(mode, 0o400, 'r'));
    push_char(&mut s, flag_char(mode, 0o200, 'w'));
    push_char(&mut s, flag_char(mode, 0o100, 'x'));
    push_char(&mut s, flag_char(mode, 0o040, 'r'));
    push_char(&mut s, flag_char(mode, 0o020, 'w'));
    push_char(&mut s, flag_char(mode, 0o010, 'x'));
    push_char(&mut s, flag_char(mode, 0o004, 'r'));
    push_char(&mut s, flag_char(mode, 0o002, 'w'));
    push_char(&mut s, flag_char(mode, 0o001, 'x'));
    assert(s@ =~= permission_text(mode));
    s
}

/// Relies on chrono's DateTime::from_timestamp and its strftime formatting
/// in the machine's local time zone: `None` when the instant lies outside
/// chrono's calendar. The text depends on the time zone, so nothing is
/// stated of it.
#[verifier::external_body]
fn local_time_text(secs: i64, nanos: u32) -> Option<String> {
    chrono::DateTime::from_timestamp(secs, nanos)
        .map(|d| d.with_timezone(&chrono::Local).format("%Y-%m-%d %H:%M:%S").to_string())
}

/// Renders an instant as `YYYY-MM-DD HH:MM:SS` in local time; an instant
/// outside the calendar renders as the empty text.
pub fn format_time(time: FileTime) -> String {
    match local_time_text(time.secs, time.nanos) {
        Some(s) => s,
        None => String::new(),
    }
}

impl ExtendedMetadata {
    pub fn format_size(&self) -> (r: String)
        ensures
            r@ == format_bytes_of(self.entry.size as nat),
    {
        format_bytes(self.entry.size)
    }

    pub fn format_permissions(&self) -> (r: String)
        ensures
            r@ == permission_text(self.entry.permissions),
    {
        format_permissions(self.entry.permissions)
    }

    pub fn format_modified(&self) -> String {
        format_time(self.entry.modified)
    }

    /// A copy equal to this record in every field.
    pub fn duplicate(&self) -> (r: ExtendedMetadata)
        ensures
            r == *self,
    {
        ExtendedMetadata {
            entry: self.entry.duplicate(),
            owner: self.owner.clone(),
            group: self.group.clone(),
            link_target: match &self.link_target {
                Some(t) => Some(t.clone()),
                None => None,
            },
            mime_type: self.mime_type.clone(),
            is_executable: self.is_executable,
            is_readable: self.is_readable,
            is_writable: self.is_writable,
        }
    }
}

/// Extended metadata gathered so far, keyed by file identity.
pub struct MetadataCollector {
    cache: HashMap<u64, ExtendedMetadata>,
}

impl View for MetadataCollector {
    type V = Map<u64, ExtendedMetadata>;

    closed spec fn view(&self) -> Map<u64, ExtendedMetadata> {
        self.cache@
    }
}

impl MetadataCollector {
    pub fn new() -> (r: MetadataCollector)
        ensures
            r@ == Map::<u64, ExtendedMetadata>::empty(),
    {
        MetadataCollector { cache: HashMap::new() }
    }

    /// Keeps `metadata` under its inode, replacing an earlier record, and
    /// hands it back.
    pub fn collect(&mut self, metadata: ExtendedMetadata) -> (r: ExtendedMetadata)
        ensures
            final(self)@ == old(self)@.insert(metadata.entry.inode, metadata),
            r == metadata,
    {
        let kept = metadata.duplicate();
        self.cache.insert(metadata.entry.inode, kept);
        metadata
    }

    pub fn get(&self, inode: u64) -> (r: Option<&ExtendedMetadata>)
        ensures
            r matches Some(m) ==> self@.contains_key(inode) && *m == self@[inode],
            r is None ==> !self@.contains_key(inode),
    {
        self.cache.get(&inode)
    }

    pub fn clear(&mut self)
        ensures
            final(self)@ == Map::<u64, ExtendedMetadata>::empty(),
    {
        self.cache.clear();
    }

    pub fn len(&self) -> (r: usize)
        ensures
            r == self@.len(),
    {
        self.cache.len()
    }

    pub fn is_empty(&self) -> (r: bool)
        ensures
            r == (self@.len() == 0),
    {
        self.cache.len() == 0
    }
}

impl Default for MetadataCollector {
    fn default() -> (r: MetadataCollector)
        ensures
            r@ == Map::<u64, ExtendedMetadata>::empty(),
    {
        MetadataCollector::new()
    }
}

} // verus!

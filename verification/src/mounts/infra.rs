//! The system mount table (`/proc/self/mountinfo`) and the process's
//! capability set (`/proc/self/status`), parsed from their text.
//!
//! Reading those files and calling `mount(2)` / `umount(2)` happen outside
//! the library; everything that decides what the text means is here.
use vstd::prelude::*;

use crate::shared::error::{Error, InfraMountError};
use crate::shared::paths::{paths_equal, same_path};
use crate::shared::text::{
    append_str, chars_of, decimal, decode_utf8_bytes, field_ranges, has_prefix, line_ranges,
    parse_u64_range, parse_u64_spec, push_decimal, push_utf8_char, starts_with_str,
    string_from_range, text_lines, utf8_error_text, whitespace_fields, IntParseError,
};

verus! {

// ---------------------------------------------------------------------------
// Entries
// ---------------------------------------------------------------------------

/// A parsed entry from the system mount table (`/proc/self/mountinfo` on Linux).
#[derive(Debug)]
pub struct MountEntry {
    pub mount_id: u64,
    /// The source path we prefer to show in status and error messages.
    pub preferred_source: String,
    /// Every path we can resolve to this mount's source, including `preferred_source`.
    pub source_aliases: Vec<String>,
    pub mount_point: String,
    pub filesystem_type: String,
}

pub struct MountEntryView {
    pub mount_id: u64,
    pub preferred_source: Seq<char>,
    pub source_aliases: Seq<Seq<char>>,
    pub mount_point: Seq<char>,
    pub filesystem_type: Seq<char>,
}

/// The texts of a list of strings.
pub open spec fn string_views(v: Seq<String>) -> Seq<Seq<char>> {
    v.map_values(|s: String| s@)
}

impl View for MountEntry {
    type V = MountEntryView;

    open spec fn view(&self) -> MountEntryView {
        MountEntryView {
            mount_id: self.mount_id,
            preferred_source: self.preferred_source@,
            source_aliases: string_views(self.source_aliases@),
            mount_point: self.mount_point@,
            filesystem_type: self.filesystem_type@,
        }
    }
}

/// The views of a list of mount entries.
pub open spec fn entry_views(v: Seq<MountEntry>) -> Seq<MountEntryView> {
    v.map_values(|e: MountEntry| e@)
}

/// A copy of a list of strings.
pub fn clone_strings(v: &Vec<String>) -> (r: Vec<String>)
    ensures
        string_views(r@) == string_views(v@),
{
    let mut r: Vec<String> = Vec::new();
    let mut i: usize = 0;
    while i < v.len()
        invariant
            i <= v.len(),
            r@.len() == i,
            forall|j: int| 0 <= j < i ==> #[trigger] r@[j]@ == v@[j]@,
        decreases v.len() - i,
    {
        r.push(v[i].clone());
        i = i + 1;
    }
    proof {
        assert(string_views(r@) =~= string_views(v@));
    }
    r
}

impl Clone for MountEntry {
    fn clone(&self) -> (r: Self)
        ensures
            r@ == self@,
    {
        MountEntry {
            mount_id: self.mount_id,
            preferred_source: self.preferred_source.clone(),
            source_aliases: clone_strings(&self.source_aliases),
            mount_point: self.mount_point.clone(),
            filesystem_type: self.filesystem_type.clone(),
        }
    }
}

/// `source` is, as a path, the entry's preferred source or one of its
/// aliases.
pub open spec fn entry_matches_source(e: MountEntryView, source: Seq<char>) -> bool {
    same_path(e.preferred_source, source) || exists|j: int|
        0 <= j < e.source_aliases.len() && same_path(#[trigger] e.source_aliases[j], source)
}

impl MountEntry {
    /// Whether `source` names this mount's source.
    pub fn matches_source(&self, source: &str) -> (r: bool)
        ensures
            r == entry_matches_source(self@, source@),
    {
        if paths_equal(self.preferred_source.as_str(), source) {
            return true;
        }
        let mut i: usize = 0;
        while i < self.source_aliases.len()
            invariant
                i <= self.source_aliases.len(),
                forall|j: int| 0 <= j < i ==> !same_path(#[trigger] self.source_aliases@[j]@, source@),
            decreases self.source_aliases.len() - i,
        {
            if paths_equal(self.source_aliases[i].as_str(), source) {
                proof {
                    assert(string_views(self.source_aliases@)[i as int] == self.source_aliases@[i as int]@);
                    assert(same_path(self@.source_aliases[i as int], source@));
                }
                return true;
            }
            i = i + 1;
        }
        proof {
            assert forall|j: int| 0 <= j < string_views(self.source_aliases@).len() implies !same_path(
                #[trigger] string_views(self.source_aliases@)[j],
                source@,
            ) by {
                assert(string_views(self.source_aliases@)[j] == self.source_aliases@[j]@);
            }
        }
        false
    }
}

/// The index of the first entry at or after `i` mounted at `target`, as a
/// path.
pub open spec fn first_mount_from(ms: Seq<MountEntryView>, target: Seq<char>, i: int) -> Option<int>
    decreases ms.len() - i,
{
    if i < 0 || i >= ms.len() {
        None
    } else if same_path(ms[i].mount_point, target) {
        Some(i)
    } else {
        first_mount_from(ms, target, i + 1)
    }
}

/// The index of the first entry mounted at `target`, if any.
pub open spec fn first_mount_at(ms: Seq<MountEntryView>, target: Seq<char>) -> Option<int> {
    first_mount_from(ms, target, 0)
}

/// What the search finds is an entry mounted at `target`, and no earlier
/// one is.
pub proof fn lemma_first_mount_from(ms: Seq<MountEntryView>, target: Seq<char>, i: int)
    requires
        0 <= i,
    ensures
        match first_mount_from(ms, target, i) {
            Some(k) => i <= k < ms.len() && same_path(ms[k].mount_point, target) && forall|j: int|
                i <= j < k ==> !same_path((#[trigger] ms[j]).mount_point, target),
            None => forall|j: int| i <= j < ms.len() ==> !same_path((#[trigger] ms[j]).mount_point, target),
        },
    decreases ms.len() - i,
{
    if i < ms.len() && !same_path(ms[i].mount_point, target) {
        lemma_first_mount_from(ms, target, i + 1);
    }
}

/// The first entry whose mount point is, as a path, `target`.
pub fn find_target_mount<'a>(mounts: &'a [MountEntry], target: &str) -> (r: Option<&'a MountEntry>)
    ensures
        match (r, first_mount_at(entry_views(mounts@), target@)) {
            (Some(e), Some(i)) => 0 <= i < mounts@.len() && e@ == mounts@[i]@,
            (None, None) => true,
            _ => false,
        },
{
    let ghost ms = entry_views(mounts@);
    let mut i: usize = 0;
    while i < mounts.len()
        invariant
            ms == entry_views(mounts@),
            i <= mounts.len(),
            first_mount_at(ms, target@) == first_mount_from(ms, target@, i as int),
        decreases mounts.len() - i,
    {
        proof {
            assert(ms[i as int] == mounts@[i as int]@);
        }
        if paths_equal(mounts[i].mount_point.as_str(), target) {
            return Some(&mounts[i]);
        }
        i = i + 1;
    }
    None
}

/// Whether the mount at `target` is a bind of `source`.
pub fn is_expected_bind_mount_in(mounts: &[MountEntry], source: &str, target: &str) -> (r: bool)
    ensures
        r == match first_mount_at(entry_views(mounts@), target@) {
            Some(i) => entry_matches_source(mounts@[i]@, source@),
            None => false,
        },
{
    match find_target_mount(mounts, target) {
        Some(entry) => entry.matches_source(source),
        None => false,
    }
}

// ---------------------------------------------------------------------------
// Field unescaping
// ---------------------------------------------------------------------------

pub open spec fn is_octal_digit(c: char) -> bool {
    '0' <= c && c <= '7'
}

/// The number of octal digits (at most three) that begin `s`.
pub open spec fn octal_run(s: Seq<char>) -> nat {
    if s.len() >= 1 && is_octal_digit(s[0]) {
        if s.len() >= 2 && is_octal_digit(s[1]) {
            if s.len() >= 3 && is_octal_digit(s[2]) {
                3
            } else {
                2
            }
        } else {
            1
        }
    } else {
        0
    }
}

pub open spec fn octal_digit_value(c: char) -> int {
    c as int - '0' as int
}

/// ASCII characters as bytes.
pub open spec fn ascii_bytes(s: Seq<char>) -> Seq<u8> {
    s.map_values(|c: char| (c as u32) as u8)
}

/// The bytes a mount table field stands for: `\ooo` (three octal digits of
/// a byte value) is that byte; a backslash not followed by such an escape
/// stays, with the octal digits after it; every other character is its
/// UTF-8 encoding.
pub open spec fn unescape_spec(s: Seq<char>) -> Seq<u8>
    decreases s.len(),
{
    if s.len() == 0 {
        Seq::empty()
    } else if s[0] == '\\' {
        let rest = s.drop_first();
        let k = octal_run(rest);
        if k == 3 && octal_digit_value(rest[0]) * 64 + octal_digit_value(rest[1]) * 8
            + octal_digit_value(rest[2]) < 256 {
            seq![
                (octal_digit_value(rest[0]) * 64 + octal_digit_value(rest[1]) * 8
                    + octal_digit_value(rest[2])) as u8,
            ] + unescape_spec(rest.skip(3))
        } else {
            seq![92u8] + ascii_bytes(rest.take(k as int)) + unescape_spec(rest.skip(k as int))
        }
    } else {
        vstd::utf8::encode_utf8(seq![s[0]]) + unescape_spec(s.drop_first())
    }
}

fn is_octal_digit_exec(c: char) -> (r: bool)
    ensures
        r == is_octal_digit(c),
{
    '0' <= c && c <= '7'
}

/// Decodes the octal escapes of a mount table field into raw bytes.
pub fn unescape_mount_field(raw: &str) -> (r: Result<Vec<u8>, String>)
    ensures
        r matches Ok(b) && b@ == unescape_spec(raw@),
{
    let v = chars_of(raw);
    let n = v.len();
    let mut bytes: Vec<u8> = Vec::new();
    let mut i: usize = 0;
    proof {
        assert(v@.skip(0) =~= v@);
    }
    while i < n
        invariant
            n == v.len(),
            v@ == raw@,
            i <= n,
            bytes@ + unescape_spec(v@.skip(i as int)) == unescape_spec(v@),
        decreases n - i,
    {
        let ghost s = v@.skip(i as int);
        let ghost before = bytes@;
        let ch = v[i];
        proof {
            assert(s[0] == ch);
        }
        if ch == '\\' {
            let ghost rest = s.drop_first();
            proof {
                assert(rest =~= v@.skip(i + 1));
            }
            let k: usize = if i + 1 < n && is_octal_digit_exec(v[i + 1]) {
                if i + 2 < n && is_octal_digit_exec(v[i + 2]) {
                    if i + 3 < n && is_octal_digit_exec(v[i + 3]) {
                        3
                    } else {
                        2
                    }
                } else {
                    1
                }
            } else {
                0
            };
            proof {
                assert(k == octal_run(rest));
            }
            let mut escaped = false;
            if k == 3 {
                let value: u32 = (v[i + 1] as u32 - '0' as u32) * 64 + (v[i + 2] as u32 - '0' as u32)
                    * 8 + (v[i + 3] as u32 - '0' as u32);
                if value < 256 {
                    bytes.push(value as u8);
                    proof {
                        assert(rest[0] == v@[i + 1] && rest[1] == v@[i + 2] && rest[2] == v@[i + 3]);
                        assert(rest.skip(3) =~= v@.skip(i + 4));
                        assert(bytes@ + unescape_spec(v@.skip(i + 4)) =~= before + unescape_spec(s));
                    }
                    i = i + 4;
                    escaped = true;
                }
            }
            if !escaped {
                proof {
                    if k == 3 {
                        assert(rest[0] == v@[i + 1] && rest[1] == v@[i + 2] && rest[2] == v@[i + 3]);
                    }
                }
                bytes.push(92u8);
                let mut j: usize = 0;
                while j < k
                    invariant
                        n == v.len(),
                        k <= 3,
                        i + 1 + k <= n,
                        j <= k,
                        bytes@ == before + seq![92u8] + ascii_bytes(v@.subrange(i + 1, i + 1 + j)),
                    decreases k - j,
                {
                    bytes.push((v[i + 1 + j] as u32) as u8);
                    proof {
                        assert(v@.subrange(i + 1, i + 1 + j + 1) =~= v@.subrange(i + 1, i + 1 + j).push(
                            v@[i + 1 + j],
                        ));
                        assert(ascii_bytes(v@.subrange(i + 1, i + 1 + j + 1)) =~= ascii_bytes(
                            v@.subrange(i + 1, i + 1 + j),
                        ).push((v@[i + 1 + j] as u32) as u8));
                    }
                    j = j + 1;
                }
                proof {
                    assert(rest.take(k as int) =~= v@.subrange(i + 1, i + 1 + k));
                    assert(rest.skip(k as int) =~= v@.skip(i + 1 + k));
                    assert(bytes@ + unescape_spec(v@.skip(i + 1 + k)) =~= before + unescape_spec(s));
                }
                i = i + 1 + k;
            }
        } else {
            push_utf8_char(&mut bytes, ch);
            proof {
                assert(s.drop_first() =~= v@.skip(i + 1));
                assert(bytes@ + unescape_spec(v@.skip(i + 1)) =~= before + unescape_spec(s));
            }
            i = i + 1;
        }
    }
    proof {
        assert(v@.skip(n as int) =~= Seq::<char>::empty());
        assert(bytes@ =~= bytes@ + unescape_spec(v@.skip(n as int)));
    }
    Ok(bytes)
}

// ---------------------------------------------------------------------------
// Mountinfo lines
// ---------------------------------------------------------------------------

/// A mount table row as the kernel prints it, before source resolution.
#[derive(Debug)]
pub struct RawMountEntry {
    pub mount_id: u64,
    pub device_id: String,
    pub mount_source: String,
    pub source_root: String,
    pub mount_point: String,
    pub filesystem_type: String,
}

pub struct RawMountEntryView {
    pub mount_id: u64,
    pub device_id: Seq<char>,
    pub mount_source: Seq<char>,
    pub source_root: Seq<char>,
    pub mount_point: Seq<char>,
    pub filesystem_type: Seq<char>,
}

impl View for RawMountEntry {
    type V = RawMountEntryView;

    open spec fn view(&self) -> RawMountEntryView {
        RawMountEntryView {
            mount_id: self.mount_id,
            device_id: self.device_id@,
            mount_source: self.mount_source@,
            source_root: self.source_root@,
            mount_point: self.mount_point@,
            filesystem_type: self.filesystem_type@,
        }
    }
}

/// `e` reports a malformed mount table row at `line_no` for `reason`.
pub open spec fn is_malformed_entry(e: Error, line_no: usize, reason: Seq<char>) -> bool {
    e matches Error::InfraMount(InfraMountError::MalformedMountTableEntry { line_no: n, reason: r })
        && n == line_no && r@ == reason
}

/// The `Display` text of an integer parse error.
pub open spec fn int_error_text(k: IntParseError) -> Seq<char> {
    match k {
        IntParseError::Empty => "cannot parse integer from empty string"@,
        IntParseError::InvalidDigit => "invalid digit found in string"@,
        IntParseError::PosOverflow => "number too large to fit in target type"@,
    }
}

fn append_int_error(out: &mut String, k: IntParseError)
    ensures
        final(out)@ == old(out)@ + int_error_text(k),
{
    match k {
        IntParseError::Empty => append_str(out, "cannot parse integer from empty string"),
        IntParseError::InvalidDigit => append_str(out, "invalid digit found in string"),
        IntParseError::PosOverflow => append_str(out, "number too large to fit in target type"),
    }
}

/// The text of a decoded field, or why it could not be decoded.
pub open spec fn decode_field_spec(field_name: Seq<char>, raw: Seq<char>) -> Result<
    Seq<char>,
    Seq<char>,
> {
    let bytes = unescape_spec(raw);
    if vstd::utf8::valid_utf8(bytes) {
        Ok(vstd::utf8::decode_utf8(bytes))
    } else {
        Err("decoded "@ + field_name + " field is not valid UTF-8: "@ + utf8_error_text(bytes))
    }
}

fn decode_mount_field(line_no: usize, field_name: &str, raw: &str) -> (r: Result<String, Error>)
    ensures
        match decode_field_spec(field_name@, raw@) {
            Ok(s) => r matches Ok(t) && t@ == s,
            Err(reason) => r matches Err(e) && is_malformed_entry(e, line_no, reason),
        },
{
    let bytes = match unescape_mount_field(raw) {
        Ok(bytes) => bytes,
        Err(details) => {
            let mut reason = String::new();
            append_str(&mut reason, "failed to unescape ");
            append_str(&mut reason, field_name);
            append_str(&mut reason, " field: ");
            append_str(&mut reason, details.as_str());
            return Err(Error::malformed_mount_table_entry(line_no, reason));
        },
    };
    let ghost b = bytes@;
    match decode_utf8_bytes(bytes) {
        Ok(s) => Ok(s),
        Err(message) => {
            let mut reason = String::new();
            append_str(&mut reason, "decoded ");
            append_str(&mut reason, field_name);
            append_str(&mut reason, " field is not valid UTF-8: ");
            append_str(&mut reason, message.as_str());
            proof {
                assert(reason@ =~= "decoded "@ + field_name@ + " field is not valid UTF-8: "@
                    + utf8_error_text(b));
            }
            Err(Error::malformed_mount_table_entry(line_no, reason))
        },
    }
}

/// ` - ` begins at index `i` of `s`.
pub open spec fn separator_at(s: Seq<char>, i: int) -> bool {
    0 <= i && i + 3 <= s.len() && s[i] == ' ' && s[i + 1] == '-' && s[i + 2] == ' '
}

/// The first index at or after `i` where ` - ` begins.
pub open spec fn first_separator_from(s: Seq<char>, i: int) -> Option<int>
    decreases s.len() - i,
{
    if i < 0 || i + 3 > s.len() {
        None
    } else if separator_at(s, i) {
        Some(i)
    } else {
        first_separator_from(s, i + 1)
    }
}

/// What a mountinfo line parses to, or why it does not.
pub open spec fn mountinfo_line_spec(line: Seq<char>) -> Result<RawMountEntryView, Seq<char>> {
    match first_separator_from(line, 0) {
        None => Err("missing ` - ` separator"@),
        Some(i) => {
            let fields = whitespace_fields(line.take(i));
            let right = whitespace_fields(line.skip(i + 3));
            if fields.len() < 6 {
                Err("too few left fields: expected at least 6, got "@ + decimal(fields.len()))
            } else if right.len() < 3 {
                Err("too few right fields: expected at least 3, got "@ + decimal(right.len()))
            } else {
                match parse_u64_spec(fields[0], 10) {
                    Err(k) => Err("invalid mount ID `"@ + fields[0] + "`: "@ + int_error_text(k)),
                    Ok(id) => match decode_field_spec("root"@, fields[3]) {
                        Err(reason) => Err(reason),
                        Ok(root) => match decode_field_spec("mount point"@, fields[4]) {
                            Err(reason) => Err(reason),
                            Ok(mount_point) => Ok(
                                RawMountEntryView {
                                    mount_id: id as u64,
                                    device_id: fields[2],
                                    mount_source: right[1],
                                    source_root: root,
                                    mount_point,
                                    filesystem_type: right[0],
                                },
                            ),
                        },
                    },
                }
            }
        },
    }
}

fn find_separator(v: &Vec<char>) -> (r: Option<usize>)
    ensures
        r matches Some(a) ==> a + 3 <= v.len(),
        match (r, first_separator_from(v@, 0)) {
            (Some(a), Some(b)) => a == b,
            (None, None) => true,
            _ => false,
        },
{
    if v.len() < 3 {
        return None;
    }
    let mut i: usize = 0;
    while i <= v.len() - 3
        invariant
            v.len() >= 3,
            first_separator_from(v@, 0) == first_separator_from(v@, i as int),
        decreases v.len() - i,
    {
        if v[i] == ' ' && v[i + 1] == '-' && v[i + 2] == ' ' {
            return Some(i);
        }
        i = i + 1;
    }
    None
}

/// Parses one line of `/proc/self/mountinfo`.
pub fn parse_mountinfo_line(line_no: usize, line: &str) -> (r: Result<RawMountEntry, Error>)
    ensures
        match mountinfo_line_spec(line@) {
            Ok(entry) => r matches Ok(e) && e@ == entry,
            Err(reason) => r matches Err(e) && is_malformed_entry(e, line_no, reason),
        },
{
    let v = chars_of(line);
    let sep = match find_separator(&v) {
        Some(sep) => sep,
        None => {
            let mut reason = String::new();
            append_str(&mut reason, "missing ` - ` separator");
            proof {
                assert(reason@ =~= "missing ` - ` separator"@);
            }
            return Err(Error::malformed_mount_table_entry(line_no, reason));
        },
    };
    let fields = field_ranges(&v, 0, sep);
    let right = field_ranges(&v, sep + 3, v.len());
    let ghost fs = whitespace_fields(v@.take(sep as int));
    let ghost rs = whitespace_fields(v@.skip(sep + 3));
    proof {
        assert(v@.subrange(0, sep as int) =~= v@.take(sep as int));
        assert(v@.subrange(sep + 3, v.len() as int) =~= v@.skip(sep + 3));
    }
    if fields.len() < 6 {
        let mut reason = String::new();
        append_str(&mut reason, "too few left fields: expected at least 6, got ");
        push_decimal(&mut reason, fields.len() as u64);
        proof {
            assert(reason@ =~= "too few left fields: expected at least 6, got "@ + decimal(
                fs.len(),
            ));
        }
        return Err(Error::malformed_mount_table_entry(line_no, reason));
    }
    if right.len() < 3 {
        let mut reason = String::new();
        append_str(&mut reason, "too few right fields: expected at least 3, got ");
        push_decimal(&mut reason, right.len() as u64);
        proof {
            assert(reason@ =~= "too few right fields: expected at least 3, got "@ + decimal(
                rs.len(),
            ));
        }
        return Err(Error::malformed_mount_table_entry(line_no, reason));
    }
    let (id_lo, id_hi) = fields[0];
    let mount_id = match parse_u64_range(&v, id_lo, id_hi, 10) {
        Ok(id) => id,
        Err(k) => {
            let mut reason = String::new();
            append_str(&mut reason, "invalid mount ID `");
            let raw = string_from_range(&v, id_lo, id_hi);
            append_str(&mut reason, raw.as_str());
            append_str(&mut reason, "`: ");
            append_int_error(&mut reason, k);
            proof {
                assert(reason@ =~= "invalid mount ID `"@ + fs[0] + "`: "@ + int_error_text(k));
            }
            return Err(Error::malformed_mount_table_entry(line_no, reason));
        },
    };
    let (dev_lo, dev_hi) = fields[2];
    let device_id = string_from_range(&v, dev_lo, dev_hi);
    let (src_lo, src_hi) = right[1];
    let mount_source = string_from_range(&v, src_lo, src_hi);
    let (root_lo, root_hi) = fields[3];
    let root_raw = string_from_range(&v, root_lo, root_hi);
    let source_root = decode_mount_field(line_no, "root", root_raw.as_str())?;
    let (mp_lo, mp_hi) = fields[4];
    let mp_raw = string_from_range(&v, mp_lo, mp_hi);
    let mount_point = decode_mount_field(line_no, "mount point", mp_raw.as_str())?;
    let (fs_lo, fs_hi) = right[0];
    let filesystem_type = string_from_range(&v, fs_lo, fs_hi);
    Ok(RawMountEntry { mount_id, device_id, mount_source, source_root, mount_point, filesystem_type })
}

// ---------------------------------------------------------------------------
// The whole table
// ---------------------------------------------------------------------------

/// The entry a parsed row stands for: its source root is its only source.
pub open spec fn entry_from_raw(r: RawMountEntryView) -> MountEntryView {
    MountEntryView {
        mount_id: r.mount_id,
        preferred_source: r.source_root,
        source_aliases: seq![r.source_root],
        mount_point: r.mount_point,
        filesystem_type: r.filesystem_type,
    }
}

/// Every line of the table parses.
pub open spec fn all_lines_parse(lines: Seq<Seq<char>>) -> bool {
    forall|k: int| 0 <= k < lines.len() ==> #[trigger] mountinfo_line_spec(lines[k]) is Ok
}

/// Parses the whole mount table; the first malformed line fails it.
pub fn parse_mount_table(contents: &str) -> (r: Result<Vec<MountEntry>, Error>)
    ensures
        r is Ok <==> all_lines_parse(text_lines(contents@)),
        r matches Ok(es) ==> {
            &&& es@.len() == text_lines(contents@).len()
            &&& forall|k: int|
                0 <= k < es@.len() ==> (#[trigger] es@[k])@ == entry_from_raw(
                    mountinfo_line_spec(text_lines(contents@)[k])->Ok_0,
                )
        },
        r matches Err(e) ==> exists|k: int|
            #![trigger text_lines(contents@)[k]]
            0 <= k < text_lines(contents@).len() && k + 1 <= usize::MAX && (forall|j: int|
                0 <= j < k ==> #[trigger] mountinfo_line_spec(text_lines(contents@)[j]) is Ok)
                && match mountinfo_line_spec(text_lines(contents@)[k]) {
                Err(reason) => is_malformed_entry(e, (k + 1) as usize, reason),
                Ok(_) => false,
            },
{
    let v = chars_of(contents);
    let lines = line_ranges(&v);
    let ghost ls = text_lines(contents@);
    let mut out: Vec<MountEntry> = Vec::new();
    let mut k: usize = 0;
    while k < lines.len()
        invariant
            v@ == contents@,
            ls == text_lines(contents@),
            lines@.len() == ls.len(),
            forall|j: int|
                #![trigger lines@[j]]
                0 <= j < lines@.len() ==> {
                    &&& lines@[j].0 <= lines@[j].1 <= v.len()
                    &&& v@.subrange(lines@[j].0 as int, lines@[j].1 as int) == ls[j]
                },
            k <= lines.len(),
            out@.len() == k,
            forall|j: int| 0 <= j < k ==> #[trigger] mountinfo_line_spec(ls[j]) is Ok,
            forall|j: int|
                0 <= j < k ==> (#[trigger] out@[j])@ == entry_from_raw(
                    mountinfo_line_spec(ls[j])->Ok_0,
                ),
        decreases lines.len() - k,
    {
        let (a, b) = lines[k];
        let line = string_from_range(&v, a, b);
        match parse_mountinfo_line(k + 1, line.as_str()) {
            Ok(raw) => {
                let source = raw.source_root.clone();
                let mut aliases: Vec<String> = Vec::new();
                aliases.push(raw.source_root);
                proof {
                    assert(string_views(aliases@) =~= seq![source@]);
                }
                out.push(
                    MountEntry {
                        mount_id: raw.mount_id,
                        preferred_source: source,
                        source_aliases: aliases,
                        mount_point: raw.mount_point,
                        filesystem_type: raw.filesystem_type,
                    },
                );
            },
            Err(e) => {
                proof {
                    assert(ls[k as int] == line@);
                }
                return Err(e);
            },
        }
        k = k + 1;
    }
    Ok(out)
}

// ---------------------------------------------------------------------------
// Capabilities
// ---------------------------------------------------------------------------

/// Whether the process may create mounts, as far as can be told.
#[derive(Debug)]
pub enum MountPrivilegeStatus {
    HasCapSysAdmin,
    MissingCapSysAdmin,
    Unknown { details: String },
}

pub enum MountPrivilegeView {
    HasCapSysAdmin,
    MissingCapSysAdmin,
    Unknown(Seq<char>),
}

impl View for MountPrivilegeStatus {
    type V = MountPrivilegeView;

    open spec fn view(&self) -> MountPrivilegeView {
        match self {
            MountPrivilegeStatus::HasCapSysAdmin => MountPrivilegeView::HasCapSysAdmin,
            MountPrivilegeStatus::MissingCapSysAdmin => MountPrivilegeView::MissingCapSysAdmin,
            MountPrivilegeStatus::Unknown { details } => MountPrivilegeView::Unknown(details@),
        }
    }
}

/// `CAP_SYS_ADMIN` is capability number 21.
pub open spec fn has_cap_sys_admin(cap_eff: nat) -> bool {
    (cap_eff / 0x200000) % 2 == 1
}

/// The first line at or after `i` that begins with `CapEff:`.
pub open spec fn cap_eff_line_from(lines: Seq<Seq<char>>, i: int) -> Option<int>
    decreases lines.len() - i,
{
    if i < 0 || i >= lines.len() {
        None
    } else if has_prefix(lines[i], "CapEff:"@) {
        Some(i)
    } else {
        cap_eff_line_from(lines, i + 1)
    }
}

/// What the text of `/proc/self/status` says about `CAP_SYS_ADMIN`.
pub open spec fn mount_privileges_spec(status: Seq<char>) -> MountPrivilegeView {
    let lines = text_lines(status);
    match cap_eff_line_from(lines, 0) {
        None => MountPrivilegeView::Unknown("missing `CapEff:` field in `/proc/self/status`"@),
        Some(i) => {
            let fields = whitespace_fields(lines[i]);
            if fields.len() < 2 {
                MountPrivilegeView::Unknown("missing capability value in `CapEff:` field"@)
            } else {
                match parse_u64_spec(fields[1], 16) {
                    Err(k) => MountPrivilegeView::Unknown(
                        "failed to parse `CapEff` value `"@ + fields[1] + "`: "@ + int_error_text(k),
                    ),
                    Ok(cap) => if has_cap_sys_admin(cap) {
                        MountPrivilegeView::HasCapSysAdmin
                    } else {
                        MountPrivilegeView::MissingCapSysAdmin
                    },
                }
            }
        },
    }
}

/// Once the `CapEff:` value `v` is read, the process may mount exactly when
/// bit 21 of `v` (`CAP_SYS_ADMIN`) is set, whatever the other bits.
pub proof fn law_cap_sys_admin_is_bit_21(status: Seq<char>, i: int, v: u64)
    requires
        cap_eff_line_from(text_lines(status), 0) == Some(i),
        whitespace_fields(text_lines(status)[i]).len() >= 2,
        parse_u64_spec(whitespace_fields(text_lines(status)[i])[1], 16) == Ok::<nat, IntParseError>(v as nat),
    ensures
        mount_privileges_spec(status) == (if (v >> 21u64) & 1u64 == 1u64 {
            MountPrivilegeView::HasCapSysAdmin
        } else {
            MountPrivilegeView::MissingCapSysAdmin
        }),
{
    assert(((v / 0x200000u64) % 2 == 1) <==> ((v >> 21u64) & 1u64 == 1u64)) by (bit_vector);
}

fn unknown(details: String) -> (r: MountPrivilegeStatus)
    ensures
        r@ == MountPrivilegeView::Unknown(details@),
{
    MountPrivilegeStatus::Unknown { details }
}

fn owned(s: &str) -> (r: String)
    ensures
        r@ == s@,
{
    s.to_owned()
}

fn find_cap_eff_line(v: &Vec<char>, lines: &Vec<(usize, usize)>) -> (r: Option<usize>)
    requires
        lines@.len() == text_lines(v@).len(),
        forall|j: int|
            #![trigger lines@[j]]
            0 <= j < lines@.len() ==> {
                &&& lines@[j].0 <= lines@[j].1 <= v.len()
                &&& v@.subrange(lines@[j].0 as int, lines@[j].1 as int) == text_lines(v@)[j]
            },
    ensures
        match (r, cap_eff_line_from(text_lines(v@), 0)) {
            (Some(a), Some(b)) => a == b && a < lines@.len(),
            (None, None) => true,
            _ => false,
        },
{
    let ghost ls = text_lines(v@);
    let mut i: usize = 0;
    while i < lines.len()
        invariant
            ls == text_lines(v@),
            lines@.len() == ls.len(),
            forall|j: int|
                #![trigger lines@[j]]
                0 <= j < lines@.len() ==> {
                    &&& lines@[j].0 <= lines@[j].1 <= v.len()
                    &&& v@.subrange(lines@[j].0 as int, lines@[j].1 as int) == ls[j]
                },
            i <= lines.len(),
            cap_eff_line_from(ls, 0) == cap_eff_line_from(ls, i as int),
        decreases lines.len() - i,
    {
        let (a, b) = lines[i];
        let line = string_from_range(v, a, b);
        let lv = chars_of(line.as_str());
        proof {
            assert(ls[i as int] == lv@);
        }
        if starts_with_str(&lv, "CapEff:") {
            return Some(i);
        }
        i = i + 1;
    }
    None
}

/// Reads the effective capability set from the text of `/proc/self/status`.
pub fn parse_mount_privileges(status_contents: &str) -> (r: MountPrivilegeStatus)
    ensures
        r@ == mount_privileges_spec(status_contents@),
{
    let v = chars_of(status_contents);
    let lines = line_ranges(&v);
    let ghost ls = text_lines(status_contents@);
    let (a, b) = match find_cap_eff_line(&v, &lines) {
        Some(i) => lines[i],
        None => {
            return unknown(owned("missing `CapEff:` field in `/proc/self/status`"));
        },
    };
    let ghost c = cap_eff_line_from(ls, 0)->Some_0;
    let fields = field_ranges(&v, a, b);
    if fields.len() < 2 {
        return unknown(owned("missing capability value in `CapEff:` field"));
    }
    let (f_lo, f_hi) = fields[1];
    match parse_u64_range(&v, f_lo, f_hi, 16) {
        Err(k) => {
            let mut details = String::new();
            append_str(&mut details, "failed to parse `CapEff` value `");
            let raw = string_from_range(&v, f_lo, f_hi);
            append_str(&mut details, raw.as_str());
            append_str(&mut details, "`: ");
            append_int_error(&mut details, k);
            proof {
                assert(details@ =~= "failed to parse `CapEff` value `"@ + whitespace_fields(ls[c])[1]
                    + "`: "@ + int_error_text(k));
            }
            unknown(details)
        },
        Ok(cap_eff) => {
            let bit = cap_eff & 0x200000u64;
            proof {
                assert((cap_eff & 0x200000u64) != 0 <==> (cap_eff / 0x200000u64) % 2 == 1)
                    by (bit_vector);
            }
            if bit != 0 {
                MountPrivilegeStatus::HasCapSysAdmin
            } else {
                MountPrivilegeStatus::MissingCapSysAdmin
            }
        },
    }
}

/// The privilege status given what reading `/proc/self/status` gave: its
/// text, or the text of the read error.
pub fn mount_privilege_status(read: Result<String, String>) -> (r: MountPrivilegeStatus)
    ensures
        r@ == match read {
            Ok(contents) => mount_privileges_spec(contents@),
            Err(message) => MountPrivilegeView::Unknown(
                "failed to read `/proc/self/status`: "@ + message@,
            ),
        },
{
    match read {
        Ok(contents) => parse_mount_privileges(contents.as_str()),
        Err(message) => {
            let mut details = String::new();
            append_str(&mut details, "failed to read `/proc/self/status`: ");
            append_str(&mut details, message.as_str());
            proof {
                assert(details@ =~= "failed to read `/proc/self/status`: "@ + message@);
            }
            unknown(details)
        },
    }
}

} // verus!

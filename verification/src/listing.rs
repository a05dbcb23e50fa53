//! The listing-format adapter: the canonical file entry against the
//! Unix long-listing representation, and the boundary through which a
//! raw `LIST` line becomes such an entry.

use vstd::prelude::*;
use chrono::{Datelike, Timelike};
use crate::chars::{str_eq, str_eq_ignore_ascii_case, spec_lower};
use crate::mlst::{spec_first_at, lemma_first_at, lemma_first_at_ge};
use crate::datetime::{MlstDateTime, spec_epoch};
use crate::perms::{MlstFilePermissions, spec_as_pex, spec_perms_empty};
use crate::types::{FtpItem, FtpItemType, SpecFtpItem};

verus! {

/// The mathematical reading of a long-listing entry.
pub ghost struct SpecLongEntry {
    pub name: Seq<char>,
    pub is_dir: bool,
    pub size: u64,
    pub modified: MlstDateTime,
    pub uid: Option<u32>,
    pub gid: Option<u32>,
    pub owner_pex: u8,
    pub group_pex: u8,
    pub other_pex: u8,
}

/// A Unix long-listing entry: what one line of the `LIST` command's
/// output carries. The three permission masks are 3-bit
/// read/write/execute values, read worth 4, write 2, execute 1.
#[derive(Debug, Clone)]
pub struct LongListEntry {
    pub name: String,
    pub is_dir: bool,
    pub size: u64,
    pub modified: MlstDateTime,
    pub uid: Option<u32>,
    pub gid: Option<u32>,
    pub owner_pex: u8,
    pub group_pex: u8,
    pub other_pex: u8,
}

impl View for LongListEntry {
    type V = SpecLongEntry;

    open spec fn view(&self) -> SpecLongEntry {
        SpecLongEntry {
            name: self.name@,
            is_dir: self.is_dir,
            size: self.size,
            modified: self.modified,
            uid: self.uid,
            gid: self.gid,
            owner_pex: self.owner_pex,
            group_pex: self.group_pex,
            other_pex: self.other_pex,
        }
    }
}

/// The long-listing form of a canonical entry: the directory flag from
/// the type, size defaulting to 0, the modified time defaulting to the
/// Unix epoch, and one read/write/list mask derived from the
/// fact-permission set and broadcast identically to owner, group and
/// other (the format carries only one semantic permission set).
pub open spec fn spec_ftp_to_list(it: SpecFtpItem) -> SpecLongEntry {
    let pex = match it.perm {
        Some(p) => spec_as_pex(p),
        None => 0u8,
    };
    SpecLongEntry {
        name: it.name,
        is_dir: it.ty != FtpItemType::File,
        size: match it.size {
            Some(s) => s,
            None => 0u64,
        },
        modified: match it.modified {
            Some(m) => m,
            None => spec_epoch(),
        },
        uid: it.unix_owner,
        gid: it.unix_group,
        owner_pex: pex,
        group_pex: pex,
        other_pex: pex,
    }
}

/// Whether the read bit (worth 4) stands in a 3-bit mask.
pub open spec fn spec_pex_read(m: u8) -> bool {
    (m as int / 4) % 2 == 1
}

/// Whether the write bit (worth 2) stands in a 3-bit mask.
pub open spec fn spec_pex_write(m: u8) -> bool {
    (m as int / 2) % 2 == 1
}

/// Whether the execute bit (worth 1) stands in a 3-bit mask.
pub open spec fn spec_pex_execute(m: u8) -> bool {
    m as int % 2 == 1
}

/// The canonical entry recovered from a long-listing entry: the names
/// `.` and `..` become the current- and parent-directory markers, any
/// other directory the plain directory type; the owner's
/// read/write/execute bits become the read/write/list permission
/// booleans; the numeric mode packs other, group and owner (high to
/// low, 3 bits each); and everything the long-listing format cannot
/// carry (created, unique, names, languages, unrecognized facts) is
/// absent.
pub open spec fn spec_list_to_ftp(e: SpecLongEntry) -> SpecFtpItem {
    SpecFtpItem {
        name: e.name,
        ty: if e.is_dir {
            if e.name == "."@ {
                FtpItemType::CurrentDir
            } else if e.name == ".."@ {
                FtpItemType::ParentDir
            } else {
                FtpItemType::Dir
            }
        } else {
            FtpItemType::File
        },
        size: Some(e.size),
        modified: Some(e.modified),
        created: None,
        unique: None,
        perm: Some(
            MlstFilePermissions {
                read: spec_pex_read(e.owner_pex),
                write: spec_pex_write(e.owner_pex),
                list: spec_pex_execute(e.owner_pex),
                ..spec_perms_empty()
            },
        ),
        lang: None,
        media_type: None,
        charset: None,
        unix_owner: e.uid,
        unix_ownername: None,
        unix_group: e.gid,
        unix_groupname: None,
        unix_mode: Some(
            ((e.other_pex as int) * 64 + (e.group_pex as int) * 8 + (e.owner_pex as int)) as u16,
        ),
        others: None,
    }
}

/// Converts a canonical entry to its long-listing form.
pub fn ftp_to_list(file: FtpItem) -> (r: LongListEntry)
    ensures
        r@ == spec_ftp_to_list(file@),
{
    let pex = match file.perm {
        Some(ref p) => p.as_pex(),
        None => 0u8,
    };
    LongListEntry {
        name: file.name,
        is_dir: file.ty.is_dir(),
        size: match file.size {
            Some(s) => s,
            None => 0u64,
        },
        modified: match file.modified {
            Some(m) => m,
            None => MlstDateTime::epoch(),
        },
        uid: file.unix_owner,
        gid: file.unix_group,
        owner_pex: pex,
        group_pex: pex,
        other_pex: pex,
    }
}

/// Recovers a canonical entry from a long-listing entry.
pub fn list_to_ftp(e: &LongListEntry) -> (r: FtpItem)
    ensures
        r@ == spec_list_to_ftp(e@),
{
    let ty = if e.is_dir {
        if str_eq(e.name.as_str(), ".") {
            FtpItemType::CurrentDir
        } else if str_eq(e.name.as_str(), "..") {
            FtpItemType::ParentDir
        } else {
            FtpItemType::Dir
        }
    } else {
        FtpItemType::File
    };
    let mut perm = MlstFilePermissions::default();
    perm.read = (e.owner_pex / 4) % 2 == 1;
    perm.write = (e.owner_pex / 2) % 2 == 1;
    perm.list = e.owner_pex % 2 == 1;
    let mode: u16 = (e.other_pex as u16) * 64 + (e.group_pex as u16) * 8 + (e.owner_pex as u16);
    FtpItem {
        name: e.name.clone(),
        ty,
        size: Some(e.size),
        modified: Some(e.modified),
        created: None,
        unique: None,
        perm: Some(perm),
        lang: None,
        media_type: None,
        charset: None,
        unix_owner: e.uid,
        unix_ownername: None,
        unix_group: e.gid,
        unix_groupname: None,
        unix_mode: Some(mode),
        others: None,
    }
}

/// Round-tripping a canonical entry through the long-listing form
/// keeps the directory flag always, and the size and the modified time
/// whenever they were present; the permission set comes back with only
/// its read, write and list flags, and the reconstructed numeric mode
/// carries the same 3-bit mask in its owner, group and other fields,
/// because the single fact-permission mask is broadcast to all three.
/// Everything else the long-listing format cannot carry comes back
/// absent.
pub proof fn lemma_long_listing_round_trip(it: SpecFtpItem)
    ensures
        ({
            let e = spec_ftp_to_list(it);
            let back = spec_list_to_ftp(e);
            &&& (back.ty != FtpItemType::File) == (it.ty != FtpItemType::File)
            &&& it.size is Some ==> back.size == it.size
            &&& it.size is None ==> back.size == Some(0u64)
            &&& it.modified is Some ==> back.modified == it.modified
            &&& it.modified is None ==> back.modified == Some(spec_epoch())
            &&& e.owner_pex == e.group_pex && e.group_pex == e.other_pex
            &&& it.perm matches Some(p) ==> back.perm == Some(
                MlstFilePermissions {
                    read: p.read,
                    write: p.write,
                    list: p.list,
                    ..spec_perms_empty()
                },
            )
            &&& it.perm is None ==> back.perm == Some(spec_perms_empty())
            &&& back.unix_mode == Some(
                ((e.owner_pex as int) * 64 + (e.owner_pex as int) * 8 + (
                e.owner_pex as int)) as u16,
            )
            &&& back.created is None && back.unique is None && back.lang is None
            &&& back.media_type is None && back.charset is None
            &&& back.unix_ownername is None && back.unix_groupname is None
            &&& back.others is None
        }),
{
    let e = spec_ftp_to_list(it);
    match it.perm {
        Some(p) => {
            assert(spec_pex_read(spec_as_pex(p)) == p.read);
            assert(spec_pex_write(spec_as_pex(p)) == p.write);
            assert(spec_pex_execute(spec_as_pex(p)) == p.list);
        },
        None => {
            assert(!spec_pex_read(0u8) && !spec_pex_write(0u8) && !spec_pex_execute(0u8));
        },
    }
}

#[verifier::external_type_specification]
#[verifier::external_body]
pub struct ExListFile(suppaftp::list::File);

#[verifier::external_type_specification]
#[verifier::external_body]
pub struct ExSystemTime(std::time::SystemTime);

pub assume_specification[ suppaftp::list::File::is_directory ](
    f: &suppaftp::list::File,
) -> bool;

pub assume_specification[ suppaftp::list::File::size ](f: &suppaftp::list::File) -> usize;

pub assume_specification[ suppaftp::list::File::modified ](
    f: &suppaftp::list::File,
) -> std::time::SystemTime;

pub assume_specification[ suppaftp::list::File::uid ](f: &suppaftp::list::File) -> Option<u32>;

pub assume_specification[ suppaftp::list::File::gid ](f: &suppaftp::list::File) -> Option<u32>;

/// Relies on suppaftp's `list::File::name`: the entry's file name.
#[verifier::external_body]
fn file_name(f: &suppaftp::list::File) -> (r: String) {
    f.name().to_owned()
}

/// Which permission class of a long-listing entry is asked about.
#[derive(Debug, Clone, Copy, PartialEq, Eq, Structural)]
pub enum PexWho {
    Owner,
    Group,
    Others,
}

/// Relies on suppaftp's `list::File::can_read` for the given class.
#[verifier::external_body]
fn file_can_read(f: &suppaftp::list::File, who: PexWho) -> (r: bool) {
    f.can_read(
        match who {
            PexWho::Owner => suppaftp::list::PosixPexQuery::Owner,
            PexWho::Group => suppaftp::list::PosixPexQuery::Group,
            PexWho::Others => suppaftp::list::PosixPexQuery::Others,
        },
    )
}

/// Relies on suppaftp's `list::File::can_write` for the given class.
#[verifier::external_body]
fn file_can_write(f: &suppaftp::list::File, who: PexWho) -> (r: bool) {
    f.can_write(
        match who {
            PexWho::Owner => suppaftp::list::PosixPexQuery::Owner,
            PexWho::Group => suppaftp::list::PosixPexQuery::Group,
            PexWho::Others => suppaftp::list::PosixPexQuery::Others,
        },
    )
}

/// Relies on suppaftp's `list::File::can_execute` for the given class.
#[verifier::external_body]
fn file_can_execute(f: &suppaftp::list::File, who: PexWho) -> (r: bool) {
    f.can_execute(
        match who {
            PexWho::Owner => suppaftp::list::PosixPexQuery::Owner,
            PexWho::Group => suppaftp::list::PosixPexQuery::Group,
            PexWho::Others => suppaftp::list::PosixPexQuery::Others,
        },
    )
}


/// UTF-8 byte length of one character.
pub open spec fn spec_utf8_char_len(c: char) -> int {
    if (c as int) < 0x80 {
        1
    } else if (c as int) < 0x800 {
        2
    } else if (c as int) < 0x10000 {
        3
    } else {
        4
    }
}

/// UTF-8 byte length of a character sequence.
pub open spec fn spec_utf8_len(s: Seq<char>) -> int
    decreases s.len(),
{
    if s.len() == 0 {
        0
    } else {
        spec_utf8_len(s.drop_last()) + spec_utf8_char_len(s.last())
    }
}

proof fn lemma_utf8_len_prefix_le(s: Seq<char>, m: int)
    requires
        0 <= m <= s.len(),
    ensures
        spec_utf8_len(s.subrange(0, m)) <= spec_utf8_len(s),
    decreases s.len(),
{
    if m == s.len() {
        assert(s.subrange(0, m) =~= s);
    } else {
        let t = s.drop_last();
        lemma_utf8_len_prefix_le(t, m);
        assert(t.subrange(0, m) =~= s.subrange(0, m));
    }
}

/// A `unix.mode` fact value on which suppaftp's fact-format parser
/// would slice bytes inside a character or index past the characters it
/// got: 3 or 4 UTF-8 bytes long (the only lengths it accepts) but not
/// pure ASCII, so that its last three bytes are not three characters.
pub open spec fn spec_hazardous_mode_value(v: Seq<char>) -> bool {
    &&& (spec_utf8_len(v) == 3 || spec_utf8_len(v) == 4)
    &&& exists|i: int| 0 <= i < v.len() && (#[trigger] v[i]) as int >= 0x80
}

/// Whether one `;`-separated token of a raw line is such a `unix.mode`
/// fact: the part before its first `=` names `unix.mode`
/// case-insensitively, and the part between the first and second `=`
/// (or the token's end) is a hazardous value.
pub open spec fn spec_hazardous_mode_token(tok: Seq<char>) -> bool {
    let e1 = spec_first_at(tok, '=', 0);
    if e1 == tok.len() {
        false
    } else {
        let rest = tok.subrange(e1 + 1, tok.len() as int);
        let value = rest.subrange(0, spec_first_at(rest, '=', 0));
        spec_lower(tok.subrange(0, e1)) == "unix.mode"@ && spec_hazardous_mode_value(value)
    }
}

/// Whether some `;`-separated token of `s` at or after `j` is a
/// hazardous `unix.mode` fact.
pub open spec fn spec_line_hazard_from(s: Seq<char>, j: int) -> bool
    decreases s.len() - j + 1,
    via spec_line_hazard_from_decreases
{
    if j < 0 || j > s.len() {
        false
    } else {
        let k = spec_first_at(s, ';', j);
        ||| spec_hazardous_mode_token(s.subrange(j, k))
        ||| (k < s.len() && spec_line_hazard_from(s, k + 1))
    }
}

#[via_fn]
proof fn spec_line_hazard_from_decreases(s: Seq<char>, j: int) {
    if 0 <= j <= s.len() {
        lemma_first_at_ge(s, ';', j);
    }
}

/// Whether a raw line carries a `unix.mode` fact that suppaftp's
/// fact-format parser would panic on rather than parse or reject.
pub open spec fn spec_list_line_hazard(s: Seq<char>) -> bool {
    spec_line_hazard_from(s, 0)
}

/// Whether the characters at `line[from..to]` make a hazardous
/// `unix.mode` fact value.
fn value_is_hazardous(line: &str, from: usize, to: usize) -> (r: bool)
    requires
        from <= to <= line@.len(),
    ensures
        r == spec_hazardous_mode_value(line@.subrange(from as int, to as int)),
{
    let ghost v = line@.subrange(from as int, to as int);
    let mut bytes: u64 = 0;
    let mut non_ascii = false;
    let mut i = from;
    proof {
        assert(v.subrange(0, 0) =~= Seq::<char>::empty());
    }
    while i < to && bytes <= 4
        invariant
            from <= i <= to <= line@.len(),
            v == line@.subrange(from as int, to as int),
            bytes == spec_utf8_len(v.subrange(0, i - from)),
            bytes <= 8,
            non_ascii == (exists|m: int| 0 <= m < i - from && (#[trigger] v[m]) as int >= 0x80),
        decreases to - i,
    {
        let c = line.get_char(i);
        let u = c as u32;
        proof {
            assert(v.subrange(0, i - from + 1).drop_last() =~= v.subrange(0, i - from));
            assert(v.subrange(0, i - from + 1).last() == v[i - from]);
            assert(v[i - from] == line@[i as int]);
        }
        if u >= 0x80 {
            non_ascii = true;
            proof {
                assert((v[i - from]) as int >= 0x80);
            }
        } else {
            proof {
                if exists|m: int| 0 <= m < i - from + 1 && (#[trigger] v[m]) as int >= 0x80 {
                    let m = choose|m: int| 0 <= m < i - from + 1 && (#[trigger] v[m]) as int
                        >= 0x80;
                    assert(m < i - from);
                }
            }
        }
        let cl: u64 = if u < 0x80 {
            1
        } else if u < 0x800 {
            2
        } else if u < 0x10000 {
            3
        } else {
            4
        };
        bytes = bytes + cl;
        i = i + 1;
    }
    if i < to {
        // more than 4 bytes already: the whole value is longer still
        proof {
            lemma_utf8_len_prefix_le(v, i - from);
        }
        return false;
    }
    proof {
        assert(v.subrange(0, (i - from) as int) =~= v);
    }
    (bytes == 3 || bytes == 4) && non_ascii
}

/// Whether the raw line carries a `unix.mode` fact that suppaftp's
/// fact-format parser would panic on. Only a value of 3 or 4 bytes
/// holding a non-ASCII character is dangerous there; such a line is
/// rejected before the parser sees it.
fn line_has_hazardous_mode_fact(line: &str) -> (r: bool)
    ensures
        r == spec_list_line_hazard(line@),
{
    let n = line.unicode_len();
    let mut j: usize = 0;
    loop
        invariant
            j <= n,
            n == line@.len(),
            spec_list_line_hazard(line@) == spec_line_hazard_from(line@, j as int),
        decreases n + 1 - j,
    {
        // the token runs to the next separator
        let mut k = j;
        while k < n && line.get_char(k) != ';'
            invariant
                j <= k <= n == line@.len(),
                forall|m: int| j <= m < k ==> line@[m] != ';',
            decreases n - k,
        {
            k = k + 1;
        }
        proof {
            lemma_first_at(line@, ';', j as int, k as int);
        }
        let ghost tok = line@.subrange(j as int, k as int);
        // the first equals sign inside the token
        let mut e1 = j;
        while e1 < k && line.get_char(e1) != '='
            invariant
                j <= e1 <= k <= line@.len(),
                forall|m: int| j <= m < e1 ==> line@[m] != '=',
            decreases k - e1,
        {
            e1 = e1 + 1;
        }
        proof {
            assert(forall|m: int| 0 <= m < e1 - j ==> tok[m] == line@[m + j] && tok[m] != '=');
            if e1 < k {
                assert(tok[e1 - j] == line@[e1 as int]);
            }
            lemma_first_at(tok, '=', 0, e1 - j);
        }
        if e1 < k {
            // the value ends at the second equals sign, or the token's end
            let mut e2 = e1 + 1;
            while e2 < k && line.get_char(e2) != '='
                invariant
                    j <= e1 < e2 <= k <= line@.len(),
                    forall|m: int| e1 < m < e2 ==> line@[m] != '=',
                decreases k - e2,
            {
                e2 = e2 + 1;
            }
            let ghost rest = tok.subrange(e1 - j + 1, tok.len() as int);
            proof {
                assert(rest =~= line@.subrange(e1 + 1, k as int));
                assert(forall|m: int| 0 <= m < e2 - e1 - 1 ==> rest[m] == line@[m + e1 + 1]
                    && rest[m] != '=');
                if e2 < k {
                    assert(rest[e2 - e1 - 1] == line@[e2 as int]);
                }
                lemma_first_at(rest, '=', 0, e2 - e1 - 1);
                assert(rest.subrange(0, e2 - e1 - 1) =~= line@.subrange(e1 + 1, e2 as int));
                assert(tok.subrange(0, e1 - j) =~= line@.subrange(j as int, e1 as int));
            }
            proof {
                reveal_strlit("unix.mode");
                assert(spec_lower("unix.mode"@) =~= "unix.mode"@);
            }
            let key = line.substring_char(j, e1);
            if str_eq_ignore_ascii_case(key, "unix.mode") && value_is_hazardous(
                line,
                e1 + 1,
                e2,
            ) {
                proof {
                    assert(spec_hazardous_mode_token(tok));
                }
                return true;
            }
            proof {
                assert(!spec_hazardous_mode_token(tok));
            }
        } else {
            proof {
                assert(!spec_hazardous_mode_token(tok));
            }
        }
        if k == n {
            proof {
                assert(!spec_line_hazard_from(line@, j as int));
            }
            return false;
        }
        proof {
            assert(spec_line_hazard_from(line@, j as int) == spec_line_hazard_from(
                line@,
                k + 1,
            ));
        }
        j = k + 1;
    }
}

/// Relies on suppaftp's `list::File` parsing (`FromStr`: the POSIX
/// `ls -l` format, then the DOS format, then its lenient MLSD/MLST
/// fact format): one raw `LIST` output line; the parse error is
/// dropped, as the caller drops it. The fact-format parser slices the
/// last three bytes off a 3- or 4-byte `unix.mode` value and indexes
/// three characters in them, which panics when the value is not pure
/// ASCII, so such lines are excluded here and rejected by the caller.
/// (Its key comparison lowercases with `str::to_lowercase`, which maps
/// a character to a plain ASCII letter of `unix.mode` only when the
/// character is that ASCII letter in either case, so the
/// ASCII-case-insensitive key match below covers it.)
#[verifier::external_body]
fn long_line_from_str(s: &str) -> (r: Option<suppaftp::list::File>)
    requires
        !spec_list_line_hazard(s@),
{
    <suppaftp::list::File as core::str::FromStr>::from_str(s).ok()
}

/// Relies on chrono's local-timezone reading of a system timestamp
/// (`DateTime::from_timestamp`, `with_timezone(&Local)`, the `Datelike`
/// and `Timelike` getters). The wall-clock fields depend on the
/// machine's timezone, so only their documented ranges are promised
/// (the milliseconds reach 1999 on a leap second). A timestamp before
/// the epoch or past 9999-12-31T23:59:59Z falls back to the epoch, so
/// that adding the local offset in `naive_local` stays far inside
/// chrono's representable range and cannot panic.
#[verifier::external_body]
fn system_time_to_local_datetime(t: std::time::SystemTime) -> (r: MlstDateTime)
    ensures
        1 <= r.month <= 12,
        1 <= r.day <= 31,
        r.hour <= 23,
        r.minute <= 59,
        r.second <= 59,
        r.millisecond <= 1999,
{
    let utc = t.duration_since(std::time::UNIX_EPOCH).ok()
        .and_then(|d| i64::try_from(d.as_secs()).ok().map(|s| (s, d.subsec_nanos())))
        .filter(|p| p.0 <= 253402300799)
        .and_then(|(s, ns)| chrono::DateTime::from_timestamp(s, ns))
        .unwrap_or(chrono::DateTime::UNIX_EPOCH);
    let dt = utc.with_timezone(&chrono::Local).naive_local();
    MlstDateTime {
        year: dt.year(),
        month: dt.month() as u8,
        day: dt.day() as u8,
        hour: dt.hour() as u8,
        minute: dt.minute() as u8,
        second: dt.second() as u8,
        millisecond: utc.timestamp_subsec_millis() as u16,
    }
}

/// The 3-bit mask with the given read, write and execute bits.
pub open spec fn spec_pex_mask(r: bool, w: bool, x: bool) -> u8 {
    ((if r {
        4int
    } else {
        0int
    }) + (if w {
        2int
    } else {
        0int
    }) + (if x {
        1int
    } else {
        0int
    })) as u8
}

fn pex_mask(r: bool, w: bool, x: bool) -> (m: u8)
    ensures
        m == spec_pex_mask(r, w, x),
        m <= 7,
{
    (if r {
        4u8
    } else {
        0u8
    }) + (if w {
        2u8
    } else {
        0u8
    }) + (if x {
        1u8
    } else {
        0u8
    })
}

/// Reads a parsed `LIST` entry out into plain values: the name, the
/// directory flag, the size, the modified time in local wall-clock
/// terms, the numeric ids, and one 3-bit mask per permission class.
pub fn read_long_entry(f: &suppaftp::list::File) -> (r: LongListEntry)
    ensures
        r.owner_pex <= 7,
        r.group_pex <= 7,
        r.other_pex <= 7,
{
    let name = file_name(f);
    let is_dir = f.is_directory();
    let size = f.size() as u64;
    let modified = system_time_to_local_datetime(f.modified());
    let uid = f.uid();
    let gid = f.gid();
    let owner_pex = pex_mask(
        file_can_read(f, PexWho::Owner),
        file_can_write(f, PexWho::Owner),
        file_can_execute(f, PexWho::Owner),
    );
    let group_pex = pex_mask(
        file_can_read(f, PexWho::Group),
        file_can_write(f, PexWho::Group),
        file_can_execute(f, PexWho::Group),
    );
    let other_pex = pex_mask(
        file_can_read(f, PexWho::Others),
        file_can_write(f, PexWho::Others),
        file_can_execute(f, PexWho::Others),
    );
    LongListEntry { name, is_dir, size, modified, uid, gid, owner_pex, group_pex, other_pex }
}

/// Parses one raw `LIST` output line into a canonical entry, through
/// suppaftp's long-listing parser and the adapter; nothing when the
/// line fits none of the shapes that parser knows, and nothing for a
/// line carrying a `unix.mode` fact that parser would panic on.
pub fn parse_list_line(line: &str) -> (r: Option<FtpItem>)
    ensures
        r matches Some(item) ==> exists|e: SpecLongEntry| item@ == spec_list_to_ftp(e),
        spec_list_line_hazard(line@) ==> r is None,
{
    if line_has_hazardous_mode_fact(line) {
        return None;
    }
    match long_line_from_str(line) {
        Some(f) => {
            let entry = read_long_entry(&f);
            let item = list_to_ftp(&entry);
            proof {
                assert(item@ == spec_list_to_ftp(entry@));
            }
            Some(item)
        },
        None => None,
    }
}

} // verus!

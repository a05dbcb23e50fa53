//! The MLST machinery: recognized fact names, the fact list advertised
//! under the FEAT `MLST` keyword, and the per-line fact parser.

use vstd::prelude::*;
use crate::ParseError;
use crate::chars::{spec_lower, spec_trim, lower_string, str_eq, trim_range, push_char};
use crate::datetime::{MlstDateTime, spec_parse_mlst_date, parse_mlst_date};
use crate::num::{spec_uint_ok, spec_uint_val, parse_uint};
use crate::perms::{MlstFilePermissions, spec_parse_perms};
use crate::types::{FtpItemType, FtpItem, SpecFtpItem, spec_parse_item_type, spec_pairs_map};

verus! {

/// The mathematical reading of a fact name.
pub ghost enum SpecFact {
    Other(Seq<char>),
    Ty,
    Size,
    Modify,
    Create,
    Unique,
    Perm,
    Lang,
    MediaType,
    Charset,
    UnixOwner,
    UnixOwnerName,
    UnixGroup,
    UnixGroupName,
    UnixMode,
}

/// A recognized MLST fact name, or `Other` carrying the lowercased
/// name of an unrecognized one.
#[derive(Debug, Clone)]
pub enum MlstFact {
    Other(String),
    Ty,
    Size,
    Modify,
    Create,
    Unique,
    Perm,
    Lang,
    MediaType,
    Charset,
    UnixOwner,
    UnixOwnerName,
    UnixGroup,
    UnixGroupName,
    UnixMode,
}

impl View for MlstFact {
    type V = SpecFact;

    open spec fn view(&self) -> SpecFact {
        match self {
            MlstFact::Other(s) => SpecFact::Other(s@),
            MlstFact::Ty => SpecFact::Ty,
            MlstFact::Size => SpecFact::Size,
            MlstFact::Modify => SpecFact::Modify,
            MlstFact::Create => SpecFact::Create,
            MlstFact::Unique => SpecFact::Unique,
            MlstFact::Perm => SpecFact::Perm,
            MlstFact::Lang => SpecFact::Lang,
            MlstFact::MediaType => SpecFact::MediaType,
            MlstFact::Charset => SpecFact::Charset,
            MlstFact::UnixOwner => SpecFact::UnixOwner,
            MlstFact::UnixOwnerName => SpecFact::UnixOwnerName,
            MlstFact::UnixGroup => SpecFact::UnixGroup,
            MlstFact::UnixGroupName => SpecFact::UnixGroupName,
            MlstFact::UnixMode => SpecFact::UnixMode,
        }
    }
}

/// The fact a name denotes, matched case-insensitively; an unrecognized
/// name is kept, lowercased, under `Other`.
pub open spec fn spec_fact_of(s: Seq<char>) -> SpecFact {
    let l = spec_lower(s);
    if l == "size"@ {
        SpecFact::Size
    } else if l == "modify"@ {
        SpecFact::Modify
    } else if l == "create"@ {
        SpecFact::Create
    } else if l == "type"@ {
        SpecFact::Ty
    } else if l == "unique"@ {
        SpecFact::Unique
    } else if l == "perm"@ {
        SpecFact::Perm
    } else if l == "lang"@ {
        SpecFact::Lang
    } else if l == "media-type"@ {
        SpecFact::MediaType
    } else if l == "charset"@ {
        SpecFact::Charset
    } else if l == "unix.owner"@ {
        SpecFact::UnixOwner
    } else if l == "unix.ownername"@ {
        SpecFact::UnixOwnerName
    } else if l == "unix.group"@ {
        SpecFact::UnixGroup
    } else if l == "unix.groupname"@ {
        SpecFact::UnixGroupName
    } else if l == "unix.mode"@ {
        SpecFact::UnixMode
    } else {
        SpecFact::Other(l)
    }
}

impl MlstFact {
    /// Looks a fact name up, case-insensitively.
    pub fn from_name(s: &str) -> (r: MlstFact)
        ensures
            r@ == spec_fact_of(s@),
    {
        let l = lower_string(s);
        if str_eq(l.as_str(), "size") {
            MlstFact::Size
        } else if str_eq(l.as_str(), "modify") {
            MlstFact::Modify
        } else if str_eq(l.as_str(), "create") {
            MlstFact::Create
        } else if str_eq(l.as_str(), "type") {
            MlstFact::Ty
        } else if str_eq(l.as_str(), "unique") {
            MlstFact::Unique
        } else if str_eq(l.as_str(), "perm") {
            MlstFact::Perm
        } else if str_eq(l.as_str(), "lang") {
            MlstFact::Lang
        } else if str_eq(l.as_str(), "media-type") {
            MlstFact::MediaType
        } else if str_eq(l.as_str(), "charset") {
            MlstFact::Charset
        } else if str_eq(l.as_str(), "unix.owner") {
            MlstFact::UnixOwner
        } else if str_eq(l.as_str(), "unix.ownername") {
            MlstFact::UnixOwnerName
        } else if str_eq(l.as_str(), "unix.group") {
            MlstFact::UnixGroup
        } else if str_eq(l.as_str(), "unix.groupname") {
            MlstFact::UnixGroupName
        } else if str_eq(l.as_str(), "unix.mode") {
            MlstFact::UnixMode
        } else {
            MlstFact::Other(l)
        }
    }
}

/// The first position at or after `j` where `sep` stands, or the length
/// of `s` if there is none.
pub open spec fn spec_first_at(s: Seq<char>, sep: char, j: int) -> int
    decreases s.len() - j,
{
    if j < 0 || j >= s.len() {
        s.len() as int
    } else if s[j] == sep {
        j
    } else {
        spec_first_at(s, sep, j + 1)
    }
}

/// Where the first separator at or after `j` really stands.
pub proof fn lemma_first_at(s: Seq<char>, sep: char, j: int, k: int)
    requires
        0 <= j <= k <= s.len(),
        forall|m: int| j <= m < k ==> s[m] != sep,
        k < s.len() ==> s[k] == sep,
    ensures
        spec_first_at(s, sep, j) == k,
    decreases k - j,
{
    if j < k {
        lemma_first_at(s, sep, j + 1, k);
    }
}

/// One `;`-separated piece of an `MLST` fact list: trimmed; dropped
/// when empty; a trailing `*` marks the fact optional and is stripped
/// before the name lookup.
pub open spec fn spec_feat_of_piece(piece: Seq<char>) -> Option<(SpecFact, bool)> {
    let t = spec_trim(piece);
    if t.len() == 0 {
        None
    } else if t.last() == '*' {
        Some((spec_fact_of(t.drop_last()), true))
    } else {
        Some((spec_fact_of(t), false))
    }
}

/// The fact list read off the tail of `s` starting at `j`, piece by
/// `;`-separated piece.
pub open spec fn spec_feat_from(s: Seq<char>, j: int) -> Seq<(SpecFact, bool)>
    decreases s.len() - j + 1,
    via spec_feat_from_decreases
{
    if j < 0 || j > s.len() {
        Seq::empty()
    } else {
        let k = spec_first_at(s, ';', j);
        let rest = if k == s.len() {
            Seq::empty()
        } else {
            spec_feat_from(s, k + 1)
        };
        match spec_feat_of_piece(s.subrange(j, k)) {
            Some(p) => seq![p] + rest,
            None => rest,
        }
    }
}

#[via_fn]
proof fn spec_feat_from_decreases(s: Seq<char>, j: int) {
    if 0 <= j <= s.len() {
        lemma_first_at_ge(s, ';', j);
    }
}

/// What the fact-list parser returns for an `MLST` FEAT remainder.
pub open spec fn spec_parse_mlst_feat(s: Seq<char>) -> Seq<(SpecFact, bool)> {
    spec_feat_from(s, 0)
}

/// The mathematical reading of a parsed fact list.
pub open spec fn spec_facts_view(s: Seq<(MlstFact, bool)>) -> Seq<(SpecFact, bool)> {
    s.map_values(|p: (MlstFact, bool)| (p.0@, p.1))
}

/// The first-separator position lies between `j` and the length, with
/// no separator before it.
pub proof fn lemma_first_at_ge(s: Seq<char>, sep: char, j: int)
    requires
        0 <= j <= s.len(),
    ensures
        j <= spec_first_at(s, sep, j) <= s.len(),
        spec_first_at(s, sep, j) < s.len() ==> s[spec_first_at(s, sep, j)] == sep,
        forall|m: int| j <= m < spec_first_at(s, sep, j) ==> s[m] != sep,
    decreases s.len() - j,
{
    if j < s.len() && s[j] != sep {
        lemma_first_at_ge(s, sep, j + 1);
    }
}

/// Parses the fact list that a server advertises under the FEAT `MLST`
/// keyword: split on `;`, each piece trimmed, empty pieces dropped, a
/// trailing `*` recorded as the server's optional marker.
pub fn parse_mlst_feat(line: &str) -> (r: Vec<(MlstFact, bool)>)
    ensures
        spec_facts_view(r@) == spec_parse_mlst_feat(line@),
{
    let n = line.unicode_len();
    let mut out: Vec<(MlstFact, bool)> = Vec::new();
    let mut j: usize = 0;
    proof {
        assert(spec_facts_view(out@) =~= Seq::<(SpecFact, bool)>::empty());
        assert(spec_facts_view(out@) + spec_feat_from(line@, 0) =~= spec_parse_mlst_feat(line@));
    }
    loop
        invariant_except_break
            j <= n,
            n == line@.len(),
            spec_facts_view(out@) + spec_feat_from(line@, j as int) =~= spec_parse_mlst_feat(
                line@,
            ),
        ensures
            spec_facts_view(out@) =~= spec_parse_mlst_feat(line@),
        decreases n + 1 - j,
    {
        // find the next separator
        let mut k = j;
        while k < n && line.get_char(k) != ';'
            invariant
                j <= k <= n == line@.len(),
                forall|m: int| j <= m < k ==> line@[m] != ';',
            decreases n - k,
        {
            k = k + 1;
        }
        proof {
            lemma_first_at(line@, ';', j as int, k as int);
        }
        let ghost piece = line@.subrange(j as int, k as int);
        let (a, b) = trim_range(line, j, k);
        if a == b {
            proof {
                assert(spec_trim(piece) =~= line@.subrange(a as int, b as int));
                assert(spec_feat_of_piece(piece) is None);
            }
        } else {
            let star = line.get_char(b - 1) == '*';
            let fact_end = if star {
                b - 1
            } else {
                b
            };
            let ghost t = spec_trim(piece);
            proof {
                assert(t =~= line@.subrange(a as int, b as int));
                assert(t.last() == line@[b - 1]);
                if star {
                    assert(t.drop_last() =~= line@.subrange(a as int, (b - 1) as int));
                }
            }
            let name = line.substring_char(a, fact_end);
            let fact = MlstFact::from_name(name);
            let ghost old_out = out@;
            out.push((fact, star));
            proof {
                assert(out@.drop_last() =~= old_out);
                assert(spec_facts_view(out@) =~= spec_facts_view(old_out).push(
                    (fact@, star),
                ));
                assert(spec_feat_of_piece(piece) == Some::<(SpecFact, bool)>((fact@, star)));
            }
        }
        if k == n {
            proof {
                assert(spec_feat_from(line@, j as int) == (match spec_feat_of_piece(piece) {
                    Some(p) => seq![p] + Seq::<(SpecFact, bool)>::empty(),
                    None => Seq::<(SpecFact, bool)>::empty(),
                }));
                assert(spec_facts_view(out@) =~= spec_parse_mlst_feat(line@));
            }
            break ;
        }
        proof {
            assert(spec_feat_from(line@, j as int) == (match spec_feat_of_piece(piece) {
                Some(p) => seq![p] + spec_feat_from(line@, k + 1),
                None => spec_feat_from(line@, k + 1),
            }));
            assert(spec_facts_view(out@) + spec_feat_from(line@, k + 1) =~= spec_parse_mlst_feat(
                line@,
            ));
        }
        j = k + 1;
    }
    out
}

/// The facts gathered while scanning one line, before the filename and
/// the mandatory `type` are checked.
pub ghost struct SpecAccum {
    pub ty: Option<FtpItemType>,
    pub size: Option<u64>,
    pub modified: Option<MlstDateTime>,
    pub created: Option<MlstDateTime>,
    pub unique: Option<Seq<char>>,
    pub perm: Option<MlstFilePermissions>,
    pub lang: Option<Seq<char>>,
    pub media_type: Option<Seq<char>>,
    pub charset: Option<Seq<char>>,
    pub unix_owner: Option<u32>,
    pub unix_ownername: Option<Seq<char>>,
    pub unix_group: Option<u32>,
    pub unix_groupname: Option<Seq<char>>,
    pub unix_mode: Option<u16>,
    pub others: Option<Map<Seq<char>, Seq<char>>>,
}

/// The accumulator before any fact was seen.
pub open spec fn spec_accum_empty() -> SpecAccum {
    SpecAccum {
        ty: None,
        size: None,
        modified: None,
        created: None,
        unique: None,
        perm: None,
        lang: None,
        media_type: None,
        charset: None,
        unix_owner: None,
        unix_ownername: None,
        unix_group: None,
        unix_groupname: None,
        unix_mode: None,
        others: None,
    }
}

/// One completed `name=value` pair dispatched onto the accumulator, by
/// fact kind: numbers are decoded (`size` in decimal, the unix ids in
/// decimal, `unix.mode` in octal), timestamps and the type and the
/// permission letters go through their decoders, the verbatim facts are
/// stored as they came, and an unrecognized fact lands in the
/// unrecognized-fact map, overwriting an earlier value for its name.
pub open spec fn spec_apply_fact(acc: SpecAccum, name: Seq<char>, value: Seq<char>) -> Result<
    SpecAccum,
    ParseError,
> {
    match spec_fact_of(name) {
        SpecFact::Size => if spec_uint_ok(value, 10) && spec_uint_val(value, 10) <= u64::MAX {
            Ok(SpecAccum { size: Some(spec_uint_val(value, 10) as u64), ..acc })
        } else {
            Err(ParseError::BadSize)
        },
        SpecFact::Modify => match spec_parse_mlst_date(value) {
            Some(d) => Ok(SpecAccum { modified: Some(d), ..acc }),
            None => Err(ParseError::InvalidDate),
        },
        SpecFact::Create => match spec_parse_mlst_date(value) {
            Some(d) => Ok(SpecAccum { created: Some(d), ..acc }),
            None => Err(ParseError::InvalidDate),
        },
        SpecFact::Ty => match spec_parse_item_type(value) {
            Ok(t) => Ok(SpecAccum { ty: Some(t), ..acc }),
            Err(e) => Err(e),
        },
        SpecFact::Unique => Ok(SpecAccum { unique: Some(value), ..acc }),
        SpecFact::Perm => match spec_parse_perms(value) {
            Ok(p) => Ok(SpecAccum { perm: Some(p), ..acc }),
            Err(e) => Err(e),
        },
        SpecFact::Lang => Ok(SpecAccum { lang: Some(value), ..acc }),
        SpecFact::MediaType => Ok(SpecAccum { media_type: Some(value), ..acc }),
        SpecFact::Charset => Ok(SpecAccum { charset: Some(value), ..acc }),
        SpecFact::UnixOwner => if spec_uint_ok(value, 10) && spec_uint_val(value, 10)
            <= u32::MAX {
            Ok(SpecAccum { unix_owner: Some(spec_uint_val(value, 10) as u32), ..acc })
        } else {
            Err(ParseError::SyntaxError)
        },
        SpecFact::UnixOwnerName => Ok(SpecAccum { unix_ownername: Some(value), ..acc }),
        SpecFact::UnixGroup => if spec_uint_ok(value, 10) && spec_uint_val(value, 10)
            <= u32::MAX {
            Ok(SpecAccum { unix_group: Some(spec_uint_val(value, 10) as u32), ..acc })
        } else {
            Err(ParseError::SyntaxError)
        },
        SpecFact::UnixGroupName => Ok(SpecAccum { unix_groupname: Some(value), ..acc }),
        SpecFact::UnixMode => if spec_uint_ok(value, 8) && spec_uint_val(value, 8) <= u16::MAX {
            Ok(SpecAccum { unix_mode: Some(spec_uint_val(value, 8) as u16), ..acc })
        } else {
            Err(ParseError::SyntaxError)
        },
        SpecFact::Other(l) => Ok(
            SpecAccum {
                others: Some(
                    (match acc.others {
                        Some(m) => m,
                        None => Map::empty(),
                    }).insert(l, value),
                ),
                ..acc
            },
        ),
    }
}

/// The two states of the line scanner: reading a fact name, or reading
/// a fact value.
#[derive(Debug, Clone, Copy, PartialEq, Eq, Structural)]
pub enum FsmState {
    Name,
    Value,
}

/// The character-scanning machine over a fact line, from position `i`
/// in the given state with the given buffers and accumulator. In the
/// name state a space ends fact parsing (the rest is the filename) if
/// no name has accumulated and is an error otherwise, a semicolon is an
/// error, and an equals sign starts the value. In the value state a
/// space or an equals sign is an error and a semicolon dispatches the
/// pair. Exhausting the line leaves an empty filename.
pub open spec fn spec_scan(
    line: Seq<char>,
    i: int,
    st: FsmState,
    name: Seq<char>,
    value: Seq<char>,
    acc: SpecAccum,
) -> Result<(SpecAccum, Seq<char>), ParseError>
    decreases line.len() - i,
{
    if i < 0 || i >= line.len() {
        Ok((acc, Seq::empty()))
    } else {
        let c = line[i];
        match st {
            FsmState::Name => {
                if c == ' ' {
                    if name.len() == 0 {
                        Ok((acc, line.subrange(i + 1, line.len() as int)))
                    } else {
                        Err(ParseError::SyntaxError)
                    }
                } else if c == ';' {
                    Err(ParseError::SyntaxError)
                } else if c == '=' {
                    spec_scan(line, i + 1, FsmState::Value, name, value, acc)
                } else {
                    spec_scan(line, i + 1, FsmState::Name, name.push(c), value, acc)
                }
            },
            FsmState::Value => {
                if c == ' ' || c == '=' {
                    Err(ParseError::SyntaxError)
                } else if c == ';' {
                    if name.len() == 0 {
                        Err(ParseError::SyntaxError)
                    } else {
                        match spec_apply_fact(acc, name, value) {
                            Ok(a) => spec_scan(
                                line,
                                i + 1,
                                FsmState::Name,
                                Seq::empty(),
                                Seq::empty(),
                                a,
                            ),
                            Err(e) => Err(e),
                        }
                    }
                } else {
                    spec_scan(line, i + 1, FsmState::Value, name, value.push(c), acc)
                }
            },
        }
    }
}

/// The record assembled from the accumulator, the filename and the
/// mandatory type.
pub open spec fn spec_accum_item(acc: SpecAccum, name: Seq<char>, ty: FtpItemType) -> SpecFtpItem {
    SpecFtpItem {
        name: name,
        ty: ty,
        size: acc.size,
        modified: acc.modified,
        created: acc.created,
        unique: acc.unique,
        perm: acc.perm,
        lang: acc.lang,
        media_type: acc.media_type,
        charset: acc.charset,
        unix_owner: acc.unix_owner,
        unix_ownername: acc.unix_ownername,
        unix_group: acc.unix_group,
        unix_groupname: acc.unix_groupname,
        unix_mode: acc.unix_mode,
        others: acc.others,
    }
}

/// What the fact-line parser returns: the scan's facts and filename,
/// with an empty filename and a missing `type` fact each a syntax
/// error.
pub open spec fn spec_parse_mlst_line(line: Seq<char>) -> Result<SpecFtpItem, ParseError> {
    match spec_scan(line, 0, FsmState::Name, Seq::empty(), Seq::empty(), spec_accum_empty()) {
        Err(e) => Err(e),
        Ok((acc, fname)) => if fname.len() == 0 {
            Err(ParseError::SyntaxError)
        } else {
            match acc.ty {
                None => Err(ParseError::SyntaxError),
                Some(ty) => Ok(spec_accum_item(acc, fname, ty)),
            }
        },
    }
}

/// Every successfully parsed entry carries a non-empty name; its type
/// is present by construction.
pub proof fn lemma_parsed_entry_has_a_name(line: Seq<char>)
    ensures
        spec_parse_mlst_line(line) matches Ok(item) ==> item.name.len() > 0,
{
}

/// A line whose facts scanned cleanly but carried no `type` fact is
/// rejected as a syntax error, whatever its other facts said.
pub proof fn lemma_missing_type_is_syntax_error(line: Seq<char>)
    requires
        ({
            let scanned = spec_scan(
                line,
                0,
                FsmState::Name,
                Seq::empty(),
                Seq::empty(),
                spec_accum_empty(),
            );
            scanned is Ok && scanned->Ok_0.0.ty is None
        }),
    ensures
        spec_parse_mlst_line(line) == Err::<SpecFtpItem, ParseError>(ParseError::SyntaxError),
{
}

struct FactAccum {
    ty: Option<FtpItemType>,
    size: Option<u64>,
    modified: Option<MlstDateTime>,
    created: Option<MlstDateTime>,
    unique: Option<String>,
    perm: Option<MlstFilePermissions>,
    lang: Option<String>,
    media_type: Option<String>,
    charset: Option<String>,
    unix_owner: Option<u32>,
    unix_ownername: Option<String>,
    unix_group: Option<u32>,
    unix_groupname: Option<String>,
    unix_mode: Option<u16>,
    others: Option<Vec<(String, String)>>,
}

impl View for FactAccum {
    type V = SpecAccum;

    closed spec fn view(&self) -> SpecAccum {
        SpecAccum {
            ty: self.ty,
            size: self.size,
            modified: self.modified,
            created: self.created,
            unique: self.unique.deep_view(),
            perm: self.perm,
            lang: self.lang.deep_view(),
            media_type: self.media_type.deep_view(),
            charset: self.charset.deep_view(),
            unix_owner: self.unix_owner,
            unix_ownername: self.unix_ownername.deep_view(),
            unix_group: self.unix_group,
            unix_groupname: self.unix_groupname.deep_view(),
            unix_mode: self.unix_mode,
            others: match self.others {
                Some(v) => Some(spec_pairs_map(v@)),
                None => None,
            },
        }
    }
}

impl FactAccum {
    fn new() -> (r: FactAccum)
        ensures
            r@ == spec_accum_empty(),
    {
        FactAccum {
            ty: None,
            size: None,
            modified: None,
            created: None,
            unique: None,
            perm: None,
            lang: None,
            media_type: None,
            charset: None,
            unix_owner: None,
            unix_ownername: None,
            unix_group: None,
            unix_groupname: None,
            unix_mode: None,
            others: None,
        }
    }
}

/// One completed `name=value` pair dispatched onto the accumulator.
fn apply_fact(acc: &mut FactAccum, name: &String, value: &String) -> (r: Result<(), ParseError>)
    ensures
        match r {
            Ok(_) => spec_apply_fact(old(acc)@, name@, value@) == Ok::<SpecAccum, ParseError>(
                final(acc)@,
            ),
            Err(e) => spec_apply_fact(old(acc)@, name@, value@) == Err::<SpecAccum, ParseError>(e),
        },
{
    let vlen = value.as_str().unicode_len();
    proof {
        assert(value@.subrange(0, vlen as int) =~= value@);
    }
    match MlstFact::from_name(name.as_str()) {
        MlstFact::Size => {
            match parse_uint(value.as_str(), 0, vlen, 10, u64::MAX) {
                Some(v) => {
                    acc.size = Some(v);
                    Ok(())
                },
                None => Err(ParseError::BadSize),
            }
        },
        MlstFact::Modify => {
            match parse_mlst_date(value.as_str()) {
                Some(d) => {
                    acc.modified = Some(d);
                    Ok(())
                },
                None => Err(ParseError::InvalidDate),
            }
        },
        MlstFact::Create => {
            match parse_mlst_date(value.as_str()) {
                Some(d) => {
                    acc.created = Some(d);
                    Ok(())
                },
                None => Err(ParseError::InvalidDate),
            }
        },
        MlstFact::Ty => {
            match FtpItemType::parse(value.as_str()) {
                Ok(t) => {
                    acc.ty = Some(t);
                    Ok(())
                },
                Err(e) => Err(e),
            }
        },
        MlstFact::Unique => {
            acc.unique = Some(value.clone());
            Ok(())
        },
        MlstFact::Perm => {
            match MlstFilePermissions::parse(value.as_str()) {
                Ok(p) => {
                    acc.perm = Some(p);
                    Ok(())
                },
                Err(e) => Err(e),
            }
        },
        MlstFact::Lang => {
            acc.lang = Some(value.clone());
            Ok(())
        },
        MlstFact::MediaType => {
            acc.media_type = Some(value.clone());
            Ok(())
        },
        MlstFact::Charset => {
            acc.charset = Some(value.clone());
            Ok(())
        },
        MlstFact::UnixOwner => {
            match parse_uint(value.as_str(), 0, vlen, 10, u32::MAX as u64) {
                Some(v) => {
                    acc.unix_owner = Some(v as u32);
                    Ok(())
                },
                None => Err(ParseError::SyntaxError),
            }
        },
        MlstFact::UnixOwnerName => {
            acc.unix_ownername = Some(value.clone());
            Ok(())
        },
        MlstFact::UnixGroup => {
            match parse_uint(value.as_str(), 0, vlen, 10, u32::MAX as u64) {
                Some(v) => {
                    acc.unix_group = Some(v as u32);
                    Ok(())
                },
                None => Err(ParseError::SyntaxError),
            }
        },
        MlstFact::UnixGroupName => {
            acc.unix_groupname = Some(value.clone());
            Ok(())
        },
        MlstFact::UnixMode => {
            match parse_uint(value.as_str(), 0, vlen, 8, u16::MAX as u64) {
                Some(v) => {
                    acc.unix_mode = Some(v as u16);
                    Ok(())
                },
                None => Err(ParseError::SyntaxError),
            }
        },
        MlstFact::Other(l) => {
            let ghost prev = acc@.others;
            match acc.others {
                Some(ref mut v) => {
                    let ghost oldv = v@;
                    v.push((l, value.clone()));
                    proof {
                        assert(v@.drop_last() =~= oldv);
                    }
                },
                None => {
                    let mut v: Vec<(String, String)> = Vec::new();
                    proof {
                        assert(spec_pairs_map(v@) =~= Map::<Seq<char>, Seq<char>>::empty());
                    }
                    let ghost empty_v = v@;
                    v.push((l, value.clone()));
                    proof {
                        assert(v@.drop_last() =~= empty_v);
                    }
                    acc.others = Some(v);
                },
            }
            Ok(())
        },
    }
}

/// Parses one MLSD/MLST response line of the form
/// `fact1=val1;fact2=val2; filename`. Everything after the single space
/// that ends the facts is the filename, unparsed; the `type` fact and a
/// non-empty filename are mandatory. Malformed input yields a typed
/// error, never a panic.
pub fn parse_mlst_line(line: &str) -> (r: Result<FtpItem, ParseError>)
    ensures
        match r {
            Ok(item) => spec_parse_mlst_line(line@) == Ok::<SpecFtpItem, ParseError>(item@),
            Err(e) => spec_parse_mlst_line(line@) == Err::<SpecFtpItem, ParseError>(e),
        },
{
    let n = line.unicode_len();
    let mut acc = FactAccum::new();
    let mut name_buf = String::new();
    let mut value_buf = String::new();
    let mut st = FsmState::Name;
    let mut i: usize = 0;
    let mut fname_start: usize = n;
    loop
        invariant_except_break
            i <= n,
            n == line@.len(),
            spec_scan(
                line@,
                0,
                FsmState::Name,
                Seq::empty(),
                Seq::empty(),
                spec_accum_empty(),
            ) == spec_scan(line@, i as int, st, name_buf@, value_buf@, acc@),
        ensures
            fname_start <= n == line@.len(),
            spec_scan(
                line@,
                0,
                FsmState::Name,
                Seq::empty(),
                Seq::empty(),
                spec_accum_empty(),
            ) == Ok::<(SpecAccum, Seq<char>), ParseError>(
                (acc@, line@.subrange(fname_start as int, n as int)),
            ),
        decreases n - i,
    {
        if i >= n {
            proof {
                assert(line@.subrange(n as int, n as int) =~= Seq::<char>::empty());
            }
            fname_start = n;
            break ;
        }
        let c = line.get_char(i);
        let ghost g_st = st;
        let ghost g_name = name_buf@;
        let ghost g_value = value_buf@;
        let ghost g_acc = acc@;
        match st {
            FsmState::Name => {
                if c == ' ' {
                    if name_buf.as_str().is_empty() {
                        fname_start = i + 1;
                        break ;
                    } else {
                        return Err(ParseError::SyntaxError);
                    }
                } else if c == ';' {
                    return Err(ParseError::SyntaxError);
                } else if c == '=' {
                    st = FsmState::Value;
                } else {
                    push_char(&mut name_buf, c);
                }
            },
            FsmState::Value => {
                if c == ' ' || c == '=' {
                    return Err(ParseError::SyntaxError);
                } else if c == ';' {
                    if name_buf.as_str().is_empty() {
                        return Err(ParseError::SyntaxError);
                    }
                    match apply_fact(&mut acc, &name_buf, &value_buf) {
                        Ok(_) => {
                            name_buf = String::new();
                            value_buf = String::new();
                            st = FsmState::Name;
                        },
                        Err(e) => {
                            return Err(e);
                        },
                    }
                } else {
                    push_char(&mut value_buf, c);
                }
            },
        }
        i = i + 1;
    }
    let fname_str = line.substring_char(fname_start, n);
    if fname_str.is_empty() {
        return Err(ParseError::SyntaxError);
    }
    let name = fname_str.to_owned();
    let ty = match acc.ty {
        Some(t) => t,
        None => {
            return Err(ParseError::SyntaxError);
        },
    };
    let item = FtpItem {
        name,
        ty,
        size: acc.size,
        modified: acc.modified,
        created: acc.created,
        unique: acc.unique,
        perm: acc.perm,
        lang: acc.lang,
        media_type: acc.media_type,
        charset: acc.charset,
        unix_owner: acc.unix_owner,
        unix_ownername: acc.unix_ownername,
        unix_group: acc.unix_group,
        unix_groupname: acc.unix_groupname,
        unix_mode: acc.unix_mode,
        others: acc.others,
    };
    Ok(item)
}

} // verus!

//! The canonical records: the entry type, the file entry that an
//! MLST/MLSD fact line describes, and a directory listing folded from
//! such entries.

use vstd::prelude::*;
use crate::ParseError;
use crate::chars::{spec_lower, str_eq_ignore_ascii_case};
use crate::datetime::MlstDateTime;
use crate::perms::MlstFilePermissions;

verus! {

/// What kind of entry a fact line describes: a regular file, a
/// directory, or the `.` / `..` pseudo-entries.
#[derive(Debug, Clone, Copy, PartialEq, Eq, Structural)]
pub enum FtpItemType {
    File,
    Dir,
    CurrentDir,
    ParentDir,
}

impl FtpItemType {
    /// Everything but a regular file counts as a directory.
    pub fn is_dir(&self) -> (r: bool)
        ensures
            r == (*self != FtpItemType::File),
    {
        match self {
            FtpItemType::File => false,
            _ => true,
        }
    }

    /// Decodes a `type` fact value, case-insensitively: `file`, `cdir`,
    /// `pdir` or `dir`; anything else is a syntax error.
    pub fn parse(s: &str) -> (r: Result<FtpItemType, ParseError>)
        ensures
            r == spec_parse_item_type(s@),
    {
        proof {
            reveal_strlit("file");
            reveal_strlit("cdir");
            reveal_strlit("pdir");
            reveal_strlit("dir");
            assert(spec_lower("file"@) =~= "file"@);
            assert(spec_lower("cdir"@) =~= "cdir"@);
            assert(spec_lower("pdir"@) =~= "pdir"@);
            assert(spec_lower("dir"@) =~= "dir"@);
        }
        if str_eq_ignore_ascii_case(s, "file") {
            Ok(FtpItemType::File)
        } else if str_eq_ignore_ascii_case(s, "cdir") {
            Ok(FtpItemType::CurrentDir)
        } else if str_eq_ignore_ascii_case(s, "pdir") {
            Ok(FtpItemType::ParentDir)
        } else if str_eq_ignore_ascii_case(s, "dir") {
            Ok(FtpItemType::Dir)
        } else {
            Err(ParseError::SyntaxError)
        }
    }
}

/// What the `type` fact decoder returns, over the lowercased value.
pub open spec fn spec_parse_item_type(s: Seq<char>) -> Result<FtpItemType, ParseError> {
    let l = spec_lower(s);
    if l == "file"@ {
        Ok(FtpItemType::File)
    } else if l == "cdir"@ {
        Ok(FtpItemType::CurrentDir)
    } else if l == "pdir"@ {
        Ok(FtpItemType::ParentDir)
    } else if l == "dir"@ {
        Ok(FtpItemType::Dir)
    } else {
        Err(ParseError::SyntaxError)
    }
}

/// The mathematical reading of the unrecognized-fact pairs: a map in
/// which a later pair for the same name overwrites an earlier one.
pub open spec fn spec_pairs_map(s: Seq<(String, String)>) -> Map<Seq<char>, Seq<char>>
    decreases s.len(),
{
    if s.len() == 0 {
        Map::empty()
    } else {
        spec_pairs_map(s.drop_last()).insert(s.last().0@, s.last().1@)
    }
}

/// The mathematical reading of a file entry.
pub ghost struct SpecFtpItem {
    pub name: Seq<char>,
    pub ty: FtpItemType,
    pub size: Option<u64>,
    pub modified: Option<MlstDateTime>,
    pub created: Option<MlstDateTime>,
    pub unique: Option<Seq<char>>,
    pub perm: Option<MlstFilePermissions>,
    pub lang: Option<Seq<char>>,
    pub media_type: Option<Seq<char>>,
    pub charset: Option<Seq<char>>,
    pub unix_owner: Option<u32>,
    pub unix_ownername: Option<Seq<char>>,
    pub unix_group: Option<u32>,
    pub unix_groupname: Option<Seq<char>>,
    pub unix_mode: Option<u16>,
    pub others: Option<Map<Seq<char>, Seq<char>>>,
}

/// The canonical file-entry record read off one MLST/MLSD fact line:
/// a name and a type, always present, and the optional facts around
/// them. Unrecognized facts are kept as (lowercased name, raw value)
/// pairs in the order seen; in the record's mathematical reading a
/// later pair for the same name overwrites an earlier one.
#[derive(Debug, Clone)]
pub struct FtpItem {
    pub name: String,
    pub ty: FtpItemType,
    pub size: Option<u64>,
    pub modified: Option<MlstDateTime>,
    pub created: Option<MlstDateTime>,
    pub unique: Option<String>,
    pub perm: Option<MlstFilePermissions>,
    pub lang: Option<String>,
    pub media_type: Option<String>,
    pub charset: Option<String>,
    pub unix_owner: Option<u32>,
    pub unix_ownername: Option<String>,
    pub unix_group: Option<u32>,
    pub unix_groupname: Option<String>,
    pub unix_mode: Option<u16>,
    pub others: Option<Vec<(String, String)>>,
}

impl View for FtpItem {
    type V = SpecFtpItem;

    open spec fn view(&self) -> SpecFtpItem {
        SpecFtpItem {
            name: self.name@,
            ty: self.ty,
            size: self.size,
            modified: self.modified,
            created: self.created,
            unique: self.unique.deep_view(),
            perm: self.perm,
            lang: self.lang.deep_view(),
            media_type: self.media_type.deep_view(),
            charset: self.charset.deep_view(),
            unix_owner: self.unix_owner,
            unix_ownername: self.unix_ownername.deep_view(),
            unix_group: self.unix_group,
            unix_groupname: self.unix_groupname.deep_view(),
            unix_mode: self.unix_mode,
            others: match self.others {
                Some(v) => Some(spec_pairs_map(v@)),
                None => None,
            },
        }
    }
}

proof fn lemma_pairs_map_prefix(s: Seq<(String, String)>, i: int, k: Seq<char>)
    requires
        0 <= i <= s.len(),
        forall|j: int| i <= j < s.len() ==> (#[trigger] s[j]).0@ != k,
    ensures
        spec_pairs_map(s).contains_key(k) == spec_pairs_map(s.subrange(0, i)).contains_key(k),
        spec_pairs_map(s).contains_key(k) ==> spec_pairs_map(s)[k] == spec_pairs_map(
            s.subrange(0, i),
        )[k],
    decreases s.len() - i,
{
    if i == s.len() {
        assert(s.subrange(0, i) =~= s);
    } else {
        let t = s.drop_last();
        assert(s.last().0@ != k);
        assert(forall|j: int| i <= j < t.len() ==> (#[trigger] t[j]).0@ != k) by {
            assert(forall|j: int| 0 <= j < t.len() ==> t[j] == s[j]);
        }
        lemma_pairs_map_prefix(t, i, k);
        assert(t.subrange(0, i) =~= s.subrange(0, i));
    }
}

impl FtpItem {
    /// The raw value stored for an unrecognized fact, looked up by the
    /// name as the parser stored it (lowercased); when the line carried
    /// the fact more than once, the latest value wins.
    pub fn get_other(&self, name: &str) -> (r: Option<&String>)
        ensures
            match self@.others {
                None => r is None,
                Some(m) => {
                    if m.contains_key(name@) {
                        r matches Some(v) && v@ == m[name@]
                    } else {
                        r is None
                    }
                },
            },
    {
        match self.others {
            None => None,
            Some(ref v) => {
                let mut i = v.len();
                while i > 0
                    invariant
                        i <= v@.len(),
                        self@.others == Some(spec_pairs_map(v@)),
                        forall|j: int| i <= j < v@.len() ==> (#[trigger] v@[j]).0@ != name@,
                    decreases i,
                {
                    i = i - 1;
                    if crate::chars::str_eq(v[i].0.as_str(), name) {
                        proof {
                            assert(v@.subrange(0, i + 1).drop_last() =~= v@.subrange(0, i as int));
                            assert(v@.subrange(0, i + 1).last() == v@[i as int]);
                            assert(spec_pairs_map(v@.subrange(0, i + 1)).contains_key(name@));
                            assert(spec_pairs_map(v@.subrange(0, i + 1))[name@] == v@[
                                i as int].1@);
                            lemma_pairs_map_prefix(v@, i + 1, name@);
                        }
                        return Some(&v[i].1);
                    }
                }
                proof {
                    assert(v@.subrange(0, 0) =~= Seq::<(String, String)>::empty());
                    lemma_pairs_map_prefix(v@, 0, name@);
                }
                None
            },
        }
    }
}

/// The mathematical reading of a directory listing.
pub ghost struct SpecFtpList {
    pub current: Option<SpecFtpItem>,
    pub parent: Option<SpecFtpItem>,
    pub items: Seq<SpecFtpItem>,
}

/// A directory listing: the `.` and `..` pseudo-entries, when the
/// server sent them, and the remaining entries in server order,
/// duplicates preserved.
#[derive(Debug, Clone)]
pub struct FtpList {
    pub current: Option<FtpItem>,
    pub parent: Option<FtpItem>,
    pub items: Vec<FtpItem>,
}

impl View for FtpList {
    type V = SpecFtpList;

    open spec fn view(&self) -> SpecFtpList {
        SpecFtpList {
            current: match self.current {
                Some(ref i) => Some(i@),
                None => None,
            },
            parent: match self.parent {
                Some(ref i) => Some(i@),
                None => None,
            },
            items: Seq::new(self.items@.len(), |i: int| self.items@[i]@),
        }
    }
}

/// The empty listing.
pub open spec fn spec_ftp_list_empty() -> SpecFtpList {
    SpecFtpList { current: None, parent: None, items: Seq::empty() }
}

impl Default for FtpList {
    /// The empty listing.
    fn default() -> (r: Self)
        ensures
            r@ == spec_ftp_list_empty(),
    {
        let r = FtpList { current: None, parent: None, items: Vec::new() };
        proof {
            assert(r@.items =~= Seq::<SpecFtpItem>::empty());
        }
        r
    }
}

} // verus!

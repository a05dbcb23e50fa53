//! The permission decoder: the MLST `perm` fact's letter string, and the
//! 3-bit read/write/list mask derived from it.

use vstd::prelude::*;
use crate::chars::{spec_lower_char, lower_char};
use crate::ParseError;

verus! {

/// The ten independent capabilities an MLST `perm` fact can assert, one
/// per permission letter (a, c, d, e, f, l, m, p, r, w).
#[derive(Debug, Clone, Copy, PartialEq, Eq, Structural)]
pub struct MlstFilePermissions {
    pub append: bool,
    pub create: bool,
    pub delete: bool,
    pub enter: bool,
    pub rename: bool,
    pub list: bool,
    pub mkdir: bool,
    pub purge: bool,
    pub read: bool,
    pub write: bool,
}

/// The all-false permission set.
pub open spec fn spec_perms_empty() -> MlstFilePermissions {
    MlstFilePermissions {
        append: false,
        create: false,
        delete: false,
        enter: false,
        rename: false,
        list: false,
        mkdir: false,
        purge: false,
        read: false,
        write: false,
    }
}

impl Default for MlstFilePermissions {
    /// The all-false permission set.
    fn default() -> (r: Self)
        ensures
            r == spec_perms_empty(),
    {
        MlstFilePermissions {
            append: false,
            create: false,
            delete: false,
            enter: false,
            rename: false,
            list: false,
            mkdir: false,
            purge: false,
            read: false,
            write: false,
        }
    }
}

/// True for the ten recognized permission letters, lowercased.
pub open spec fn spec_is_perm_letter(c: char) -> bool {
    let l = spec_lower_char(c);
    l == 'a' || l == 'c' || l == 'd' || l == 'e' || l == 'f' || l == 'l' || l == 'm' || l == 'p'
        || l == 'r' || l == 'w'
}

/// One permission letter applied to a set; nothing for an unknown letter.
pub open spec fn spec_apply_perm_letter(p: MlstFilePermissions, c: char) -> Option<
    MlstFilePermissions,
> {
    let l = spec_lower_char(c);
    if l == 'a' {
        Some(MlstFilePermissions { append: true, ..p })
    } else if l == 'c' {
        Some(MlstFilePermissions { create: true, ..p })
    } else if l == 'd' {
        Some(MlstFilePermissions { delete: true, ..p })
    } else if l == 'e' {
        Some(MlstFilePermissions { enter: true, ..p })
    } else if l == 'f' {
        Some(MlstFilePermissions { rename: true, ..p })
    } else if l == 'l' {
        Some(MlstFilePermissions { list: true, ..p })
    } else if l == 'm' {
        Some(MlstFilePermissions { mkdir: true, ..p })
    } else if l == 'p' {
        Some(MlstFilePermissions { purge: true, ..p })
    } else if l == 'r' {
        Some(MlstFilePermissions { read: true, ..p })
    } else if l == 'w' {
        Some(MlstFilePermissions { write: true, ..p })
    } else {
        None
    }
}

/// The permission letters of `s` folded onto `p`, left to right.
pub open spec fn spec_parse_perms_from(p: MlstFilePermissions, s: Seq<char>) -> Result<
    MlstFilePermissions,
    ParseError,
>
    decreases s.len(),
{
    if s.len() == 0 {
        Ok(p)
    } else {
        match spec_apply_perm_letter(p, s[0]) {
            Some(q) => spec_parse_perms_from(q, s.drop_first()),
            None => Err(ParseError::SyntaxError),
        }
    }
}

/// What the permission decoder returns: each recognized letter
/// (case-insensitively) sets its flag; any other character is a syntax
/// error; the empty string is the all-false set.
pub open spec fn spec_parse_perms(s: Seq<char>) -> Result<MlstFilePermissions, ParseError> {
    spec_parse_perms_from(spec_perms_empty(), s)
}

/// Whether some character of `s` lowercases to `c`.
pub open spec fn spec_has_letter(s: Seq<char>, c: char) -> bool {
    exists|i: int| 0 <= i < s.len() && spec_lower_char(#[trigger] s[i]) == c
}

impl MlstFilePermissions {
    /// Decodes a `perm` fact value: every recognized letter, in any case,
    /// any order and with repeats, sets its flag; any other character is
    /// a syntax error. The empty string is the all-false set.
    pub fn parse(s: &str) -> (r: Result<MlstFilePermissions, ParseError>)
        ensures
            r == spec_parse_perms(s@),
    {
        let n = s.unicode_len();
        let mut p = MlstFilePermissions::default();
        let mut i: usize = 0;
        proof {
            assert(s@.subrange(0, n as int) =~= s@);
        }
        while i < n
            invariant
                i <= n == s@.len(),
                spec_parse_perms(s@) == spec_parse_perms_from(
                    p,
                    s@.subrange(i as int, n as int),
                ),
            decreases n - i,
        {
            let ghost rest = s@.subrange(i as int, n as int);
            proof {
                assert(rest.drop_first() =~= s@.subrange(i + 1, n as int));
                assert(rest[0] == s@[i as int]);
            }
            let l = lower_char(s.get_char(i));
            if l == 'a' {
                p.append = true;
            } else if l == 'c' {
                p.create = true;
            } else if l == 'd' {
                p.delete = true;
            } else if l == 'e' {
                p.enter = true;
            } else if l == 'f' {
                p.rename = true;
            } else if l == 'l' {
                p.list = true;
            } else if l == 'm' {
                p.mkdir = true;
            } else if l == 'p' {
                p.purge = true;
            } else if l == 'r' {
                p.read = true;
            } else if l == 'w' {
                p.write = true;
            } else {
                return Err(ParseError::SyntaxError);
            }
            i = i + 1;
        }
        proof {
            assert(s@.subrange(i as int, n as int) =~= Seq::<char>::empty());
        }
        Ok(p)
    }

    /// Packs the read, write and list flags into a 3-bit mask: read is
    /// worth 4, write 2, list 1.
    pub fn as_pex(&self) -> (r: u8)
        ensures
            r == spec_as_pex(*self),
    {
        (if self.read {
            4u8
        } else {
            0u8
        }) + (if self.write {
            2u8
        } else {
            0u8
        }) + (if self.list {
            1u8
        } else {
            0u8
        })
    }
}

/// The 3-bit read/write/list mask of a permission set.
pub open spec fn spec_as_pex(p: MlstFilePermissions) -> u8 {
    ((if p.read {
        4int
    } else {
        0int
    }) + (if p.write {
        2int
    } else {
        0int
    }) + (if p.list {
        1int
    } else {
        0int
    })) as u8
}

proof fn lemma_has_letter_step(s: Seq<char>, c: char)
    requires
        s.len() > 0,
    ensures
        spec_has_letter(s, c) == (spec_lower_char(s[0]) == c || spec_has_letter(
            s.drop_first(),
            c,
        )),
{
    let t = s.drop_first();
    if spec_lower_char(s[0]) == c {
        assert(spec_has_letter(s, c));
    }
    if spec_has_letter(t, c) {
        let i = choose|i: int| 0 <= i < t.len() && spec_lower_char(#[trigger] t[i]) == c;
        assert(t[i] == s[i + 1]);
        assert(spec_lower_char(s[i + 1]) == c);
        assert(spec_has_letter(s, c));
    }
    if spec_has_letter(s, c) && spec_lower_char(s[0]) != c {
        let i = choose|i: int| 0 <= i < s.len() && spec_lower_char(#[trigger] s[i]) == c;
        assert(i != 0);
        assert(t[i - 1] == s[i]);
        assert(spec_lower_char(t[i - 1]) == c);
        assert(spec_has_letter(t, c));
    }
}

#[verifier::rlimit(40)]
proof fn lemma_perms_from_exact(p: MlstFilePermissions, s: Seq<char>)
    ensures
        spec_parse_perms_from(p, s) is Ok <==> (forall|i: int|
            0 <= i < s.len() ==> spec_is_perm_letter(#[trigger] s[i])),
        spec_parse_perms_from(p, s) is Ok ==> {
            let q = spec_parse_perms_from(p, s)->Ok_0;
            &&& q.append == (p.append || spec_has_letter(s, 'a'))
            &&& q.create == (p.create || spec_has_letter(s, 'c'))
            &&& q.delete == (p.delete || spec_has_letter(s, 'd'))
            &&& q.enter == (p.enter || spec_has_letter(s, 'e'))
            &&& q.rename == (p.rename || spec_has_letter(s, 'f'))
            &&& q.list == (p.list || spec_has_letter(s, 'l'))
            &&& q.mkdir == (p.mkdir || spec_has_letter(s, 'm'))
            &&& q.purge == (p.purge || spec_has_letter(s, 'p'))
            &&& q.read == (p.read || spec_has_letter(s, 'r'))
            &&& q.write == (p.write || spec_has_letter(s, 'w'))
        },
        spec_parse_perms_from(p, s) is Err ==> spec_parse_perms_from(p, s) == Result::<
            MlstFilePermissions,
            ParseError,
        >::Err(ParseError::SyntaxError),
    decreases s.len(),
{
    if s.len() == 0 {
        assert(forall|c: char| !spec_has_letter(Seq::<char>::empty(), c));
    } else {
        let t = s.drop_first();
        match spec_apply_perm_letter(p, s[0]) {
            Some(q) => {
                lemma_perms_from_exact(q, t);
                if spec_parse_perms_from(q, t) is Ok {
                    assert forall|i: int| 0 <= i < s.len() implies spec_is_perm_letter(
                        #[trigger] s[i],
                    ) by {
                        if i >= 1 {
                            assert(s[i] == t[i - 1]);
                        }
                    }
                    lemma_has_letter_step(s, 'a');
                    lemma_has_letter_step(s, 'c');
                    lemma_has_letter_step(s, 'd');
                    lemma_has_letter_step(s, 'e');
                    lemma_has_letter_step(s, 'f');
                    lemma_has_letter_step(s, 'l');
                    lemma_has_letter_step(s, 'm');
                    lemma_has_letter_step(s, 'p');
                    lemma_has_letter_step(s, 'r');
                    lemma_has_letter_step(s, 'w');
                } else {
                    assert forall|i: int| 0 <= i < t.len() implies spec_is_perm_letter(
                        #[trigger] t[i],
                    ) == spec_is_perm_letter(s[i + 1]) by {
                        assert(t[i] == s[i + 1]);
                    }
                }
            },
            None => {
                assert(!spec_is_perm_letter(s[0]));
            },
        }
    }
}

/// The permission decoder, exactly: it succeeds precisely when every
/// character is one of the ten permission letters in either case, and
/// then each flag is set precisely when its letter occurs somewhere in
/// the string; any other character yields a syntax error.
pub proof fn lemma_perm_decoder_exact(s: Seq<char>)
    ensures
        spec_parse_perms(s) is Ok <==> (forall|i: int|
            0 <= i < s.len() ==> spec_is_perm_letter(#[trigger] s[i])),
        spec_parse_perms(s) is Ok ==> {
            let q = spec_parse_perms(s)->Ok_0;
            &&& q.append == spec_has_letter(s, 'a')
            &&& q.create == spec_has_letter(s, 'c')
            &&& q.delete == spec_has_letter(s, 'd')
            &&& q.enter == spec_has_letter(s, 'e')
            &&& q.rename == spec_has_letter(s, 'f')
            &&& q.list == spec_has_letter(s, 'l')
            &&& q.mkdir == spec_has_letter(s, 'm')
            &&& q.purge == spec_has_letter(s, 'p')
            &&& q.read == spec_has_letter(s, 'r')
            &&& q.write == spec_has_letter(s, 'w')
        },
        spec_parse_perms(s) is Err ==> spec_parse_perms(s) == Result::<
            MlstFilePermissions,
            ParseError,
        >::Err(ParseError::SyntaxError),
{
    lemma_perms_from_exact(spec_perms_empty(), s);
}

/// The permission decoder depends only on which characters occur,
/// lowercased — not on their order, case or repetition: two strings
/// whose lowercased characters make the same set decode alike.
pub proof fn lemma_perm_decoder_set_determined(a: Seq<char>, b: Seq<char>)
    requires
        forall|c: char| spec_has_letter(a, c) == spec_has_letter(b, c),
    ensures
        spec_parse_perms(a) == spec_parse_perms(b),
{
    lemma_perm_decoder_exact(a);
    lemma_perm_decoder_exact(b);
    if spec_parse_perms(a) is Ok && !(spec_parse_perms(b) is Ok) {
        let j = choose|j: int| 0 <= j < b.len() && !spec_is_perm_letter(#[trigger] b[j]);
        assert(spec_has_letter(b, spec_lower_char(b[j])));
        assert(spec_has_letter(a, spec_lower_char(b[j])));
        let i = choose|i: int|
            0 <= i < a.len() && spec_lower_char(#[trigger] a[i]) == spec_lower_char(b[j]);
        assert(spec_is_perm_letter(a[i]));
        assert(false);
    }
    if spec_parse_perms(b) is Ok && !(spec_parse_perms(a) is Ok) {
        let j = choose|j: int| 0 <= j < a.len() && !spec_is_perm_letter(#[trigger] a[j]);
        assert(spec_has_letter(a, spec_lower_char(a[j])));
        assert(spec_has_letter(b, spec_lower_char(a[j])));
        let i = choose|i: int|
            0 <= i < b.len() && spec_lower_char(#[trigger] b[i]) == spec_lower_char(a[j]);
        assert(spec_is_perm_letter(b[i]));
        assert(false);
    }
    if spec_parse_perms(a) is Ok && spec_parse_perms(b) is Ok {
        assert(spec_parse_perms(a)->Ok_0 == spec_parse_perms(b)->Ok_0);
    }
}

/// The 3-bit mask, exactly: read alone is 4, write alone is 2, list
/// alone is 1, all three are 7, none is 0, and in general the mask is
/// the sum of the bits present.
pub proof fn lemma_as_pex_exact(p: MlstFilePermissions)
    ensures
        p.read && !p.write && !p.list ==> spec_as_pex(p) == 4,
        !p.read && p.write && !p.list ==> spec_as_pex(p) == 2,
        !p.read && !p.write && p.list ==> spec_as_pex(p) == 1,
        p.read && p.write && p.list ==> spec_as_pex(p) == 7,
        !p.read && !p.write && !p.list ==> spec_as_pex(p) == 0,
{
}

} // verus!

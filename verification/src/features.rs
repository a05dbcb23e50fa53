//! The feature-set parser: the FEAT response body, line by line, into a
//! typed server-capability record.

use vstd::prelude::*;
use crate::chars::{spec_trim, spec_lower, trim_range, str_eq, str_eq_ignore_ascii_case};
use crate::mlst::{
    MlstFact,
    SpecFact,
    spec_parse_mlst_feat,
    spec_facts_view,
    parse_mlst_feat,
    spec_first_at,
    lemma_first_at,
};

verus! {

/// The mathematical reading of a server-capability record.
pub ghost struct SpecFeatures {
    pub clnt: bool,
    pub pasv: bool,
    pub utf8: bool,
    pub mdtm: bool,
    pub size: bool,
    pub rest_stream: bool,
    pub tvfs: bool,
    pub mlst: Option<Seq<(SpecFact, bool)>>,
    pub auth_tls: bool,
    pub others: Seq<Seq<char>>,
}

/// The capabilities a server advertised in its FEAT response: one flag
/// per recognized keyword, the fact list advertised under `MLST`, and
/// the unrecognized lines kept verbatim.
#[derive(Debug, Clone)]
pub struct FtpClientFeatures {
    pub clnt: bool,
    pub pasv: bool,
    pub utf8: bool,
    pub mdtm: bool,
    pub size: bool,
    pub rest_stream: bool,
    pub tvfs: bool,
    pub mlst: Option<Vec<(MlstFact, bool)>>,
    pub auth_tls: bool,
    pub others: Vec<String>,
}

impl View for FtpClientFeatures {
    type V = SpecFeatures;

    open spec fn view(&self) -> SpecFeatures {
        SpecFeatures {
            clnt: self.clnt,
            pasv: self.pasv,
            utf8: self.utf8,
            mdtm: self.mdtm,
            size: self.size,
            rest_stream: self.rest_stream,
            tvfs: self.tvfs,
            mlst: match self.mlst {
                Some(ref v) => Some(spec_facts_view(v@)),
                None => None,
            },
            auth_tls: self.auth_tls,
            others: self.others.deep_view(),
        }
    }
}

/// The record before any FEAT line was read: nothing advertised.
pub open spec fn spec_features_default() -> SpecFeatures {
    SpecFeatures {
        clnt: false,
        pasv: false,
        utf8: false,
        mdtm: false,
        size: false,
        rest_stream: false,
        tvfs: false,
        mlst: None,
        auth_tls: false,
        others: Seq::empty(),
    }
}

impl Default for FtpClientFeatures {
    /// The record before any FEAT line was read.
    fn default() -> (r: Self)
        ensures
            r@ == spec_features_default(),
    {
        let r = FtpClientFeatures {
            clnt: false,
            pasv: false,
            utf8: false,
            mdtm: false,
            size: false,
            rest_stream: false,
            tvfs: false,
            mlst: None,
            auth_tls: false,
            others: Vec::new(),
        };
        proof {
            assert(r@.others =~= Seq::<Seq<char>>::empty());
        }
        r
    }
}

/// One FEAT line folded onto the record. The trimmed line splits at its
/// first space into a keyword and a remainder, both trimmed again. The
/// standard keywords are matched case-sensitively; `REST` and `AUTH`
/// count only with remainders `STREAM` / `TLS`, compared
/// case-insensitively; `MLST` stores its parsed fact list; a blank line
/// is skipped; any other line is kept verbatim. No line fails.
pub open spec fn spec_apply_feat_line(f: SpecFeatures, line: Seq<char>) -> SpecFeatures {
    let t = spec_trim(line);
    if t.len() == 0 {
        f
    } else {
        let sp = spec_first_at(t, ' ', 0);
        let fw = spec_trim(t.subrange(0, sp));
        let tail = if sp == t.len() {
            Seq::<char>::empty()
        } else {
            spec_trim(t.subrange(sp + 1, t.len() as int))
        };
        if fw == "CLNT"@ {
            SpecFeatures { clnt: true, ..f }
        } else if fw == "PASV"@ {
            SpecFeatures { pasv: true, ..f }
        } else if fw == "UTF8"@ {
            SpecFeatures { utf8: true, ..f }
        } else if fw == "MDTM"@ {
            SpecFeatures { mdtm: true, ..f }
        } else if fw == "SIZE"@ {
            SpecFeatures { size: true, ..f }
        } else if fw == "REST"@ && spec_lower(tail) == spec_lower("STREAM"@) {
            SpecFeatures { rest_stream: true, ..f }
        } else if fw == "TVFS"@ {
            SpecFeatures { tvfs: true, ..f }
        } else if fw == "MLST"@ {
            SpecFeatures { mlst: Some(spec_parse_mlst_feat(tail)), ..f }
        } else if fw == "AUTH"@ && spec_lower(tail) == spec_lower("TLS"@) {
            SpecFeatures { auth_tls: true, ..f }
        } else {
            SpecFeatures { others: f.others.push(line), ..f }
        }
    }
}

/// The FEAT body folded line by line, in order.
pub open spec fn spec_parse_features(lines: Seq<Seq<char>>) -> SpecFeatures
    decreases lines.len(),
{
    if lines.len() == 0 {
        spec_features_default()
    } else {
        spec_apply_feat_line(spec_parse_features(lines.drop_last()), lines.last())
    }
}

/// One FEAT line folded onto the record.
fn apply_feat_line(f: &mut FtpClientFeatures, line: &String)
    ensures
        final(f)@ == spec_apply_feat_line(old(f)@, line@),
{
    let n = line.as_str().unicode_len();
    proof {
        assert(line@.subrange(0, n as int) =~= line@);
    }
    let (a, b) = trim_range(line.as_str(), 0, n);
    if a == b {
        return ;
    }
    let ghost t = spec_trim(line@);
    proof {
        assert(t =~= line@.subrange(a as int, b as int));
    }
    // the first space of the trimmed line
    let mut k = a;
    while k < b && line.as_str().get_char(k) != ' '
        invariant
            a <= k <= b <= line@.len(),
            forall|m: int| a <= m < k ==> line@[m] != ' ',
        decreases b - k,
    {
        k = k + 1;
    }
    proof {
        assert(forall|m: int| 0 <= m < k - a ==> t[m] == line@[m + a] && t[m] != ' ');
        if k < b {
            assert(t[k - a] == line@[k as int]);
        }
        lemma_first_at(t, ' ', 0, k - a);
    }
    let (fa, fb) = trim_range(line.as_str(), a, k);
    proof {
        assert(t.subrange(0, k - a) =~= line@.subrange(a as int, k as int));
    }
    let fw = line.as_str().substring_char(fa, fb);
    let (ta, tb) = if k < b {
        let p = trim_range(line.as_str(), k + 1, b);
        proof {
            assert(t.subrange(k - a + 1, t.len() as int) =~= line@.subrange(k + 1, b as int));
        }
        p
    } else {
        (b, b)
    };
    let tail = line.as_str().substring_char(ta, tb);
    proof {
        if k == b {
            assert(tail@ =~= Seq::<char>::empty());
        }
    }
    if str_eq(fw, "CLNT") {
        f.clnt = true;
    } else if str_eq(fw, "PASV") {
        f.pasv = true;
    } else if str_eq(fw, "UTF8") {
        f.utf8 = true;
    } else if str_eq(fw, "MDTM") {
        f.mdtm = true;
    } else if str_eq(fw, "SIZE") {
        f.size = true;
    } else if str_eq(fw, "REST") && str_eq_ignore_ascii_case(tail, "STREAM") {
        f.rest_stream = true;
    } else if str_eq(fw, "TVFS") {
        f.tvfs = true;
    } else if str_eq(fw, "MLST") {
        f.mlst = Some(parse_mlst_feat(tail));
    } else if str_eq(fw, "AUTH") && str_eq_ignore_ascii_case(tail, "TLS") {
        f.auth_tls = true;
    } else {
        let ghost old_others = f.others.deep_view();
        f.others.push(line.clone());
        proof {
            assert(f.others.deep_view() =~= old_others.push(line@));
        }
    }
}

impl FtpClientFeatures {
    /// Parses a FEAT response body, given as its lines in order. Parsing
    /// is best-effort per line: no line makes it fail.
    pub fn from_lines(lines: &Vec<String>) -> (r: FtpClientFeatures)
        ensures
            r@ == spec_parse_features(lines.deep_view()),
    {
        let mut f = FtpClientFeatures::default();
        let n = lines.len();
        let mut i: usize = 0;
        proof {
            assert(lines.deep_view().subrange(0, 0) =~= Seq::<Seq<char>>::empty());
        }
        while i < n
            invariant
                i <= n == lines@.len(),
                f@ == spec_parse_features(lines.deep_view().subrange(0, i as int)),
            decreases n - i,
        {
            apply_feat_line(&mut f, &lines[i]);
            proof {
                let dv = lines.deep_view();
                assert(dv.subrange(0, i + 1).drop_last() =~= dv.subrange(0, i as int));
                assert(dv.subrange(0, i + 1).last() == lines@[i as int]@);
            }
            i = i + 1;
        }
        proof {
            assert(lines.deep_view().subrange(0, n as int) =~= lines.deep_view());
        }
        f
    }
}

} // verus!

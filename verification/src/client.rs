//! The session controller: the connection lifecycle, the cached
//! feature set and listing strategy, the single-retry command policy,
//! and the folding of parsed entries into a directory listing.
//!
//! The controller owns the decisions; the blocking I/O itself (connect,
//! login, sending a command) belongs to the control-connection
//! collaborator outside this crate. A driver holds a [`CmdMachine`]
//! beside an [`FtpClient`], performs the action the machine asks for,
//! and reports the outcome back as an event.

use vstd::prelude::*;
use crate::ParseError;
use crate::features::{FtpClientFeatures, spec_parse_features, spec_features_default};
use crate::listing::{SpecLongEntry, spec_list_to_ftp, spec_list_line_hazard, parse_list_line};
use crate::mlst::{parse_mlst_line, spec_parse_mlst_line};
use crate::types::{FtpItem, FtpList, SpecFtpItem, SpecFtpList, FtpItemType, spec_ftp_list_empty};

verus! {

/// Which command the controller uses to obtain a directory listing.
#[derive(Debug, Clone, Copy, PartialEq, Eq, Structural)]
pub enum FtpClientListMode {
    List,
    Nlst,
    Mlsd,
    Stat,
}

/// The configuration surface the session controller consumes.
#[derive(Debug, Clone)]
pub struct FtpClientSettings {
    pub addr: String,
    pub login: String,
    pub password: String,
    pub remote_dir: Option<String>,
    pub use_feat: bool,
    pub use_passive_mode: bool,
    pub list_mode: Option<FtpClientListMode>,
    pub use_secure: bool,
    pub sni: Option<String>,
}

/// The session controller: `Disconnected` or `Connected`, with the
/// feature set negotiated at most once and the listing strategy chosen
/// once, both cached for the controller's whole life — reconnects tear
/// down only the connection.
#[derive(Debug)]
pub struct FtpClient {
    settings: FtpClientSettings,
    settings_list_mode: Option<FtpClientListMode>,
    effective_list_mode: Option<FtpClientListMode>,
    connected: bool,
    has_feat: bool,
    features: FtpClientFeatures,
}

impl FtpClient {
    /// Whether a live connection is held.
    pub closed spec fn spec_connected(&self) -> bool {
        self.connected
    }

    /// Whether feature negotiation has already run.
    pub closed spec fn spec_has_feat(&self) -> bool {
        self.has_feat
    }

    /// The cached feature set.
    pub closed spec fn spec_features(&self) -> crate::features::SpecFeatures {
        self.features@
    }

    /// The configuration the controller was built with.
    pub closed spec fn spec_settings(&self) -> FtpClientSettings {
        self.settings
    }

    /// The listing mode taken over from the configuration, once asked.
    pub closed spec fn spec_settings_list_mode(&self) -> Option<FtpClientListMode> {
        self.settings_list_mode
    }

    /// The cached listing-strategy choice.
    pub closed spec fn spec_effective_list_mode(&self) -> Option<FtpClientListMode> {
        self.effective_list_mode
    }

    /// Whether this reconnect must issue the FEAT command: only when
    /// the configuration asks for feature negotiation and none has run
    /// yet on this controller.
    pub open spec fn spec_needs_feat(&self) -> bool {
        !self.spec_has_feat() && self.spec_settings().use_feat
    }

    /// Everything but the connection flag is as in `other`.
    pub open spec fn spec_caches_as(&self, other: &FtpClient) -> bool {
        &&& self.spec_has_feat() == other.spec_has_feat()
        &&& self.spec_features() == other.spec_features()
        &&& self.spec_settings() == other.spec_settings()
        &&& self.spec_settings_list_mode() == other.spec_settings_list_mode()
        &&& self.spec_effective_list_mode() == other.spec_effective_list_mode()
    }

    /// A fresh controller: disconnected, nothing negotiated, nothing
    /// chosen.
    pub fn new(settings: FtpClientSettings) -> (r: FtpClient)
        ensures
            !r.spec_connected(),
            !r.spec_has_feat(),
            r.spec_features() == spec_features_default(),
            r.spec_settings() == settings,
            r.spec_settings_list_mode() is None,
            r.spec_effective_list_mode() is None,
    {
        FtpClient {
            settings,
            settings_list_mode: None,
            effective_list_mode: None,
            connected: false,
            has_feat: false,
            features: FtpClientFeatures::default(),
        }
    }

    /// Whether a live connection is held.
    pub fn is_connected(&self) -> (r: bool)
        ensures
            r == self.spec_connected(),
    {
        self.connected
    }

    /// Whether the reconnect under way must issue the FEAT command.
    pub fn needs_feat(&self) -> (r: bool)
        ensures
            r == self.spec_needs_feat(),
    {
        !self.has_feat && self.settings.use_feat
    }

    /// The configuration the controller was built with.
    pub fn settings(&self) -> (r: &FtpClientSettings)
        ensures
            *r == self.spec_settings(),
    {
        &self.settings
    }

    /// The cached feature set.
    pub fn features(&self) -> (r: &FtpClientFeatures)
        ensures
            r@ == self.spec_features(),
    {
        &self.features
    }

    /// A reconnect starts: any existing connection is discarded, even
    /// an apparently live one; every cache survives.
    pub fn reconnect_begin(&mut self)
        ensures
            !final(self).spec_connected(),
            final(self).spec_caches_as(old(self)),
    {
        self.connected = false;
    }

    /// The FEAT response arrived: its lines are parsed and the result
    /// is cached for the rest of the controller's life.
    pub fn apply_feat(&mut self, lines: &Vec<String>)
        ensures
            final(self).spec_has_feat(),
            final(self).spec_features() == spec_parse_features(lines.deep_view()),
            final(self).spec_connected() == old(self).spec_connected(),
            final(self).spec_settings() == old(self).spec_settings(),
            final(self).spec_settings_list_mode() == old(self).spec_settings_list_mode(),
            final(self).spec_effective_list_mode() == old(self).spec_effective_list_mode(),
    {
        self.features = FtpClientFeatures::from_lines(lines);
        self.has_feat = true;
    }

    /// The reconnect went through all its steps: the controller is
    /// connected; every cache survives.
    pub fn reconnect_done(&mut self)
        ensures
            final(self).spec_connected(),
            final(self).spec_caches_as(old(self)),
    {
        self.connected = true;
    }

    /// Some step of the reconnect failed: the controller stays
    /// disconnected; every cache survives.
    pub fn reconnect_failed(&mut self)
        ensures
            !final(self).spec_connected(),
            final(self).spec_caches_as(old(self)),
    {
        self.connected = false;
    }

    /// The listing strategy: a cached choice is returned as it is;
    /// otherwise the configuration's choice is taken over and cached;
    /// with no configured choice the long-format `List` is used
    /// without being cached.
    pub fn get_list_mode(&mut self) -> (r: FtpClientListMode)
        ensures
            final(self).spec_connected() == old(self).spec_connected(),
            final(self).spec_has_feat() == old(self).spec_has_feat(),
            final(self).spec_features() == old(self).spec_features(),
            final(self).spec_settings() == old(self).spec_settings(),
            match old(self).spec_effective_list_mode() {
                Some(lm) => {
                    &&& r == lm
                    &&& final(self).spec_settings_list_mode() == old(self).spec_settings_list_mode()
                    &&& final(self).spec_effective_list_mode() == old(self).spec_effective_list_mode()
                },
                None => {
                    let slm = (match old(self).spec_settings_list_mode() {
                        Some(x) => Some(x),
                        None => old(self).spec_settings().list_mode,
                    });
                    &&& final(self).spec_settings_list_mode() == slm
                    &&& (match slm {
                        Some(lm) => r == lm && final(self).spec_effective_list_mode() == Some(lm),
                        None => r == FtpClientListMode::List && final(self).spec_effective_list_mode() is None,
                    })
                },
            },
    {
        match self.effective_list_mode {
            Some(lm) => {
                return lm;
            },
            None => {},
        }
        if self.settings_list_mode.is_none() {
            self.settings_list_mode = self.settings.list_mode;
        }
        match self.settings_list_mode {
            Some(lm) => {
                self.effective_list_mode = Some(lm);
                return lm;
            },
            None => {},
        }
        FtpClientListMode::List
    }
}

/// One parsed entry routed into a listing: the `.` entry into the
/// `current` slot, the `..` entry into the `parent` slot (a later one
/// replacing an earlier), everything else appended in order.
pub open spec fn spec_fold_step(l: SpecFtpList, it: SpecFtpItem) -> SpecFtpList {
    if it.ty == FtpItemType::CurrentDir {
        SpecFtpList { current: Some(it), ..l }
    } else if it.ty == FtpItemType::ParentDir {
        SpecFtpList { parent: Some(it), ..l }
    } else {
        SpecFtpList { items: l.items.push(it), ..l }
    }
}

/// Entries folded into a listing, in order, starting from the empty
/// listing.
pub open spec fn spec_fold_listing(items: Seq<SpecFtpItem>) -> SpecFtpList
    decreases items.len(),
{
    if items.len() == 0 {
        spec_ftp_list_empty()
    } else {
        spec_fold_step(spec_fold_listing(items.drop_last()), items.last())
    }
}

/// The mathematical reading of a sequence of entries.
pub open spec fn spec_items_view(s: Seq<FtpItem>) -> Seq<SpecFtpItem> {
    s.map_values(|it: FtpItem| it@)
}

/// Folds parsed entries into a directory listing, routing the `.` and
/// `..` pseudo-entries into their slots and keeping everything else in
/// server order, duplicates preserved.
pub fn fold_listing(items: Vec<FtpItem>) -> (r: FtpList)
    ensures
        r@ == spec_fold_listing(spec_items_view(items@)),
{
    let ghost orig = spec_items_view(items@);
    let mut items = items;
    let total = items.len();
    proof {
        assert(orig.len() == total as int);
    }
    let mut list = FtpList::default();
    let mut idx: usize = 0;
    proof {
        assert(orig.subrange(0, 0) =~= Seq::<SpecFtpItem>::empty());
        assert(spec_items_view(items@) =~= orig.subrange(0, orig.len() as int));
    }
    while items.len() > 0
        invariant
            idx + items@.len() == orig.len(),
            orig.len() <= usize::MAX,
            spec_items_view(items@) =~= orig.subrange(idx as int, orig.len() as int),
            list@ == spec_fold_listing(orig.subrange(0, idx as int)),
        decreases items@.len(),
    {
        let ghost old_items = items@;
        let ghost old_list = list@;
        let it = items.remove(0);
        proof {
            assert(spec_items_view(old_items)[0] == old_items[0]@);
            assert(spec_items_view(old_items)[0] == orig.subrange(idx as int, orig.len() as int)[0]);
            assert(it@ == orig[idx as int]);
            assert(items@ =~= old_items.subrange(1, old_items.len() as int));
            assert forall|k: int| 0 <= k < items@.len() implies #[trigger] spec_items_view(
                items@,
            )[k] == orig.subrange(idx + 1, orig.len() as int)[k] by {
                assert(spec_items_view(items@)[k] == items@[k]@);
                assert(items@[k] == old_items[k + 1]);
                assert(spec_items_view(old_items)[k + 1] == old_items[k + 1]@);
                assert(spec_items_view(old_items)[k + 1] == orig.subrange(
                    idx as int,
                    orig.len() as int,
                )[k + 1]);
            }
            assert(spec_items_view(items@) =~= orig.subrange(idx + 1, orig.len() as int));
            assert(orig.subrange(0, idx + 1).drop_last() =~= orig.subrange(0, idx as int));
            assert(orig.subrange(0, idx + 1).last() == orig[idx as int]);
        }
        if matches!(it.ty, FtpItemType::CurrentDir) {
            list.current = Some(it);
        } else if matches!(it.ty, FtpItemType::ParentDir) {
            list.parent = Some(it);
        } else {
            let ghost old_view_items = list@.items;
            list.items.push(it);
            proof {
                assert(list@.items =~= old_view_items.push(orig[idx as int]));
            }
        }
        idx = idx + 1;
    }
    proof {
        assert(orig.subrange(0, idx as int) =~= orig);
    }
    list
}

/// The entries read off MLSD response lines, in order, stopping at the
/// first malformed line with its error.
pub open spec fn spec_mlsd_items(lines: Seq<Seq<char>>) -> Result<Seq<SpecFtpItem>, ParseError>
    decreases lines.len(),
{
    if lines.len() == 0 {
        Ok(Seq::empty())
    } else {
        match spec_mlsd_items(lines.drop_last()) {
            Err(e) => Err(e),
            Ok(s) => match spec_parse_mlst_line(lines.last()) {
                Ok(it) => Ok(s.push(it)),
                Err(e) => Err(e),
            },
        }
    }
}

/// What a whole MLSD listing parse returns: fail-fast on the first
/// malformed line, else all entries folded into a listing.
pub open spec fn spec_parse_mlsd_listing(lines: Seq<Seq<char>>) -> Result<
    SpecFtpList,
    ParseError,
> {
    match spec_mlsd_items(lines) {
        Ok(s) => Ok(spec_fold_listing(s)),
        Err(e) => Err(e),
    }
}

proof fn lemma_mlsd_items_err_extends(lines: Seq<Seq<char>>, j: int)
    requires
        0 <= j <= lines.len(),
        spec_mlsd_items(lines.subrange(0, j)) is Err,
    ensures
        spec_mlsd_items(lines) == spec_mlsd_items(lines.subrange(0, j)),
    decreases lines.len() - j,
{
    if j == lines.len() {
        assert(lines.subrange(0, j) =~= lines);
    } else {
        assert(lines.subrange(0, j + 1).drop_last() =~= lines.subrange(0, j));
        lemma_mlsd_items_err_extends(lines, j + 1);
    }
}

/// Parses the lines of an MLSD response into a directory listing. A
/// single malformed line aborts the whole listing with that line's
/// error — a truncated listing must not pass for a complete one.
pub fn parse_mlsd_listing(lines: &Vec<String>) -> (r: Result<FtpList, ParseError>)
    ensures
        match r {
            Ok(l) => spec_parse_mlsd_listing(lines.deep_view()) == Ok::<SpecFtpList, ParseError>(
                l@,
            ),
            Err(e) => spec_parse_mlsd_listing(lines.deep_view()) == Err::<SpecFtpList, ParseError>(
                e,
            ),
        },
{
    let ghost dv = lines.deep_view();
    let mut items: Vec<FtpItem> = Vec::new();
    let n = lines.len();
    let mut i: usize = 0;
    proof {
        assert(dv.subrange(0, 0) =~= Seq::<Seq<char>>::empty());
        assert(spec_items_view(items@) =~= Seq::<SpecFtpItem>::empty());
    }
    while i < n
        invariant
            i <= n == lines@.len(),
            dv == lines.deep_view(),
            spec_mlsd_items(dv.subrange(0, i as int)) == Ok::<Seq<SpecFtpItem>, ParseError>(
                spec_items_view(items@),
            ),
        decreases n - i,
    {
        proof {
            assert(dv.subrange(0, i + 1).drop_last() =~= dv.subrange(0, i as int));
            assert(dv.subrange(0, i + 1).last() == lines@[i as int]@);
        }
        match parse_mlst_line(lines[i].as_str()) {
            Ok(it) => {
                let ghost old_items = items@;
                items.push(it);
                proof {
                    assert(spec_items_view(items@) =~= spec_items_view(old_items).push(it@));
                }
            },
            Err(e) => {
                proof {
                    assert(spec_mlsd_items(dv.subrange(0, i + 1)) == Err::<
                        Seq<SpecFtpItem>,
                        ParseError,
                    >(e));
                    lemma_mlsd_items_err_extends(dv, i + 1);
                }
                return Err(e);
            },
        }
        i = i + 1;
    }
    proof {
        assert(dv.subrange(0, n as int) =~= dv);
    }
    Ok(fold_listing(items))
}

/// Parses the lines of a long-format `LIST` response into a directory
/// listing, each line through the long-listing parser and the adapter;
/// a line that fits no known long-listing shape, or that the outside
/// parser could not read safely, aborts the whole listing as a syntax
/// error.
pub fn parse_list_listing(lines: &Vec<String>) -> (r: Result<FtpList, ParseError>)
    ensures
        match r {
            Ok(l) => exists|items: Seq<SpecFtpItem>|
                l@ == spec_fold_listing(items) && (forall|i: int|
                    0 <= i < items.len() ==> exists|e: SpecLongEntry| #[trigger] items[i]
                        == spec_list_to_ftp(e)),
            Err(e) => e == ParseError::SyntaxError,
        },
        (exists|i: int|
            0 <= i < lines@.len() && spec_list_line_hazard(
                #[trigger] lines@[i]@,
            )) ==> r is Err,
{
    let mut items: Vec<FtpItem> = Vec::new();
    let n = lines.len();
    let mut i: usize = 0;
    while i < n
        invariant
            i <= n == lines@.len(),
            forall|k: int|
                0 <= k < items@.len() ==> exists|e: SpecLongEntry| #[trigger] spec_items_view(
                    items@,
                )[k] == spec_list_to_ftp(e),
            forall|m: int|
                0 <= m < i ==> !spec_list_line_hazard(#[trigger] lines@[m]@),
        decreases n - i,
    {
        match parse_list_line(lines[i].as_str()) {
            Some(it) => {
                let ghost old_items = items@;
                items.push(it);
                proof {
                    assert(spec_items_view(items@) =~= spec_items_view(old_items).push(it@));
                    assert(!spec_list_line_hazard(lines@[i as int]@));
                }
            },
            None => {
                return Err(ParseError::SyntaxError);
            },
        }
        i = i + 1;
    }
    let ghost witness = spec_items_view(items@);
    let l = fold_listing(items);
    Ok(l)
}

} // verus!

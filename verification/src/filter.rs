//! Event filters for the query and monitor surfaces: which filters turn
//! into journal matches and seeks, which are evaluated on each event, and
//! the `--since` time formats.

use vstd::prelude::*;

use crate::error::PeripetyError;
use crate::event::{LogSeverity, StorageEvent, StorageEventV};
use crate::strutil::{
    all_digits, concat2, dec_val, find_idx, split, split_char, str_eq,
    to_upper_ascii, upper_seq,
};

verus! {

#[derive(Clone, Copy, Debug, PartialEq, Eq, Structural)]
pub enum StorageEventFilterType {
    Wwid,
    EventType,
    Severity,
    SubSystem,
    Since,
    EventId,
}

pub struct StorageEventFilter {
    pub filter_type: StorageEventFilterType,
    pub value: String,
}

#[verifier::ext_equal]
pub ghost struct FilterV {
    pub filter_type: StorageEventFilterType,
    pub value: Seq<char>,
}

impl View for StorageEventFilter {
    type V = FilterV;

    open spec fn view(&self) -> FilterV {
        FilterV { filter_type: self.filter_type, value: self.value@ }
    }
}

/// One operation the journal reader performs for a filter.
pub enum JournalAction {
    AddMatch(String),
    SeekRealtimeUsec(u64),
    SeekHead,
    SeekTail,
}

#[verifier::ext_equal]
pub ghost enum JournalActionV {
    AddMatch(Seq<char>),
    SeekRealtimeUsec(u64),
    SeekHead,
    SeekTail,
}

impl View for JournalAction {
    type V = JournalActionV;

    open spec fn view(&self) -> JournalActionV {
        match self {
            JournalAction::AddMatch(s) => JournalActionV::AddMatch(s@),
            JournalAction::SeekRealtimeUsec(t) => JournalActionV::SeekRealtimeUsec(*t),
            JournalAction::SeekHead => JournalActionV::SeekHead,
            JournalAction::SeekTail => JournalActionV::SeekTail,
        }
    }
}

pub open spec fn filters_view(v: Seq<StorageEventFilter>) -> Seq<FilterV> {
    v.map_values(|f: StorageEventFilter| f.view())
}

pub open spec fn actions_view(v: Seq<JournalAction>) -> Seq<JournalActionV> {
    v.map_values(|a: JournalAction| a.view())
}

/// A local calendar time, second precision.
#[derive(Clone, Copy, Debug, PartialEq, Eq, Structural)]
pub struct DateTimeParts {
    pub year: i32,
    pub month: u32,
    pub day: u32,
    pub hour: u32,
    pub minute: u32,
    pub second: u32,
}

/// What a `--since` string names.
#[derive(Clone, Copy, Debug, PartialEq, Eq, Structural)]
pub enum SincePattern {
    Today,
    Yesterday,
    At(DateTimeParts),
}

pub open spec fn digits_fit_u32(s: Seq<char>) -> bool {
    s.len() > 0 && all_digits(s) && dec_val(s) <= u32::MAX
}

/// A `Y-M-D` date; widths are free, the calendar validates the values.
pub open spec fn parse_date_spec(s: Seq<char>) -> Option<(i32, u32, u32)> {
    let ps = split_char(s, '-');
    if ps.len() == 3 && digits_fit_u32(ps[0]) && dec_val(ps[0]) <= i32::MAX
        && digits_fit_u32(ps[1]) && digits_fit_u32(ps[2]) {
        Some((dec_val(ps[0]) as i32, dec_val(ps[1]) as u32, dec_val(ps[2]) as u32))
    } else {
        None
    }
}

/// An `H:M:S` time of day.
pub open spec fn parse_time_spec(s: Seq<char>) -> Option<(u32, u32, u32)> {
    let ps = split_char(s, ':');
    if ps.len() == 3 && digits_fit_u32(ps[0]) && digits_fit_u32(ps[1]) && digits_fit_u32(
        ps[2],
    ) {
        Some((dec_val(ps[0]) as u32, dec_val(ps[1]) as u32, dec_val(ps[2]) as u32))
    } else {
        None
    }
}

/// The accepted `--since` formats: `today` and `yesterday` in any case,
/// `Y-M-D H:M:S`, and `Y-M-D` meaning its midnight.
pub open spec fn parse_since_spec(s: Seq<char>) -> Option<SincePattern> {
    if upper_seq(s) == "TODAY"@ {
        Some(SincePattern::Today)
    } else if upper_seq(s) == "YESTERDAY"@ {
        Some(SincePattern::Yesterday)
    } else if crate::strutil::first_idx(s, ':') != -1 {
        let ps = split_char(s, ' ');
        if ps.len() == 2 {
            match (parse_date_spec(ps[0]), parse_time_spec(ps[1])) {
                (Some(d), Some(t)) => Some(
                    SincePattern::At(
                        DateTimeParts {
                            year: d.0,
                            month: d.1,
                            day: d.2,
                            hour: t.0,
                            minute: t.1,
                            second: t.2,
                        },
                    ),
                ),
                _ => None,
            }
        } else {
            None
        }
    } else {
        match parse_date_spec(s) {
            Some(d) => Some(
                SincePattern::At(
                    DateTimeParts {
                        year: d.0,
                        month: d.1,
                        day: d.2,
                        hour: 0,
                        minute: 0,
                        second: 0,
                    },
                ),
            ),
            None => None,
        }
    }
}

fn parse_date(s: &str) -> (r: Option<(i32, u32, u32)>)
    ensures
        r == parse_date_spec(s@),
{
    let ps = split(s, '-');
    let ghost pv = ps@.map_values(|e: String| e@);
    if ps.len() != 3 {
        return None;
    }
    proof {
        assert(pv[0] == ps@[0]@);
        assert(pv[1] == ps@[1]@);
        assert(pv[2] == ps@[2]@);
    }
    let y = match crate::strutil::parse_u64(ps[0].as_str()) {
        Some(v) if v <= 2147483647 => v,
        Some(_) => {
            return None;
        },
        None => {
            return None;
        },
    };
    let mo = match crate::strutil::parse_u64(ps[1].as_str()) {
        Some(v) if v <= 4294967295 => v,
        Some(_) => {
            return None;
        },
        None => {
            return None;
        },
    };
    let d = match crate::strutil::parse_u64(ps[2].as_str()) {
        Some(v) if v <= 4294967295 => v,
        Some(_) => {
            return None;
        },
        None => {
            return None;
        },
    };
    Some((y as i32, mo as u32, d as u32))
}

fn parse_time(s: &str) -> (r: Option<(u32, u32, u32)>)
    ensures
        r == parse_time_spec(s@),
{
    let ps = split(s, ':');
    let ghost pv = ps@.map_values(|e: String| e@);
    if ps.len() != 3 {
        return None;
    }
    proof {
        assert(pv[0] == ps@[0]@);
        assert(pv[1] == ps@[1]@);
        assert(pv[2] == ps@[2]@);
    }
    let h = match crate::strutil::parse_u64(ps[0].as_str()) {
        Some(v) if v <= 4294967295 => v,
        Some(_) => {
            return None;
        },
        None => {
            return None;
        },
    };
    let mi = match crate::strutil::parse_u64(ps[1].as_str()) {
        Some(v) if v <= 4294967295 => v,
        Some(_) => {
            return None;
        },
        None => {
            return None;
        },
    };
    let sec = match crate::strutil::parse_u64(ps[2].as_str()) {
        Some(v) if v <= 4294967295 => v,
        Some(_) => {
            return None;
        },
        None => {
            return None;
        },
    };
    Some((h as u32, mi as u32, sec as u32))
}

/// Parse a `--since` string; see `parse_since_spec`.
pub fn parse_since(s: &str) -> (r: Result<SincePattern, PeripetyError>)
    ensures
        match r {
            Ok(p) => parse_since_spec(s@) == Some(p),
            Err(e) => parse_since_spec(s@) is None && e is InvalidArgument,
        },
{
    let u = to_upper_ascii(s);
    if str_eq(u.as_str(), "TODAY") {
        return Ok(SincePattern::Today);
    }
    if str_eq(u.as_str(), "YESTERDAY") {
        return Ok(SincePattern::Yesterday);
    }
    if find_idx(s, ':').is_some() {
        let ps = split(s, ' ');
        let ghost pv = ps@.map_values(|e: String| e@);
        if ps.len() != 2 {
            return Err(
                PeripetyError::InvalidArgument(
                    "Invalid format of since time string".to_owned(),
                ),
            );
        }
        proof {
            assert(pv[0] == ps@[0]@);
            assert(pv[1] == ps@[1]@);
        }
        match (parse_date(ps[0].as_str()), parse_time(ps[1].as_str())) {
            (Some(d), Some(t)) => Ok(
                SincePattern::At(
                    DateTimeParts {
                        year: d.0,
                        month: d.1,
                        day: d.2,
                        hour: t.0,
                        minute: t.1,
                        second: t.2,
                    },
                ),
            ),
            _ => Err(
                PeripetyError::InvalidArgument(
                    "Invalid format of since time string".to_owned(),
                ),
            ),
        }
    } else {
        match parse_date(s) {
            Some(d) => Ok(
                SincePattern::At(
                    DateTimeParts {
                        year: d.0,
                        month: d.1,
                        day: d.2,
                        hour: 0,
                        minute: 0,
                        second: 0,
                    },
                ),
            ),
            None => Err(
                PeripetyError::InvalidArgument(
                    "Invalid format of since time string".to_owned(),
                ),
            ),
        }
    }
}

/// Turn a `--since` string into a journal realtime timestamp in
/// microseconds. The calendar date names local midnight; what the epoch
/// value is depends on the host's timezone, so only the format is pinned:
/// a string that parses to no pattern is `InvalidArgument`.
pub fn since_str_to_jourald_timestamp(since: &str) -> (r: Result<u64, PeripetyError>)
    ensures
        r is Ok ==> parse_since_spec(since@) is Some,
        r matches Err(e) ==> e is InvalidArgument,
        parse_since_spec(since@) is None ==> r is Err,
{
    let p = parse_since(since)?;
    let dt = match p {
        SincePattern::Today => {
            let (y, mo, d) = crate::stamp::local_date_back(0);
            DateTimeParts { year: y, month: mo, day: d, hour: 0, minute: 0, second: 0 }
        },
        SincePattern::Yesterday => {
            let (y, mo, d) = crate::stamp::local_date_back(1);
            DateTimeParts { year: y, month: mo, day: d, hour: 0, minute: 0, second: 0 }
        },
        SincePattern::At(dt) => dt,
    };
    match crate::stamp::local_epoch_us(
        dt.year,
        dt.month,
        dt.day,
        dt.hour,
        dt.minute,
        dt.second,
    ) {
        Some(t) if t >= 0 => Ok(t as u64),
        _ => Err(
            PeripetyError::InvalidArgument(
                "Invalid format of since time string".to_owned(),
            ),
        ),
    }
}

/// Whether the event's device, or one of its owners, carries the WWID.
pub open spec fn wwid_matches(e: StorageEventV, v: Seq<char>) -> bool {
    e.blk_info.wwid == v || exists|i: int|
        #![trigger e.blk_info.owners[i]]
        0 <= i < e.blk_info.owners.len() && e.blk_info.owners[i].wwid == v
}

/// Whether one filter accepts an event. `Severity` passes severities at
/// least as severe as the named one; `Wwid` matches the device or any of
/// its owners; the other kinds are enforced by journal matches, not here.
pub open spec fn filter_passes(e: StorageEventV, f: FilterV) -> bool {
    match f.filter_type {
        StorageEventFilterType::Severity => match LogSeverity::spec_from_str(f.value) {
            Some(l) => e.severity.spec_u8() <= l.spec_u8(),
            None => false,
        },
        StorageEventFilterType::Wwid => wwid_matches(e, f.value),
        _ => true,
    }
}

pub open spec fn all_filters_pass(e: StorageEventV, fs: Seq<FilterV>) -> bool {
    forall|i: int| 0 <= i < fs.len() ==> filter_passes(e, #[trigger] fs[i])
}

fn one_filter_passes(e: &StorageEvent, f: &StorageEventFilter) -> (r: bool)
    ensures
        r == filter_passes(e@, f@),
{
    match f.filter_type {
        StorageEventFilterType::Severity => match LogSeverity::from_str(f.value.as_str()) {
            Ok(l) => e.severity.to_u8() <= l.to_u8(),
            Err(_) => false,
        },
        StorageEventFilterType::Wwid => {
            if str_eq(e.blk_info.wwid.as_str(), f.value.as_str()) {
                return true;
            }
            let n: usize = e.blk_info.owners.len();
            let mut i: usize = 0;
            while i < n
                invariant
                    0 <= i <= n,
                    n == e.blk_info.owners@.len(),
                    f.filter_type is Wwid,
                    forall|j: int|
                        0 <= j < i ==> e.blk_info.owners@[j].wwid@ != f.value@,
                decreases n - i,
            {
                if str_eq(e.blk_info.owners[i].wwid.as_str(), f.value.as_str()) {
                    proof {
                        assert(e@.blk_info.owners[i as int] == e.blk_info.owners@[
                            i as int]@);
                        assert(e@.blk_info.owners[i as int].wwid == f@.value);
                        assert(wwid_matches(e@, f@.value));
                    }
                    return true;
                }
                i += 1;
            }
            proof {
                assert forall|j: int| 0 <= j < e@.blk_info.owners.len() implies (
                #[trigger] e@.blk_info.owners[j]).wwid != f@.value by {
                    assert(e@.blk_info.owners[j] == e.blk_info.owners@[j]@);
                }
                assert(!wwid_matches(e@, f@.value));
            }
            false
        },
        _ => true,
    }
}

/// Whether every filter of the list accepts the event.
pub fn event_passes_extra_filters(e: &StorageEvent, fs: &Vec<StorageEventFilter>) -> (r:
    bool)
    ensures
        r == all_filters_pass(e@, filters_view(fs@)),
{
    let n: usize = fs.len();
    let mut i: usize = 0;
    while i < n
        invariant
            0 <= i <= n,
            n == fs@.len(),
            forall|j: int| 0 <= j < i ==> filter_passes(e@, #[trigger] filters_view(
                fs@,
            )[j]),
        decreases n - i,
    {
        if !one_filter_passes(e, &fs[i]) {
            proof {
                assert(!filter_passes(e@, filters_view(fs@)[i as int]));
            }
            return false;
        }
        i += 1;
    }
    true
}

/// Severity filter: with a `Warning` filter value, exactly the events of
/// severity Emergency, Alert, Critical, Error or Warning pass.
pub proof fn severity_filter_sound(e: StorageEventV, value: Seq<char>)
    requires
        LogSeverity::spec_from_str(value) == Some(LogSeverity::Warning),
    ensures
        filter_passes(e, FilterV { filter_type: StorageEventFilterType::Severity, value })
            <==> (e.severity is Emergency || e.severity is Alert || e.severity
            is Ctritical || e.severity is Error || e.severity is Warning),
{
}

/// The filters evaluated per event — the WWID and severity kinds — in
/// the order given.
pub open spec fn extras_of(fs: Seq<FilterV>) -> Seq<FilterV>
    decreases fs.len(),
{
    if fs.len() == 0 {
        Seq::empty()
    } else {
        let rest = extras_of(fs.drop_last());
        match fs.last().filter_type {
            StorageEventFilterType::Wwid | StorageEventFilterType::Severity => rest.push(
                fs.last(),
            ),
            _ => rest,
        }
    }
}

/// Whether `acts` is exactly the journal operations the filters demand,
/// in order: one match per event-type, subsystem or event-id filter, one
/// realtime seek per since filter (its timestamp depends on the clock and
/// the timezone, so only its kind is fixed), nothing for the kinds
/// evaluated per event.
pub open spec fn actions_for(fs: Seq<FilterV>, acts: Seq<JournalActionV>) -> bool
    decreases fs.len(),
{
    if fs.len() == 0 {
        acts.len() == 0
    } else {
        let f = fs.last();
        match f.filter_type {
            StorageEventFilterType::Wwid | StorageEventFilterType::Severity => actions_for(
                fs.drop_last(),
                acts,
            ),
            StorageEventFilterType::EventType => acts.len() > 0 && acts.last()
                == JournalActionV::AddMatch("EVENT_TYPE="@ + f.value) && actions_for(
                fs.drop_last(),
                acts.drop_last(),
            ),
            StorageEventFilterType::SubSystem => acts.len() > 0 && acts.last()
                == JournalActionV::AddMatch("SUB_SYSTEM="@ + f.value) && actions_for(
                fs.drop_last(),
                acts.drop_last(),
            ),
            StorageEventFilterType::EventId => acts.len() > 0 && acts.last()
                == JournalActionV::AddMatch("EVENT_ID="@ + f.value) && actions_for(
                fs.drop_last(),
                acts.drop_last(),
            ),
            StorageEventFilterType::Since => acts.len() > 0 && acts.last()
                is SeekRealtimeUsec && actions_for(fs.drop_last(), acts.drop_last()),
        }
    }
}

/// The views of an optional filter list; none means no filters.
pub open spec fn opt_filters_view(filters: Option<&Vec<StorageEventFilter>>) -> Seq<
    FilterV,
> {
    match filters {
        Some(fs) => filters_view(fs@),
        None => Seq::empty(),
    }
}

/// What a fresh query or monitor session holds: the daemon's journal
/// match first, the seek last, between them exactly the operations the
/// given filters demand, and the per-event kinds as extra filters.
pub open spec fn session_plan_ok(
    fv: Seq<FilterV>,
    it: StorageEventIter,
    last: JournalActionV,
) -> bool {
    let av = actions_view(it.actions@);
    &&& av.len() >= 2
    &&& av[0] == JournalActionV::AddMatch("IS_PERIPETY=TRUE"@)
    &&& av.last() == last
    &&& actions_for(fv, av.subrange(1, av.len() - 1))
    &&& filters_view(it.extra_filters@) == extras_of(fv)
}

/// The state of a query or monitor session: the filters evaluated per
/// event here, and the operations the journal reader is to perform.
pub struct StorageEventIter {
    pub extra_filters: Vec<StorageEventFilter>,
    pub actions: Vec<JournalAction>,
}

impl StorageEventIter {
    /// A fresh session: one journal match selects this daemon's entries.
    pub fn new() -> (r: StorageEventIter)
        ensures
            filters_view(r.extra_filters@) =~= Seq::<FilterV>::empty(),
            actions_view(r.actions@) =~= seq![JournalActionV::AddMatch("IS_PERIPETY=TRUE"@)],
    {
        let mut actions: Vec<JournalAction> = Vec::new();
        actions.push(JournalAction::AddMatch("IS_PERIPETY=TRUE".to_owned()));
        StorageEventIter { extra_filters: Vec::new(), actions }
    }

    /// Record one filter: `Wwid` and `Severity` are evaluated per event,
    /// the other kinds become journal operations.
    pub fn apply_filter(&mut self, filter: &StorageEventFilter) -> (r: Result<
        (),
        PeripetyError,
    >)
        ensures
            (filter.filter_type is Wwid || filter.filter_type is Severity) ==> (r is Ok
                && filters_view(final(self).extra_filters@) == filters_view(
                old(self).extra_filters@,
            ).push(filter@) && final(self).actions@ == old(self).actions@),
            filter.filter_type is EventType ==> (r is Ok && final(self).extra_filters@
                == old(self).extra_filters@ && actions_view(final(self).actions@)
                == actions_view(old(self).actions@).push(
                JournalActionV::AddMatch("EVENT_TYPE="@ + filter@.value),
            )),
            filter.filter_type is SubSystem ==> (r is Ok && final(self).extra_filters@
                == old(self).extra_filters@ && actions_view(final(self).actions@)
                == actions_view(old(self).actions@).push(
                JournalActionV::AddMatch("SUB_SYSTEM="@ + filter@.value),
            )),
            filter.filter_type is EventId ==> (r is Ok && final(self).extra_filters@
                == old(self).extra_filters@ && actions_view(final(self).actions@)
                == actions_view(old(self).actions@).push(
                JournalActionV::AddMatch("EVENT_ID="@ + filter@.value),
            )),
            filter.filter_type is Since && r is Ok ==> (parse_since_spec(filter@.value)
                is Some && final(self).extra_filters@ == old(self).extra_filters@
                && actions_view(final(self).actions@).len() == actions_view(
                old(self).actions@,
            ).len() + 1 && actions_view(final(self).actions@).drop_last() == actions_view(
                old(self).actions@,
            ) && actions_view(final(self).actions@).last() is SeekRealtimeUsec),
            filter.filter_type is Since && r is Err ==> (r matches Err(e) && e
                is InvalidArgument && final(self).extra_filters@ == old(
                self,
            ).extra_filters@ && final(self).actions@ == old(self).actions@),
    {
        let ghost fv0 = filters_view(self.extra_filters@);
        let ghost av0 = actions_view(self.actions@);
        match filter.filter_type {
            StorageEventFilterType::Wwid | StorageEventFilterType::Severity => {
                let copy = StorageEventFilter {
                    filter_type: filter.filter_type,
                    value: filter.value.clone(),
                };
                self.extra_filters.push(copy);
                proof {
                    assert(self.extra_filters@.drop_last() =~= old(self).extra_filters@);
                    lemma_push_filter(fv0, self.extra_filters@, filter@);
                }
                Ok(())
            },
            StorageEventFilterType::EventType => {
                self.actions.push(
                    JournalAction::AddMatch(concat2("EVENT_TYPE=", filter.value.as_str())),
                );
                proof {
                    assert(self.actions@.drop_last() =~= old(self).actions@);
                    lemma_push_action(av0, self.actions@);
                }
                Ok(())
            },
            StorageEventFilterType::SubSystem => {
                self.actions.push(
                    JournalAction::AddMatch(concat2("SUB_SYSTEM=", filter.value.as_str())),
                );
                proof {
                    assert(self.actions@.drop_last() =~= old(self).actions@);
                    lemma_push_action(av0, self.actions@);
                }
                Ok(())
            },
            StorageEventFilterType::EventId => {
                self.actions.push(
                    JournalAction::AddMatch(concat2("EVENT_ID=", filter.value.as_str())),
                );
                proof {
                    assert(self.actions@.drop_last() =~= old(self).actions@);
                    lemma_push_action(av0, self.actions@);
                }
                Ok(())
            },
            StorageEventFilterType::Since => {
                let t = since_str_to_jourald_timestamp(filter.value.as_str())?;
                self.actions.push(JournalAction::SeekRealtimeUsec(t));
                proof {
                    assert(self.actions@.drop_last() =~= old(self).actions@);
                    lemma_push_action(av0, self.actions@);
                    assert(actions_view(self.actions@).drop_last() =~= av0);
                }
                Ok(())
            },
        }
    }

    /// Record every filter of a list, in order; what was already recorded
    /// stays in place. On success the session holds exactly the fold of
    /// the per-filter effects: the per-event kinds join the extra
    /// filters, every other kind appends its journal operation.
    pub fn apply_filters(&mut self, filters: &Vec<StorageEventFilter>) -> (r: Result<
        (),
        PeripetyError,
    >)
        ensures
            r matches Err(e) ==> e is InvalidArgument,
            actions_view(old(self).actions@).is_prefix_of(
                actions_view(final(self).actions@),
            ),
            r is Ok ==> filters_view(final(self).extra_filters@) == filters_view(
                old(self).extra_filters@,
            ) + extras_of(filters_view(filters@)),
            r is Ok ==> actions_for(
                filters_view(filters@),
                actions_view(final(self).actions@).skip(
                    actions_view(old(self).actions@).len() as int,
                ),
            ),
    {
        let ghost av_init = actions_view(self.actions@);
        let ghost ev_init = filters_view(self.extra_filters@);
        let ghost fv = filters_view(filters@);
        let n: usize = filters.len();
        let mut i: usize = 0;
        proof {
            assert(av_init.take(av_init.len() as int) =~= av_init);
            assert(fv.take(0) =~= Seq::<FilterV>::empty());
            assert(filters_view(self.extra_filters@) =~= ev_init + extras_of(fv.take(0)));
            assert(actions_view(self.actions@).skip(av_init.len() as int) =~= Seq::<
                JournalActionV,
            >::empty());
        }
        while i < n
            invariant
                0 <= i <= n,
                n == filters@.len(),
                fv == filters_view(filters@),
                av_init == actions_view(old(self).actions@),
                ev_init == filters_view(old(self).extra_filters@),
                av_init.is_prefix_of(actions_view(self.actions@)),
                filters_view(self.extra_filters@) == ev_init + extras_of(
                    fv.take(i as int),
                ),
                actions_for(
                    fv.take(i as int),
                    actions_view(self.actions@).skip(av_init.len() as int),
                ),
            decreases n - i,
        {
            let ghost before = actions_view(self.actions@);
            let ghost ebefore = filters_view(self.extra_filters@);
            proof {
                assert(fv.take(i as int + 1).drop_last() =~= fv.take(i as int));
                assert(fv.take(i as int + 1).last() == fv[i as int]);
                assert(fv[i as int] == filters@[i as int]@);
            }
            match self.apply_filter(&filters[i]) {
                Ok(_) => {},
                Err(e) => {
                    proof {
                        assert(actions_view(self.actions@) == before);
                        assert(e is InvalidArgument);
                        assert(actions_view(old(self).actions@).is_prefix_of(
                            actions_view(self.actions@),
                        ));
                    }
                    return Err(e);
                },
            }
            proof {
                let after = actions_view(self.actions@);
                let n0 = av_init.len() as int;
                assert(after.len() >= before.len());
                assert forall|t: int| 0 <= t < av_init.len() implies after[t]
                    == av_init[t] by {
                    if after.len() > before.len() {
                        assert(after.drop_last()[t] == before[t]);
                    }
                }
                assert(after.take(n0) =~= av_init);
                match filters@[i as int].filter_type {
                    StorageEventFilterType::Wwid | StorageEventFilterType::Severity => {
                        assert(extras_of(fv.take(i as int + 1)) == extras_of(
                            fv.take(i as int),
                        ).push(fv[i as int]));
                        assert(filters_view(self.extra_filters@) =~= ev_init + extras_of(
                            fv.take(i as int + 1),
                        ));
                        assert(after.skip(n0) =~= before.skip(n0));
                        assert(actions_for(fv.take(i as int + 1), after.skip(n0)));
                    },
                    StorageEventFilterType::Since => {
                        assert(extras_of(fv.take(i as int + 1)) == extras_of(
                            fv.take(i as int),
                        ));
                        assert(after =~= before.push(after.last()));
                        assert(after.skip(n0) =~= before.skip(n0).push(after.last()));
                        assert(after.skip(n0).drop_last() =~= before.skip(n0));
                        assert(actions_for(fv.take(i as int + 1), after.skip(n0)));
                    },
                    _ => {
                        assert(extras_of(fv.take(i as int + 1)) == extras_of(
                            fv.take(i as int),
                        ));
                        assert(after == before.push(after.last()));
                        assert(after.skip(n0) =~= before.skip(n0).push(after.last()));
                        assert(after.skip(n0).drop_last() =~= before.skip(n0));
                        assert(actions_for(fv.take(i as int + 1), after.skip(n0)));
                    },
                }
            }
            i += 1;
        }
        proof {
            assert(fv.take(n as int) =~= fv);
        }
        Ok(())
    }
}

proof fn lemma_push_filter(fv0: Seq<FilterV>, after: Seq<StorageEventFilter>, f: FilterV)
    requires
        after.len() >= 1,
        filters_view(after.drop_last()) == fv0,
        after.last()@ == f,
    ensures
        filters_view(after) == fv0.push(f),
{
    assert forall|t: int| 0 <= t < after.len() implies filters_view(after)[t] == fv0.push(
        f,
    )[t] by {
        if t < after.len() - 1 {
            assert(after[t] == after.drop_last()[t]);
            assert(filters_view(after.drop_last())[t] == fv0[t]);
        }
    }
    assert(filters_view(after) =~= fv0.push(f));
}

proof fn lemma_push_action(av0: Seq<JournalActionV>, after: Seq<JournalAction>)
    requires
        after.len() >= 1,
        actions_view(after.drop_last()) == av0,
    ensures
        actions_view(after) == av0.push(after.last()@),
{
    assert forall|t: int| 0 <= t < after.len() implies actions_view(after)[t] == av0.push(
        after.last()@,
    )[t] by {
        if t < after.len() - 1 {
            assert(after[t] == after.drop_last()[t]);
            assert(actions_view(after.drop_last())[t] == av0[t]);
        }
    }
    assert(actions_view(after) =~= av0.push(after.last()@));
}

impl StorageEvent {
    /// Begin a query over saved events: record the filters, then read from
    /// the start of the journal.
    pub fn query(filters: Option<&Vec<StorageEventFilter>>) -> (r: Result<
        StorageEventIter,
        PeripetyError,
    >)
        ensures
            r matches Ok(it) ==> session_plan_ok(
                opt_filters_view(filters),
                it,
                JournalActionV::SeekHead,
            ),
            r matches Err(e) ==> e is InvalidArgument,
    {
        let it = Self::session(filters)?;
        let mut it = it;
        let ghost av0 = actions_view(it.actions@);
        let ghost pre = it.actions@;
        it.actions.push(JournalAction::SeekHead);
        proof {
            assert(it.actions@.drop_last() =~= pre);
            lemma_push_action(av0, it.actions@);
            lemma_session_push(opt_filters_view(filters), av0, actions_view(it.actions@));
        }
        Ok(it)
    }

    /// Begin a monitor over future events: record the filters, then wait
    /// at the end of the journal.
    pub fn monitor(filters: Option<&Vec<StorageEventFilter>>) -> (r: Result<
        StorageEventIter,
        PeripetyError,
    >)
        ensures
            r matches Ok(it) ==> session_plan_ok(
                opt_filters_view(filters),
                it,
                JournalActionV::SeekTail,
            ),
            r matches Err(e) ==> e is InvalidArgument,
    {
        let it = Self::session(filters)?;
        let mut it = it;
        let ghost av0 = actions_view(it.actions@);
        let ghost pre = it.actions@;
        it.actions.push(JournalAction::SeekTail);
        proof {
            assert(it.actions@.drop_last() =~= pre);
            lemma_push_action(av0, it.actions@);
            lemma_session_push(opt_filters_view(filters), av0, actions_view(it.actions@));
        }
        Ok(it)
    }

    /// The common part of `query` and `monitor`: the daemon's journal
    /// match, then every given filter.
    fn session(filters: Option<&Vec<StorageEventFilter>>) -> (r: Result<
        StorageEventIter,
        PeripetyError,
    >)
        ensures
            r matches Ok(it) ==> {
                let fv = opt_filters_view(filters);
                let av = actions_view(it.actions@);
                &&& av.len() >= 1
                &&& av[0] == JournalActionV::AddMatch("IS_PERIPETY=TRUE"@)
                &&& actions_for(fv, av.skip(1))
                &&& filters_view(it.extra_filters@) == extras_of(fv)
            },
            r matches Err(e) ==> e is InvalidArgument,
    {
        let mut it = StorageEventIter::new();
        let ghost init = actions_view(it.actions@);
        let ghost fv = opt_filters_view(filters);
        if let Some(fs) = filters {
            it.apply_filters(fs)?;
            proof {
                let av = actions_view(it.actions@);
                assert(av.take(1)[0] == init[0]);
                assert(filters_view(it.extra_filters@) =~= extras_of(fv));
            }
        } else {
            proof {
                assert(actions_view(it.actions@).skip(1) =~= Seq::<JournalActionV>::empty());
                assert(filters_view(it.extra_filters@) =~= extras_of(fv));
            }
        }
        Ok(it)
    }
}

/// Appending the final seek keeps the plan: the match stays first and the
/// per-filter operations stay between it and the seek.
proof fn lemma_session_push(
    fv: Seq<FilterV>,
    av0: Seq<JournalActionV>,
    av1: Seq<JournalActionV>,
)
    requires
        av0.len() >= 1,
        av0[0] == JournalActionV::AddMatch("IS_PERIPETY=TRUE"@),
        actions_for(fv, av0.skip(1)),
        av1 == av0.push(av1.last()),
        av1.len() == av0.len() + 1,
    ensures
        av1.len() >= 2,
        av1[0] == JournalActionV::AddMatch("IS_PERIPETY=TRUE"@),
        actions_for(fv, av1.subrange(1, av1.len() - 1)),
{
    assert(av1.subrange(1, av1.len() - 1) =~= av0.skip(1));
}

} // verus!

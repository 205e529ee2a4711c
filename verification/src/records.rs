//! The mathematical model of a usage log: the sequence of counted messages,
//! the selections of them that the monitor reports on, and their totals.
use vstd::prelude::*;
use crate::usage::{Usage, Totals, zero_totals, plus, has_room, totals_le, spec_is_sonnet};

verus! {

/// One counted assistant message, as the totals see it.
pub struct Record {
    /// Model name ("unknown" when the log names none).
    pub model: Seq<char>,
    pub usage: Usage,
    /// Time of the message in nanoseconds since the Unix epoch, when logged.
    pub timestamp: Option<int>,
    /// Project name ("unknown" when the log gives no working directory).
    pub project: Seq<char>,
    pub session: Option<Seq<char>>,
    /// Message id, by which replays of the same message are recognised.
    pub id: Option<Seq<char>>,
}

/// A selection of messages.
pub enum Filter {
    All,
    /// Messages with a timestamp.
    Timed,
    /// Messages at or after the given instant.
    Since(int),
    /// Sonnet messages at or after the given instant.
    SonnetSince(int),
    Model(Seq<char>),
    Project(Seq<char>),
    /// Timestamped messages of the given session.
    Session(Seq<char>),
}

pub open spec fn selects(f: Filter, r: Record) -> bool {
    match f {
        Filter::All => true,
        Filter::Timed => r.timestamp is Some,
        Filter::Since(lo) => r.timestamp is Some && r.timestamp->0 >= lo,
        Filter::SonnetSince(lo) => r.timestamp is Some && r.timestamp->0 >= lo && spec_is_sonnet(
            r.model,
        ),
        Filter::Model(m) => r.model == m,
        Filter::Project(p) => r.project == p,
        Filter::Session(s) => r.timestamp is Some && r.session == Some(s),
    }
}

/// Totals of the selected messages.
pub open spec fn sum_where(rs: Seq<Record>, f: Filter) -> Totals
    decreases rs.len(),
{
    if rs.len() == 0 {
        zero_totals()
    } else {
        let t = sum_where(rs.drop_last(), f);
        let r = rs.last();
        if selects(f, r) {
            plus(t, r.model, r.usage)
        } else {
            t
        }
    }
}

/// Totals of all messages.
pub open spec fn sum_all(rs: Seq<Record>) -> Totals {
    sum_where(rs, Filter::All)
}

/// The earliest timestamp among the selected timestamped messages.
pub open spec fn earliest(rs: Seq<Record>, f: Filter) -> Option<int>
    decreases rs.len(),
{
    if rs.len() == 0 {
        None
    } else {
        let e = earliest(rs.drop_last(), f);
        let r = rs.last();
        if selects(f, r) && r.timestamp is Some {
            let t = r.timestamp->0;
            match e {
                None => Some(t),
                Some(p) => Some(if t < p { t } else { p }),
            }
        } else {
            e
        }
    }
}

/// The latest timestamp among the selected timestamped messages.
pub open spec fn latest(rs: Seq<Record>, f: Filter) -> Option<int>
    decreases rs.len(),
{
    if rs.len() == 0 {
        None
    } else {
        let e = latest(rs.drop_last(), f);
        let r = rs.last();
        if selects(f, r) && r.timestamp is Some {
            let t = r.timestamp->0;
            match e {
                None => Some(t),
                Some(p) => Some(if t > p { t } else { p }),
            }
        } else {
            e
        }
    }
}

/// Appending a message updates every selection's totals, earliest and
/// latest time by that one message.
pub proof fn lemma_push(rs: Seq<Record>, r: Record, f: Filter)
    ensures
        sum_where(rs.push(r), f) == (if selects(f, r) {
            plus(sum_where(rs, f), r.model, r.usage)
        } else {
            sum_where(rs, f)
        }),
        earliest(rs.push(r), f) == (if selects(f, r) && r.timestamp is Some {
            match earliest(rs, f) {
                None => Some(r.timestamp->0),
                Some(p) => Some(if r.timestamp->0 < p { r.timestamp->0 } else { p }),
            }
        } else {
            earliest(rs, f)
        }),
        latest(rs.push(r), f) == (if selects(f, r) && r.timestamp is Some {
            match latest(rs, f) {
                None => Some(r.timestamp->0),
                Some(p) => Some(if r.timestamp->0 > p { r.timestamp->0 } else { p }),
            }
        } else {
            latest(rs, f)
        }),
{
    assert(rs.push(r).drop_last() =~= rs);
}

/// The totals of any selection are bounded by the totals of all messages.
pub proof fn lemma_sum_where_le(rs: Seq<Record>, f: Filter)
    ensures
        totals_le(sum_where(rs, f), sum_all(rs)),
    decreases rs.len(),
{
    if rs.len() > 0 {
        lemma_sum_where_le(rs.drop_last(), f);
    }
}

/// Room for one more message in the larger totals is room in the smaller.
pub proof fn lemma_room_le(t: Totals, s: Totals, model: Seq<char>, u: Usage)
    requires
        totals_le(t, s),
        has_room(s, model, u),
    ensures
        has_room(t, model, u),
{
}

/// Some message of `rs` is selected by `f`.
pub open spec fn any_selected(rs: Seq<Record>, f: Filter) -> bool {
    exists|i: int| 0 <= i < rs.len() && #[trigger] selects(f, rs[i])
}

/// A selection with no message in it has zero totals and no times.
pub proof fn lemma_none_selected(rs: Seq<Record>, f: Filter)
    requires
        !any_selected(rs, f),
    ensures
        sum_where(rs, f) == zero_totals(),
        earliest(rs, f) is None,
        latest(rs, f) is None,
    decreases rs.len(),
{
    if rs.len() > 0 {
        assert(!selects(f, rs[rs.len() - 1]));
        assert forall|i: int| 0 <= i < rs.drop_last().len() implies !selects(
            f,
            #[trigger] rs.drop_last()[i],
        ) by {
            assert(rs.drop_last()[i] == rs[i]);
        }
        lemma_none_selected(rs.drop_last(), f);
    }
}

} // verus!

//! Per-session totals: for every session seen in the log, the totals of its
//! timestamped messages and the times of its first and last message.
use vstd::prelude::*;
use crate::records::{Record, Filter, sum_where, sum_all, earliest, latest, any_selected, lemma_push, lemma_sum_where_le, lemma_room_le, lemma_none_selected, selects};
use crate::usage::{Aggregate, Usage, has_room};

verus! {

/// Totals and time span of one session.
pub struct Session {
    pub id: String,
    pub totals: Aggregate,
    /// Time of the session's earliest timestamped message (ns since the epoch).
    pub first: i128,
    /// Time of the session's latest timestamped message (ns since the epoch).
    pub last: i128,
}

/// Some entry of `ss` is the session `id`.
pub open spec fn has_session(ss: Seq<Session>, id: Seq<char>) -> bool {
    exists|i: int| 0 <= i < ss.len() && (#[trigger] ss[i]).id@ == id
}

/// The entry `s` describes the session of its id within `rs`.
pub open spec fn session_matches(s: Session, rs: Seq<Record>) -> bool {
    &&& s.totals.totals() == sum_where(rs, Filter::Session(s.id@))
    &&& earliest(rs, Filter::Session(s.id@)) == Some(s.first as int)
    &&& latest(rs, Filter::Session(s.id@)) == Some(s.last as int)
}

/// `ss` lists the sessions of `rs`: each once, each with its totals and
/// time span, and every session of a timestamped message is listed.
#[verifier::opaque]
pub open spec fn sessions_match(ss: Seq<Session>, rs: Seq<Record>) -> bool {
    &&& forall|i: int, j: int|
        0 <= i < ss.len() && 0 <= j < ss.len() && i != j ==> #[trigger] ss[i].id@
            != #[trigger] ss[j].id@
    &&& forall|i: int| 0 <= i < ss.len() ==> session_matches(#[trigger] ss[i], rs)
    &&& forall|k: int|
        0 <= k < rs.len() && (#[trigger] rs[k]).timestamp is Some && rs[k].session is Some
            ==> has_session(ss, rs[k].session->0)
}

fn find_session(ss: &Vec<Session>, id: &String) -> (r: Option<usize>)
    ensures
        match r {
            Some(i) => i < ss.len() && ss@[i as int].id@ == id@,
            None => forall|i: int| 0 <= i < ss.len() ==> (#[trigger] ss@[i]).id@ != id@,
        },
{
    // The entries of one log file mostly belong to the session listed last,
    // so that one is tried first.
    let n = ss.len();
    if n > 0 && ss[n - 1].id == *id {
        return Some(n - 1);
    }
    let mut i: usize = 0;
    while i < ss.len()
        invariant
            i <= ss.len(),
            forall|j: int| 0 <= j < i ==> (#[trigger] ss@[j]).id@ != id@,
        decreases ss.len() - i,
    {
        if ss[i].id == *id {
            return Some(i);
        }
        i = i + 1;
    }
    None
}

/// Counts the timestamped message `r` of session `id` into the session list.
pub fn add_to_sessions(
    ss: &mut Vec<Session>,
    id: &String,
    model: &str,
    u: Usage,
    ts: i128,
    Ghost(rs): Ghost<Seq<Record>>,
    Ghost(r): Ghost<Record>,
)
    requires
        sessions_match(old(ss)@, rs),
        r.session == Some(id@),
        r.timestamp == Some(ts as int),
        model@ == r.model,
        u == r.usage,
        has_room(sum_all(rs), r.model, r.usage),
    ensures
        sessions_match(final(ss)@, rs.push(r)),
{
    let ghost rs2 = rs.push(r);
    proof {
        reveal(sessions_match);
        assert forall|k: Seq<char>| k != id@ implies #[trigger] sum_where(rs2, Filter::Session(k))
            == sum_where(rs, Filter::Session(k)) && earliest(rs2, Filter::Session(k)) == earliest(
            rs,
            Filter::Session(k),
        ) && latest(rs2, Filter::Session(k)) == latest(rs, Filter::Session(k)) by {
            lemma_push(rs, r, Filter::Session(k));
        }
        lemma_push(rs, r, Filter::Session(id@));
        lemma_sum_where_le(rs, Filter::Session(id@));
        lemma_room_le(sum_where(rs, Filter::Session(id@)), sum_all(rs), r.model, r.usage);
        assert(rs2[rs.len() as int] == r);
    }
    let ghost old_ss = ss@;
    match find_session(ss, id) {
        Some(i) => {
            let sid = ss[i].id.clone();
            let mut agg = ss[i].totals;
            agg.add(model, u);
            let mut first = ss[i].first;
            let mut last = ss[i].last;
            if ts < first {
                first = ts;
            }
            if ts > last {
                last = ts;
            }
            ss.set(i, Session { id: sid, totals: agg, first, last });
            proof {
                assert forall|j: int| 0 <= j < ss.len() implies session_matches(
                    #[trigger] ss@[j],
                    rs2,
                ) by {
                    if j != i {
                        assert(ss@[j] == old_ss[j]);
                        assert(session_matches(old_ss[j], rs));
                    }
                }
                assert forall|k: int|
                    0 <= k < rs2.len() && (#[trigger] rs2[k]).timestamp is Some
                        && rs2[k].session is Some implies has_session(
                    ss@,
                    rs2[k].session->0,
                ) by {
                    if k == rs.len() {
                        assert(ss@[i as int].id@ == rs2[k].session->0);
                    } else {
                        assert(rs2[k] == rs[k]);
                        let j = choose|j: int|
                            0 <= j < old_ss.len() && (#[trigger] old_ss[j]).id@
                                == rs[k].session->0;
                        assert(ss@[j].id@ == old_ss[j].id@);
                    }
                }
            }
        },
        None => {
            proof {
                assert(!any_selected(rs, Filter::Session(id@))) by {
                    if any_selected(rs, Filter::Session(id@)) {
                        let w = choose|w: int|
                            0 <= w < rs.len() && #[trigger] selects(Filter::Session(id@), rs[w]);
                        let j = choose|j: int|
                            0 <= j < old_ss.len() && (#[trigger] old_ss[j]).id@
                                == rs[w].session->0;
                    }
                }
                lemma_none_selected(rs, Filter::Session(id@));
            }
            let mut agg = Aggregate::new();
            agg.add(model, u);
            ss.push(Session { id: id.clone(), totals: agg, first: ts, last: ts });
            proof {
                let n = old_ss.len() as int;
                assert forall|j: int| 0 <= j < ss.len() implies session_matches(
                    #[trigger] ss@[j],
                    rs2,
                ) by {
                    if j != n {
                        assert(ss@[j] == old_ss[j]);
                        assert(session_matches(old_ss[j], rs));
                    }
                }
                assert forall|k: int|
                    0 <= k < rs2.len() && (#[trigger] rs2[k]).timestamp is Some
                        && rs2[k].session is Some implies has_session(
                    ss@,
                    rs2[k].session->0,
                ) by {
                    if k == rs.len() {
                        assert(ss@[n].id@ == rs2[k].session->0);
                    } else {
                        assert(rs2[k] == rs[k]);
                        let j = choose|j: int|
                            0 <= j < old_ss.len() && (#[trigger] old_ss[j]).id@
                                == rs[k].session->0;
                        assert(ss@[j].id@ == old_ss[j].id@);
                    }
                }
            }
        },
    }
}

/// The index of a session whose last message is the latest of all; `None`
/// when there is no session.
pub fn latest_session(ss: &Vec<Session>) -> (r: Option<usize>)
    ensures
        r is None <==> ss.len() == 0,
        r matches Some(i) ==> i < ss.len() && forall|j: int|
            0 <= j < ss.len() ==> (#[trigger] ss@[j]).last <= ss@[i as int].last,
{
    if ss.len() == 0 {
        return None;
    }
    let mut m: usize = 0;
    let mut k: usize = 1;
    while k < ss.len()
        invariant
            0 < ss.len(),
            m < k <= ss.len(),
            forall|j: int| 0 <= j < k ==> (#[trigger] ss@[j]).last <= ss@[m as int].last,
        decreases ss.len() - k,
    {
        if ss[k].last > ss[m].last {
            m = k;
        }
        k = k + 1;
    }
    Some(m)
}

} // verus!

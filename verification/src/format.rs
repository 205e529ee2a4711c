//! The text forms in which the monitor shows counts, durations and names.
use vstd::prelude::*;
use crate::text::{decimal, signed_decimal, decimal_chars, signed_decimal_chars, push_str, push_chars, chars_of, slice_chars, string_of};

verus! {

/// `ds` with a ',' before every group of three digits counted from the right.
pub open spec fn group_thousands(ds: Seq<char>) -> Seq<char>
    decreases ds.len(),
{
    if ds.len() <= 3 {
        ds
    } else {
        group_thousands(ds.subrange(0, ds.len() - 3)) + seq![','] + ds.subrange(
            ds.len() - 3,
            ds.len() as int,
        )
    }
}

fn group_thousands_chars(ds: &Vec<char>) -> (r: Vec<char>)
    ensures
        r@ == group_thousands(ds@),
    decreases ds.len(),
{
    if ds.len() <= 3 {
        slice_chars(ds, 0, ds.len())
    } else {
        let head = slice_chars(ds, 0, ds.len() - 3);
        let mut r = group_thousands_chars(&head);
        r.push(',');
        let tail = slice_chars(ds, ds.len() - 3, ds.len());
        push_chars(&mut r, &tail);
        r
    }
}

/// `s` without its ',' characters.
pub open spec fn without_commas(s: Seq<char>) -> Seq<char>
    decreases s.len(),
{
    if s.len() == 0 {
        s
    } else if s.last() == ',' {
        without_commas(s.drop_last())
    } else {
        without_commas(s.drop_last()).push(s.last())
    }
}

proof fn lemma_without_commas_add(a: Seq<char>, b: Seq<char>)
    ensures
        without_commas(a + b) == without_commas(a) + without_commas(b),
    decreases b.len(),
{
    if b.len() == 0 {
        assert(a + b =~= a);
        assert(without_commas(a) + without_commas(b) =~= without_commas(a));
    } else {
        lemma_without_commas_add(a, b.drop_last());
        assert((a + b).drop_last() =~= a + b.drop_last());
        assert((a + b).last() == b.last());
        if b.last() != ',' {
            assert(without_commas(a) + without_commas(b.drop_last()).push(b.last()) =~= (
            without_commas(a) + without_commas(b.drop_last())).push(b.last()));
        }
    }
}

proof fn lemma_without_commas_none(s: Seq<char>)
    requires
        forall|i: int| 0 <= i < s.len() ==> s[i] != ',',
    ensures
        without_commas(s) == s,
    decreases s.len(),
{
    if s.len() > 0 {
        lemma_without_commas_none(s.drop_last());
        assert(without_commas(s.drop_last()).push(s.last()) =~= s);
    }
}

proof fn lemma_group_thousands_shape(s: Seq<char>)
    requires
        forall|i: int| 0 <= i < s.len() ==> s[i] != ',',
    ensures
        without_commas(group_thousands(s)) == s,
        group_thousands(s).len() >= s.len(),
        forall|i: int|
            0 <= i < group_thousands(s).len() ==> (#[trigger] group_thousands(s)[i] == ',' <==> (
            i >= 1 && (group_thousands(s).len() - i) % 4 == 0)),
    decreases s.len(),
{
    let g = group_thousands(s);
    if s.len() <= 3 {
        lemma_without_commas_none(s);
    } else {
        let h = s.subrange(0, s.len() - 3);
        let t = s.subrange(s.len() - 3, s.len() as int);
        lemma_group_thousands_shape(h);
        let gh = group_thousands(h);
        assert(g == gh + seq![','] + t);
        lemma_without_commas_add(gh + seq![','], t);
        lemma_without_commas_add(gh, seq![',']);
        assert(without_commas(seq![',']) =~= Seq::<char>::empty()) by {
            let c = seq![','];
            assert(c.drop_last() =~= Seq::<char>::empty());
            assert(c.last() == ',');
            assert(without_commas(c.drop_last()) =~= Seq::<char>::empty());
        }
        lemma_without_commas_none(t);
        assert(gh + Seq::<char>::empty() =~= gh);
        assert(h + t =~= s);
        assert forall|i: int| 0 <= i < g.len() implies (#[trigger] g[i] == ',' <==> (i >= 1 && (
        g.len() - i) % 4 == 0)) by {
            if i < gh.len() {
                assert(g[i] == gh[i]);
            } else if i == gh.len() {
                assert(g[i] == ',');
            } else {
                assert(g[i] == t[i - gh.len() - 1]);
                assert(t[i - gh.len() - 1] == s[s.len() - 3 + (i - gh.len() - 1)]);
            }
        }
    }
}

/// The text of a count with thousands separators: removing its commas gives
/// the decimal digits of the count, and the commas stand exactly at the
/// positions that leave a first group of one to three digits followed by
/// groups of exactly three (so there is no leading, trailing or doubled
/// comma).
pub proof fn law_thousands_grouping(n: nat)
    ensures
        without_commas(group_thousands(decimal(n))) == decimal(n),
        group_thousands(decimal(n)).len() > 0,
        group_thousands(decimal(n))[0] != ',',
        group_thousands(decimal(n)).last() != ',',
        forall|i: int|
            0 <= i < group_thousands(decimal(n)).len() ==> (#[trigger] group_thousands(
                decimal(n),
            )[i] == ',' <==> (i >= 1 && (group_thousands(decimal(n)).len() - i) % 4 == 0)),
{
    let d = decimal(n);
    crate::amount::lemma_decimal_digits(n);
    assert forall|i: int| 0 <= i < d.len() implies d[i] != ',' by {
        assert(crate::amount::is_digit(d[i]));
    }
    lemma_group_thousands_shape(d);
    let g = group_thousands(d);
    assert(g[0] != ',');
    assert(g[g.len() - 1] != ',');
}

/// A count with thousands separators, e.g. 1234567 as "1,234,567".
pub fn fmt_n(n: u64) -> (s: String)
    ensures
        s@ == group_thousands(decimal(n as nat)),
{
    let ds = decimal_chars(n as u128);
    string_of(&group_thousands_chars(&ds))
}

/// A remaining time: whole hours and minutes from an hour up, whole minutes
/// from a minute up, seconds below that.
pub open spec fn spec_fmt_remaining(secs: int) -> Seq<char> {
    if secs >= 3600 {
        decimal((secs / 3600) as nat) + "h "@ + decimal(((secs % 3600) / 60) as nat) + "m"@
    } else if secs >= 60 {
        decimal((secs / 60) as nat) + "m"@
    } else {
        signed_decimal(secs) + "s"@
    }
}

pub fn fmt_remaining(secs: i64) -> (s: String)
    ensures
        s@ == spec_fmt_remaining(secs as int),
{
    let mut out: Vec<char>;
    if secs >= 3600 {
        out = decimal_chars((secs / 3600) as u128);
        push_str(&mut out, "h ");
        let mut m = decimal_chars(((secs % 3600) / 60) as u128);
        out.append(&mut m);
        push_str(&mut out, "m");
    } else if secs >= 60 {
        out = decimal_chars((secs / 60) as u128);
        push_str(&mut out, "m");
    } else {
        out = signed_decimal_chars(secs);
        push_str(&mut out, "s");
    }
    string_of(&out)
}

/// How long ago something happened, in the largest whole unit among
/// seconds, minutes, hours and days.
pub open spec fn spec_fmt_duration(secs: int) -> Seq<char> {
    if secs < 60 {
        signed_decimal(secs) + "s ago"@
    } else if secs < 3600 {
        decimal((secs / 60) as nat) + "m ago"@
    } else if secs < 86400 {
        decimal((secs / 3600) as nat) + "h ago"@
    } else {
        decimal((secs / 86400) as nat) + "d ago"@
    }
}

pub fn fmt_duration(secs: i64) -> (s: String)
    ensures
        s@ == spec_fmt_duration(secs as int),
{
    let mut out: Vec<char>;
    if secs < 60 {
        out = signed_decimal_chars(secs);
        push_str(&mut out, "s ago");
    } else if secs < 3600 {
        out = decimal_chars((secs / 60) as u128);
        push_str(&mut out, "m ago");
    } else if secs < 86400 {
        out = decimal_chars((secs / 3600) as u128);
        push_str(&mut out, "h ago");
    } else {
        out = decimal_chars((secs / 86400) as u128);
        push_str(&mut out, "d ago");
    }
    string_of(&out)
}

/// `s` cut to at most `max` characters, the last one an ellipsis when cut.
pub open spec fn spec_truncate(s: Seq<char>, max: nat) -> Seq<char> {
    if s.len() <= max {
        s
    } else {
        s.take(max - 1).push('…')
    }
}

pub fn truncate(s: &str, max: usize) -> (r: String)
    requires
        max >= 1 || s@.len() == 0,
    ensures
        r@ == spec_truncate(s@, max as nat),
{
    let cs = chars_of(s);
    if cs.len() <= max {
        string_of(&cs)
    } else {
        let mut out = slice_chars(&cs, 0, max - 1);
        out.push('…');
        string_of(&out)
    }
}

fn concat_text(prefix: &str, rest: &Vec<char>) -> (s: String)
    ensures
        s@ == prefix@ + rest@,
{
    let mut out = chars_of(prefix);
    push_chars(&mut out, rest);
    string_of(&out)
}

/// When a plan quota resets, `secs` seconds from now.
pub open spec fn spec_quota_reset_text(secs: int) -> Seq<char> {
    if secs <= 0 {
        "(reset due)"@
    } else {
        "resets in "@ + spec_fmt_remaining(secs)
    }
}

pub fn quota_reset_text(secs: i64) -> (s: String)
    ensures
        s@ == spec_quota_reset_text(secs as int),
{
    if secs <= 0 {
        crate::text::owned("(reset due)")
    } else {
        let r = chars_of(fmt_remaining(secs).as_str());
        concat_text("resets in ", &r)
    }
}

/// When the current session's five-hour window resets, given the seconds
/// remaining until then (none without activity).
pub open spec fn spec_session_reset_text(remaining: Option<i64>) -> Seq<char> {
    match remaining {
        None => "no activity yet"@,
        Some(r) => if r <= 0 {
            "session window expired"@
        } else {
            "session resets in "@ + spec_fmt_remaining(r as int)
        },
    }
}

pub fn session_reset_text(remaining: Option<i64>) -> (s: String)
    ensures
        s@ == spec_session_reset_text(remaining),
{
    match remaining {
        None => crate::text::owned("no activity yet"),
        Some(r) => if r <= 0 {
            crate::text::owned("session window expired")
        } else {
            let t = chars_of(fmt_remaining(r).as_str());
            concat_text("session resets in ", &t)
        },
    }
}

/// When a usage window resets, given the seconds remaining until then
/// (none when the window holds no activity); a reset in the past shows as 0s.
pub open spec fn spec_window_reset_text(remaining: Option<i64>) -> Seq<char> {
    match remaining {
        None => "no activity in window"@,
        Some(r) => "resets in "@ + spec_fmt_remaining(if r < 0 { 0 } else { r as int }),
    }
}

pub fn window_reset_text(remaining: Option<i64>) -> (s: String)
    ensures
        s@ == spec_window_reset_text(remaining),
{
    match remaining {
        None => crate::text::owned("no activity in window"),
        Some(r) => {
            let t = chars_of(fmt_remaining(if r < 0 { 0 } else { r }).as_str());
            concat_text("resets in ", &t)
        },
    }
}

/// How long ago the last activity was (none without activity); times in
/// the future show as 0s.
pub open spec fn spec_activity_text(age: Option<i64>) -> Seq<char> {
    match age {
        None => "no activity yet"@,
        Some(a) => "last activity "@ + spec_fmt_duration(if a < 0 { 0 } else { a as int }),
    }
}

pub fn activity_text(age: Option<i64>) -> (s: String)
    ensures
        s@ == spec_activity_text(age),
{
    match age {
        None => crate::text::owned("no activity yet"),
        Some(a) => {
            let t = chars_of(fmt_duration(if a < 0 { 0 } else { a }).as_str());
            concat_text("last activity ", &t)
        },
    }
}

/// The short form of a session id: its first eight characters, or "—".
pub open spec fn spec_session_label(id: Option<Seq<char>>) -> Seq<char> {
    match id {
        None => "—"@,
        Some(s) => if s.len() <= 8 {
            s
        } else {
            s.take(8)
        },
    }
}

pub fn session_label(id: &Option<String>) -> (s: String)
    ensures
        s@ == spec_session_label(match id {
            Some(t) => Some(t@),
            None => None,
        }),
{
    match id {
        None => crate::text::owned("—"),
        Some(t) => {
            let cs = chars_of(t.as_str());
            if cs.len() <= 8 {
                string_of(&cs)
            } else {
                string_of(&slice_chars(&cs, 0, 8))
            }
        },
    }
}


/// A name is shown whole when it fits in `max` characters; otherwise it is
/// shown as its first `max - 1` characters and an ellipsis, exactly `max`
/// characters in all.
pub proof fn law_truncate_fits(s: Seq<char>, max: nat)
    requires
        max >= 1,
    ensures
        spec_truncate(s, max).len() <= max,
        s.len() <= max ==> spec_truncate(s, max) == s,
        s.len() > max ==> spec_truncate(s, max).len() == max && spec_truncate(s, max).last()
            == '…' && spec_truncate(s, max).take(max - 1) == s.take(max - 1),
{
    if s.len() > max {
        assert(s.take(max - 1).push('…').take(max - 1) =~= s.take(max - 1));
    }
}

} // verus!

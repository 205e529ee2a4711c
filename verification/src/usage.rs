//! Token usage of assistant messages, running totals of usage and API cost,
//! and the selections of messages (time windows, models, projects, sessions)
//! over which the monitor keeps totals.
use vstd::prelude::*;
use crate::pricing::{cost, lookup, spec_cost, spec_lookup};
use crate::text::{ascii_lower_seq, chars_of, has_substring, lower_contains, string_of};

verus! {

/// Token counts reported for one assistant message.
#[derive(Clone, Copy)]
pub struct Usage {
    pub input_tokens: u64,
    pub output_tokens: u64,
    pub cache_creation_input_tokens: u64,
    pub cache_read_input_tokens: u64,
}

/// Mathematical totals of token counts, cost (nano-dollars) and messages.
pub struct Totals {
    pub input: nat,
    pub output: nat,
    pub cache_write: nat,
    pub cache_read: nat,
    pub cost: nat,
    pub messages: nat,
}

pub open spec fn zero_totals() -> Totals {
    Totals { input: 0, output: 0, cache_write: 0, cache_read: 0, cost: 0, messages: 0 }
}

/// The cost, in nano-dollars, of one message of `model` with usage `u`.
pub open spec fn message_cost(model: Seq<char>, u: Usage) -> nat {
    spec_cost(
        spec_lookup(model),
        u.input_tokens,
        u.output_tokens,
        u.cache_creation_input_tokens,
        u.cache_read_input_tokens,
    )
}

/// `t` with one more message of `model` and usage `u` counted in.
pub open spec fn plus(t: Totals, model: Seq<char>, u: Usage) -> Totals {
    Totals {
        input: t.input + u.input_tokens as nat,
        output: t.output + u.output_tokens as nat,
        cache_write: t.cache_write + u.cache_creation_input_tokens as nat,
        cache_read: t.cache_read + u.cache_read_input_tokens as nat,
        cost: t.cost + message_cost(model, u),
        messages: t.messages + 1,
    }
}

/// Counting one more message into `t` keeps every total within the range of
/// the machine integers that hold it.
pub open spec fn has_room(t: Totals, model: Seq<char>, u: Usage) -> bool {
    let n = plus(t, model, u);
    &&& n.input <= u64::MAX
    &&& n.output <= u64::MAX
    &&& n.cache_write <= u64::MAX
    &&& n.cache_read <= u64::MAX
    &&& n.cost <= u128::MAX
    &&& n.messages <= u64::MAX
}

/// Componentwise `a <= b`.
pub open spec fn totals_le(a: Totals, b: Totals) -> bool {
    &&& a.input <= b.input
    &&& a.output <= b.output
    &&& a.cache_write <= b.cache_write
    &&& a.cache_read <= b.cache_read
    &&& a.cost <= b.cost
    &&& a.messages <= b.messages
}

/// Running totals of usage and API-equivalent cost (in nano-dollars).
#[derive(Clone, Copy)]
pub struct Aggregate {
    pub input: u64,
    pub output: u64,
    pub cache_write: u64,
    pub cache_read: u64,
    pub cost: u128,
    pub messages: u64,
}

impl Aggregate {
    pub open spec fn totals(&self) -> Totals {
        Totals {
            input: self.input as nat,
            output: self.output as nat,
            cache_write: self.cache_write as nat,
            cache_read: self.cache_read as nat,
            cost: self.cost as nat,
            messages: self.messages as nat,
        }
    }

    /// Totals with nothing counted.
    pub fn new() -> (a: Aggregate)
        ensures
            a.totals() == zero_totals(),
    {
        Aggregate { input: 0, output: 0, cache_write: 0, cache_read: 0, cost: 0, messages: 0 }
    }

    /// Counts one message of `model` with usage `u`: the token counts are
    /// added, the cost of the message under the model's prices is added, and
    /// the message count goes up by one.
    pub fn add(&mut self, model: &str, u: Usage)
        requires
            has_room(old(self).totals(), model@, u),
        ensures
            final(self).totals() == plus(old(self).totals(), model@, u),
    {
        let c = cost(
            lookup(model),
            u.input_tokens,
            u.output_tokens,
            u.cache_creation_input_tokens,
            u.cache_read_input_tokens,
        );
        self.input = self.input + u.input_tokens;
        self.output = self.output + u.output_tokens;
        self.cache_write = self.cache_write + u.cache_creation_input_tokens;
        self.cache_read = self.cache_read + u.cache_read_input_tokens;
        self.cost = self.cost + c;
        self.messages = self.messages + 1;
    }

    /// All tokens counted: input, output, cache writes and cache reads.
    pub fn total_tokens(&self) -> (n: u64)
        requires
            self.input + self.output + self.cache_write + self.cache_read <= u64::MAX,
        ensures
            n == self.input + self.output + self.cache_write + self.cache_read,
    {
        self.input + self.output + self.cache_write + self.cache_read
    }
}

impl Default for Aggregate {
    fn default() -> (a: Aggregate)
        ensures
            a.totals() == zero_totals(),
    {
        Aggregate::new()
    }
}

// ------------------------------------------------------------ model and path

/// Whether a model name is a Sonnet model (case-insensitively).
pub open spec fn spec_is_sonnet(model: Seq<char>) -> bool {
    has_substring(ascii_lower_seq(model), "sonnet"@)
}

pub fn is_sonnet(model: &str) -> (b: bool)
    ensures
        b == spec_is_sonnet(model@),
{
    let m = chars_of(model);
    lower_contains(&m, "sonnet")
}

/// Index just past the last '/' in `s`, or 0 when `s` holds none.
pub open spec fn component_start(s: Seq<char>) -> nat
    decreases s.len(),
{
    if s.len() == 0 {
        0
    } else if s.last() == '/' {
        s.len()
    } else {
        component_start(s.drop_last())
    }
}

/// The final component of a '/'-separated path: trailing separators and "."
/// components are skipped; there is none when the path is empty, is the
/// root, or ends in "..".
pub open spec fn spec_file_name(s: Seq<char>) -> Option<Seq<char>>
    decreases s.len(),
{
    if s.len() == 0 {
        None
    } else if s.last() == '/' {
        spec_file_name(s.drop_last())
    } else {
        proof {
            lemma_component_start(s);
        }
        let k = component_start(s);
        let c = s.subrange(k as int, s.len() as int);
        if c == seq!['.'] {
            spec_file_name(s.subrange(0, k as int))
        } else if c == seq!['.', '.'] {
            None
        } else {
            Some(c)
        }
    }
}

/// The name under which a working directory is reported: its final
/// component, or the whole path when it has none.
pub open spec fn spec_short_project_name(cwd: Seq<char>) -> Seq<char> {
    match spec_file_name(cwd) {
        Some(n) => n,
        None => cwd,
    }
}

/// The start of the last path component lies within the path, and strictly
/// inside it when the path does not end in a separator.
pub proof fn lemma_component_start(s: Seq<char>)
    ensures
        component_start(s) <= s.len(),
        s.len() > 0 && s.last() != '/' ==> component_start(s) < s.len(),
    decreases s.len(),
{
    if s.len() > 0 && s.last() != '/' {
        lemma_component_start(s.drop_last());
    }
}

fn component_start_of(v: &Vec<char>, n: usize) -> (k: usize)
    requires
        n <= v.len(),
    ensures
        k == component_start(v@.subrange(0, n as int)),
        k <= n,
    decreases n,
{
    if n == 0 {
        0
    } else if v[n - 1] == '/' {
        n
    } else {
        assert(v@.subrange(0, n as int).drop_last() =~= v@.subrange(0, n - 1));
        component_start_of(v, n - 1)
    }
}

/// The bounds, in `v`, of the final component of the path `v@[0..n]`.
fn file_name_bounds(v: &Vec<char>, n: usize) -> (r: Option<(usize, usize)>)
    requires
        n <= v.len(),
    ensures
        match r {
            None => spec_file_name(v@.subrange(0, n as int)) is None,
            Some((a, b)) => a <= b <= n && spec_file_name(v@.subrange(0, n as int)) == Some(
                v@.subrange(a as int, b as int),
            ),
        },
    decreases n,
{
    let ghost s = v@.subrange(0, n as int);
    if n == 0 {
        None
    } else if v[n - 1] == '/' {
        assert(s.drop_last() =~= v@.subrange(0, n - 1));
        file_name_bounds(v, n - 1)
    } else {
        let k = component_start_of(v, n);
        proof {
            lemma_component_start(s);
        }
        assert(s.subrange(k as int, n as int) =~= v@.subrange(k as int, n as int));
        if n - k == 1 && v[k] == '.' {
            assert(s.subrange(k as int, n as int) =~= seq!['.']);
            assert(s.subrange(0, k as int) =~= v@.subrange(0, k as int));
            file_name_bounds(v, k)
        } else if n - k == 2 && v[k] == '.' && v[k + 1] == '.' {
            assert(s.subrange(k as int, n as int) =~= seq!['.', '.']);
            None
        } else {
            assert(s.subrange(k as int, n as int) != seq!['.']) by {
                if n - k == 1 {
                    assert(s.subrange(k as int, n as int)[0] == v@[k as int]);
                }
            }
            assert(s.subrange(k as int, n as int) != seq!['.', '.']) by {
                if n - k == 2 {
                    assert(s.subrange(k as int, n as int)[0] == v@[k as int]);
                    assert(s.subrange(k as int, n as int)[1] == v@[k + 1]);
                }
            }
            Some((k, n))
        }
    }
}

/// The project name of a working directory: the last component of the path,
/// or the path itself when it has no last component.
pub fn short_project_name(cwd: &str) -> (name: String)
    ensures
        name@ == spec_short_project_name(cwd@),
{
    let v = chars_of(cwd);
    assert(v@.subrange(0, v.len() as int) =~= v@);
    match file_name_bounds(&v, v.len()) {
        Some((a, b)) => {
            let part = crate::text::slice_chars(&v, a, b);
            string_of(&part)
        },
        None => string_of(&v),
    }
}


/// A model is a Sonnet model when "sonnet" stands anywhere in its name.
pub proof fn law_sonnet_anywhere_in_name(before: Seq<char>, after: Seq<char>)
    ensures
        spec_is_sonnet(before + "sonnet"@ + after),
{
    let m = before + "sonnet"@ + after;
    let low = ascii_lower_seq(m);
    reveal_strlit("sonnet");
    let i = before.len() as int;
    assert(low.subrange(i, i + 6) =~= "sonnet"@) by {
        assert forall|j: int| 0 <= j < 6 implies low.subrange(i, i + 6)[j] == "sonnet"@[j] by {
            assert(m[i + j] == "sonnet"@[j]);
        }
    }
    assert(crate::text::occurs_at(low, "sonnet"@, i));
}

proof fn lemma_component_start_after_separator(p: Seq<char>, name: Seq<char>)
    requires
        forall|j: int| 0 <= j < name.len() ==> name[j] != '/',
    ensures
        component_start(p + seq!['/'] + name) == p.len() + 1,
    decreases name.len(),
{
    let s = p + seq!['/'] + name;
    if name.len() == 0 {
        assert(s.last() == '/');
    } else {
        assert(s.last() == name.last());
        assert(s.drop_last() =~= p + seq!['/'] + name.drop_last());
        lemma_component_start_after_separator(p, name.drop_last());
    }
}

/// The project of a working directory `p/name` is `name`, for any parent
/// `p`, when `name` is a proper path component (not empty, no '/', not "."
/// or "..").
pub proof fn law_project_is_last_component(p: Seq<char>, name: Seq<char>)
    requires
        name.len() > 0,
        forall|j: int| 0 <= j < name.len() ==> name[j] != '/',
        name != seq!['.'],
        name != seq!['.', '.'],
    ensures
        spec_short_project_name(p + seq!['/'] + name) == name,
{
    let s = p + seq!['/'] + name;
    lemma_component_start_after_separator(p, name);
    assert(s.last() == name.last());
    assert(s.subrange(p.len() + 1 as int, s.len() as int) =~= name);
}

} // verus!

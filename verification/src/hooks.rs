//! The hook registry: priority-ordered, sequential event dispatch.
//!
//! Handlers run in non-decreasing priority order; ties keep registration
//! order. Each handler's action steers the pipeline: `Deny` short-circuits,
//! `Modify` chains replacement data to the next handler, `InjectContext`
//! results are collected and merged at the end, and the first `AskUser` wins.
//! The observable precedence of the returned action is
//! deny > ask_user > inject_context > modify > continue.
//!
//! The whole pass is modelled by [`run_models`] and [`finish_dispatch`];
//! [`HookRegistry::emit`] promises exactly that model's outcome.

use vstd::prelude::*;
use vstd::pervasive::VecAdditionalExecFns;
use vstd::string::StringExecFns;

use crate::data::DataMap;
use crate::data::DataValue;
use crate::data::Dv;
use crate::models::HookAction;
use crate::models::HookResult;
use crate::models::HookResultV;
use crate::models::hook_result_default;
use crate::traits::HookHandler;

verus! {

/// A decimal digit.
pub open spec fn is_dec_digit(c: char) -> bool {
    '0' <= c && c <= '9'
}

/// A fraction of zero, three, six or nine digits, with its leading dot.
pub open spec fn rfc3339_frac_width(b: int) -> bool {
    b == 0 || b == 4 || b == 7 || b == 10
}

/// The shape of a UTC timestamp in RFC 3339 form: a year of four digits (or
/// a sign and four to six digits), two-digit month, day, hour, minute and
/// second with their separators, an optional fraction of three, six or nine
/// digits, and the literal `+00:00` offset.
pub open spec fn rfc3339_utc_shape(s: Seq<char>) -> bool {
    exists|b: int|
        {
            let n = s.len();
            let t = n - 6 - b - 9;
            &&& #[trigger] rfc3339_frac_width(b)
            &&& n >= 25 + b
            &&& s[n - 6] == '+' && is_dec_digit(s[n - 5]) && is_dec_digit(s[n - 4]) && s[n - 3]
                == ':' && is_dec_digit(s[n - 2]) && is_dec_digit(s[n - 1])
            &&& (b > 0 ==> s[n - 6 - b] == '.' && forall|i: int|
                n - 6 - b < i < n - 6 ==> is_dec_digit(#[trigger] s[i]))
            &&& s[t] == 'T'
            &&& is_dec_digit(s[t + 1]) && is_dec_digit(s[t + 2]) && s[t + 3] == ':'
                && is_dec_digit(s[t + 4]) && is_dec_digit(s[t + 5]) && s[t + 6] == ':'
                && is_dec_digit(s[t + 7]) && is_dec_digit(s[t + 8])
            &&& s[t - 3] == '-' && is_dec_digit(s[t - 2]) && is_dec_digit(s[t - 1])
            &&& s[t - 6] == '-' && is_dec_digit(s[t - 5]) && is_dec_digit(s[t - 4])
            &&& {
                let y = t - 6;
                (y == 4 && forall|i: int| 0 <= i < 4 ==> is_dec_digit(#[trigger] s[i])) || (5 <= y
                    <= 7 && (s[0] == '+' || s[0] == '-') && forall|i: int|
                    1 <= i < y ==> is_dec_digit(#[trigger] s[i]))
            }
        }
}

/// Relies on chrono's `Utc::now().to_rfc3339()`: the current UTC instant in
/// RFC 3339 form. The value depends on the clock, so only the shape is
/// promised: chrono writes the zero-padded date and time fields with their
/// separators, a fraction of zero, three, six or nine digits, and the
/// `+00:00` offset of the UTC zone.
#[verifier::external_body]
fn now_rfc3339() -> (r: String)
    ensures
        rfc3339_utc_shape(r@),
{
    chrono::Utc::now().to_rfc3339()
}

/// One registered handler with its priority, name and registration id.
pub struct HandlerEntry<H> {
    pub handler: H,
    pub priority: i32,
    pub name: String,
    pub id: u64,
}

/// Priority-ordered event dispatch.
pub struct HookRegistry<H> {
    events: Vec<(String, Vec<HandlerEntry<H>>)>,
    defaults: Option<DataMap>,
    next_id: u64,
}

/// State carried through one dispatch pass.
#[verifier::ext_equal]
pub struct DispatchState {
    /// The payload the next handler will see.
    pub cur: Map<Seq<char>, Dv>,
    /// The first `AskUser` result, if any.
    pub special: Option<HookResultV>,
    /// Collected `InjectContext` results, in invocation order.
    pub injections: Seq<HookResultV>,
    /// The `Deny` result that stopped the pass, if any.
    pub denied: Option<HookResultV>,
}

/// How one handler response advances the dispatch state.
pub open spec fn dispatch_step(st: DispatchState, r: Option<HookResultV>) -> DispatchState {
    match r {
        Option::None => st,
        Option::Some(res) => {
            if res.action == HookAction::Deny {
                DispatchState { denied: Option::Some(res), ..st }
            } else {
                DispatchState {
                    cur: if res.action == HookAction::Modify && res.data is Some {
                        res.data.unwrap()
                    } else {
                        st.cur
                    },
                    injections: if res.action == HookAction::InjectContext
                        && res.context_injection is Some {
                        st.injections.push(res)
                    } else {
                        st.injections
                    },
                    special: if res.action == HookAction::AskUser && st.special is None {
                        Option::Some(res)
                    } else {
                        st.special
                    },
                    denied: Option::None,
                }
            }
        },
    }
}

/// The abstract states of the handlers in a list of entries.
pub open spec fn models_of<H: HookHandler>(es: Seq<HandlerEntry<H>>) -> Seq<H::Model> {
    Seq::new(es.len(), |i: int| es[i].handler.model())
}

/// Same length, and the same priority, name and id at every position: a
/// dispatch pass advances handler states but never reshapes the entry list.
pub open spec fn same_entry_meta<H>(a: Seq<HandlerEntry<H>>, b: Seq<HandlerEntry<H>>) -> bool {
    &&& a.len() == b.len()
    &&& forall|j: int|
        0 <= j < a.len() ==> (#[trigger] b[j]).priority == a[j].priority && b[j].name == a[j].name
            && b[j].id == a[j].id
}

/// One full pass over the handler states: the advanced states (a denied
/// pass leaves the rest untouched) and the resulting dispatch state.
pub open spec fn run_models<H: HookHandler>(
    ms: Seq<H::Model>,
    event: Seq<char>,
    st: DispatchState,
) -> (Seq<H::Model>, DispatchState)
    decreases ms.len(),
{
    if ms.len() == 0 {
        (ms, st)
    } else {
        let r = H::response(ms[0], event, st.cur);
        let m2 = H::next_model(ms[0], event, st.cur);
        let st2 = dispatch_step(st, r);
        if st2.denied is Some {
            (seq![m2] + ms.skip(1), st2)
        } else {
            let rest = run_models::<H>(ms.skip(1), event, st2);
            (seq![m2] + rest.0, rest.1)
        }
    }
}

/// The collected injection texts joined with a blank line between each.
pub open spec fn joined_injections(inj: Seq<HookResultV>) -> Seq<char>
    decreases inj.len(),
{
    if inj.len() == 0 {
        Seq::empty()
    } else if inj.len() == 1 {
        inj[0].context_injection.unwrap()
    } else {
        joined_injections(inj.drop_last()) + "\n\n"@ + inj.last().context_injection.unwrap()
    }
}

/// Collected injections merged into one result: a single injection stands as
/// it was returned; several are joined, keeping role, ephemerality and output
/// suppression from the first.
pub open spec fn merged_injection(inj: Seq<HookResultV>) -> HookResultV
    recommends
        inj.len() > 0,
{
    if inj.len() == 1 {
        inj[0]
    } else {
        HookResultV {
            action: HookAction::InjectContext,
            context_injection: Option::Some(joined_injections(inj)),
            context_injection_role: inj[0].context_injection_role,
            ephemeral: inj[0].ephemeral,
            suppress_output: inj[0].suppress_output,
            ..hook_result_default()
        }
    }
}

/// The result of a finished pass: a deny wins, then the first ask_user, then
/// the merged injections, else continue with the (possibly modified) payload.
pub open spec fn finish_dispatch(st: DispatchState) -> HookResultV {
    if st.denied is Some {
        st.denied.unwrap()
    } else if st.special is Some {
        st.special.unwrap()
    } else if st.injections.len() > 0 {
        merged_injection(st.injections)
    } else {
        HookResultV {
            action: HookAction::Continue,
            data: Option::Some(st.cur),
            ..hook_result_default()
        }
    }
}

/// Defaults merged under the payload: payload keys win.
pub open spec fn merged_defaults(
    defaults: Option<Map<Seq<char>, Dv>>,
    data: Map<Seq<char>, Dv>,
) -> Map<Seq<char>, Dv> {
    match defaults {
        Option::Some(d) => d.union_prefer_right(data),
        Option::None => data,
    }
}

/// The payload handed to the first handler: defaults under the event data,
/// then the infrastructure-owned timestamp, overwriting any caller value.
pub open spec fn initial_data(
    defaults: Option<Map<Seq<char>, Dv>>,
    data: Map<Seq<char>, Dv>,
    ts: Seq<char>,
) -> Map<Seq<char>, Dv> {
    merged_defaults(defaults, data).insert("timestamp"@, Dv::Str(ts))
}

/// What an emission with no handlers returns: continue, with defaults merged
/// under the payload and no timestamp stamped.
pub open spec fn empty_emit_result(
    defaults: Option<Map<Seq<char>, Dv>>,
    data: Map<Seq<char>, Dv>,
) -> HookResultV {
    HookResultV {
        action: HookAction::Continue,
        data: Option::Some(merged_defaults(defaults, data)),
        ..hook_result_default()
    }
}

/// Non-decreasing priorities.
pub open spec fn sorted_by_priority<H>(es: Seq<HandlerEntry<H>>) -> bool {
    forall|i: int, j: int| 0 <= i <= j < es.len() ==> (#[trigger] es[i]).priority <= (
    #[trigger] es[j]).priority
}

/// Ties keep registration order: among entries of equal priority, the
/// registration ids strictly increase. Together with sortedness this says
/// the invocation order is exactly the stable sort of the registrations by
/// priority.
pub open spec fn stable_order<H>(es: Seq<HandlerEntry<H>>) -> bool {
    forall|i: int, j: int|
        0 <= i < j < es.len() && (#[trigger] es[i]).priority == (#[trigger] es[j]).priority
            ==> es[i].id < es[j].id
}

/// Where a new entry of priority `p` goes: after every entry of priority at
/// most `p`, before the rest.
pub open spec fn insert_position<H>(es: Seq<HandlerEntry<H>>, p: int) -> int
    decreases es.len(),
{
    if es.len() == 0 {
        0
    } else if es[0].priority <= p {
        1 + insert_position(es.skip(1), p)
    } else {
        0
    }
}

/// The entries registered under event `e` in an association list.
pub(crate) open spec fn entries_of<H>(
    evs: Seq<(String, Vec<HandlerEntry<H>>)>,
    e: Seq<char>,
) -> Seq<HandlerEntry<H>>
    decreases evs.len(),
{
    if evs.len() == 0 {
        Seq::empty()
    } else if evs[0].0@ == e {
        evs[0].1@
    } else {
        entries_of(evs.skip(1), e)
    }
}

/// Whether event `e` has a slot in the association list.
pub(crate) open spec fn has_event_key<H>(
    evs: Seq<(String, Vec<HandlerEntry<H>>)>,
    e: Seq<char>,
) -> bool {
    exists|j: int| 0 <= j < evs.len() && (#[trigger] evs[j]).0@ == e
}

/// The entries that survive removal of registration id `id`.
pub open spec fn without_id<H>(es: Seq<HandlerEntry<H>>, id: u64) -> Seq<HandlerEntry<H>>
    decreases es.len(),
{
    if es.len() == 0 {
        Seq::empty()
    } else if es[0].id == id {
        without_id(es.skip(1), id)
    } else {
        seq![es[0]] + without_id(es.skip(1), id)
    }
}

proof fn lemma_entries_of_at<H>(evs: Seq<(String, Vec<HandlerEntry<H>>)>, e: Seq<char>, i: int)
    requires
        0 <= i < evs.len(),
        evs[i].0@ == e,
        forall|j: int| 0 <= j < i ==> (#[trigger] evs[j]).0@ != e,
    ensures
        entries_of(evs, e) == evs[i].1@,
    decreases evs.len(),
{
    if i > 0 {
        lemma_entries_of_at(evs.skip(1), e, i - 1);
    }
}

proof fn lemma_entries_of_none<H>(evs: Seq<(String, Vec<HandlerEntry<H>>)>, e: Seq<char>)
    requires
        forall|j: int| 0 <= j < evs.len() ==> (#[trigger] evs[j]).0@ != e,
    ensures
        entries_of(evs, e) == Seq::<HandlerEntry<H>>::empty(),
        !has_event_key(evs, e),
    decreases evs.len(),
{
    if evs.len() > 0 {
        lemma_entries_of_none(evs.skip(1), e);
    }
}

proof fn lemma_entries_of_update<H>(
    evs: Seq<(String, Vec<HandlerEntry<H>>)>,
    u: Seq<(String, Vec<HandlerEntry<H>>)>,
    i: int,
    e: Seq<char>,
)
    requires
        0 <= i < evs.len(),
        u == evs.update(i, u[i]),
        u.len() == evs.len(),
        u[i].0@ == evs[i].0@,
        e != evs[i].0@,
    ensures
        entries_of(u, e) == entries_of(evs, e),
        has_event_key(u, e) == has_event_key(evs, e),
    decreases evs.len(),
{
    assert forall|j: int| 0 <= j < u.len() && j != i implies u[j] == evs[j] by {}
    if evs.len() > 0 {
        if i == 0 {
            assert(u[0].0@ != e);
            assert(u.skip(1) =~= evs.skip(1));
        } else {
            assert(u[0] == evs[0]);
            if evs[0].0@ != e {
                assert(u.skip(1) =~= evs.skip(1).update(i - 1, u[i]));
                assert(u.skip(1)[i - 1] == u[i]);
                lemma_entries_of_update(evs.skip(1), u.skip(1), i - 1, e);
            }
        }
        if has_event_key(evs, e) {
            let j = choose|j: int| 0 <= j < evs.len() && (#[trigger] evs[j]).0@ == e;
            assert(u[j].0@ == e);
        }
        if has_event_key(u, e) {
            let j = choose|j: int| 0 <= j < u.len() && (#[trigger] u[j]).0@ == e;
            assert(evs[j].0@ == e);
        }
    }
}

impl<H: HookHandler> View for HookRegistry<H> {
    type V = Map<Seq<char>, Seq<HandlerEntry<H>>>;

    /// The registry as a map from event name to its entry sequence.
    closed spec fn view(&self) -> Map<Seq<char>, Seq<HandlerEntry<H>>> {
        Map::new(|e: Seq<char>| has_event_key(self.events@, e), |e: Seq<char>| entries_of(self.events@, e))
    }
}

impl<H: HookHandler> HookRegistry<H> {
    /// The entries registered for `e`, in invocation order (empty when none).
    pub closed spec fn entries(self, e: Seq<char>) -> Seq<HandlerEntry<H>> {
        entries_of(self.events@, e)
    }

    /// Whether `e` has ever had a registration slot.
    pub closed spec fn has_event(self, e: Seq<char>) -> bool {
        has_event_key(self.events@, e)
    }

    /// The default fields merged into every emission.
    pub closed spec fn defaults_v(self) -> Option<Map<Seq<char>, Dv>> {
        match self.defaults {
            Option::Some(d) => Option::Some(d@),
            Option::None => Option::None,
        }
    }

    /// The next registration id to be handed out.
    pub closed spec fn fresh_id(self) -> u64 {
        self.next_id
    }

    /// Event keys are unique, entry lists are sorted by priority, payload
    /// defaults are well-formed, and every issued id is below `fresh_id`.
    pub closed spec fn wf(self) -> bool {
        &&& forall|i: int, j: int|
            0 <= i < j < self.events@.len() ==> (#[trigger] self.events@[i]).0@ != (
            #[trigger] self.events@[j]).0@
        &&& forall|i: int|
            0 <= i < self.events@.len() ==> sorted_by_priority((#[trigger] self.events@[i]).1@)
        &&& forall|i: int|
            0 <= i < self.events@.len() ==> stable_order((#[trigger] self.events@[i]).1@)
        &&& forall|i: int, k: int|
            0 <= i < self.events@.len() && 0 <= k < (#[trigger] self.events@[i]).1@.len() ==> (
            #[trigger] self.events@[i].1@[k]).id < self.next_id
        &&& match self.defaults {
            Option::Some(d) => d.wf(),
            Option::None => true,
        }
    }

    /// Entries are sorted by priority with ties in registration order: the
    /// invocation order of a pass equals the stable sort of the
    /// registrations by priority.
    pub proof fn lemma_entries_sorted(self, e: Seq<char>)
        requires
            self.wf(),
        ensures
            sorted_by_priority(self.entries(e)),
            stable_order(self.entries(e)),
    {
        self.lemma_entries_sorted_rec(self.events@, e);
    }

    proof fn lemma_entries_sorted_rec(
        self,
        evs: Seq<(String, Vec<HandlerEntry<H>>)>,
        e: Seq<char>,
    )
        requires
            forall|i: int| 0 <= i < evs.len() ==> sorted_by_priority((#[trigger] evs[i]).1@),
            forall|i: int| 0 <= i < evs.len() ==> stable_order((#[trigger] evs[i]).1@),
        ensures
            sorted_by_priority(entries_of(evs, e)),
            stable_order(entries_of(evs, e)),
        decreases evs.len(),
    {
        if evs.len() > 0 && evs[0].0@ != e {
            assert forall|i: int|
                0 <= i < evs.skip(1).len() implies sorted_by_priority(
                (#[trigger] evs.skip(1)[i]).1@) && stable_order(evs.skip(1)[i].1@) by {
                assert(evs.skip(1)[i] == evs[i + 1]);
            }
            self.lemma_entries_sorted_rec(evs.skip(1), e);
        }
    }

    /// An empty registry.
    pub fn new() -> (r: Self)
        ensures
            r.wf(),
            forall|e: Seq<char>| (#[trigger] r.entries(e)).len() == 0,
            forall|e: Seq<char>| !(#[trigger] r.has_event(e)),
            r.defaults_v() is None,
    {
        let r = HookRegistry { events: Vec::new(), defaults: Option::None, next_id: 0 };
        proof {
            assert forall|e: Seq<char>| (#[trigger] r.entries(e)).len() == 0 by {
                lemma_entries_of_none(r.events@, e);
            }
            assert forall|e: Seq<char>| !(#[trigger] r.has_event(e)) by {
                lemma_entries_of_none(r.events@, e);
            }
        }
        r
    }

    /// Replace the default fields merged into every emission.
    pub fn set_default_fields(&mut self, defaults: DataMap)
        requires
            old(self).wf(),
            defaults.wf(),
        ensures
            final(self).wf(),
            final(self).defaults_v() == Option::Some(defaults@),
            final(self).fresh_id() == old(self).fresh_id(),
            forall|e: Seq<char>| final(self).entries(e) == old(self).entries(e),
            forall|e: Seq<char>| final(self).has_event(e) == old(self).has_event(e),
    {
        self.defaults = Option::Some(defaults);
    }
}

/// The decimal digit character for `d`.
pub open spec fn digit_char(d: nat) -> char {
    if d == 0 {
        '0'
    } else if d == 1 {
        '1'
    } else if d == 2 {
        '2'
    } else if d == 3 {
        '3'
    } else if d == 4 {
        '4'
    } else if d == 5 {
        '5'
    } else if d == 6 {
        '6'
    } else if d == 7 {
        '7'
    } else if d == 8 {
        '8'
    } else {
        '9'
    }
}

/// The decimal digits of `n`, most significant first.
pub open spec fn dec_digits(n: nat) -> Seq<char>
    decreases n,
{
    if n < 10 {
        seq![digit_char(n)]
    } else {
        dec_digits(n / 10) + seq![digit_char(n % 10)]
    }
}

fn digit_str(d: u64) -> (r: &'static str)
    requires
        d < 10,
    ensures
        r@ == seq![digit_char(d as nat)],
{
    if d == 0 {
        proof {
            reveal_strlit("0");
            assert("0"@ =~= seq!['0']);
        }
        "0"
    } else if d == 1 {
        proof {
            reveal_strlit("1");
            assert("1"@ =~= seq!['1']);
        }
        "1"
    } else if d == 2 {
        proof {
            reveal_strlit("2");
            assert("2"@ =~= seq!['2']);
        }
        "2"
    } else if d == 3 {
        proof {
            reveal_strlit("3");
            assert("3"@ =~= seq!['3']);
        }
        "3"
    } else if d == 4 {
        proof {
            reveal_strlit("4");
            assert("4"@ =~= seq!['4']);
        }
        "4"
    } else if d == 5 {
        proof {
            reveal_strlit("5");
            assert("5"@ =~= seq!['5']);
        }
        "5"
    } else if d == 6 {
        proof {
            reveal_strlit("6");
            assert("6"@ =~= seq!['6']);
        }
        "6"
    } else if d == 7 {
        proof {
            reveal_strlit("7");
            assert("7"@ =~= seq!['7']);
        }
        "7"
    } else if d == 8 {
        proof {
            reveal_strlit("8");
            assert("8"@ =~= seq!['8']);
        }
        "8"
    } else {
        proof {
            reveal_strlit("9");
            assert("9"@ =~= seq!['9']);
        }
        "9"
    }
}

/// `n` written in decimal.
fn u64_dec(n: u64) -> (r: String)
    ensures
        r@ == dec_digits(n as nat),
    decreases n,
{
    if n < 10 {
        String::from_str(digit_str(n))
    } else {
        let high = u64_dec(n / 10);
        high.concat(digit_str(n % 10))
    }
}

proof fn lemma_without_id_element<H>(es: Seq<HandlerEntry<H>>, id: u64, k: int)
    requires
        0 <= k < without_id(es, id).len(),
    ensures
        exists|j: int|
            0 <= j < es.len() && without_id(es, id)[k] == es[j] && k <= j && (#[trigger] es[j]).id
                != id,
    decreases es.len(),
{
    if es.len() > 0 {
        if es[0].id == id {
            lemma_without_id_element(es.skip(1), id, k);
            let j = choose|j: int|
                0 <= j < es.skip(1).len() && without_id(es.skip(1), id)[k] == es.skip(1)[j] && k
                    <= j && (#[trigger] es.skip(1)[j]).id != id;
            assert(es.skip(1)[j] == es[j + 1]);
            assert(es[j + 1].id != id);
        } else {
            if k > 0 {
                lemma_without_id_element(es.skip(1), id, k - 1);
                let j = choose|j: int|
                    0 <= j < es.skip(1).len() && without_id(es.skip(1), id)[k - 1] == es.skip(1)[j]
                        && k - 1 <= j && (#[trigger] es.skip(1)[j]).id != id;
                assert(without_id(es, id)[k] == without_id(es.skip(1), id)[k - 1]);
                assert(es.skip(1)[j] == es[j + 1]);
                assert(es[j + 1].id != id);
            }
        }
    }
}

proof fn lemma_without_id_sorted<H>(es: Seq<HandlerEntry<H>>, id: u64)
    requires
        sorted_by_priority(es),
        stable_order(es),
    ensures
        sorted_by_priority(without_id(es, id)),
        stable_order(without_id(es, id)),
        forall|k: int|
            0 <= k < without_id(es, id).len() ==> exists|j: int|
                0 <= j < es.len() && (#[trigger] without_id(es, id)[k]) == es[j],
    decreases es.len(),
{
    assert forall|k: int|
        0 <= k < without_id(es, id).len() implies exists|j: int|
        0 <= j < es.len() && (#[trigger] without_id(es, id)[k]) == es[j] by {
        lemma_without_id_element(es, id, k);
    }
    if es.len() > 0 {
        assert forall|i: int, j: int|
            0 <= i <= j < es.skip(1).len() implies (#[trigger] es.skip(1)[i]).priority <= (
        #[trigger] es.skip(1)[j]).priority by {
            assert(es.skip(1)[i] == es[i + 1]);
            assert(es.skip(1)[j] == es[j + 1]);
        }
        assert forall|i: int, j: int|
            0 <= i < j < es.skip(1).len() && (#[trigger] es.skip(1)[i]).priority == (
        #[trigger] es.skip(1)[j]).priority implies es.skip(1)[i].id < es.skip(1)[j].id by {
            assert(es.skip(1)[i] == es[i + 1]);
            assert(es.skip(1)[j] == es[j + 1]);
        }
        lemma_without_id_sorted(es.skip(1), id);
        if es[0].id != id {
            let w = without_id(es, id);
            let w1 = without_id(es.skip(1), id);
            assert forall|i: int, j: int|
                0 <= i <= j < w.len() implies (#[trigger] w[i]).priority <= (
            #[trigger] w[j]).priority by {
                if i == 0 {
                    if j > 0 {
                        assert(w[j] == w1[j - 1]);
                        lemma_without_id_element(es.skip(1), id, j - 1);
                        let m = choose|m: int|
                            0 <= m < es.skip(1).len() && w1[j - 1] == es.skip(1)[m] && j - 1 <= m
                                && (#[trigger] es.skip(1)[m]).id != id;
                        assert(es.skip(1)[m] == es[m + 1]);
                        assert(es[0].priority <= es[m + 1].priority);
                    }
                } else {
                    assert(w[i] == w1[i - 1]);
                    assert(w[j] == w1[j - 1]);
                }
            }
            assert forall|i: int, j: int|
                0 <= i < j < w.len() && (#[trigger] w[i]).priority == (
            #[trigger] w[j]).priority implies w[i].id < w[j].id by {
                if i == 0 {
                    assert(w[j] == w1[j - 1]);
                    lemma_without_id_element(es.skip(1), id, j - 1);
                    let m = choose|m: int|
                        0 <= m < es.skip(1).len() && w1[j - 1] == es.skip(1)[m] && j - 1 <= m && (
                        #[trigger] es.skip(1)[m]).id != id;
                    assert(es.skip(1)[m] == es[m + 1]);
                    assert(es[0].priority == es[m + 1].priority ==> es[0].id < es[m + 1].id);
                } else {
                    assert(w[i] == w1[i - 1]);
                    assert(w[j] == w1[j - 1]);
                }
            }
        }
    }
}

proof fn lemma_entries_of_push<H>(
    evs: Seq<(String, Vec<HandlerEntry<H>>)>,
    p: (String, Vec<HandlerEntry<H>>),
    e: Seq<char>,
)
    requires
        e != p.0@,
    ensures
        entries_of(evs.push(p), e) == entries_of(evs, e),
        has_event_key(evs.push(p), e) == has_event_key(evs, e),
    decreases evs.len(),
{
    if evs.len() == 0 {
        assert(evs.push(p)[0] == p);
        assert(evs.push(p).skip(1) =~= Seq::<(String, Vec<HandlerEntry<H>>)>::empty());
        lemma_entries_of_none(evs.push(p).skip(1), e);
    } else {
        assert(evs.push(p)[0] == evs[0]);
        if evs[0].0@ != e {
            assert(evs.push(p).skip(1) =~= evs.skip(1).push(p));
            lemma_entries_of_push(evs.skip(1), p, e);
        }
    }
    if has_event_key(evs, e) {
        let j = choose|j: int| 0 <= j < evs.len() && (#[trigger] evs[j]).0@ == e;
        assert(evs.push(p)[j].0@ == e);
    }
    if has_event_key(evs.push(p), e) {
        let j = choose|j: int|
            0 <= j < evs.push(p).len() && (#[trigger] evs.push(p)[j]).0@ == e;
        assert(j < evs.len());
        assert(evs[j].0@ == e);
    }
}

proof fn lemma_insert_position_at<H>(es: Seq<HandlerEntry<H>>, p: int, k: int)
    requires
        0 <= k <= es.len(),
        forall|j: int| 0 <= j < k ==> (#[trigger] es[j]).priority <= p,
        k < es.len() ==> es[k].priority > p,
    ensures
        insert_position(es, p) == k,
    decreases es.len(),
{
    if k == 0 {
    } else {
        assert(es[0].priority <= p);
        assert forall|j: int| 0 <= j < k - 1 implies (#[trigger] es.skip(1)[j]).priority <= p by {
            assert(es.skip(1)[j] == es[j + 1]);
        }
        if k - 1 < es.skip(1).len() {
            assert(es.skip(1)[k - 1] == es[k]);
        }
        lemma_insert_position_at(es.skip(1), p, k - 1);
    }
}

impl<H: HookHandler> HookRegistry<H> {
    /// Register `handler` for `event` with the given priority; lower runs
    /// earlier, ties keep registration order. Without a name, a unique
    /// `handler-<id>` name is synthesised. Returns the registration id, which
    /// [`Self::unregister`] takes to remove exactly this entry.
    #[verifier::rlimit(80)]
    pub fn register(
        &mut self,
        event: &str,
        handler: H,
        priority: i32,
        name: Option<String>,
    ) -> (r: u64)
        requires
            old(self).wf(),
            old(self).fresh_id() < u64::MAX,
        ensures
            final(self).wf(),
            r == old(self).fresh_id(),
            final(self).fresh_id() == old(self).fresh_id() + 1,
            final(self).defaults_v() == old(self).defaults_v(),
            forall|e: Seq<char>|
                e != event@ ==> final(self).entries(e) == old(self).entries(e)
                    && final(self).has_event(e) == old(self).has_event(e),
            final(self).has_event(event@),
            ({
                let es = old(self).entries(event@);
                let k = insert_position(es, priority as int);
                let en = final(self).entries(event@);
                &&& en.len() == es.len() + 1
                &&& 0 <= k <= es.len()
                &&& forall|j: int| 0 <= j < k ==> en[j] == es[j]
                &&& forall|j: int| k < j < en.len() ==> en[j] == es[j - 1]
                &&& en[k].handler == handler
                &&& en[k].priority == priority
                &&& en[k].id == r
                &&& en[k].name@ == match name {
                    Option::Some(n) => n@,
                    Option::None => "handler-"@ + dec_digits(r as nat),
                }
            }),
    {
        let id = self.next_id;
        self.next_id = self.next_id + 1;
        let entry_name: String = match name {
            Option::Some(n) => n,
            Option::None => String::from_str("handler-").concat(u64_dec(id).as_str()),
        };
        let entry = HandlerEntry { handler, priority, name: entry_name, id };
        let key_string: String = event.to_owned();

        let n: usize = self.events.len();
        let mut i: usize = 0;
        let mut found: bool = false;
        while i < n && !found
            invariant
                self.events@ == old(self).events@,
                self.defaults == old(self).defaults,
                self.next_id == id + 1,
                key_string@ == event@,
                n == self.events@.len(),
                0 <= i <= n,
                found ==> i < n && self.events@[i as int].0@ == event@,
                !found ==> forall|j: int| 0 <= j < i ==> (#[trigger] self.events@[j]).0@
                    != event@,
            decreases n - i + (if found { 0int } else { 1int }),
        {
            if self.events[i].0 == key_string {
                found = true;
            } else {
                i = i + 1;
            }
        }
        if !found {
            let mut new_entries: Vec<HandlerEntry<H>> = Vec::new();
            new_entries.push(entry);
            let ghost before = self.events@;
            self.events.push((key_string, new_entries));
            proof {
                let u = self.events@;
                assert(u == before.push(u[n as int]));
                assert(u[n as int].0@ == event@);
                assert(u[n as int].1@ =~= seq![
                    HandlerEntry { handler, priority, name: entry.name, id },
                ]);
                lemma_entries_of_at(u, event@, n as int);
                lemma_entries_of_none(before, event@);
                assert forall|e: Seq<char>| e != event@ implies entries_of(u, e) == entries_of(
                    before,
                    e,
                ) && has_event_key(u, e) == has_event_key(before, e) by {
                    lemma_entries_of_push(before, u[n as int], e);
                }
                assert(insert_position(
                    entries_of(before, event@),
                    priority as int,
                ) == 0);
            }
            return id;
        }
        let mut pair: (String, Vec<HandlerEntry<H>>) = (String::new(), Vec::new());
        self.events.set_and_swap(i, &mut pair);
        let (key, mut entries) = pair;
        let ghost orig_entries = entries@;
        let m: usize = entries.len();
        let mut k: usize = 0;
        let mut placed: bool = false;
        while k < m && !placed
            invariant
                m == entries@.len(),
                entries@ == orig_entries,
                0 <= k <= m,
                placed ==> k < m && entries@[k as int].priority > priority,
                forall|j: int| 0 <= j < k ==> (#[trigger] entries@[j]).priority <= priority,
            decreases m - k + (if placed { 0int } else { 1int }),
        {
            if entries[k].priority > priority {
                placed = true;
            } else {
                k = k + 1;
            }
        }
        proof {
            if !placed {
                assert(k == m);
            }
            lemma_insert_position_at(orig_entries, priority as int, k as int);
            assert(orig_entries == old(self).events@[i as int].1@);
            assert(sorted_by_priority(orig_entries));
        }
        entries.insert(k, entry);
        let ghost mid_events = self.events@;
        self.events.set(i, (key, entries));
        proof {
            let u = self.events@;
            let es = entries_of(old(self).events@, event@);
            assert(u =~= old(self).events@.update(i as int, u[i as int]));
            assert(u[i as int].0@ == event@);
            assert(u[i as int].1@ == orig_entries.insert(k as int, entry));
            lemma_entries_of_at(old(self).events@, event@, i as int);
            assert(es == orig_entries);
            lemma_entries_of_at(u, event@, i as int);
            assert(entries_of(u, event@) == orig_entries.insert(k as int, entry));
            assert forall|e: Seq<char>| e != event@ implies entries_of(u, e) == entries_of(
                old(self).events@,
                e,
            ) && has_event_key(u, e) == has_event_key(old(self).events@, e) by {
                lemma_entries_of_update(old(self).events@, u, i as int, e);
            }
            let en = entries_of(u, event@);
            assert forall|j: int| 0 <= j < k implies en[j] == es[j] by {
                assert(en[j] == orig_entries.insert(k as int, entry)[j]);
            }
            assert(has_event_key(u, event@)) by {
                assert(u[i as int].0@ == event@);
            }
            // well-formedness: sortedness of the updated entry list
            assert forall|a: int, b: int|
                0 <= a <= b < en.len() implies (#[trigger] en[a]).priority <= (
            #[trigger] en[b]).priority by {
                let ki = k as int;
                if a < ki && b < ki {
                    assert(en[a] == orig_entries[a]);
                    assert(en[b] == orig_entries[b]);
                } else if a == ki && b == ki {
                } else if a < ki && b == ki {
                    assert(en[a] == orig_entries[a]);
                    assert(en[b] == entry);
                } else if a == ki && b > ki {
                    assert(en[a] == entry);
                    assert(en[b] == orig_entries[b - 1]);
                    assert(ki < orig_entries.len());
                    assert(orig_entries[ki].priority > priority);
                    assert(orig_entries[ki].priority <= orig_entries[b - 1].priority);
                } else if a < ki && b > ki {
                    assert(en[a] == orig_entries[a]);
                    assert(en[b] == orig_entries[b - 1]);
                    assert(orig_entries[a].priority <= priority);
                    assert(ki < orig_entries.len());
                    assert(orig_entries[ki].priority <= orig_entries[b - 1].priority);
                    assert(orig_entries[a].priority <= orig_entries[b - 1].priority);
                } else {
                    assert(en[a] == orig_entries[a - 1]);
                    assert(en[b] == orig_entries[b - 1]);
                }
            }
            assert(stable_order(orig_entries));
            assert forall|a: int, b: int|
                0 <= a < b < en.len() && (#[trigger] en[a]).priority == (
            #[trigger] en[b]).priority implies en[a].id < en[b].id by {
                let ki = k as int;
                if a < ki && b < ki {
                    assert(en[a] == orig_entries[a]);
                    assert(en[b] == orig_entries[b]);
                } else if a < ki && b == ki {
                    assert(en[a] == orig_entries[a]);
                    assert(en[b] == entry);
                    assert(orig_entries[a].id < id);
                } else if a == ki && b > ki {
                    assert(en[a] == entry);
                    assert(en[b] == orig_entries[b - 1]);
                    assert(orig_entries[ki].priority > priority);
                    assert(orig_entries[ki].priority <= orig_entries[b - 1].priority);
                } else if a < ki && b > ki {
                    assert(en[a] == orig_entries[a]);
                    assert(en[b] == orig_entries[b - 1]);
                } else {
                    assert(en[a] == orig_entries[a - 1]);
                    assert(en[b] == orig_entries[b - 1]);
                }
            }
            assert forall|x: int, y: int|
                0 <= x < y < u.len() implies (#[trigger] u[x]).0@ != (#[trigger] u[y]).0@ by {
                if x != i as int && y != i as int {
                    assert(u[x] == old(self).events@[x]);
                    assert(u[y] == old(self).events@[y]);
                } else if x == i as int {
                    assert(u[y] == old(self).events@[y]);
                } else {
                    assert(u[x] == old(self).events@[x]);
                }
            }
        }
        id
    }
}

impl<H: HookHandler> HookRegistry<H> {
    /// Remove the entry registered under `event` with registration id `id`.
    /// Removing an id that is absent, or an unknown event, is a no-op.
    pub fn unregister(&mut self, event: &str, id: u64)
        requires
            old(self).wf(),
        ensures
            final(self).wf(),
            final(self).fresh_id() == old(self).fresh_id(),
            final(self).defaults_v() == old(self).defaults_v(),
            forall|e: Seq<char>|
                e != event@ ==> final(self).entries(e) == old(self).entries(e)
                    && final(self).has_event(e) == old(self).has_event(e),
            final(self).has_event(event@) == old(self).has_event(event@),
            final(self).entries(event@) == without_id(old(self).entries(event@), id),
    {
        let key_string: String = event.to_owned();
        let n: usize = self.events.len();
        let mut i: usize = 0;
        let mut found: bool = false;
        while i < n && !found
            invariant
                *self == *old(self),
                key_string@ == event@,
                n == self.events@.len(),
                0 <= i <= n,
                found ==> i < n && self.events@[i as int].0@ == event@,
                !found ==> forall|j: int| 0 <= j < i ==> (#[trigger] self.events@[j]).0@
                    != event@,
            decreases n - i + (if found { 0int } else { 1int }),
        {
            if self.events[i].0 == key_string {
                found = true;
            } else {
                i = i + 1;
            }
        }
        if !found {
            proof {
                lemma_entries_of_none(self.events@, event@);
            }
            return ;
        }
        let mut pair: (String, Vec<HandlerEntry<H>>) = (String::new(), Vec::new());
        self.events.set_and_swap(i, &mut pair);
        let (key, mut entries) = pair;
        let ghost orig_entries = entries@;
        let mut kept: Vec<HandlerEntry<H>> = Vec::new();
        while entries.len() > 0
            invariant
                without_id(orig_entries, id) == kept@ + without_id(entries@, id),
                forall|j: int| 0 <= j < kept@.len() ==> (#[trigger] kept@[j]).id != id,
            decreases entries.len(),
        {
            let ghost before = entries@;
            let e = entries.remove(0);
            proof {
                assert(entries@ =~= before.skip(1));
            }
            if e.id != id {
                kept.push(e);
                proof {
                    assert(without_id(before, id) == seq![e] + without_id(before.skip(1), id));
                    assert(kept@ + without_id(entries@, id) =~= kept@.drop_last() + (seq![e]
                        + without_id(before.skip(1), id)));
                }
            }
        }
        proof {
            assert(without_id(Seq::<HandlerEntry<H>>::empty(), id)
                == Seq::<HandlerEntry<H>>::empty());
            assert(kept@ + without_id(entries@, id) =~= kept@);
            assert(kept@ == without_id(orig_entries, id));
            lemma_entries_of_at(old(self).events@, event@, i as int);
            assert(orig_entries == old(self).entries(event@));
        }
        self.events.set(i, (key, kept));
        proof {
            let u = self.events@;
            assert(u =~= old(self).events@.update(i as int, u[i as int]));
            assert(u[i as int].0@ == event@);
            lemma_entries_of_at(u, event@, i as int);
            assert forall|e: Seq<char>| e != event@ implies entries_of(u, e) == entries_of(
                old(self).events@,
                e,
            ) && has_event_key(u, e) == has_event_key(old(self).events@, e) by {
                lemma_entries_of_update(old(self).events@, u, i as int, e);
            }
            assert(has_event_key(u, event@)) by {
                assert(u[i as int].0@ == event@);
            }
            assert(has_event_key(old(self).events@, event@)) by {
                assert(old(self).events@[i as int].0@ == event@);
            }
            assert(sorted_by_priority(orig_entries));
            lemma_without_id_sorted(orig_entries, id);
            assert forall|k: int|
                0 <= k < kept@.len() implies (#[trigger] kept@[k]).id < self.next_id by {
                lemma_without_id_element(orig_entries, id, k);
            }
            assert forall|x: int, y: int|
                0 <= x < y < u.len() implies (#[trigger] u[x]).0@ != (#[trigger] u[y]).0@ by {
                if x != i as int && y != i as int {
                    assert(u[x] == old(self).events@[x]);
                    assert(u[y] == old(self).events@[y]);
                } else if x == i as int {
                    assert(u[y] == old(self).events@[y]);
                } else {
                    assert(u[x] == old(self).events@[x]);
                }
            }
        }
    }
}

/// The mathematical values of a sequence of results.
pub open spec fn hook_views(s: Seq<HookResult>) -> Seq<HookResultV> {
    Seq::new(s.len(), |i: int| s[i]@)
}

/// The mathematical value of an optional result.
pub open spec fn opt_result_view(o: Option<HookResult>) -> Option<HookResultV> {
    match o {
        Option::Some(r) => Option::Some(r@),
        Option::None => Option::None,
    }
}

/// Everything [`HookRegistry::emit`] promises, for the timestamp `ts` that
/// was stamped: with no handlers registered the result is
/// [`empty_emit_result`]; otherwise the pass over the entries follows
/// [`run_models`] from the merged-and-stamped payload, the result is
/// [`finish_dispatch`] of the final state, and the registry keeps the same
/// shape with the handlers advanced.
pub open spec fn emit_post<H: HookHandler>(
    pre: HookRegistry<H>,
    post: HookRegistry<H>,
    event: Seq<char>,
    data: Map<Seq<char>, Dv>,
    ts: Seq<char>,
    r: HookResultV,
) -> bool {
    &&& post.wf()
    &&& post.defaults_v() == pre.defaults_v()
    &&& post.fresh_id() == pre.fresh_id()
    &&& forall|e: Seq<char>|
        e != event ==> post.entries(e) == pre.entries(e) && post.has_event(e) == pre.has_event(e)
    &&& post.has_event(event) == pre.has_event(event)
    &&& ({
        let hs = pre.entries(event);
        if hs.len() == 0 {
            r == empty_emit_result(pre.defaults_v(), data) && post.entries(event) == hs
        } else {
            let st0 = DispatchState {
                cur: initial_data(pre.defaults_v(), data, ts),
                special: Option::None,
                injections: Seq::empty(),
                denied: Option::None,
            };
            let full = run_models::<H>(models_of(hs), event, st0);
            &&& r == finish_dispatch(full.1)
            &&& same_entry_meta(hs, post.entries(event))
            &&& models_of(post.entries(event)) == full.0
        }
    })
}

/// Some emission of `event` with payload `data` took the registry from
/// `pre` to `post`: there were a stamp and a result satisfying
/// [`emit_post`].
pub open spec fn emitted<H: HookHandler>(
    pre: HookRegistry<H>,
    post: HookRegistry<H>,
    event: Seq<char>,
    data: Map<Seq<char>, Dv>,
) -> bool {
    exists|ts: Seq<char>, r: HookResultV| #[trigger] emit_post(pre, post, event, data, ts, r)
}

impl<H: HookHandler> HookRegistry<H> {
    /// Emit `event` with payload `data`, stamping the given timestamp.
    ///
    /// This is the whole dispatch pipeline with the clock held still: callers
    /// that need the real time use [`Self::emit`], which reads the clock and
    /// hands the stamp here.
    #[verifier::rlimit(80)]
    pub fn emit_at(&mut self, event: &str, data: DataMap, timestamp: String) -> (r: HookResult)
        requires
            old(self).wf(),
            data.wf(),
        ensures
            emit_post(*old(self), *final(self), event@, data@, timestamp@, r@),
            r.wf(),
    {
        let n: usize = self.events.len();
        let mut i: usize = 0;
        let mut found: bool = false;
        let key_string: String = event.to_owned();
        while i < n && !found
            invariant
                *self == *old(self),
                key_string@ == event@,
                n == self.events@.len(),
                0 <= i <= n,
                found ==> i < n && self.events@[i as int].0@ == event@,
                !found ==> forall|j: int| 0 <= j < i ==> (#[trigger] self.events@[j]).0@
                    != event@,
            decreases n - i + (if found { 0int } else { 1int }),
        {
            if self.events[i].0 == key_string {
                found = true;
            } else {
                i = i + 1;
            }
        }
        if !found {
            proof {
                lemma_entries_of_none(self.events@, event@);
            }
            let merged: DataMap = match self.defaults {
                Option::Some(ref d) => d.merged(&data),
                Option::None => data,
            };
            let mut out: HookResult = HookResult::default();
            out.data = Option::Some(merged);
            proof {
                assert(out@ =~= empty_emit_result(old(self).defaults_v(), data@));
            }
            return out;
        }
        let mut pair: (String, Vec<HandlerEntry<H>>) = (String::new(), Vec::new());
        self.events.set_and_swap(i, &mut pair);
        let (key, mut remaining) = pair;
        let ghost orig_entries = remaining@;
        proof {
            lemma_entries_of_at(old(self).events@, event@, i as int);
            assert(orig_entries == old(self).entries(event@));
        }
        if remaining.len() == 0 {
            self.events.set(i, (key, remaining));
            proof {
                let u = self.events@;
                assert(u =~= old(self).events@.update(i as int, u[i as int]));
                assert(u[i as int].0@ == event@);
                assert(u[i as int].1@ =~= orig_entries);
                lemma_entries_of_at(u, event@, i as int);
                assert forall|e: Seq<char>| e != event@ implies entries_of(u, e) == entries_of(
                    old(self).events@,
                    e,
                ) && has_event_key(u, e) == has_event_key(old(self).events@, e) by {
                    lemma_entries_of_update(old(self).events@, u, i as int, e);
                }
                assert(has_event_key(u, event@)) by {
                    assert(u[i as int].0@ == event@);
                }
                assert(has_event_key(old(self).events@, event@)) by {
                    assert(old(self).events@[i as int].0@ == event@);
                }
                assert forall|x: int, y: int|
                    0 <= x < y < u.len() implies (#[trigger] u[x]).0@ != (#[trigger] u[y]).0@ by {
                    if x != i as int && y != i as int {
                        assert(u[x] == old(self).events@[x]);
                        assert(u[y] == old(self).events@[y]);
                    } else if x == i as int {
                        assert(u[y] == old(self).events@[y]);
                    } else {
                        assert(u[x] == old(self).events@[x]);
                    }
                }
            }
            let merged: DataMap = match self.defaults {
                Option::Some(ref d) => d.merged(&data),
                Option::None => data,
            };
            let mut out: HookResult = HookResult::default();
            out.data = Option::Some(merged);
            proof {
                assert(out@ =~= empty_emit_result(old(self).defaults_v(), data@));
            }
            return out;
        }

        let mut current: DataMap = match self.defaults {
            Option::Some(ref d) => d.merged(&data),
            Option::None => data,
        };
        current.insert(String::from_str("timestamp"), DataValue::Str(timestamp));
        let ghost st0 = DispatchState {
            cur: current@,
            special: Option::None,
            injections: Seq::empty(),
            denied: Option::None,
        };
        let ghost full = run_models::<H>(models_of(orig_entries), event@, st0);
        proof {
            assert(st0.cur =~= initial_data(old(self).defaults_v(), data@, timestamp@));
        }

        let mut done: Vec<HandlerEntry<H>> = Vec::new();
        let mut special: Option<HookResult> = Option::None;
        let mut injections: Vec<HookResult> = Vec::new();
        let mut denied: Option<HookResult> = Option::None;

        proof {
            assert(hook_views(injections@) =~= Seq::<HookResultV>::empty());
        }

        while remaining.len() > 0
            invariant
                full == run_models::<H>(models_of(orig_entries), event@, st0),
                current.wf(),
                done@.len() + remaining@.len() == orig_entries.len(),
                remaining@ =~= orig_entries.skip(done@.len() as int),
                forall|j: int|
                    0 <= j < done@.len() ==> (#[trigger] done@[j]).priority
                        == orig_entries[j].priority && done@[j].id == orig_entries[j].id
                        && done@[j].name == orig_entries[j].name,
                match denied {
                    Option::Some(d) => d.wf(),
                    Option::None => true,
                },
                match special {
                    Option::Some(sp) => sp.wf(),
                    Option::None => true,
                },
                forall|j: int|
                    0 <= j < injections@.len() ==> (#[trigger] injections@[j]).wf()
                        && injections@[j].context_injection is Some,
                ({
                    let stn = DispatchState {
                        cur: current@,
                        special: opt_result_view(special),
                        injections: hook_views(injections@),
                        denied: opt_result_view(denied),
                    };
                    if denied is None {
                        full.0 == models_of(done@) + run_models::<H>(
                            models_of(remaining@),
                            event@,
                            stn,
                        ).0 && full.1 == run_models::<H>(models_of(remaining@), event@, stn).1
                    } else {
                        full.0 == models_of(done@) + models_of(remaining@) && full.1 == stn
                    }
                }),
            decreases remaining.len(),
        {
            let ghost rem_pre = remaining@;
            let ghost done_pre = done@;
            let ghost st_pre = DispatchState {
                cur: current@,
                special: opt_result_view(special),
                injections: hook_views(injections@),
                denied: opt_result_view(denied),
            };
            let mut e = remaining.remove(0);
            proof {
                assert(remaining@ =~= rem_pre.skip(1));
                assert(models_of(remaining@) =~= models_of(rem_pre).skip(1));
            }
            if denied.is_none() {
                let res = e.handler.handle(event, &current);
                let ghost m0 = rem_pre[0].handler.model();
                let ghost r_spec = H::response(m0, event@, st_pre.cur);
                let ghost st2 = dispatch_step(st_pre, r_spec);
                let ghost m2 = H::next_model(m0, event@, st_pre.cur);
                proof {
                    assert(models_of(rem_pre)[0] == m0);
                    assert(e.handler.model() == m2);
                    assert(run_models::<H>(models_of(rem_pre), event@, st_pre).0
                        == if st2.denied is Some {
                        seq![m2] + models_of(rem_pre).skip(1)
                    } else {
                        seq![m2] + run_models::<H>(models_of(rem_pre).skip(1), event@, st2).0
                    });
                }
                match res {
                    Result::Ok(hr) => {
                        if hr.action == HookAction::Deny {
                            denied = Option::Some(hr);
                        } else if hr.action == HookAction::Modify {
                            if let Option::Some(m) = hr.data {
                                current = m;
                            }
                        } else if hr.action == HookAction::InjectContext {
                            if hr.context_injection.is_some() {
                                injections.push(hr);
                            }
                        } else if hr.action == HookAction::AskUser {
                            if special.is_none() {
                                special = Option::Some(hr);
                            }
                        }
                    },
                    Result::Err(_) => {},
                }
                done.push(e);
                proof {
                    let stn = DispatchState {
                        cur: current@,
                        special: opt_result_view(special),
                        injections: hook_views(injections@),
                        denied: opt_result_view(denied),
                    };
                    assert(models_of(done@) =~= models_of(done_pre).push(m2));
                    if denied is Some {
                        assert(st2.denied is Some);
                        assert(stn =~= st2);
                        assert(full.0 =~= models_of(done@) + models_of(remaining@));
                    } else {
                        assert(st2.denied is None);
                        assert(hook_views(injections@) =~= st2.injections);
                        assert(stn =~= st2);
                        assert(full.0 =~= models_of(done@) + run_models::<H>(
                            models_of(remaining@),
                            event@,
                            stn,
                        ).0);
                    }
                    assert(remaining@ =~= orig_entries.skip(done@.len() as int));
                }
            } else {
                done.push(e);
                proof {
                    assert(models_of(done@) =~= models_of(done@.drop_last()).push(
                        done@.last().handler.model(),
                    ));
                    assert(full.0 =~= models_of(done@) + models_of(remaining@));
                    assert(remaining@ =~= orig_entries.skip(done@.len() as int));
                }
            }
        }

        proof {
            assert(models_of(remaining@) =~= Seq::<H::Model>::empty());
            assert(models_of(done@) =~= full.0);
            if denied is None {
                let stn = DispatchState {
                    cur: current@,
                    special: opt_result_view(special),
                    injections: hook_views(injections@),
                    denied: opt_result_view(denied),
                };
                assert(run_models::<H>(models_of(remaining@), event@, stn).1 == stn);
                assert(full.1 == stn);
            }
        }

        let ghost doneg = done@;
        self.events.set(i, (key, done));
        proof {
            let u = self.events@;
            assert(u =~= old(self).events@.update(i as int, u[i as int]));
            assert(u[i as int].0@ == event@);
            assert(u[i as int].1@ =~= doneg);
            lemma_entries_of_at(u, event@, i as int);
            assert forall|e: Seq<char>| e != event@ implies entries_of(u, e) == entries_of(
                old(self).events@,
                e,
            ) && has_event_key(u, e) == has_event_key(old(self).events@, e) by {
                lemma_entries_of_update(old(self).events@, u, i as int, e);
            }
            assert(has_event_key(u, event@)) by {
                assert(u[i as int].0@ == event@);
            }
            assert(has_event_key(old(self).events@, event@)) by {
                assert(old(self).events@[i as int].0@ == event@);
            }
            assert forall|x: int, y: int|
                0 <= x < y < u.len() implies (#[trigger] u[x]).0@ != (#[trigger] u[y]).0@ by {
                if x != i as int && y != i as int {
                    assert(u[x] == old(self).events@[x]);
                    assert(u[y] == old(self).events@[y]);
                } else if x == i as int {
                    assert(u[y] == old(self).events@[y]);
                } else {
                    assert(u[x] == old(self).events@[x]);
                }
            }
            // the pass preserves priorities, ids and names, so sortedness and
            // id bounds carry over
            assert(sorted_by_priority(orig_entries));
            assert(same_entry_meta(orig_entries, doneg));
            assert(models_of(doneg) =~= full.0);
            assert forall|a: int, b: int|
                0 <= a <= b < doneg.len() implies (#[trigger] doneg[a]).priority <= (
            #[trigger] doneg[b]).priority by {
                assert(doneg[a].priority == orig_entries[a].priority);
                assert(doneg[b].priority == orig_entries[b].priority);
            }
            assert forall|k: int|
                0 <= k < doneg.len() implies (#[trigger] doneg[k]).id < self.next_id by {
                assert(doneg[k].id == orig_entries[k].id);
            }
            assert(stable_order(orig_entries));
            assert forall|a: int, b: int|
                0 <= a < b < doneg.len() && (#[trigger] doneg[a]).priority == (
            #[trigger] doneg[b]).priority implies doneg[a].id < doneg[b].id by {
                assert(doneg[a].priority == orig_entries[a].priority);
                assert(doneg[b].priority == orig_entries[b].priority);
                assert(doneg[a].id == orig_entries[a].id);
                assert(doneg[b].id == orig_entries[b].id);
            }
        }

        match denied {
            Option::Some(d) => {
                proof {
                    assert(finish_dispatch(full.1) == d@);
                }
                return d;
            },
            Option::None => {},
        }
        match special {
            Option::Some(sp) => {
                proof {
                    assert(full.1.denied is None);
                    assert(finish_dispatch(full.1) == sp@);
                }
                return sp;
            },
            Option::None => {},
        }
        if injections.len() > 0 {
            if injections.len() == 1 {
                let single = injections.remove(0);
                proof {
                    assert(full.1.injections.len() == 1);
                    assert(full.1.injections[0] == single@);
                    assert(finish_dispatch(full.1) == single@);
                }
                return single;
            }
            let ghost views = hook_views(injections@);
            let mut combined: String = match injections[0].context_injection {
                Option::Some(ref ci) => ci.clone(),
                Option::None => String::new(),
            };
            proof {
                assert(views.take(1).len() == 1);
                assert(views.take(1)[0] == views[0]);
                assert(combined@ == joined_injections(views.take(1)));
            }
            let m: usize = injections.len();
            let mut idx: usize = 1;
            while idx < m
                invariant
                    m == injections@.len(),
                    views == hook_views(injections@),
                    1 <= idx <= m,
                    forall|j: int|
                        0 <= j < injections@.len() ==> (#[trigger] injections@[j]).wf()
                            && injections@[j].context_injection is Some,
                    combined@ == joined_injections(views.take(idx as int)),
                decreases m - idx,
            {
                combined.append("\n\n");
                match injections[idx].context_injection {
                    Option::Some(ref ci) => {
                        combined.append(ci.as_str());
                    },
                    Option::None => {},
                }
                proof {
                    let t = views.take(idx as int + 1);
                    assert(t.drop_last() =~= views.take(idx as int));
                    assert(t.last() == views[idx as int]);
                    assert(views[idx as int].context_injection.unwrap()
                        == injections@[idx as int].context_injection.unwrap()@);
                    assert(combined@ == joined_injections(t));
                }
                idx = idx + 1;
            }
            proof {
                assert(views.take(m as int) =~= views);
            }
            let mut out: HookResult = HookResult::default();
            out.action = HookAction::InjectContext;
            out.context_injection = Option::Some(combined);
            out.context_injection_role = match injections[0].context_injection_role {
                crate::models::ContextInjectionRole::System => crate::models::ContextInjectionRole::System,
                crate::models::ContextInjectionRole::User => crate::models::ContextInjectionRole::User,
                crate::models::ContextInjectionRole::Assistant => crate::models::ContextInjectionRole::Assistant,
            };
            out.ephemeral = injections[0].ephemeral;
            out.suppress_output = injections[0].suppress_output;
            proof {
                assert(full.1.injections == views);
                assert(views.len() > 1);
                assert(views[0] == injections@[0]@);
                assert(out@ =~= merged_injection(views));
                assert(finish_dispatch(full.1) == merged_injection(views));
            }
            return out;
        }
        let mut out: HookResult = HookResult::default();
        out.data = Option::Some(current);
        proof {
            assert(full.1.injections.len() == 0);
            assert(out@ =~= finish_dispatch(full.1));
        }
        out
    }

    /// Emit `event` to every registered handler, in priority order.
    ///
    /// The payload the handlers see is the defaults merged under `data`, with
    /// the infrastructure-owned `timestamp` field stamped over any caller
    /// value. A deny short-circuits; modify chains; injections merge; the
    /// first ask_user wins. The exact outcome, for the stamp that was read
    /// from the clock, is [`emit_post`].
    pub fn emit(&mut self, event: &str, data: DataMap) -> (r: HookResult)
        requires
            old(self).wf(),
            data.wf(),
        ensures
            r.wf(),
            exists|ts: Seq<char>|
                #[trigger] emit_post(*old(self), *final(self), event@, data@, ts, r@)
                    && rfc3339_utc_shape(ts),
    {
        let ts = now_rfc3339();
        let ghost tsv = ts@;
        let r = self.emit_at(event, data, ts);
        proof {
            assert(emit_post(*old(self), *self, event@, data@, tsv, r@));
            assert(rfc3339_utc_shape(tsv));
        }
        r
    }
}

/// The mathematical values of a sequence of payload maps.
pub open spec fn map_views(s: Seq<DataMap>) -> Seq<Map<Seq<char>, Dv>> {
    Seq::new(s.len(), |i: int| s[i]@)
}

/// One collection pass: every handler sees the same payload; the `data` of
/// every result that produced one is collected, in invocation order.
pub open spec fn collect_run<H: HookHandler>(
    ms: Seq<H::Model>,
    event: Seq<char>,
    data: Map<Seq<char>, Dv>,
) -> (Seq<H::Model>, Seq<Map<Seq<char>, Dv>>)
    decreases ms.len(),
{
    if ms.len() == 0 {
        (ms, Seq::empty())
    } else {
        let r = H::response(ms[0], event, data);
        let m2 = H::next_model(ms[0], event, data);
        let rest = collect_run::<H>(ms.skip(1), event, data);
        let gathered = match r {
            Option::Some(res) => match res.data {
                Option::Some(d) => seq![d] + rest.1,
                Option::None => rest.1,
            },
            Option::None => rest.1,
        };
        (seq![m2] + rest.0, gathered)
    }
}

/// The handler names of the entries, in order.
pub open spec fn names_of<H>(es: Seq<HandlerEntry<H>>) -> Seq<Seq<char>> {
    Seq::new(es.len(), |k: int| es[k].name@)
}

impl<H: HookHandler> HookRegistry<H> {
    /// The event keys with a registration slot, in creation order.
    pub closed spec fn event_keys(self) -> Seq<Seq<char>> {
        Seq::new(self.events@.len(), |i: int| self.events@[i].0@)
    }

    /// Emit `event` and collect the `data` payload of every handler's
    /// result, without interpreting actions: no deny short-circuit, no
    /// merging, no default fields and no timestamp. A handler that fails or
    /// returns no data contributes nothing.
    pub fn emit_and_collect(&mut self, event: &str, data: DataMap) -> (r: Vec<DataMap>)
        requires
            old(self).wf(),
            data.wf(),
        ensures
            final(self).wf(),
            final(self).defaults_v() == old(self).defaults_v(),
            final(self).fresh_id() == old(self).fresh_id(),
            forall|e: Seq<char>|
                e != event@ ==> final(self).entries(e) == old(self).entries(e)
                    && final(self).has_event(e) == old(self).has_event(e),
            final(self).has_event(event@) == old(self).has_event(event@),
            ({
                let out = collect_run::<H>(models_of(old(self).entries(event@)), event@, data@);
                &&& same_entry_meta(old(self).entries(event@), final(self).entries(event@))
                &&& models_of(final(self).entries(event@)) == out.0
                &&& map_views(r@) == out.1
            }),
            forall|j: int| 0 <= j < r@.len() ==> (#[trigger] r@[j]).wf(),
    {
        let n: usize = self.events.len();
        let mut i: usize = 0;
        let mut found: bool = false;
        let key_string: String = event.to_owned();
        while i < n && !found
            invariant
                *self == *old(self),
                key_string@ == event@,
                n == self.events@.len(),
                0 <= i <= n,
                found ==> i < n && self.events@[i as int].0@ == event@,
                !found ==> forall|j: int| 0 <= j < i ==> (#[trigger] self.events@[j]).0@
                    != event@,
            decreases n - i + (if found { 0int } else { 1int }),
        {
            if self.events[i].0 == key_string {
                found = true;
            } else {
                i = i + 1;
            }
        }
        if !found {
            proof {
                lemma_entries_of_none(self.events@, event@);
                assert(map_views(Seq::<DataMap>::empty()) =~= Seq::<Map<Seq<char>, Dv>>::empty());
            }
            return Vec::new();
        }
        let mut pair: (String, Vec<HandlerEntry<H>>) = (String::new(), Vec::new());
        self.events.set_and_swap(i, &mut pair);
        let (key, mut remaining) = pair;
        let ghost orig_entries = remaining@;
        proof {
            lemma_entries_of_at(old(self).events@, event@, i as int);
            assert(orig_entries == old(self).entries(event@));
        }
        let ghost full = collect_run::<H>(models_of(orig_entries), event@, data@);
        let mut done: Vec<HandlerEntry<H>> = Vec::new();
        let mut collected: Vec<DataMap> = Vec::new();
        proof {
            assert(map_views(collected@) =~= Seq::<Map<Seq<char>, Dv>>::empty());
        }
        while remaining.len() > 0
            invariant
                data.wf(),
                full == collect_run::<H>(models_of(orig_entries), event@, data@),
                done@.len() + remaining@.len() == orig_entries.len(),
                remaining@ =~= orig_entries.skip(done@.len() as int),
                forall|j: int|
                    0 <= j < done@.len() ==> (#[trigger] done@[j]).priority
                        == orig_entries[j].priority && done@[j].id == orig_entries[j].id
                        && done@[j].name == orig_entries[j].name,
                forall|j: int| 0 <= j < collected@.len() ==> (#[trigger] collected@[j]).wf(),
                full.0 == models_of(done@) + collect_run::<H>(
                    models_of(remaining@),
                    event@,
                    data@,
                ).0,
                full.1 == map_views(collected@) + collect_run::<H>(
                    models_of(remaining@),
                    event@,
                    data@,
                ).1,
            decreases remaining.len(),
        {
            let ghost rem_pre = remaining@;
            let ghost coll_pre = collected@;
            let mut e = remaining.remove(0);
            proof {
                assert(remaining@ =~= rem_pre.skip(1));
                assert(models_of(remaining@) =~= models_of(rem_pre).skip(1));
            }
            let res = e.handler.handle(event, &data);
            let ghost m0 = rem_pre[0].handler.model();
            let ghost m2 = H::next_model(m0, event@, data@);
            proof {
                assert(models_of(rem_pre)[0] == m0);
                assert(e.handler.model() == m2);
            }
            match res {
                Result::Ok(hr) => {
                    if let Option::Some(d) = hr.data {
                        collected.push(d);
                    }
                },
                Result::Err(_) => {},
            }
            done.push(e);
            proof {
                let sub = collect_run::<H>(models_of(remaining@), event@, data@);
                assert(models_of(done@) =~= models_of(done@.drop_last()).push(m2));
                assert(full.0 =~= models_of(done@) + sub.0);
                assert(map_views(collected@) =~= map_views(coll_pre) + (map_views(collected@).skip(
                    coll_pre.len() as int,
                )));
                assert(full.1 =~= map_views(collected@) + sub.1);
                assert(remaining@ =~= orig_entries.skip(done@.len() as int));
            }
        }
        proof {
            assert(models_of(remaining@) =~= Seq::<H::Model>::empty());
            assert(models_of(done@) =~= full.0);
            assert(map_views(collected@) =~= full.1);
        }
        let ghost doneg2 = done@;
        self.events.set(i, (key, done));
        proof {
            let u = self.events@;
            assert(u =~= old(self).events@.update(i as int, u[i as int]));
            assert(u[i as int].0@ == event@);
            assert(u[i as int].1@ =~= doneg2);
            lemma_entries_of_at(u, event@, i as int);
            assert forall|e: Seq<char>| e != event@ implies entries_of(u, e) == entries_of(
                old(self).events@,
                e,
            ) && has_event_key(u, e) == has_event_key(old(self).events@, e) by {
                lemma_entries_of_update(old(self).events@, u, i as int, e);
            }
            assert(has_event_key(u, event@)) by {
                assert(u[i as int].0@ == event@);
            }
            assert(has_event_key(old(self).events@, event@)) by {
                assert(old(self).events@[i as int].0@ == event@);
            }
            assert(sorted_by_priority(orig_entries));
            assert(same_entry_meta(orig_entries, doneg2));
            assert(models_of(doneg2) =~= full.0);
            assert forall|a: int, b: int|
                0 <= a <= b < doneg2.len() implies (#[trigger] doneg2[a]).priority <= (
            #[trigger] doneg2[b]).priority by {
                assert(doneg2[a].priority == orig_entries[a].priority);
                assert(doneg2[b].priority == orig_entries[b].priority);
            }
            assert forall|k: int|
                0 <= k < doneg2.len() implies (#[trigger] doneg2[k]).id < self.next_id by {
                assert(doneg2[k].id == orig_entries[k].id);
            }
            assert(stable_order(orig_entries));
            assert forall|a: int, b: int|
                0 <= a < b < doneg2.len() && (#[trigger] doneg2[a]).priority == (
            #[trigger] doneg2[b]).priority implies doneg2[a].id < doneg2[b].id by {
                assert(doneg2[a].priority == orig_entries[a].priority);
                assert(doneg2[b].priority == orig_entries[b].priority);
                assert(doneg2[a].id == orig_entries[a].id);
                assert(doneg2[b].id == orig_entries[b].id);
            }
            assert forall|x: int, y: int|
                0 <= x < y < u.len() implies (#[trigger] u[x]).0@ != (#[trigger] u[y]).0@ by {
                if x != i as int && y != i as int {
                    assert(u[x] == old(self).events@[x]);
                    assert(u[y] == old(self).events@[y]);
                } else if x == i as int {
                    assert(u[y] == old(self).events@[y]);
                } else {
                    assert(u[x] == old(self).events@[x]);
                }
            }
        }
        collected
    }

    /// The handler at `index` in the invocation order of `event`, for
    /// inspecting its recorded state.
    pub fn handler_at(&self, event: &str, index: usize) -> (r: Option<&H>)
        requires
            self.wf(),
        ensures
            match r {
                Option::Some(h) => index < self.entries(event@).len() && *h == self.entries(
                    event@,
                )[index as int].handler,
                Option::None => index >= self.entries(event@).len(),
            },
    {
        let key_string: String = event.to_owned();
        let n: usize = self.events.len();
        let mut i: usize = 0;
        let mut found: bool = false;
        while i < n && !found
            invariant
                key_string@ == event@,
                n == self.events@.len(),
                0 <= i <= n,
                found ==> i < n && self.events@[i as int].0@ == event@,
                !found ==> forall|j: int| 0 <= j < i ==> (#[trigger] self.events@[j]).0@
                    != event@,
            decreases n - i + (if found { 0int } else { 1int }),
        {
            if self.events[i].0 == key_string {
                found = true;
            } else {
                i = i + 1;
            }
        }
        if !found {
            proof {
                lemma_entries_of_none(self.events@, event@);
            }
            return Option::None;
        }
        proof {
            lemma_entries_of_at(self.events@, event@, i as int);
        }
        if index < self.events[i].1.len() {
            Option::Some(&self.events[i].1[index].handler)
        } else {
            Option::None
        }
    }

    /// The registered handler names: for one event when given, else for
    /// every event with a registration slot.
    pub fn list_handlers(&self, event: Option<&str>) -> (r: Vec<(String, Vec<String>)>)
        requires
            self.wf(),
        ensures
            match event {
                Option::Some(e) => r@.len() == 1 && r@[0].0@ == e@ && r@[0].1.deep_view()
                    == names_of(self.entries(e@)),
                Option::None => r@.len() == self.event_keys().len() && forall|k: int|
                    0 <= k < r@.len() ==> (#[trigger] r@[k]).0@ == self.event_keys()[k]
                        && r@[k].1.deep_view() == names_of(self.entries(self.event_keys()[k])),
            },
    {
        match event {
            Option::Some(e) => {
                let key_string: String = e.to_owned();
                let n: usize = self.events.len();
                let mut i: usize = 0;
                let mut found: bool = false;
                while i < n && !found
                    invariant
                        key_string@ == e@,
                        n == self.events@.len(),
                        0 <= i <= n,
                        found ==> i < n && self.events@[i as int].0@ == e@,
                        !found ==> forall|j: int| 0 <= j < i ==> (#[trigger] self.events@[j]).0@
                            != e@,
                    decreases n - i + (if found { 0int } else { 1int }),
                {
                    if self.events[i].0 == key_string {
                        found = true;
                    } else {
                        i = i + 1;
                    }
                }
                let mut names: Vec<String> = Vec::new();
                if found {
                    proof {
                        lemma_entries_of_at(self.events@, e@, i as int);
                    }
                    let m: usize = self.events[i].1.len();
                    let mut k: usize = 0;
                    while k < m
                        invariant
                            found,
                            i < self.events@.len(),
                            self.events@[i as int].0@ == e@,
                            self.entries(e@) == self.events@[i as int].1@,
                            m == self.events@[i as int].1@.len(),
                            0 <= k <= m,
                            names@.len() == k,
                            forall|j: int|
                                0 <= j < k ==> (#[trigger] names@[j])@
                                    == self.events@[i as int].1@[j].name@,
                        decreases m - k,
                    {
                        names.push(self.events[i].1[k].name.clone());
                        k = k + 1;
                    }
                    proof {
                        assert(names.deep_view() =~= names_of(self.entries(e@)));
                    }
                } else {
                    proof {
                        lemma_entries_of_none(self.events@, e@);
                        assert(names.deep_view() =~= names_of(self.entries(e@)));
                    }
                }
                let mut r: Vec<(String, Vec<String>)> = Vec::new();
                r.push((key_string, names));
                r
            },
            Option::None => {
                let n: usize = self.events.len();
                let mut r: Vec<(String, Vec<String>)> = Vec::new();
                let mut i: usize = 0;
                while i < n
                    invariant
                        self.wf(),
                        n == self.events@.len(),
                        0 <= i <= n,
                        r@.len() == i,
                        forall|k: int|
                            0 <= k < i ==> (#[trigger] r@[k]).0@ == self.events@[k].0@
                                && r@[k].1.deep_view() == names_of(self.events@[k].1@),
                    decreases n - i,
                {
                    let m: usize = self.events[i].1.len();
                    let mut names: Vec<String> = Vec::new();
                    let mut k: usize = 0;
                    while k < m
                        invariant
                            i < self.events@.len(),
                            m == self.events@[i as int].1@.len(),
                            0 <= k <= m,
                            names@.len() == k,
                            forall|j: int|
                                0 <= j < k ==> (#[trigger] names@[j])@
                                    == self.events@[i as int].1@[j].name@,
                        decreases m - k,
                    {
                        names.push(self.events[i].1[k].name.clone());
                        k = k + 1;
                    }
                    proof {
                        assert(names.deep_view() =~= names_of(self.events@[i as int].1@));
                    }
                    r.push((self.events[i].0.clone(), names));
                    i = i + 1;
                }
                proof {
                    assert forall|k: int|
                        0 <= k < r@.len() implies (#[trigger] r@[k]).0@ == self.event_keys()[k]
                            && r@[k].1.deep_view() == names_of(
                        self.entries(self.event_keys()[k])) by {
                        lemma_entries_of_at(self.events@, self.events@[k].0@, k);
                    }
                }
                r
            },
        }
    }
}

/// A dispatch state as a pass produces it: the captured ask_user really is
/// an ask_user, and every collected injection is an injection with text.
pub open spec fn well_shaped(st: DispatchState) -> bool {
    &&& match st.special {
        Option::Some(sp) => sp.action == HookAction::AskUser,
        Option::None => true,
    }
    &&& forall|j: int|
        0 <= j < st.injections.len() ==> (#[trigger] st.injections[j]).action
            == HookAction::InjectContext && st.injections[j].context_injection is Some
    &&& match st.denied {
        Option::Some(d) => d.action == HookAction::Deny,
        Option::None => true,
    }
}

/// One step preserves the shape of the dispatch state.
pub proof fn lemma_step_well_shaped(st: DispatchState, r: Option<HookResultV>)
    requires
        well_shaped(st),
    ensures
        well_shaped(dispatch_step(st, r)),
{
}

/// A whole pass preserves the shape of the dispatch state.
pub proof fn lemma_run_well_shaped<H: HookHandler>(
    ms: Seq<H::Model>,
    event: Seq<char>,
    st: DispatchState,
)
    requires
        well_shaped(st),
    ensures
        well_shaped(run_models::<H>(ms, event, st).1),
    decreases ms.len(),
{
    if ms.len() > 0 {
        let r = H::response(ms[0], event, st.cur);
        let st2 = dispatch_step(st, r);
        lemma_step_well_shaped(st, r);
        if !(st2.denied is Some) {
            lemma_run_well_shaped::<H>(ms.skip(1), event, st2);
        }
    }
}

/// Action precedence at the final return: deny beats everything; then the
/// first ask_user; then the merged injections; a pass that saw at most
/// modifies and continues returns continue.
pub proof fn lemma_action_precedence(st: DispatchState)
    requires
        well_shaped(st),
    ensures
        finish_dispatch(st).action == (if st.denied is Some {
            HookAction::Deny
        } else if st.special is Some {
            HookAction::AskUser
        } else if st.injections.len() > 0 {
            HookAction::InjectContext
        } else {
            HookAction::Continue
        }),
{
}

/// What merged injections look like: the returned text is the collected
/// texts joined in order with a blank line, and role, ephemerality and
/// output suppression come from the first injection.
pub proof fn lemma_injection_merge(st: DispatchState)
    requires
        well_shaped(st),
        st.denied is None,
        st.special is None,
        st.injections.len() > 0,
    ensures
        finish_dispatch(st).action == HookAction::InjectContext,
        finish_dispatch(st).context_injection == Option::Some(joined_injections(st.injections)),
        finish_dispatch(st).context_injection_role == st.injections[0].context_injection_role,
        finish_dispatch(st).ephemeral == st.injections[0].ephemeral,
        finish_dispatch(st).suppress_output == st.injections[0].suppress_output,
{
    if st.injections.len() == 1 {
        assert(joined_injections(st.injections) == st.injections[0].context_injection.unwrap());
    }
}

/// A denial stops the pass: no later handler runs, and the pass returns the
/// denying result itself. `k` is the position of the denying handler: the
/// prefix before it finished without a denial, and its own response denies.
pub proof fn lemma_deny_short_circuit<H: HookHandler>(
    ms: Seq<H::Model>,
    event: Seq<char>,
    st: DispatchState,
    k: int,
)
    requires
        st.denied is None,
        0 <= k < ms.len(),
        run_models::<H>(ms.take(k), event, st).1.denied is None,
        ({
            let pre = run_models::<H>(ms.take(k), event, st).1;
            let r = H::response(ms[k], event, pre.cur);
            r matches Option::Some(d) && d.action == HookAction::Deny
        }),
    ensures
        ({
            let pre = run_models::<H>(ms.take(k), event, st).1;
            let d = H::response(ms[k], event, pre.cur).unwrap();
            let full = run_models::<H>(ms, event, st);
            &&& full.1.denied == Option::Some(d)
            &&& finish_dispatch(full.1) == d
            &&& forall|j: int| k < j < ms.len() ==> full.0[j] == ms[j]
            &&& full.0.len() == ms.len()
        }),
    decreases k,
{
    if k == 0 {
        assert(ms.take(0) =~= Seq::<H::Model>::empty());
        let r = H::response(ms[0], event, st.cur);
        let st2 = dispatch_step(st, r);
        assert(st2.denied == Option::Some(r.unwrap()));
        assert(run_models::<H>(ms, event, st).0 =~= seq![
            H::next_model(ms[0], event, st.cur),
        ] + ms.skip(1));
        assert forall|j: int| 0 < j < ms.len() implies run_models::<H>(ms, event, st).0[j]
            == ms[j] by {
            assert(ms.skip(1)[j - 1] == ms[j]);
        }
    } else {
        let r0 = H::response(ms[0], event, st.cur);
        let st2 = dispatch_step(st, r0);
        assert(ms.take(k)[0] == ms[0]);
        assert(run_models::<H>(ms.take(k), event, st).1 == if dispatch_step(
            st,
            H::response(ms.take(k)[0], event, st.cur),
        ).denied is Some {
            dispatch_step(st, H::response(ms.take(k)[0], event, st.cur))
        } else {
            run_models::<H>(ms.take(k).skip(1), event, st2).1
        });
        assert(st2.denied is None) by {
            if st2.denied is Some {
                assert(run_models::<H>(ms.take(k), event, st).1 == st2);
            }
        }
        assert(ms.take(k).skip(1) =~= ms.skip(1).take(k - 1));
        assert(ms.skip(1)[k - 1] == ms[k]);
        lemma_deny_short_circuit::<H>(ms.skip(1), event, st2, k - 1);
        let sub = run_models::<H>(ms.skip(1), event, st2);
        assert(run_models::<H>(ms, event, st).0 =~= seq![
            H::next_model(ms[0], event, st.cur),
        ] + sub.0);
        assert forall|j: int| k < j < ms.len() implies run_models::<H>(ms, event, st).0[j]
            == ms[j] by {
            assert(sub.0[j - 1] == ms.skip(1)[j - 1]);
            assert(ms.skip(1)[j - 1] == ms[j]);
        }
    }
}

/// The infrastructure owns the timestamp: whatever the caller supplied under
/// that key, the payload handed to the first handler carries exactly the
/// stamp the registry drew.
pub proof fn lemma_timestamp_overwrites(
    defaults: Option<Map<Seq<char>, Dv>>,
    data: Map<Seq<char>, Dv>,
    ts: Seq<char>,
)
    ensures
        initial_data(defaults, data, ts).contains_key("timestamp"@),
        initial_data(defaults, data, ts)["timestamp"@] == Dv::Str(ts),
{
}

} // verus!
//! The trigger scheduler: standing rules that convert matched events into
//! agent actions.
//!
//! A trigger fires on an event when it is enabled, its pattern matches, and
//! its fire budget is not spent (`max_fires == 0` means unlimited). Firing
//! increments the fire count in the same step that emits the action, so a
//! bounded trigger can never emit more actions than its budget. An emitted
//! action is subject to the same capability and quota checks as any other
//! action when it is executed; the scheduler bypasses nothing.

use vstd::prelude::*;

verus! {

/// What a trigger waits for. `ContentMatch` carries a regular expression
/// applied to message text; `Schedule` carries a decimal period in seconds
/// and fires when the clock crosses a period boundary (a missed boundary
/// fires once on the next tick, not once per miss); `Webhook` carries the
/// bearer-token-equivalent identifier an event must present; and
/// `ChannelMessage` carries a channel name, with the empty string matching
/// every channel.
#[derive(Clone, Debug)]
pub enum TriggerPattern {
    Lifecycle,
    AgentSpawned,
    ContentMatch(String),
    Schedule(String),
    Webhook(String),
    ChannelMessage(String),
}

/// One standing trigger: its owner, pattern, prompt template, fire budget
/// and count, enabled flag, and (for schedules) the last fired boundary.
#[derive(Debug)]
#[verifier::ext_equal]
pub struct TriggerDefinition {
    pub id: u64,
    pub agent_id: u64,
    pub pattern: TriggerPattern,
    pub prompt: String,
    pub max_fires: u64,
    pub fire_count: u64,
    pub enabled: bool,
    pub last_boundary: u64,
}

/// A normalized event the scheduler observes.
#[derive(Debug)]
pub enum Event {
    Lifecycle { agent: u64, phase: String },
    AgentSpawned { agent: u64 },
    ChannelMessage { channel: String, text: String },
    Webhook { token: String },
    Tick { now: u64 },
}

/// An action a fired trigger emits: run the prompt for the owning agent.
#[derive(Debug)]
#[verifier::ext_equal]
pub struct FiredAction {
    pub trigger_id: u64,
    pub agent_id: u64,
    pub prompt: String,
}

/// Why a registration was refused.
#[derive(Clone, Copy, PartialEq, Eq, Structural, Debug)]
pub enum RegisterError {
    /// A `ContentMatch` pattern does not compile, or a `Schedule` period is
    /// not a positive decimal number of seconds.
    InvalidPattern,
}

/// Why an unregistration was refused.
#[derive(Clone, Copy, PartialEq, Eq, Structural, Debug)]
pub enum UnregisterError {
    NotFound,
}

/// Whether the outside regex engine accepts the pattern.
///
/// Named, never stated: compilation depends on the pattern text alone.
pub uninterp spec fn regex_valid(pattern: Seq<char>) -> bool;

/// Whether the compiled pattern matches somewhere in the text.
///
/// Named, never stated: the outcome depends on pattern and text alone.
pub uninterp spec fn regex_match_of(pattern: Seq<char>, text: Seq<char>) -> bool;

/// Relies on `regex::Regex::new`: whether a pattern compiles is a function
/// of the pattern text alone.
#[verifier::external_body]
fn regex_compiles(pattern: &str) -> (r: bool)
    ensures
        r == regex_valid(pattern@),
{
    regex::Regex::new(pattern).is_ok()
}

/// Relies on `regex::Regex::new` and `regex::Regex::is_match`: on a pattern
/// that compiles, whether it matches is a function of pattern and text
/// alone; a pattern that does not compile matches nothing.
#[verifier::external_body]
fn regex_matches(pattern: &str, text: &str) -> (r: bool)
    ensures
        regex_valid(pattern@) ==> r == regex_match_of(pattern@, text@),
        !regex_valid(pattern@) ==> r == false,
{
    match regex::Regex::new(pattern) {
        Ok(re) => re.is_match(text),
        Err(_) => false,
    }
}

/// Whether the character is a decimal digit.
pub open spec fn is_digit(c: char) -> bool {
    0x30 <= c as u32 <= 0x39
}

/// The value of a decimal digit character.
pub open spec fn digit_val(c: char) -> int {
    c as u32 - 0x30
}

/// One step of decimal parsing: fails on a non-digit or on overflow.
pub open spec fn dec_step(acc: u64, c: char) -> Option<u64> {
    if is_digit(c) && acc * 10 + digit_val(c) <= u64::MAX {
        Some((acc * 10 + digit_val(c)) as u64)
    } else {
        None
    }
}

/// The decimal value of the text, left to right; `None` on a non-digit or
/// on overflow, and zero for empty text.
pub open spec fn dec_parse(s: Seq<char>) -> Option<u64>
    decreases s.len(),
{
    if s.len() == 0 {
        Some(0)
    } else {
        match dec_parse(s.drop_last()) {
            Some(acc) => dec_step(acc, s.last()),
            None => None,
        }
    }
}

/// A schedule period parses when the text is a nonempty run of digits whose
/// value fits and is at least one second.
pub open spec fn parse_period(s: Seq<char>) -> Option<u64> {
    match dec_parse(s) {
        Some(v) => if s.len() > 0 && v >= 1 {
            Some(v)
        } else {
            None
        },
        None => None,
    }
}

proof fn lemma_dec_parse_none_extends(s: Seq<char>, j: int)
    requires
        0 <= j <= s.len(),
        dec_parse(s.take(j)) is None,
    ensures
        dec_parse(s) is None,
    decreases s.len() - j,
{
    if j < s.len() {
        assert(s.take(j + 1).drop_last() =~= s.take(j));
        lemma_dec_parse_none_extends(s, j + 1);
    } else {
        assert(s.take(j) =~= s);
    }
}

/// Parses a decimal period of seconds.
pub fn period_of(s: &str) -> (r: Option<u64>)
    ensures
        r == parse_period(s@),
{
    let n = s.unicode_len();
    if n == 0 {
        return None;
    }
    let mut acc: u64 = 0;
    let mut i: usize = 0;
    while i < n
        invariant
            i <= n,
            n == s@.len(),
            dec_parse(s@.take(i as int)) == Some(acc),
        decreases n - i,
    {
        let c = s.get_char(i);
        proof {
            assert(s@.take(i as int + 1).drop_last() =~= s@.take(i as int));
            assert(s@.take(i as int + 1).last() == s@[i as int]);
        }
        let u = c as u32;
        if u < 0x30 || u > 0x39 {
            proof {
                assert(dec_parse(s@.take(i as int + 1)) is None);
                lemma_dec_parse_none_extends(s@, i as int + 1);
            }
            return None;
        }
        let d = (u - 0x30) as u64;
        if acc > (u64::MAX - d) / 10 {
            proof {
                vstd::arithmetic::div_mod::lemma_fundamental_div_mod((u64::MAX - d) as int, 10);
                assert(acc * 10 + d > u64::MAX);
                assert(dec_parse(s@.take(i as int + 1)) is None);
                lemma_dec_parse_none_extends(s@, i as int + 1);
            }
            return None;
        }
        acc = acc * 10 + d;
        i = i + 1;
    }
    proof {
        assert(s@.take(n as int) =~= s@);
    }
    if acc >= 1 {
        Some(acc)
    } else {
        None
    }
}

/// A registered pattern is well formed: a `ContentMatch` regex compiles and
/// a `Schedule` period parses.
pub open spec fn pattern_wf(p: TriggerPattern) -> bool {
    match p {
        TriggerPattern::ContentMatch(re) => regex_valid(re@),
        TriggerPattern::Schedule(s) => parse_period(s@) is Some,
        _ => true,
    }
}

/// Whether the trigger's pattern matches the event.
pub open spec fn pattern_matches(t: TriggerDefinition, e: Event) -> bool {
    match t.pattern {
        TriggerPattern::Lifecycle => e is Lifecycle,
        TriggerPattern::AgentSpawned => e is AgentSpawned,
        TriggerPattern::ContentMatch(re) => e matches Event::ChannelMessage { channel, text }
            && regex_match_of(re@, text@),
        TriggerPattern::Schedule(s) => e matches Event::Tick { now }
            && (parse_period(s@) matches Some(per) && now / per > t.last_boundary),
        TriggerPattern::Webhook(tok) => e matches Event::Webhook { token } && tok@ == token@,
        TriggerPattern::ChannelMessage(ch) => e matches Event::ChannelMessage { channel, text }
            && (ch@.len() == 0 || ch@ == channel@),
    }
}

/// The fire budget allows another fire.
pub open spec fn budget_open(t: TriggerDefinition) -> bool {
    t.max_fires == 0 || t.fire_count < t.max_fires
}

/// The trigger fires on the event: enabled, budget open, pattern matched.
pub open spec fn fires(t: TriggerDefinition, e: Event) -> bool {
    t.enabled && budget_open(t) && pattern_matches(t, e)
}

/// The trigger after it fired on the event: the count steps up (saturating),
/// and a schedule records the boundary it fired for.
pub open spec fn fired_update(t: TriggerDefinition, e: Event) -> TriggerDefinition {
    let bumped = if t.fire_count < u64::MAX {
        (t.fire_count + 1) as u64
    } else {
        u64::MAX
    };
    match (t.pattern, e) {
        (TriggerPattern::Schedule(s), Event::Tick { now }) => match parse_period(s@) {
            Some(per) => TriggerDefinition { fire_count: bumped, last_boundary: now / per, ..t },
            None => TriggerDefinition { fire_count: bumped, ..t },
        },
        _ => TriggerDefinition { fire_count: bumped, ..t },
    }
}

/// The action a fired trigger emits.
pub open spec fn action_of(t: TriggerDefinition) -> FiredAction {
    FiredAction { trigger_id: t.id, agent_id: t.agent_id, prompt: t.prompt }
}

/// The actions an event draws out of a list of triggers, in list order.
pub open spec fn fired_actions(ts: Seq<TriggerDefinition>, e: Event) -> Seq<FiredAction>
    decreases ts.len(),
{
    if ts.len() == 0 {
        Seq::empty()
    } else if fires(ts.last(), e) {
        fired_actions(ts.drop_last(), e).push(action_of(ts.last()))
    } else {
        fired_actions(ts.drop_last(), e)
    }
}

pub proof fn lemma_fired_actions_len(ts: Seq<TriggerDefinition>, e: Event)
    ensures
        fired_actions(ts, e).len() <= ts.len(),
    decreases ts.len(),
{
    if ts.len() > 0 {
        lemma_fired_actions_len(ts.drop_last(), e);
    }
}

/// The standing triggers and the id counter for the next registration.
#[derive(Debug)]
#[verifier::ext_equal]
pub struct TriggerScheduler {
    pub triggers: Vec<TriggerDefinition>,
    pub next_id: u64,
}

/// The scheduler invariant: every registered pattern is well formed, and
/// every registered id is below the counter (so fresh ids are fresh).
pub open spec fn scheduler_wf(s: TriggerScheduler) -> bool {
    forall|i: int|
        0 <= i < s.triggers@.len() ==> pattern_wf((#[trigger] s.triggers@[i]).pattern)
            && s.triggers@[i].id < s.next_id
}

impl TriggerScheduler {
    /// A scheduler with no triggers.
    pub fn new() -> (r: TriggerScheduler)
        ensures
            r.triggers@ == Seq::<TriggerDefinition>::empty(),
            r.next_id == 0,
            scheduler_wf(r),
    {
        let r = TriggerScheduler { triggers: Vec::new(), next_id: 0 };
        proof {
            assert(r.triggers@ =~= Seq::<TriggerDefinition>::empty());
        }
        r
    }

    /// Admits the definition under a fresh id, refusing synchronously a
    /// `ContentMatch` regex that does not compile or a `Schedule` period
    /// that does not parse.
    pub fn register(&mut self, def: TriggerDefinition) -> (r: Result<u64, RegisterError>)
        requires
            scheduler_wf(*old(self)),
            old(self).next_id < u64::MAX,
        ensures
            scheduler_wf(*final(self)),
            r is Ok <==> pattern_wf(def.pattern),
            !pattern_wf(def.pattern) ==> r == Err::<u64, RegisterError>(
                RegisterError::InvalidPattern,
            ) && *final(self) == *old(self),
            r matches Ok(id) ==> {
                &&& id == old(self).next_id
                &&& final(self).next_id == old(self).next_id + 1
                &&& final(self).triggers@ == old(self).triggers@.push(
                    (TriggerDefinition { id, ..def }),
                )
            },
    {
        let ok = match &def.pattern {
            TriggerPattern::ContentMatch(re) => regex_compiles(re.as_str()),
            TriggerPattern::Schedule(s) => period_of(s.as_str()).is_some(),
            _ => true,
        };
        if !ok {
            return Err(RegisterError::InvalidPattern);
        }
        let id = self.next_id;
        self.next_id = self.next_id + 1;
        let stored = TriggerDefinition {
            id,
            agent_id: def.agent_id,
            pattern: def.pattern,
            prompt: def.prompt,
            max_fires: def.max_fires,
            fire_count: def.fire_count,
            enabled: def.enabled,
            last_boundary: def.last_boundary,
        };
        self.triggers.push(stored);
        Ok(id)
    }

    /// Removes the trigger with the given id; an unknown id is refused.
    pub fn unregister(&mut self, id: u64) -> (r: Result<(), UnregisterError>)
        requires
            scheduler_wf(*old(self)),
        ensures
            scheduler_wf(*final(self)),
            final(self).next_id == old(self).next_id,
            r is Ok <==> exists|i: int|
                0 <= i < old(self).triggers@.len() && (#[trigger] old(self).triggers@[i]).id == id,
            r matches Ok(u) ==> exists|i: int|
                {
                    &&& 0 <= i < old(self).triggers@.len()
                    &&& (#[trigger] old(self).triggers@[i]).id == id
                    &&& final(self).triggers@ == old(self).triggers@.remove(i)
                },
            r is Err ==> *final(self) == *old(self) && r == Err::<(), UnregisterError>(
                UnregisterError::NotFound,
            ),
    {
        let n = self.triggers.len();
        let mut i: usize = 0;
        while i < n
            invariant
                i <= n,
                n == self.triggers@.len(),
                *self == *old(self),
                forall|j: int| 0 <= j < i ==> (#[trigger] self.triggers@[j]).id != id,
            decreases n - i,
        {
            if self.triggers[i].id == id {
                self.triggers.remove(i);
                proof {
                    assert forall|j: int|
                        0 <= j < self.triggers@.len() implies pattern_wf(
                        (#[trigger] self.triggers@[j]).pattern,
                    ) && self.triggers@[j].id < self.next_id by {
                        if j < i {
                            assert(self.triggers@[j] == old(self).triggers@[j]);
                        } else {
                            assert(self.triggers@[j] == old(self).triggers@[j + 1]);
                        }
                    }
                }
                return Ok(());
            }
            i = i + 1;
        }
        Err(UnregisterError::NotFound)
    }

    /// Fires every enabled trigger whose pattern matches the event and whose
    /// budget is open: each one's count steps up in the same step that its
    /// action is emitted, and the actions come back in trigger order.
    pub fn on_event(&mut self, e: &Event) -> (r: Vec<FiredAction>)
        requires
            scheduler_wf(*old(self)),
        ensures
            scheduler_wf(*final(self)),
            final(self).next_id == old(self).next_id,
            final(self).triggers@.len() == old(self).triggers@.len(),
            forall|i: int|
                0 <= i < old(self).triggers@.len() ==> #[trigger] final(self).triggers@[i] == (
                if fires(old(self).triggers@[i], *e) {
                    fired_update(old(self).triggers@[i], *e)
                } else {
                    old(self).triggers@[i]
                }),
            r@ == fired_actions(old(self).triggers@, *e),
    {
        let mut out: Vec<FiredAction> = Vec::new();
        let n = self.triggers.len();
        let mut i: usize = 0;
        while i < n
            invariant
                i <= n,
                n == self.triggers@.len(),
                self.next_id == old(self).next_id,
                scheduler_wf(*self),
                forall|j: int|
                    i <= j < n ==> #[trigger] self.triggers@[j] == old(self).triggers@[j],
                forall|j: int|
                    0 <= j < i ==> #[trigger] self.triggers@[j] == (
                    if fires(old(self).triggers@[j], *e) {
                        fired_update(old(self).triggers@[j], *e)
                    } else {
                        old(self).triggers@[j]
                    }),
                out@ == fired_actions(old(self).triggers@.take(i as int), *e),
            decreases n - i,
        {
            proof {
                assert(old(self).triggers@.take(i as int + 1).drop_last() =~= old(
                    self,
                ).triggers@.take(i as int));
                assert(old(self).triggers@.take(i as int + 1).last() == old(self).triggers@[i as int]);
            }
            let fire = {
                let t = &self.triggers[i];
                if !t.enabled {
                    false
                } else if !(t.max_fires == 0 || t.fire_count < t.max_fires) {
                    false
                } else {
                    match (&t.pattern, e) {
                        (TriggerPattern::Lifecycle, Event::Lifecycle { .. }) => true,
                        (TriggerPattern::AgentSpawned, Event::AgentSpawned { .. }) => true,
                        (
                            TriggerPattern::ContentMatch(re),
                            Event::ChannelMessage { channel, text },
                        ) => regex_matches(re.as_str(), text.as_str()),
                        (TriggerPattern::Schedule(s), Event::Tick { now }) => {
                            match period_of(s.as_str()) {
                                Some(per) => *now / per > t.last_boundary,
                                None => false,
                            }
                        },
                        (TriggerPattern::Webhook(tok), Event::Webhook { token }) => {
                            crate::strutil::str_eq(tok.as_str(), token.as_str())
                        },
                        (
                            TriggerPattern::ChannelMessage(ch),
                            Event::ChannelMessage { channel, text },
                        ) => ch.as_str().is_empty() || crate::strutil::str_eq(
                            ch.as_str(),
                            channel.as_str(),
                        ),
                        _ => false,
                    }
                }
            };
            if fire {
                let action = {
                    let t = &self.triggers[i];
                    FiredAction {
                        trigger_id: t.id,
                        agent_id: t.agent_id,
                        prompt: t.prompt.clone(),
                    }
                };
                out.push(action);
                let t = &mut self.triggers[i];
                if t.fire_count < u64::MAX {
                    t.fire_count = t.fire_count + 1;
                }
                let boundary = match (&t.pattern, e) {
                    (TriggerPattern::Schedule(s), Event::Tick { now }) => {
                        match period_of(s.as_str()) {
                            Some(per) => Some(*now / per),
                            None => None,
                        }
                    },
                    _ => None,
                };
                match boundary {
                    Some(b) => {
                        t.last_boundary = b;
                    },
                    None => {},
                }
            }
            proof {
                assert(out@ =~= fired_actions(old(self).triggers@.take(i as int + 1), *e));
            }
            i = i + 1;
        }
        proof {
            assert(old(self).triggers@.take(n as int) =~= old(self).triggers@);
        }
        out
    }
}

/// Law: a bounded trigger fires at most its budget. With one registered
/// trigger whose `max_fires` is one and whose pattern matches both events,
/// the first event emits exactly one action and the second emits none: the
/// count stepped to one in the same step that emitted the action.
pub proof fn lemma_single_fire(t: TriggerDefinition, e1: Event, e2: Event)
    requires
        t.enabled,
        t.max_fires == 1,
        t.fire_count == 0,
        pattern_matches(t, e1),
        pattern_matches(fired_update(t, e1), e2),
    ensures
        fired_actions(seq![t], e1) == seq![action_of(t)],
        fired_update(t, e1).fire_count == 1,
        fired_actions(seq![fired_update(t, e1)], e2) == Seq::<FiredAction>::empty(),
{
    let s1 = seq![t];
    assert(s1.last() == t && s1.drop_last() =~= Seq::<TriggerDefinition>::empty());
    assert(fires(t, e1));
    assert(fired_actions(Seq::<TriggerDefinition>::empty(), e1) == Seq::<FiredAction>::empty());
    assert(fired_actions(s1, e1) =~= seq![action_of(t)]);
    let t2 = fired_update(t, e1);
    let s2 = seq![t2];
    assert(s2.last() == t2 && s2.drop_last() =~= Seq::<TriggerDefinition>::empty());
    assert(!budget_open(t2));
    assert(fired_actions(Seq::<TriggerDefinition>::empty(), e2) == Seq::<FiredAction>::empty());
    assert(fired_actions(s2, e2) =~= Seq::<FiredAction>::empty());
}

} // verus!

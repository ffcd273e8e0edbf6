//! Access rules carried by a session: an ordered list in which the first rule
//! that covers an operation decides it.

use vstd::prelude::*;
use crate::hook::{HookResult, PublishAclResult, ReturnType, SubscribeAclResult};
use crate::json::Json;
use crate::text::{str_eq, to_chars};
use crate::types::{AuthInfo, Publish, Rule, RuleAccess, RuleAction, Subscribe, SubscribeAckReason};

verus! {

/// The length of the first level of a topic: the characters before its first `/`.
pub open spec fn level_len(s: Seq<char>) -> nat
    decreases s.len(),
{
    if s.len() == 0 || s[0] == '/' {
        0
    } else {
        1 + level_len(s.drop_first())
    }
}

/// The first level of a topic.
pub open spec fn first_level(s: Seq<char>) -> Seq<char> {
    s.take(level_len(s) as int)
}

/// What follows the first level and its `/`; nothing where the topic has one level.
pub open spec fn after_level(s: Seq<char>) -> Option<Seq<char>> {
    if level_len(s) >= s.len() {
        None
    } else {
        Some(s.skip(level_len(s) as int + 1))
    }
}

/// Whether a filter covers a topic, level by level: `#` covers whatever is
/// left, the parent level included; `+` covers any one level; any other level
/// covers the level that equals it. `None` stands for no level left.
pub open spec fn covers(filter: Option<Seq<char>>, topic: Option<Seq<char>>) -> bool
    decreases
        (match filter {
            Some(f) => f.len() + 1,
            None => 0,
        }),
{
    match filter {
        None => topic is None,
        Some(f) => {
            if first_level(f) == seq!['#'] {
                true
            } else {
                match topic {
                    None => false,
                    Some(t) => {
                        &&& first_level(f) == seq!['+'] || first_level(f) == first_level(t)
                        &&& level_len(f) < f.len() ==> covers(after_level(f), after_level(t))
                        &&& level_len(f) >= f.len() ==> after_level(t) is None
                    },
                }
            }
        },
    }
}

proof fn lemma_level_len_bound(s: Seq<char>)
    ensures
        level_len(s) <= s.len(),
        level_len(s) < s.len() ==> s[level_len(s) as int] == '/',
        forall|k: int| 0 <= k < level_len(s) ==> s[k] != '/',
    decreases s.len(),
{
    if s.len() != 0 && s[0] != '/' {
        lemma_level_len_bound(s.drop_first());
        assert forall|k: int| 0 <= k < level_len(s) implies s[k] != '/' by {
            if k > 0 {
                assert(s.drop_first()[k - 1] == s[k]);
            }
        }
    }
}

proof fn lemma_level_len_is_first_slash(s: Seq<char>, n: int)
    requires
        0 <= n <= s.len(),
        forall|k: int| 0 <= k < n ==> s[k] != '/',
        n < s.len() ==> s[n] == '/',
    ensures
        level_len(s) == n,
    decreases s.len(),
{
    if n > 0 {
        lemma_level_len_is_first_slash(s.drop_first(), n - 1);
    }
}

/// The end of the level that starts at `from`: the position of the next `/`, or the end.
fn level_end(s: &Vec<char>, from: usize) -> (end: usize)
    requires
        from <= s.len(),
    ensures
        from <= end <= s.len(),
        end - from == level_len(s@.skip(from as int)),
{
    let mut end = from;
    while end < s.len() && s[end] != '/'
        invariant
            from <= end <= s.len(),
            forall|k: int| from <= k < end ==> s@[k] != '/',
        decreases s.len() - end,
    {
        end = end + 1;
    }
    proof {
        lemma_level_len_is_first_slash(s@.skip(from as int), end - from);
    }
    end
}

/// Whether the characters `a[a_from..a_to]` and `b[b_from..b_to]` are the same.
fn same_range(a: &Vec<char>, a_from: usize, a_to: usize, b: &Vec<char>, b_from: usize, b_to: usize) -> (r:
    bool)
    requires
        a_from <= a_to <= a.len(),
        b_from <= b_to <= b.len(),
    ensures
        r == (a@.subrange(a_from as int, a_to as int) == b@.subrange(b_from as int, b_to as int)),
{
    if a_to - a_from != b_to - b_from {
        assert(a@.subrange(a_from as int, a_to as int).len() != b@.subrange(
            b_from as int,
            b_to as int,
        ).len());
        return false;
    }
    let n = a_to - a_from;
    let mut i: usize = 0;
    while i < n
        invariant
            i <= n,
            n == a_to - a_from,
            n == b_to - b_from,
            a_to <= a.len(),
            b_to <= b.len(),
            a@.subrange(a_from as int, a_from + i) == b@.subrange(b_from as int, b_from + i),
        decreases n - i,
    {
        if a[a_from + i] != b[b_from + i] {
            assert(a@.subrange(a_from as int, a_to as int)[i as int] != b@.subrange(
                b_from as int,
                b_to as int,
            )[i as int]);
            return false;
        }
        assert(a@.subrange(a_from as int, a_from + i + 1) =~= a@.subrange(
            a_from as int,
            a_from + i,
        ).push(a@[a_from + i]));
        assert(b@.subrange(b_from as int, b_from + i + 1) =~= b@.subrange(
            b_from as int,
            b_from + i,
        ).push(b@[b_from + i]));
        i = i + 1;
    }
    true
}

/// Whether the topic filter `filter` covers the topic `topic`.
pub fn filter_covers(filter: &str, topic: &str) -> (r: bool)
    ensures
        r == covers(Some(filter@), Some(topic@)),
{
    let f = to_chars(filter);
    let t = to_chars(topic);
    let mut fi: usize = 0;
    let mut ti: usize = 0;
    assert(f@.skip(0) =~= f@);
    assert(t@.skip(0) =~= t@);
    loop
        invariant
            fi <= f.len(),
            ti <= t.len(),
            f@ == filter@,
            t@ == topic@,
            covers(Some(filter@), Some(topic@)) == covers(
                Some(f@.skip(fi as int)),
                Some(t@.skip(ti as int)),
            ),
        decreases f.len() - fi,
    {
        let ghost fs = f@.skip(fi as int);
        let ghost ts = t@.skip(ti as int);
        let fe = level_end(&f, fi);
        let te = level_end(&t, ti);
        proof {
            assert(first_level(fs) =~= f@.subrange(fi as int, fe as int));
            assert(first_level(ts) =~= t@.subrange(ti as int, te as int));
        }
        if fe - fi == 1 && f[fi] == '#' {
            assert(first_level(fs) =~= seq!['#']);
            return true;
        }
        assert(first_level(fs) != seq!['#']) by {
            if first_level(fs) == seq!['#'] {
                assert(first_level(fs).len() == 1);
                assert(first_level(fs)[0] == '#');
            }
        }
        let plus = fe - fi == 1 && f[fi] == '+';
        proof {
            if plus {
                assert(first_level(fs) =~= seq!['+']);
            } else if first_level(fs) == seq!['+'] {
                assert(first_level(fs).len() == 1);
                assert(first_level(fs)[0] == '+');
            }
        }
        if !plus && !same_range(&f, fi, fe, &t, ti, te) {
            return false;
        }
        if fe >= f.len() {
            return te >= t.len();
        }
        if te >= t.len() {
            // The filter has levels left and the topic has none: only `#` covers that.
            let ghost rest = f@.skip(fe + 1);
            assert(after_level(fs) == Some(fs.skip(level_len(fs) as int + 1)));
            assert(fs.skip(level_len(fs) as int + 1) =~= rest);
            let ne = level_end(&f, fe + 1);
            assert(first_level(rest) =~= f@.subrange(fe + 1, ne as int));
            let hash = ne - (fe + 1) == 1 && f[fe + 1] == '#';
            proof {
                if hash {
                    assert(first_level(rest) =~= seq!['#']);
                } else if first_level(rest) == seq!['#'] {
                    assert(first_level(rest).len() == 1);
                    assert(first_level(rest)[0] == '#');
                }
            }
            assert(after_level(ts) is None);
            assert(covers(Some(rest), None) == (first_level(rest) == seq!['#']));
            return hash;
        }
        proof {
            assert(fs.skip(level_len(fs) as int + 1) =~= f@.skip(fe + 1));
            assert(ts.skip(level_len(ts) as int + 1) =~= t@.skip(te + 1));
        }
        fi = fe + 1;
        ti = te + 1;
    }
}

/// Whether a rule speaks of the operation: subscribing where `subscribe` is
/// set, publishing otherwise.
pub open spec fn action_applies(action: RuleAction, subscribe: bool) -> bool {
    match action {
        RuleAction::All => true,
        RuleAction::Subscribe => subscribe,
        RuleAction::Publish => !subscribe,
    }
}

/// Whether one of the filters covers the topic.
pub open spec fn any_covers(filters: Seq<String>, topic: Seq<char>) -> bool
    decreases filters.len(),
{
    if filters.len() == 0 {
        false
    } else {
        covers(Some(filters[0]@), Some(topic)) || any_covers(filters.drop_first(), topic)
    }
}

/// Whether a rule decides the operation on the topic.
pub open spec fn rule_applies(rule: Rule, subscribe: bool, topic: Seq<char>) -> bool {
    action_applies(rule.action, subscribe) && any_covers(rule.topics@, topic)
}

/// The outcome of the first rule that decides the operation on the topic.
pub open spec fn first_verdict(rules: Seq<Rule>, subscribe: bool, topic: Seq<char>) -> Option<
    RuleAccess,
>
    decreases rules.len(),
{
    if rules.len() == 0 {
        None
    } else if rule_applies(rules[0], subscribe, topic) {
        Some(rules[0].access)
    } else {
        first_verdict(rules.drop_first(), subscribe, topic)
    }
}

impl Rule {
    /// Whether this rule decides the operation on the topic.
    pub fn applies(&self, subscribe: bool, topic: &str) -> (r: bool)
        ensures
            r == rule_applies(*self, subscribe, topic@),
    {
        let on = match self.action {
            RuleAction::All => true,
            RuleAction::Subscribe => subscribe,
            RuleAction::Publish => !subscribe,
        };
        if !on {
            return false;
        }
        let mut i: usize = 0;
        assert(self.topics@.skip(0) =~= self.topics@);
        while i < self.topics.len()
            invariant
                i <= self.topics.len(),
                action_applies(self.action, subscribe),
                any_covers(self.topics@, topic@) == any_covers(self.topics@.skip(i as int), topic@),
            decreases self.topics.len() - i,
        {
            assert(self.topics@.skip(i as int)[0] == self.topics@[i as int]);
            assert(self.topics@.skip(i as int).drop_first() =~= self.topics@.skip(i + 1));
            if filter_covers(self.topics[i].as_str(), topic) {
                return true;
            }
            i = i + 1;
        }
        false
    }
}

impl AuthInfo {
    /// The outcome of the first rule that decides the operation on the topic,
    /// if any rule does.
    pub fn verdict(&self, subscribe: bool, topic: &str) -> (r: Option<RuleAccess>)
        ensures
            r == first_verdict(self.rules@, subscribe, topic@),
    {
        let mut i: usize = 0;
        assert(self.rules@.skip(0) =~= self.rules@);
        while i < self.rules.len()
            invariant
                i <= self.rules.len(),
                first_verdict(self.rules@, subscribe, topic@) == first_verdict(
                    self.rules@.skip(i as int),
                    subscribe,
                    topic@,
                ),
            decreases self.rules.len() - i,
        {
            assert(self.rules@.skip(i as int)[0] == self.rules@[i as int]);
            assert(self.rules@.skip(i as int).drop_first() =~= self.rules@.skip(i + 1));
            if self.rules[i].applies(subscribe, topic) {
                return Some(self.rules[i].access);
            }
            i = i + 1;
        }
        None
    }

    /// The verdict on an operation at `now_secs`: refused once the
    /// authentication has run out; else the outcome of the first rule that
    /// decides the operation on the topic, if any rule does.
    pub open spec fn access(&self, subscribe: bool, topic: Seq<char>, now_secs: u64) -> Option<
        RuleAccess,
    > {
        if self.expired_at(now_secs) {
            Some(RuleAccess::Deny)
        } else {
            first_verdict(self.rules@, subscribe, topic)
        }
    }

    /// What the session's authentication says of a subscription at
    /// `now_secs`: granted at the quality of service asked for, refused as not
    /// authorised, or nothing where the authentication holds and no rule
    /// decides. A decision ends the chain.
    pub open spec fn subscribe_outcome(&self, subscribe: &Subscribe, now_secs: u64) -> Option<
        ReturnType,
    > {
        match self.access(true, subscribe.topic_filter@, now_secs) {
            Some(RuleAccess::Allow) => Some(
                (false, Some(HookResult::SubscribeAclResult(SubscribeAclResult::Success(subscribe.qos)))),
            ),
            Some(RuleAccess::Deny) => Some(
                (
                    false,
                    Some(
                        HookResult::SubscribeAclResult(
                            SubscribeAclResult::Failure(SubscribeAckReason::NotAuthorized),
                        ),
                    ),
                ),
            ),
            None => None,
        }
    }

    /// Checks a subscription at `now_secs` (seconds since the epoch).
    pub fn subscribe_acl(&self, subscribe: &Subscribe, now_secs: u64) -> (r: Option<ReturnType>)
        ensures
            r == self.subscribe_outcome(subscribe, now_secs),
    {
        let access = if self.is_expired(now_secs) {
            Some(RuleAccess::Deny)
        } else {
            self.verdict(true, subscribe.topic_filter.as_str())
        };
        match access {
            Some(RuleAccess::Allow) => Some(
                (false, Some(HookResult::SubscribeAclResult(SubscribeAclResult::Success(subscribe.qos)))),
            ),
            Some(RuleAccess::Deny) => Some(
                (
                    false,
                    Some(
                        HookResult::SubscribeAclResult(
                            SubscribeAclResult::Failure(SubscribeAckReason::NotAuthorized),
                        ),
                    ),
                ),
            ),
            None => None,
        }
    }

    /// What the session's authentication says of a publish at `now_secs`:
    /// allowed, rejected (with the flag that says whether a rejection closes
    /// the connection), or nothing where the authentication holds and no
    /// rule decides. A decision ends the chain.
    pub open spec fn publish_outcome(
        &self,
        publish: &Publish,
        disconnect_if_pub_rejected: bool,
        now_secs: u64,
    ) -> Option<ReturnType> {
        match self.access(false, publish.topic@, now_secs) {
            Some(RuleAccess::Allow) => Some(
                (false, Some(HookResult::PublishAclResult(PublishAclResult::Allow))),
            ),
            Some(RuleAccess::Deny) => Some(
                (
                    false,
                    Some(
                        HookResult::PublishAclResult(
                            PublishAclResult::Rejected(disconnect_if_pub_rejected),
                        ),
                    ),
                ),
            ),
            None => None,
        }
    }

    /// Checks a publish at `now_secs` (seconds since the epoch).
    pub fn publish_acl(&self, publish: &Publish, disconnect_if_pub_rejected: bool, now_secs: u64) -> (r:
        Option<ReturnType>)
        ensures
            r == self.publish_outcome(publish, disconnect_if_pub_rejected, now_secs),
    {
        let access = if self.is_expired(now_secs) {
            Some(RuleAccess::Deny)
        } else {
            self.verdict(false, publish.topic.as_str())
        };
        match access {
            Some(RuleAccess::Allow) => Some(
                (false, Some(HookResult::PublishAclResult(PublishAclResult::Allow))),
            ),
            Some(RuleAccess::Deny) => Some(
                (
                    false,
                    Some(
                        HookResult::PublishAclResult(
                            PublishAclResult::Rejected(disconnect_if_pub_rejected),
                        ),
                    ),
                ),
            ),
            None => None,
        }
    }
}

/// Once the authentication of a session has run out, every subscription and
/// every publish of the session is refused, whatever its rules say.
pub proof fn law_expired_authentication_denies(
    info: AuthInfo,
    subscribe: Subscribe,
    publish: Publish,
    disconnect_if_pub_rejected: bool,
    now_secs: u64,
)
    requires
        info.expired_at(now_secs),
    ensures
        info.subscribe_outcome(&subscribe, now_secs) == Some(
            (
                false,
                Some(
                    HookResult::SubscribeAclResult(
                        SubscribeAclResult::Failure(SubscribeAckReason::NotAuthorized),
                    ),
                ),
            ),
        ),
        info.publish_outcome(&publish, disconnect_if_pub_rejected, now_secs) == Some(
            (
                false,
                Some(HookResult::PublishAclResult(PublishAclResult::Rejected(disconnect_if_pub_rejected))),
            ),
        ),
{
}

/// Why a JSON value does not describe a rule.
#[derive(Debug, Clone, Copy, PartialEq, Eq, Structural)]
pub enum RuleError {
    /// `permission` is missing or is neither `allow` nor `deny`.
    Permission,
    /// `action` is missing or is none of `subscribe`, `publish` and `all`.
    Action,
    /// `topics` is missing or is not an array of strings.
    Topics,
}

/// The access that a `permission` member names.
pub open spec fn access_named(value: Option<Json>) -> Option<RuleAccess> {
    match value {
        Some(Json::Str(s)) => if s@ == "allow"@ {
            Some(RuleAccess::Allow)
        } else if s@ == "deny"@ {
            Some(RuleAccess::Deny)
        } else {
            None
        },
        _ => None,
    }
}

/// The operation that an `action` member names.
pub open spec fn action_named(value: Option<Json>) -> Option<RuleAction> {
    match value {
        Some(Json::Str(s)) => if s@ == "subscribe"@ {
            Some(RuleAction::Subscribe)
        } else if s@ == "publish"@ {
            Some(RuleAction::Publish)
        } else if s@ == "all"@ {
            Some(RuleAction::All)
        } else {
            None
        },
        _ => None,
    }
}

/// Whether every item is a string.
pub open spec fn all_strings(items: Seq<Json>) -> bool {
    forall|i: int| 0 <= i < items.len() ==> (#[trigger] items[i]) is Str
}

/// The filters that a `topics` member lists.
pub open spec fn topics_listed(value: Option<Json>) -> Option<Seq<Seq<char>>> {
    match value {
        Some(Json::Array(items)) => if all_strings(items@) {
            Some(Seq::new(items@.len(), |i: int| items@[i]->Str_0@))
        } else {
            None
        },
        _ => None,
    }
}

/// The characters of each string.
pub open spec fn views_of(strings: Seq<String>) -> Seq<Seq<char>> {
    Seq::new(strings.len(), |i: int| strings[i]@)
}

/// What `try_from` makes of a JSON value: the rule that its members
/// `permission`, `action` and `topics` describe, or the first of them that is wrong.
pub open spec fn rule_described(json: Json) -> Result<(RuleAccess, RuleAction, Seq<Seq<char>>), RuleError> {
    if access_named(json.field("permission"@)) is None {
        Err(RuleError::Permission)
    } else if action_named(json.field("action"@)) is None {
        Err(RuleError::Action)
    } else if topics_listed(json.field("topics"@)) is None {
        Err(RuleError::Topics)
    } else {
        Ok(
            (
                access_named(json.field("permission"@))->0,
                action_named(json.field("action"@))->0,
                topics_listed(json.field("topics"@))->0,
            ),
        )
    }
}

/// What a rule holds, as a value.
pub open spec fn rule_value(rule: Rule) -> (RuleAccess, RuleAction, Seq<Seq<char>>) {
    (rule.access, rule.action, views_of(rule.topics@))
}

fn access_from(value: Option<&Json>) -> (r: Option<RuleAccess>)
    ensures
        r == access_named(
            match value {
                Some(v) => Some(*v),
                None => None,
            },
        ),
{
    match value {
        Some(Json::Str(s)) => {
            if str_eq(s.as_str(), "allow") {
                Some(RuleAccess::Allow)
            } else if str_eq(s.as_str(), "deny") {
                Some(RuleAccess::Deny)
            } else {
                None
            }
        },
        _ => None,
    }
}

fn action_from(value: Option<&Json>) -> (r: Option<RuleAction>)
    ensures
        r == action_named(
            match value {
                Some(v) => Some(*v),
                None => None,
            },
        ),
{
    match value {
        Some(Json::Str(s)) => {
            if str_eq(s.as_str(), "subscribe") {
                Some(RuleAction::Subscribe)
            } else if str_eq(s.as_str(), "publish") {
                Some(RuleAction::Publish)
            } else if str_eq(s.as_str(), "all") {
                Some(RuleAction::All)
            } else {
                None
            }
        },
        _ => None,
    }
}

#[verifier::loop_isolation(false)]
fn topics_from(value: Option<&Json>) -> (r: Option<Vec<String>>)
    ensures
        match r {
            Some(topics) => Some(views_of(topics@)) == topics_listed(
                match value {
                    Some(v) => Some(*v),
                    None => None,
                },
            ),
            None => topics_listed(
                match value {
                    Some(v) => Some(*v),
                    None => None,
                },
            ) is None,
        },
{
    match value {
        Some(Json::Array(items)) => {
            let mut topics: Vec<String> = Vec::new();
            let mut i: usize = 0;
            while i < items.len()
                invariant
                    i <= items.len(),
                    topics@.len() == i,
                    forall|k: int| 0 <= k < i ==> (#[trigger] items@[k]) is Str,
                    forall|k: int| 0 <= k < i ==> (#[trigger] topics@[k])@ == items@[k]->Str_0@,
                decreases items.len() - i,
            {
                match &items[i] {
                    Json::Str(s) => {
                        topics.push(s.clone());
                    },
                    _ => {
                        assert(!(items@[i as int] is Str));
                        return None;
                    },
                }
                i = i + 1;
            }
            assert(views_of(topics@) =~= Seq::new(items@.len(), |i: int| items@[i]->Str_0@));
            Some(topics)
        },
        _ => None,
    }
}

impl Rule {
    /// Reads a rule from a JSON object with the members `permission`
    /// (`allow` or `deny`), `action` (`subscribe`, `publish` or `all`) and
    /// `topics` (an array of topic filters).
    pub fn try_from(json: &Json) -> (r: Result<Rule, RuleError>)
        ensures
            match r {
                Ok(rule) => rule_described(*json) == Ok::<_, RuleError>(rule_value(rule)),
                Err(e) => rule_described(*json) == Err::<(RuleAccess, RuleAction, Seq<Seq<char>>), _>(e),
            },
    {
        let access = match access_from(json.get("permission")) {
            Some(access) => access,
            None => {
                return Err(RuleError::Permission);
            },
        };
        let action = match action_from(json.get("action")) {
            Some(action) => action,
            None => {
                return Err(RuleError::Action);
            },
        };
        let topics = match topics_from(json.get("topics")) {
            Some(topics) => topics,
            None => {
                return Err(RuleError::Topics);
            },
        };
        Ok(Rule { access, action, topics })
    }
}

/// What `rules_from` makes of the items of an `acl` array: the rules in order,
/// or the error of the first item that is no rule.
pub open spec fn rules_described(items: Seq<Json>) -> Result<
    Seq<(RuleAccess, RuleAction, Seq<Seq<char>>)>,
    RuleError,
>
    decreases items.len(),
{
    if items.len() == 0 {
        Ok(Seq::empty())
    } else {
        match rule_described(items.last()) {
            Err(e) => match rules_described(items.drop_last()) {
                Err(first) => Err(first),
                Ok(_) => Err(e),
            },
            Ok(rule) => match rules_described(items.drop_last()) {
                Err(first) => Err(first),
                Ok(rules) => Ok(rules.push(rule)),
            },
        }
    }
}

/// What a list of rules holds, as values.
pub open spec fn rule_values(rules: Seq<Rule>) -> Seq<(RuleAccess, RuleAction, Seq<Seq<char>>)> {
    Seq::new(rules.len(), |i: int| rule_value(rules[i]))
}

/// Reads the rules of an `acl` array, in order.
pub fn rules_from(items: &Vec<Json>) -> (r: Result<Vec<Rule>, RuleError>)
    ensures
        match r {
            Ok(rules) => rules_described(items@) == Ok::<_, RuleError>(rule_values(rules@)),
            Err(e) => rules_described(items@) == Err::<Seq<(RuleAccess, RuleAction, Seq<Seq<char>>)>, _>(
                e,
            ),
        },
{
    let mut rules: Vec<Rule> = Vec::new();
    let mut i: usize = 0;
    assert(items@.take(0).len() == 0);
    assert(rule_values(rules@) =~= Seq::empty());
    while i < items.len()
        invariant
            i <= items.len(),
            rules_described(items@.take(i as int)) == Ok::<_, RuleError>(rule_values(rules@)),
        decreases items.len() - i,
    {
        assert(items@.take(i + 1).drop_last() =~= items@.take(i as int));
        assert(items@.take(i + 1).last() == items@[i as int]);
        match Rule::try_from(&items[i]) {
            Ok(rule) => {
                let ghost before = rules@;
                rules.push(rule);
                assert(rule_values(rules@) =~= rule_values(before).push(rule_value(rule)));
            },
            Err(e) => {
                proof {
                    lemma_rules_error_stays(items@, i + 1);
                }
                return Err(e);
            },
        }
        i = i + 1;
    }
    assert(items@.take(items.len() as int) =~= items@);
    Ok(rules)
}

/// Once a prefix of the items fails, the whole list fails with the same error.
proof fn lemma_rules_error_stays(items: Seq<Json>, k: int)
    requires
        0 <= k <= items.len(),
        rules_described(items.take(k)) is Err,
    ensures
        rules_described(items) == rules_described(items.take(k)),
    decreases items.len() - k,
{
    if k < items.len() {
        assert(items.take(k + 1).drop_last() =~= items.take(k));
        lemma_rules_error_stays(items, k + 1);
    } else {
        assert(items.take(k) =~= items);
    }
}

} // verus!

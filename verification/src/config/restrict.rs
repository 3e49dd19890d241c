//! Per-command access rules, and the check that decides whether an
//! interaction may run a command.
//!
//! A command without a rule is open to everyone. A command with a rule is
//! open to the listed users, in the listed channels, and to members that
//! hold one of the listed roles. Whether a member holds a role is asked of
//! Discord one role at a time, in the order of the list; the check is a
//! small state machine that says which role to ask about next and takes the
//! answer back.

use vstd::prelude::*;

verus! {

/// Who may use one command.
pub struct Allow {
    pub channels: Option<Vec<u64>>,
    pub roles: Option<Vec<u64>>,
    pub users: Option<Vec<u64>>,
}

/// Whether `id` occurs in an optional list (an absent list holds nothing).
pub open spec fn listed(list: Option<Vec<u64>>, id: u64) -> bool {
    match list {
        Some(v) => v@.contains(id),
        None => false,
    }
}

/// The ids of an optional list, empty when it is absent.
pub open spec fn id_list(list: Option<Vec<u64>>) -> Seq<u64> {
    match list {
        Some(v) => v@,
        None => Seq::empty(),
    }
}

/// One entry of the rules: the command it is about and who may use it.
pub struct CommandRule {
    pub command: String,
    pub allow: Allow,
}

/// The access rules, keyed by command name.
pub struct Restrict {
    rules: Vec<CommandRule>,
}

impl Restrict {
    /// No command occurs twice among the rules.
    #[verifier::type_invariant]
    spec fn distinct_commands(&self) -> bool {
        forall|i: int, j: int|
            0 <= i < j < self.rules@.len() ==> #[trigger] self.rules@[i].command@
                != #[trigger] self.rules@[j].command@
    }

    /// Whether some rule is about `command`.
    pub closed spec fn has_rule(&self, command: Seq<char>) -> bool {
        exists|i: int| 0 <= i < self.rules@.len() && #[trigger] self.rules@[i].command@ == command
    }

    /// The position of the rule about `command`.
    spec fn rule_index(&self, command: Seq<char>) -> int {
        choose|i: int| 0 <= i < self.rules@.len() && #[trigger] self.rules@[i].command@ == command
    }

    /// The rules as a map from command name to who may use it.
    pub closed spec fn rules_map(&self) -> Map<Seq<char>, Allow> {
        Map::new(
            |k: Seq<char>| self.has_rule(k),
            |k: Seq<char>| self.rules@[self.rule_index(k)].allow,
        )
    }

    proof fn lemma_rule_index(&self, i: int)
        requires
            self.distinct_commands(),
            0 <= i < self.rules@.len(),
        ensures
            self.has_rule(self.rules@[i].command@),
            self.rule_index(self.rules@[i].command@) == i,
    {
        let k = self.rules@[i].command@;
        assert(self.has_rule(k));
        let j: int = self.rule_index(k);
        if j < i {
            assert(self.rules@[j].command@ != self.rules@[i].command@);
        } else if i < j {
            assert(self.rules@[i].command@ != self.rules@[j].command@);
        }
    }

    /// No rules: every command is open to everyone.
    pub fn new() -> (r: Restrict)
        ensures
            r@ == Map::<Seq<char>, Allow>::empty(),
    {
        let r = Restrict { rules: Vec::new() };
        assert(r@ =~= Map::<Seq<char>, Allow>::empty());
        r
    }

    /// Where the rule about `command` stands, if there is one.
    fn find(&self, command: &String) -> (pos: Option<usize>)
        ensures
            match pos {
                Some(i) => i < self.rules@.len() && self.rules@[i as int].command@ == command@,
                None => !self.has_rule(command@),
            },
    {
        let mut i: usize = 0;
        while i < self.rules.len()
            invariant
                i <= self.rules@.len(),
                forall|j: int| 0 <= j < i ==> #[trigger] self.rules@[j].command@ != command@,
            decreases self.rules@.len() - i,
        {
            if self.rules[i].command == *command {
                return Some(i);
            }
            i = i + 1;
        }
        None
    }

    /// Who may use `command`, if a rule is about it.
    pub fn get(&self, command: &String) -> (res: Option<&Allow>)
        ensures
            match res {
                Some(a) => self@.contains_key(command@) && *a == self@[command@],
                None => !self@.contains_key(command@),
            },
    {
        proof {
            use_type_invariant(self);
        }
        match self.find(command) {
            Some(i) => {
                proof {
                    self.lemma_rule_index(i as int);
                }
                Some(&self.rules[i].allow)
            },
            None => None,
        }
    }

    /// Sets who may use `command`, in place of any earlier rule about it.
    pub fn insert(&mut self, command: String, allow: Allow)
        ensures
            final(self)@ == old(self)@.insert(command@, allow),
    {
        proof {
            use_type_invariant(&*self);
        }
        let ghost k = command@;
        match self.find(&command) {
            Some(i) => {
                proof {
                    self.lemma_rule_index(i as int);
                }
                let ghost before = *self;
                let mut rules: Vec<CommandRule> = Vec::new();
                std::mem::swap(&mut rules, &mut self.rules);
                rules.set(i, CommandRule { command, allow });
                proof {
                    assert forall|a: int, b: int| 0 <= a < b < rules@.len() implies #[trigger] rules@[a].command@
                        != #[trigger] rules@[b].command@ by {
                        assert(before.rules@[a].command@ != before.rules@[b].command@);
                    }
                }
                self.rules = rules;
                proof {
                    assert forall|j: int| 0 <= j < self.rules@.len() && j != i implies #[trigger] self.rules@[j]
                        == before.rules@[j] by {}
                    assert forall|key: Seq<char>| #[trigger] self.has_rule(key) == before.has_rule(key) by {
                        if before.has_rule(key) {
                            let j: int = before.rule_index(key);
                            if j == i {
                                assert(self.rules@[i as int].command@ == key);
                            } else {
                                assert(self.rules@[j].command@ == key);
                            }
                        }
                        if self.has_rule(key) {
                            let j: int = self.rule_index(key);
                            if j == i {
                                assert(before.rules@[i as int].command@ == key);
                            } else {
                                assert(before.rules@[j].command@ == key);
                            }
                        }
                    }
                    assert forall|key: Seq<char>| #[trigger] self.has_rule(key) implies self.rules@[self.rule_index(key)].allow
                        == before@.insert(k, allow)[key] by {
                        let j: int = self.rule_index(key);
                        self.lemma_rule_index(j);
                        if key != k {
                            assert(before.rules@[j].command@ == key);
                            before.lemma_rule_index(j);
                        }
                    }
                    assert(self@ =~= before@.insert(k, allow));
                }
            },
            None => {
                let ghost before = *self;
                let mut rules: Vec<CommandRule> = Vec::new();
                std::mem::swap(&mut rules, &mut self.rules);
                rules.push(CommandRule { command, allow });
                proof {
                    let n: int = before.rules@.len() as int;
                    assert forall|a: int, b: int| 0 <= a < b < rules@.len() implies #[trigger] rules@[a].command@
                        != #[trigger] rules@[b].command@ by {
                        if b < n {
                            assert(before.rules@[a].command@ != before.rules@[b].command@);
                        } else {
                            assert(rules@[a] == before.rules@[a]);
                            assert(before.has_rule(before.rules@[a].command@));
                        }
                    }
                }
                self.rules = rules;
                proof {
                    let n: int = before.rules@.len() as int;
                    assert forall|j: int| 0 <= j < n implies #[trigger] self.rules@[j] == before.rules@[j] by {}
                    assert(self.rules@[n].command@ == k);
                    assert forall|key: Seq<char>| #[trigger] self.has_rule(key) == (before.has_rule(key) || key == k) by {
                        if before.has_rule(key) {
                            let j: int = before.rule_index(key);
                            assert(self.rules@[j].command@ == key);
                        }
                        if self.has_rule(key) && key != k {
                            let j: int = self.rule_index(key);
                            assert(j != n);
                            assert(before.rules@[j].command@ == key);
                        }
                        if key == k {
                            assert(self.rules@[n].command@ == key);
                        }
                    }
                    assert forall|key: Seq<char>| #[trigger] self.has_rule(key) implies self.rules@[self.rule_index(key)].allow
                        == before@.insert(k, allow)[key] by {
                        let j: int = self.rule_index(key);
                        self.lemma_rule_index(j);
                        if key != k {
                            assert(j != n);
                            assert(before.rules@[j].command@ == key);
                            before.lemma_rule_index(j);
                        }
                    }
                    assert(self@ =~= before@.insert(k, allow));
                }
            },
        }
    }
}

impl View for Restrict {
    type V = Map<Seq<char>, Allow>;

    closed spec fn view(&self) -> Map<Seq<char>, Allow> {
        self.rules_map()
    }
}


/// What the access check needs next: whether the member holds a role, or
/// nothing, because it has decided.
#[derive(Debug, PartialEq, Eq)]
pub enum AccessStep {
    /// Ask Discord whether the member holds this role, then `record` the answer.
    HasRole(u64),
    /// The check is over: `true` lets the command run.
    Decided(bool),
}

/// The state of an access check, as a value.
pub struct AccessCheckView {
    /// The roles that grant access, in the order in which they are asked about.
    pub roles: Seq<u64>,
    /// How many of them were answered "no".
    pub next: nat,
    /// The decision, once one is made.
    pub verdict: Option<bool>,
}

/// An access check that is under way.
pub struct AccessCheck {
    roles: Vec<u64>,
    next: usize,
    verdict: Option<bool>,
}

impl View for AccessCheck {
    type V = AccessCheckView;

    closed spec fn view(&self) -> AccessCheckView {
        AccessCheckView { roles: self.roles@, next: self.next as nat, verdict: self.verdict }
    }
}

/// A check that has decided `verdict` without asking about any role.
pub open spec fn decided_check(verdict: bool) -> AccessCheckView {
    AccessCheckView { roles: Seq::empty(), next: 0, verdict: Some(verdict) }
}

/// The check of an interaction of `user` in `channel` that runs `command`,
/// before any role was asked about.
pub open spec fn initial_check(
    rules: Map<Seq<char>, Allow>,
    command: Seq<char>,
    user: u64,
    channel: u64,
) -> AccessCheckView {
    if !rules.contains_key(command) {
        decided_check(true)
    } else if listed(rules[command].users, user) || listed(rules[command].channels, channel) {
        decided_check(true)
    } else {
        AccessCheckView { roles: id_list(rules[command].roles), next: 0, verdict: None }
    }
}

/// What a check in state `c` needs next.
pub open spec fn next_step(c: AccessCheckView) -> AccessStep {
    match c.verdict {
        Some(b) => AccessStep::Decided(b),
        None => if c.next < c.roles.len() {
            AccessStep::HasRole(c.roles[c.next as int])
        } else {
            AccessStep::Decided(false)
        },
    }
}

/// The state after the member was found to hold (`true`) or not to hold the
/// role that `next_step(c)` asked about.
pub open spec fn after_answer(c: AccessCheckView, has_role: bool) -> AccessCheckView {
    if has_role {
        AccessCheckView { verdict: Some(true), ..c }
    } else {
        AccessCheckView { next: c.next + 1, ..c }
    }
}

/// The state after at most `n` questions, each answered by `holds`.
pub open spec fn run_check(c: AccessCheckView, holds: spec_fn(u64) -> bool, n: nat) -> AccessCheckView
    decreases n,
{
    if n == 0 {
        c
    } else {
        match next_step(c) {
            AccessStep::HasRole(r) => run_check(after_answer(c, holds(r)), holds, (n - 1) as nat),
            AccessStep::Decided(_) => c,
        }
    }
}

/// Whether `user` may run `command` in `channel`, where `holds(r)` tells
/// whether the member holds role `r`.
pub open spec fn may_run(
    rules: Map<Seq<char>, Allow>,
    command: Seq<char>,
    user: u64,
    channel: u64,
    holds: spec_fn(u64) -> bool,
) -> bool {
    ||| !rules.contains_key(command)
    ||| listed(rules[command].users, user)
    ||| listed(rules[command].channels, channel)
    ||| exists|i: int| 0 <= i < id_list(rules[command].roles).len() && holds(
        #[trigger] id_list(rules[command].roles)[i],
    )
}

impl AccessCheck {
    /// No more roles were answered than there are.
    #[verifier::type_invariant]
    spec fn within_roles(&self) -> bool {
        self.next <= self.roles@.len()
    }

    /// What the check needs next.
    pub fn next_step(&self) -> (step: AccessStep)
        ensures
            step == next_step(self@),
    {
        proof {
            use_type_invariant(self);
        }
        match self.verdict {
            Some(b) => AccessStep::Decided(b),
            None => if self.next < self.roles.len() {
                AccessStep::HasRole(self.roles[self.next])
            } else {
                AccessStep::Decided(false)
            },
        }
    }

    /// Takes the answer to the question that `next_step` asked: whether the
    /// member holds that role.
    pub fn record(&mut self, has_role: bool)
        requires
            next_step(old(self)@) is HasRole,
        ensures
            final(self)@ == after_answer(old(self)@, has_role),
    {
        proof {
            use_type_invariant(&*self);
        }
        if has_role {
            self.verdict = Some(true);
        } else {
            let len: usize = self.roles.len();
            assert(self.next < len);
            self.next = self.next + 1;
        }
    }
}

/// Whether `id` occurs in `list`.
fn list_contains(list: &Option<Vec<u64>>, id: u64) -> (res: bool)
    ensures
        res == listed(*list, id),
{
    match list {
        Some(v) => {
            let mut i: usize = 0;
            while i < v.len()
                invariant
                    *list == Some(*v),
                    i <= v@.len(),
                    forall|j: int| 0 <= j < i ==> v@[j] != id,
                decreases v@.len() - i,
            {
                if v[i] == id {
                    assert(v@[i as int] == id);
                    assert(v@.contains(id));
                    return true;
                }
                i = i + 1;
            }
            false
        },
        None => false,
    }
}

/// A copy of an optional list of ids, empty when it is absent.
fn copy_ids(list: &Option<Vec<u64>>) -> (ids: Vec<u64>)
    ensures
        ids@ == id_list(*list),
{
    let mut ids: Vec<u64> = Vec::new();
    match list {
        Some(v) => {
            let mut i: usize = 0;
            while i < v.len()
                invariant
                    i <= v@.len(),
                    ids@ == v@.subrange(0, i as int),
                decreases v@.len() - i,
            {
                ids.push(v[i]);
                i = i + 1;
                assert(ids@ =~= v@.subrange(0, i as int));
            }
            assert(ids@ =~= v@);
        },
        None => {
            assert(ids@ =~= Seq::<u64>::empty());
        },
    }
    ids
}

impl Restrict {
    /// Starts the check of whether `user`, in `channel`, may run `command`.
    /// Drive it with `next_step` and `record` until it decides.
    pub fn allowed(&self, command: &String, user: u64, channel: u64) -> (check: AccessCheck)
        ensures
            check@ == initial_check(self@, command@, user, channel),
    {
        match self.get(command) {
            None => AccessCheck { roles: Vec::new(), next: 0, verdict: Some(true) },
            Some(allow) => {
                if list_contains(&allow.users, user) || list_contains(&allow.channels, channel) {
                    AccessCheck { roles: Vec::new(), next: 0, verdict: Some(true) }
                } else {
                    AccessCheck { roles: copy_ids(&allow.roles), next: 0, verdict: None }
                }
            },
        }
    }
}

/// A check that has not decided, answered by `holds` for at least as many
/// questions as roles are left, decides whether one of the roles left is held.
proof fn lemma_run_undecided(c: AccessCheckView, holds: spec_fn(u64) -> bool, n: nat)
    requires
        c.verdict is None,
        c.next <= c.roles.len(),
        n >= c.roles.len() - c.next,
    ensures
        next_step(run_check(c, holds, n)) == AccessStep::Decided(
            exists|i: int| c.next <= i < c.roles.len() && holds(#[trigger] c.roles[i]),
        ),
    decreases n,
{
    let any = exists|i: int| c.next <= i < c.roles.len() && holds(#[trigger] c.roles[i]);
    if c.next == c.roles.len() {
        if n > 0 {
            assert(run_check(c, holds, n) == c);
        }
        assert(!any);
    } else {
        let r: u64 = c.roles[c.next as int];
        assert(run_check(c, holds, n) == run_check(after_answer(c, holds(r)), holds, (n - 1) as nat));
        let d = after_answer(c, holds(r));
        if holds(r) {
            assert(any);
            if n - 1 > 0 {
                assert(run_check(d, holds, (n - 1) as nat) == d);
            }
        } else {
            lemma_run_undecided(d, holds, (n - 1) as nat);
            let rest = exists|i: int| d.next <= i < d.roles.len() && holds(#[trigger] d.roles[i]);
            if any {
                let i: int = choose|i: int| c.next <= i < c.roles.len() && holds(#[trigger] c.roles[i]);
                assert(i != c.next);
                assert(rest);
            }
        }
    }
}

/// Answering every question of the check that `Restrict::allowed` starts
/// with whether the member holds the role ends, after no more questions than
/// the command's rule lists roles, in the decision that the member may run
/// the command exactly when the command has no rule, or the user or the
/// channel is listed, or the member holds one of the listed roles.
pub proof fn lemma_check_decides_access(
    rules: Map<Seq<char>, Allow>,
    command: Seq<char>,
    user: u64,
    channel: u64,
    holds: spec_fn(u64) -> bool,
    n: nat,
)
    requires
        n >= initial_check(rules, command, user, channel).roles.len(),
    ensures
        next_step(run_check(initial_check(rules, command, user, channel), holds, n))
            == AccessStep::Decided(may_run(rules, command, user, channel, holds)),
{
    let c = initial_check(rules, command, user, channel);
    if c.verdict is Some {
        if n > 0 {
            assert(run_check(c, holds, n) == c);
        }
    } else {
        lemma_run_undecided(c, holds, n);
        let roles = id_list(rules[command].roles);
        assert(c.roles == roles);
        if may_run(rules, command, user, channel, holds) {
            let i: int = choose|i: int| 0 <= i < roles.len() && holds(#[trigger] roles[i]);
            assert(c.next <= i < c.roles.len() && holds(c.roles[i]));
        }
    }
}

/// Setting the rule of a command decides the checks of that command by the
/// new rule, and leaves the checks of every other command as they were.
pub proof fn lemma_insert_governs_checks(
    rules: Map<Seq<char>, Allow>,
    command: Seq<char>,
    allow: Allow,
    other: Seq<char>,
    user: u64,
    channel: u64,
)
    requires
        other != command,
    ensures
        initial_check(rules.insert(command, allow), command, user, channel) == (
        if listed(allow.users, user) || listed(allow.channels, channel) {
            decided_check(true)
        } else {
            AccessCheckView { roles: id_list(allow.roles), next: 0, verdict: None }
        }),
        initial_check(rules.insert(command, allow), other, user, channel) == initial_check(
            rules,
            other,
            user,
            channel,
        ),
{
}

/// A list holds an id exactly when the id stands at some position of it; an
/// absent list holds none, and its ids are none.
pub proof fn lemma_listed_means_occurs(list: Option<Vec<u64>>, id: u64)
    ensures
        listed(list, id) <==> (list matches Some(v) && exists|i: int| 0 <= i < v@.len() && v@[i] == id),
        list matches Some(v) ==> id_list(list) == v@,
        list is None ==> id_list(list).len() == 0,
{
    if let Some(v) = list {
        if listed(list, id) {
            let i: int = choose|i: int| 0 <= i < v@.len() && v@[i] == id;
            assert(0 <= i < v@.len() && v@[i] == id);
        }
    }
}

/// A user who stands anywhere in the user list of a command's rule, or an
/// interaction in a channel that stands anywhere in its channel list, may
/// run the command at once: no role is asked about.
pub proof fn lemma_listed_user_or_channel_may_run(
    rules: Map<Seq<char>, Allow>,
    command: Seq<char>,
    user: u64,
    channel: u64,
    i: int,
)
    requires
        rules.contains_key(command),
        (rules[command].users matches Some(v) && 0 <= i < v@.len() && v@[i] == user)
            || (rules[command].channels matches Some(v) && 0 <= i < v@.len() && v@[i] == channel),
    ensures
        next_step(initial_check(rules, command, user, channel)) == AccessStep::Decided(true),
        initial_check(rules, command, user, channel).roles.len() == 0,
{
    lemma_listed_means_occurs(rules[command].users, user);
    lemma_listed_means_occurs(rules[command].channels, channel);
}

/// When neither the user nor the channel stands in the rule of a command,
/// the check asks about the rule's roles, from the first on, and denies at
/// once when the rule lists none.
pub proof fn lemma_unlisted_asks_roles(
    rules: Map<Seq<char>, Allow>,
    command: Seq<char>,
    user: u64,
    channel: u64,
)
    requires
        rules.contains_key(command),
        rules[command].users matches Some(v) ==> forall|i: int| 0 <= i < v@.len() ==> v@[i] != user,
        rules[command].channels matches Some(v) ==> forall|i: int| 0 <= i < v@.len() ==> v@[i] != channel,
    ensures
        rules[command].roles matches Some(v) ==> initial_check(rules, command, user, channel).roles == v@,
        rules[command].roles is Some && rules[command].roles->0@.len() > 0 ==> next_step(
            initial_check(rules, command, user, channel),
        ) == AccessStep::HasRole(rules[command].roles->0@[0]),
        (rules[command].roles is None || rules[command].roles->0@.len() == 0)
            ==> next_step(initial_check(rules, command, user, channel)) == AccessStep::Decided(false),
{
    lemma_listed_means_occurs(rules[command].users, user);
    lemma_listed_means_occurs(rules[command].channels, channel);
    lemma_listed_means_occurs(rules[command].roles, 0);
}

/// Answering every question of a check, a member who holds any role of the
/// command's rule may run the command; a member who is not listed, in a
/// channel that is not listed, and who holds none of the rule's roles may
/// not.
pub proof fn lemma_roles_decide(
    rules: Map<Seq<char>, Allow>,
    command: Seq<char>,
    user: u64,
    channel: u64,
    holds: spec_fn(u64) -> bool,
    n: nat,
)
    requires
        rules.contains_key(command),
        n >= initial_check(rules, command, user, channel).roles.len(),
    ensures
        (rules[command].roles is Some && exists|i: int|
            0 <= i < rules[command].roles->0@.len() && holds(#[trigger] rules[command].roles->0@[i]))
            ==> next_step(run_check(initial_check(rules, command, user, channel), holds, n))
            == AccessStep::Decided(true),
        ((rules[command].users matches Some(v) ==> forall|i: int| 0 <= i < v@.len() ==> v@[i] != user)
            && (rules[command].channels matches Some(v) ==> forall|i: int| 0 <= i < v@.len() ==> v@[i] != channel)
            && (rules[command].roles matches Some(v) ==> forall|i: int| 0 <= i < v@.len() ==> !holds(#[trigger] v@[i])))
            ==> next_step(run_check(initial_check(rules, command, user, channel), holds, n))
            == AccessStep::Decided(false),
{
    lemma_check_decides_access(rules, command, user, channel, holds, n);
    lemma_listed_means_occurs(rules[command].users, user);
    lemma_listed_means_occurs(rules[command].channels, channel);
    lemma_listed_means_occurs(rules[command].roles, 0);
}

/// A decided check stays decided, whatever comes after.
pub proof fn lemma_decided_is_final(c: AccessCheckView, holds: spec_fn(u64) -> bool, n: nat)
    requires
        next_step(c) is Decided,
    ensures
        run_check(c, holds, n) == c,
{
    if n > 0 {
        assert(run_check(c, holds, n) == c);
    }
}

} // verus!

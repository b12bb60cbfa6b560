//! The substitution protocol: every variable whose name carries a prefix
//! and whose value is not empty is taken out of the environment, its value
//! is decrypted by the service, and the plaintext is bound to the name
//! without the prefix. The first failure ends the run.
//!
//! The protocol is a state machine. A [`Scan`] looks for the next candidate
//! and either asks for one decryption, gives up, or declares the
//! environment ready for the command. A [`Pending`] takes the service's
//! reply and gives the scan back. The caller makes the calls.

use vstd::prelude::*;
use crate::codec::base64_bytes;
use crate::environment::{bindings, views, Environment, Variable};
use crate::gateway::{decrypt_outcome, decrypt_request, plain_text_of, DecryptReply, Failure};
use crate::text::{starts_with, strip_prefix, without_prefix};

verus! {

/// A variable takes part in the substitution if its name begins with the
/// prefix and its value is not empty. An empty value counts as a variable
/// that is not set: it is left alone and no decryption is tried on it.
pub open spec fn is_candidate(variable: (Seq<char>, Seq<char>), prefix: Seq<char>) -> bool {
    prefix.is_prefix_of(variable.0) && variable.1.len() > 0
}

/// The position of the first candidate at or after `from`, or the length of
/// the list where none is left.
pub open spec fn next_candidate(
    variables: Seq<(Seq<char>, Seq<char>)>,
    prefix: Seq<char>,
    from: int,
) -> int
    decreases variables.len() - from,
{
    if from < 0 || from >= variables.len() {
        variables.len() as int
    } else if is_candidate(variables[from], prefix) {
        from
    } else {
        next_candidate(variables, prefix, from + 1)
    }
}

/// The next candidate lies at or after the place the search starts from; it
/// is a candidate, and nothing between the two is one.
pub proof fn lemma_next_candidate(
    variables: Seq<(Seq<char>, Seq<char>)>,
    prefix: Seq<char>,
    from: int,
)
    requires
        0 <= from <= variables.len(),
    ensures
        from <= next_candidate(variables, prefix, from) <= variables.len(),
        next_candidate(variables, prefix, from) < variables.len() ==> is_candidate(
            variables[next_candidate(variables, prefix, from)],
            prefix,
        ),
        forall|between: int|
            from <= between < next_candidate(variables, prefix, from) ==> !is_candidate(
                #[trigger] variables[between],
                prefix,
            ),
    decreases variables.len() - from,
{
    if from < variables.len() && !is_candidate(variables[from], prefix) {
        lemma_next_candidate(variables, prefix, from + 1);
    }
}

/// Where no variable is a candidate, the search ends behind the list: the
/// environment is ready as it stands.
pub proof fn lemma_no_candidate_no_call(variables: Seq<(Seq<char>, Seq<char>)>, prefix: Seq<char>, from: int)
    requires
        0 <= from <= variables.len(),
        forall|at: int| from <= at < variables.len() ==> !is_candidate(#[trigger] variables[at], prefix),
    ensures
        next_candidate(variables, prefix, from) == variables.len(),
    decreases variables.len() - from,
{
    if from < variables.len() {
        lemma_no_candidate_no_call(variables, prefix, from + 1);
    }
}

/// A run of the protocol between two decryptions.
#[derive(Debug)]
pub struct Scan {
    prefix: String,
    no_padding: bool,
    variables: Vec<Variable>,
    cursor: usize,
    environment: Environment,
}

/// The mathematical value of a [`Scan`].
pub struct ScanView {
    /// The prefix that marks a candidate.
    pub prefix: Seq<char>,
    /// The padding mode of the envelopes.
    pub no_padding: bool,
    /// The variables as they were when the run began, in the order in which
    /// they are looked at.
    pub variables: Seq<(Seq<char>, Seq<char>)>,
    /// How many of them have been dealt with.
    pub cursor: int,
    /// The environment as the run has left it so far.
    pub environment: Map<Seq<char>, Seq<char>>,
}

impl ScanView {
    /// The cursor points into the list or just behind it.
    pub open spec fn wf(self) -> bool {
        0 <= self.cursor <= self.variables.len()
    }
}

/// A run of the protocol that waits for the reply to one decryption.
#[derive(Debug)]
pub struct Pending {
    scan: Scan,
    name: String,
    ciphertext: Vec<u8>,
}

/// The mathematical value of a [`Pending`].
pub struct PendingView {
    /// The run as it goes on after the reply.
    pub scan: ScanView,
    /// The name of the variable whose value is being decrypted.
    pub name: Seq<char>,
    /// The bytes to hand to the service.
    pub ciphertext: Seq<u8>,
}

/// The end of a run that failed.
#[derive(Debug)]
pub struct Abort {
    /// The variable whose decryption failed.
    pub name: String,
    /// Why it failed.
    pub cause: Failure,
    /// The environment as the run left it.
    pub environment: Environment,
}

/// What a scan asks of its caller.
#[derive(Debug)]
pub enum Step {
    /// Hand the ciphertext to the service and come back with its reply.
    Ask(Pending),
    /// Give up: the command is not run.
    Abort(Abort),
    /// Run the command in this environment.
    Launch(Environment),
}

/// How a whole run ends.
pub enum Outcome {
    /// Every candidate was replaced: the command runs in this environment.
    Ready(Map<Seq<char>, Seq<char>>),
    /// The run failed on the variable `name` and left this environment; the
    /// command does not run.
    Failed { name: Seq<char>, environment: Map<Seq<char>, Seq<char>> },
}

impl Outcome {
    /// The environment that the run leaves, however it ends.
    pub open spec fn environment(self) -> Map<Seq<char>, Seq<char>> {
        match self {
            Outcome::Ready(environment) => environment,
            Outcome::Failed { environment, .. } => environment,
        }
    }
}

/// The name that a candidate's plaintext is bound to.
pub open spec fn target(variable: (Seq<char>, Seq<char>), prefix: Seq<char>) -> Seq<char> {
    without_prefix(variable.0, prefix)
}

/// How a run ends from the state `scan`, where `replies` gives, for the
/// candidate at each position, the plaintext that the service answers with,
/// or `None` where its call fails or its answer holds no plaintext. The
/// variables are taken in order. One that is no candidate is passed over. A
/// candidate is unbound; if its value is no envelope, or the service gives
/// no plaintext for it, the run ends there; else the plaintext is bound to
/// its target and the run goes on.
pub open spec fn outcome(scan: ScanView, replies: spec_fn(int) -> Option<Seq<char>>) -> Outcome
    decreases scan.variables.len() - scan.cursor,
{
    if scan.cursor < 0 || scan.cursor >= scan.variables.len() {
        Outcome::Ready(scan.environment)
    } else {
        let variable = scan.variables[scan.cursor];
        if !is_candidate(variable, scan.prefix) {
            outcome(ScanView { cursor: scan.cursor + 1, ..scan }, replies)
        } else {
            let hidden = scan.environment.remove(variable.0);
            if base64_bytes(variable.1, scan.no_padding).is_none() || replies(scan.cursor).is_none() {
                Outcome::Failed { name: variable.0, environment: hidden }
            } else {
                outcome(
                    ScanView {
                        cursor: scan.cursor + 1,
                        environment: hidden.insert(
                            target(variable, scan.prefix),
                            replies(scan.cursor).unwrap(),
                        ),
                        ..scan
                    },
                    replies,
                )
            }
        }
    }
}

/// A run ends as its steps say: it goes to the next candidate; with none
/// left the environment is ready as it stands; else the candidate is
/// unbound, and the run either fails on it or goes on behind it with the
/// plaintext bound to its target.
pub proof fn lemma_outcome_follows_steps(scan: ScanView, replies: spec_fn(int) -> Option<Seq<char>>)
    requires
        scan.wf(),
    ensures
        ({
            let at = next_candidate(scan.variables, scan.prefix, scan.cursor);
            if at == scan.variables.len() {
                outcome(scan, replies) == Outcome::Ready(scan.environment)
            } else {
                let variable = scan.variables[at];
                let hidden = scan.environment.remove(variable.0);
                if base64_bytes(variable.1, scan.no_padding).is_none() || replies(at).is_none() {
                    outcome(scan, replies) == (Outcome::Failed { name: variable.0, environment: hidden })
                } else {
                    outcome(scan, replies) == outcome(
                        ScanView {
                            cursor: at + 1,
                            environment: hidden.insert(
                                target(variable, scan.prefix),
                                replies(at).unwrap(),
                            ),
                            ..scan
                        },
                        replies,
                    )
                }
            }
        }),
    decreases scan.variables.len() - scan.cursor,
{
    if scan.cursor < scan.variables.len() && !is_candidate(scan.variables[scan.cursor], scan.prefix) {
        lemma_outcome_follows_steps(ScanView { cursor: scan.cursor + 1, ..scan }, replies);
    }
}

/// No partial success: a run that fails names a candidate, and leaves an
/// environment in which that variable, with its ciphertext, is not bound.
pub proof fn lemma_failure_hides_ciphertext(scan: ScanView, replies: spec_fn(int) -> Option<Seq<char>>)
    requires
        scan.wf(),
    ensures
        outcome(scan, replies) matches Outcome::Failed { name, environment } ==> {
            &&& !environment.contains_key(name)
            &&& scan.prefix.is_prefix_of(name)
            &&& exists|at: int|
                scan.cursor <= at < scan.variables.len() && is_candidate(
                    #[trigger] scan.variables[at],
                    scan.prefix,
                ) && scan.variables[at].0 == name
        },
    decreases scan.variables.len() - scan.cursor,
{
    if scan.cursor < scan.variables.len() {
        let variable = scan.variables[scan.cursor];
        if !is_candidate(variable, scan.prefix) {
            lemma_failure_hides_ciphertext(ScanView { cursor: scan.cursor + 1, ..scan }, replies);
        } else if base64_bytes(variable.1, scan.no_padding).is_none() || replies(scan.cursor).is_none() {
            assert(is_candidate(scan.variables[scan.cursor], scan.prefix));
        } else {
            lemma_failure_hides_ciphertext(
                ScanView {
                    cursor: scan.cursor + 1,
                    environment: scan.environment.remove(variable.0).insert(
                        target(variable, scan.prefix),
                        replies(scan.cursor).unwrap(),
                    ),
                    ..scan
                },
                replies,
            );
        }
    }
}

/// A run touches nothing but its candidates and their targets: a name that
/// is neither keeps its binding, or stays unbound, however the run ends.
pub proof fn lemma_other_names_are_kept(
    scan: ScanView,
    replies: spec_fn(int) -> Option<Seq<char>>,
    name: Seq<char>,
)
    requires
        scan.wf(),
        forall|at: int|
            scan.cursor <= at < scan.variables.len() && is_candidate(
                #[trigger] scan.variables[at],
                scan.prefix,
            ) ==> scan.variables[at].0 != name && target(scan.variables[at], scan.prefix) != name,
    ensures
        outcome(scan, replies).environment().contains_key(name) == scan.environment.contains_key(
            name,
        ),
        scan.environment.contains_key(name) ==> outcome(scan, replies).environment()[name]
            == scan.environment[name],
    decreases scan.variables.len() - scan.cursor,
{
    if scan.cursor < scan.variables.len() {
        let variable = scan.variables[scan.cursor];
        if !is_candidate(variable, scan.prefix) {
            lemma_other_names_are_kept(ScanView { cursor: scan.cursor + 1, ..scan }, replies, name);
        } else if base64_bytes(variable.1, scan.no_padding).is_none() || replies(scan.cursor).is_none() {
        } else {
            lemma_other_names_are_kept(
                ScanView {
                    cursor: scan.cursor + 1,
                    environment: scan.environment.remove(variable.0).insert(
                        target(variable, scan.prefix),
                        replies(scan.cursor).unwrap(),
                    ),
                    ..scan
                },
                replies,
                name,
            );
        }
    }
}

/// The state in which a run goes on behind the variable at the cursor:
/// unchanged where that variable is no candidate, else with the candidate
/// unbound and its plaintext bound to its target.
pub open spec fn advanced(scan: ScanView, replies: spec_fn(int) -> Option<Seq<char>>) -> ScanView {
    let variable = scan.variables[scan.cursor];
    if is_candidate(variable, scan.prefix) {
        ScanView {
            cursor: scan.cursor + 1,
            environment: scan.environment.remove(variable.0).insert(
                target(variable, scan.prefix),
                replies(scan.cursor).unwrap(),
            ),
            ..scan
        }
    } else {
        ScanView { cursor: scan.cursor + 1, ..scan }
    }
}

/// Fail-fast, and no partial success: the environment is declared ready
/// exactly where every candidate holds an envelope and the service gave a
/// plaintext for it.
pub proof fn lemma_ready_means_all_decrypted(
    scan: ScanView,
    replies: spec_fn(int) -> Option<Seq<char>>,
)
    requires
        scan.wf(),
    ensures
        outcome(scan, replies) is Ready <==> forall|at: int|
            scan.cursor <= at < scan.variables.len() && is_candidate(
                #[trigger] scan.variables[at],
                scan.prefix,
            ) ==> base64_bytes(scan.variables[at].1, scan.no_padding).is_some() && replies(
                at,
            ).is_some(),
    decreases scan.variables.len() - scan.cursor,
{
    if scan.cursor < scan.variables.len() {
        let variable = scan.variables[scan.cursor];
        if is_candidate(variable, scan.prefix) && (base64_bytes(
            variable.1,
            scan.no_padding,
        ).is_none() || replies(scan.cursor).is_none()) {
            assert(is_candidate(scan.variables[scan.cursor], scan.prefix));
        } else {
            lemma_ready_means_all_decrypted(advanced(scan, replies), replies);
        }
    }
}

/// In a run that succeeds, the plaintext of a candidate is bound to its
/// target, unless a later candidate has that name as its own or as its
/// target.
pub proof fn lemma_plaintext_is_bound(
    scan: ScanView,
    replies: spec_fn(int) -> Option<Seq<char>>,
    at: int,
)
    requires
        scan.wf(),
        scan.cursor <= at < scan.variables.len(),
        is_candidate(scan.variables[at], scan.prefix),
        outcome(scan, replies) is Ready,
        forall|later: int|
            at < later < scan.variables.len() && is_candidate(
                #[trigger] scan.variables[later],
                scan.prefix,
            ) ==> scan.variables[later].0 != target(scan.variables[at], scan.prefix) && target(
                scan.variables[later],
                scan.prefix,
            ) != target(scan.variables[at], scan.prefix),
    ensures
        replies(at).is_some(),
        outcome(scan, replies).environment().contains_key(target(scan.variables[at], scan.prefix)),
        outcome(scan, replies).environment()[target(scan.variables[at], scan.prefix)] == replies(
            at,
        ).unwrap(),
    decreases at - scan.cursor,
{
    lemma_ready_means_all_decrypted(scan, replies);
    if scan.cursor < at {
        lemma_plaintext_is_bound(advanced(scan, replies), replies, at);
    } else {
        lemma_other_names_are_kept(
            advanced(scan, replies),
            replies,
            target(scan.variables[at], scan.prefix),
        );
    }
}

/// In a run that succeeds, a candidate under a prefix that is not empty is
/// no longer bound, unless a later candidate has that name as its target: the
/// ciphertext does not reach the command.
pub proof fn lemma_ciphertext_is_unbound(
    scan: ScanView,
    replies: spec_fn(int) -> Option<Seq<char>>,
    at: int,
)
    requires
        scan.wf(),
        scan.cursor <= at < scan.variables.len(),
        is_candidate(scan.variables[at], scan.prefix),
        scan.prefix.len() > 0,
        outcome(scan, replies) is Ready,
        forall|later: int|
            at < later < scan.variables.len() && is_candidate(
                #[trigger] scan.variables[later],
                scan.prefix,
            ) ==> target(scan.variables[later], scan.prefix) != scan.variables[at].0,
    ensures
        !outcome(scan, replies).environment().contains_key(scan.variables[at].0),
    decreases scan.variables.len() - scan.cursor,
{
    lemma_ready_means_all_decrypted(scan, replies);
    let name = scan.variables[at].0;
    assert(target(scan.variables[at], scan.prefix).len() < name.len());
    if scan.cursor < at {
        lemma_ciphertext_is_unbound(advanced(scan, replies), replies, at);
    } else {
        lemma_unbound_stays_unbound(advanced(scan, replies), replies, name);
    }
}

/// A name that is not bound, and is no target of a candidate still to
/// come, is not bound when the run ends.
pub proof fn lemma_unbound_stays_unbound(
    scan: ScanView,
    replies: spec_fn(int) -> Option<Seq<char>>,
    name: Seq<char>,
)
    requires
        scan.wf(),
        !scan.environment.contains_key(name),
        forall|at: int|
            scan.cursor <= at < scan.variables.len() && is_candidate(
                #[trigger] scan.variables[at],
                scan.prefix,
            ) ==> target(scan.variables[at], scan.prefix) != name,
    ensures
        !outcome(scan, replies).environment().contains_key(name),
    decreases scan.variables.len() - scan.cursor,
{
    if scan.cursor < scan.variables.len() {
        let variable = scan.variables[scan.cursor];
        if is_candidate(variable, scan.prefix) && (base64_bytes(
            variable.1,
            scan.no_padding,
        ).is_none() || replies(scan.cursor).is_none()) {
        } else {
            lemma_unbound_stays_unbound(advanced(scan, replies), replies, name);
        }
    }
}

/// A run without candidates makes no call and leaves the environment as it
/// found it.
pub proof fn lemma_no_candidate_changes_nothing(
    scan: ScanView,
    replies: spec_fn(int) -> Option<Seq<char>>,
)
    requires
        scan.wf(),
        forall|at: int|
            scan.cursor <= at < scan.variables.len() ==> !is_candidate(
                #[trigger] scan.variables[at],
                scan.prefix,
            ),
    ensures
        outcome(scan, replies) == Outcome::Ready(scan.environment),
{
    lemma_no_candidate_no_call(scan.variables, scan.prefix, scan.cursor);
    lemma_outcome_follows_steps(scan, replies);
}

/// A candidate with an empty value does not exist: a variable under the
/// prefix whose value is empty is passed over like any other variable.
pub proof fn lemma_empty_value_is_passed_over(scan: ScanView, replies: spec_fn(int) -> Option<Seq<char>>)
    requires
        0 <= scan.cursor < scan.variables.len(),
        scan.variables[scan.cursor].1.len() == 0,
    ensures
        outcome(scan, replies) == outcome(ScanView { cursor: scan.cursor + 1, ..scan }, replies),
{
}

impl View for Scan {
    type V = ScanView;

    closed spec fn view(&self) -> ScanView {
        ScanView {
            prefix: self.prefix@,
            no_padding: self.no_padding,
            variables: views(self.variables@),
            cursor: self.cursor as int,
            environment: self.environment@,
        }
    }
}

impl View for Pending {
    type V = PendingView;

    closed spec fn view(&self) -> PendingView {
        PendingView { scan: self.scan@, name: self.name@, ciphertext: self.ciphertext@ }
    }
}

impl PendingView {
    /// How the run ends from here, where `replies` gives the service's
    /// answer for the candidate at each position: the answer awaited is the
    /// one for the variable just before the cursor.
    pub open spec fn outcome(self, replies: spec_fn(int) -> Option<Seq<char>>) -> Outcome {
        match replies(self.scan.cursor - 1) {
            Some(text) => outcome(
                ScanView {
                    environment: self.scan.environment.insert(
                        without_prefix(self.name, self.scan.prefix),
                        text,
                    ),
                    ..self.scan
                },
                replies,
            ),
            None => Outcome::Failed { name: self.name, environment: self.scan.environment },
        }
    }
}

impl Step {
    /// How the run ends after this step, where `replies` gives the service's
    /// answer for the candidate at each position.
    pub open spec fn outcome(self, replies: spec_fn(int) -> Option<Seq<char>>) -> Outcome {
        match self {
            Step::Ask(pending) => pending@.outcome(replies),
            Step::Abort(abort) => Outcome::Failed {
                name: abort.name@,
                environment: abort.environment@,
            },
            Step::Launch(environment) => Outcome::Ready(environment@),
        }
    }
}

/// A copy of a list of variables.
fn copy_variables(variables: &Vec<Variable>) -> (copy: Vec<Variable>)
    ensures
        copy@ == variables@,
{
    let mut copy: Vec<Variable> = Vec::new();
    let mut at: usize = 0;
    while at < variables.len()
        invariant
            at <= variables.len(),
            copy@ == variables@.take(at as int),
        decreases variables.len() - at,
    {
        let entry = Variable {
            name: variables[at].name.clone(),
            value: variables[at].value.clone(),
        };
        assert(variables@.take(at + 1) =~= variables@.take(at as int).push(entry));
        copy.push(entry);
        at += 1;
    }
    assert(variables@.take(at as int) =~= variables@);
    copy
}

/// The exit code that stands for a command ended by a signal.
pub const SIGNALLED_EXIT_CODE: i32 = 1;

/// The exit code to leave with once the command has ended: the command's
/// own code where it ended by itself, [`SIGNALLED_EXIT_CODE`] where a signal
/// ended it and it has none.
pub fn relayed_exit_code(code: Option<i32>) -> (relayed: i32)
    ensures
        relayed == (match code {
            Some(own) => own,
            None => SIGNALLED_EXIT_CODE,
        }),
{
    match code {
        Some(own) => own,
        None => SIGNALLED_EXIT_CODE,
    }
}

/// Whether a variable takes part in the substitution.
pub fn is_candidate_variable(variable: &Variable, prefix: &str) -> (candidate: bool)
    ensures
        candidate == is_candidate(variable@, prefix@),
{
    starts_with(variable.name.as_str(), prefix) && !variable.value.as_str().is_empty()
}

impl Scan {
    #[verifier::type_invariant]
    spec fn valid(self) -> bool {
        self.cursor <= self.variables.len()
    }

    /// Begins a run over `variables`, the environment as it stands, in the
    /// order in which they are given.
    pub fn new(variables: Vec<Variable>, prefix: String, no_padding: bool) -> (scan: Scan)
        ensures
            scan@ == (ScanView {
                prefix: prefix@,
                no_padding,
                variables: views(variables@),
                cursor: 0,
                environment: bindings(views(variables@)),
            }),
    {
        let environment = Environment::from_variables(copy_variables(&variables));
        Scan { prefix, no_padding, variables, cursor: 0, environment }
    }

    /// Goes on to the next candidate. Where none is left the environment is
    /// ready. Otherwise the candidate is unbound first, so that its
    /// ciphertext is gone whatever follows; then its value is read as an
    /// envelope, and either the run fails on it or its bytes are to be
    /// decrypted.
    pub fn next(self) -> (step: Step)
        ensures
            self@.wf(),
            ({
                let at = next_candidate(self@.variables, self@.prefix, self@.cursor);
                if at == self@.variables.len() {
                    step matches Step::Launch(environment) && environment@ == self@.environment
                } else {
                    let name = self@.variables[at].0;
                    let value = self@.variables[at].1;
                    let environment = self@.environment.remove(name);
                    match base64_bytes(value, self@.no_padding) {
                        Some(bytes) => step matches Step::Ask(pending) && pending@ == (PendingView {
                            scan: ScanView { cursor: at + 1, environment, ..self@ },
                            name,
                            ciphertext: bytes,
                        }),
                        None => step matches Step::Abort(abort) && abort.name@ == name
                            && abort.environment@ == environment
                            && (abort.cause matches Failure::Decode(_)),
                    }
                }
            }),
            forall|replies: spec_fn(int) -> Option<Seq<char>>|
                step.outcome(replies) == #[trigger] outcome(self@, replies),
    {
        proof {
            use_type_invariant(&self);
        }
        let ghost before = self@;
        let Scan { prefix, no_padding, variables, cursor, environment } = self;
        let mut environment = environment;
        let count = variables.len();
        let mut at: usize = cursor;
        while at < count && !is_candidate_variable(&variables[at], prefix.as_str())
            invariant
                count == variables.len(),
                cursor <= at <= count,
                next_candidate(views(variables@), prefix@, cursor as int) == next_candidate(
                    views(variables@),
                    prefix@,
                    at as int,
                ),
            decreases count - at,
        {
            at += 1;
        }
        let step = if at == count {
            Step::Launch(environment)
        } else {
            let name = variables[at].name.clone();
            environment.remove(&name);
            match decrypt_request(variables[at].value.as_str(), no_padding) {
                Ok(ciphertext) => {
                    let scan = Scan { prefix, no_padding, variables, cursor: at + 1, environment };
                    Step::Ask(Pending { scan, name, ciphertext })
                },
                Err(cause) => Step::Abort(Abort { name, cause, environment }),
            }
        };
        proof {
            assert forall|replies: spec_fn(int) -> Option<Seq<char>>|
                step.outcome(replies) == #[trigger] outcome(before, replies) by {
                lemma_outcome_follows_steps(before, replies);
            }
        }
        step
    }
}

impl Pending {
    #[verifier::type_invariant]
    spec fn valid(self) -> bool {
        &&& self.scan.cursor <= self.scan.variables.len()
        &&& self.scan.prefix@.is_prefix_of(self.name@)
        &&& !self.scan.environment@.contains_key(self.name@)
    }

    /// The name of the variable whose value is being decrypted.
    pub fn name(&self) -> (name: &String)
        ensures
            name@ == self@.name,
    {
        &self.name
    }

    /// The bytes to hand to the service.
    pub fn ciphertext(&self) -> (ciphertext: &Vec<u8>)
        ensures
            ciphertext@ == self@.ciphertext,
    {
        &self.ciphertext
    }

    /// Takes the service's reply. A plaintext is bound to the variable's
    /// name without one leading prefix, and the scan goes on. A variable
    /// named by the prefix alone gives the empty name, which is bound like
    /// any other. A failed call, or an answer without plaintext, ends the
    /// run; the variable stays unbound.
    pub fn resolve(self, reply: Result<DecryptReply, String>) -> (outcome: Result<Scan, Abort>)
        ensures
            self@.scan.prefix.is_prefix_of(self@.name),
            !self@.scan.environment.contains_key(self@.name),
            match plain_text_of(reply) {
                Some(text) => outcome matches Ok(scan) && scan@ == (ScanView {
                    environment: self@.scan.environment.insert(
                        without_prefix(self@.name, self@.scan.prefix),
                        text,
                    ),
                    ..self@.scan
                }),
                None => outcome matches Err(abort) && abort.name@ == self@.name && abort.cause == (
                match reply {
                    Ok(_) => Failure::NoPlaintext,
                    Err(account) => Failure::Remote(account),
                }) && abort.environment@ == self@.scan.environment,
            },
            forall|replies: spec_fn(int) -> Option<Seq<char>>|
                replies(self@.scan.cursor - 1) == plain_text_of(reply) ==> #[trigger] self@.outcome(
                    replies,
                ) == (match outcome {
                    Ok(scan) => self::outcome(scan@, replies),
                    Err(abort) => Outcome::Failed {
                        name: abort.name@,
                        environment: abort.environment@,
                    },
                }),
    {
        proof {
            use_type_invariant(&self);
        }
        let Pending { scan, name, ciphertext: _ } = self;
        let Scan { prefix, no_padding, variables, cursor, environment } = scan;
        let mut environment = environment;
        match decrypt_outcome(reply) {
            Ok(output) => {
                let target = strip_prefix(name.as_str(), prefix.as_str());
                environment.set(target, output.plain_text);
                Ok(Scan { prefix, no_padding, variables, cursor, environment })
            },
            Err(cause) => Err(Abort { name, cause, environment }),
        }
    }
}

} // verus!

use vstd::prelude::*;

verus! {

/// What is on disk for one plug-in: its link in the game's plug-in directory
/// and its repository checkout in the cache directory.
#[derive(Clone, Copy, Debug, PartialEq, Eq, Structural)]
pub struct PluginState {
    pub link: bool,
    pub checkout: bool,
}

/// One change that a command makes on disk for a plug-in.
#[derive(Clone, Copy, Debug, PartialEq, Eq, Structural)]
pub enum Step {
    /// Clone the plug-in's repository into its checkout directory.
    CloneRepository,
    /// Fetch and hard-reset the checkout to the plug-in's revision.
    CheckoutRevision,
    /// Create the link that points at the checkout.
    CreateLink,
    /// Remove the link, leaving the checkout.
    RemoveLink,
    /// Delete the checkout directory with all its contents.
    DeleteCheckout,
}

/// Why a command stops before it changes anything.
#[derive(Clone, Copy, Debug, PartialEq, Eq, Structural)]
pub enum CommandError {
    /// No plug-in of the index has the name asked for.
    NotFound,
    /// The plug-in to install is installed already.
    AlreadyInstalled,
    /// The plug-in to remove or purge is not installed.
    NotInstalled,
}

/// A plug-in counts as installed when both its link and its checkout exist.
pub open spec fn installed(s: PluginState) -> bool {
    s.link && s.checkout
}

/// The disk state after `step`.
pub open spec fn after_step(s: PluginState, step: Step) -> PluginState {
    match step {
        Step::CloneRepository => PluginState { checkout: true, ..s },
        Step::CheckoutRevision => s,
        Step::CreateLink => PluginState { link: true, ..s },
        Step::RemoveLink => PluginState { link: false, ..s },
        Step::DeleteCheckout => PluginState { checkout: false, ..s },
    }
}

/// The disk state after the steps, taken in order.
pub open spec fn after_steps(s: PluginState, steps: Seq<Step>) -> PluginState
    decreases steps.len(),
{
    if steps.len() == 0 {
        s
    } else {
        after_steps(after_step(s, steps[0]), steps.drop_first())
    }
}

/// What `install` does for a plug-in in state `s`: clone when there is no
/// checkout, check the revision out and link it; nothing when it is installed.
pub open spec fn install_plan(s: PluginState) -> Result<Seq<Step>, CommandError> {
    if installed(s) {
        Err(CommandError::AlreadyInstalled)
    } else if s.checkout {
        Ok(seq![Step::CheckoutRevision, Step::CreateLink])
    } else {
        Ok(seq![Step::CloneRepository, Step::CheckoutRevision, Step::CreateLink])
    }
}

/// What `remove` does: take the link away from an installed plug-in.
pub open spec fn remove_plan(s: PluginState) -> Result<Seq<Step>, CommandError> {
    if installed(s) {
        Ok(seq![Step::RemoveLink])
    } else {
        Err(CommandError::NotInstalled)
    }
}

/// What `purge` does before it asks for confirmation: refuse when there is no
/// checkout, else remove the link if there is one.
pub open spec fn purge_plan(s: PluginState) -> Result<Seq<Step>, CommandError> {
    if !s.checkout {
        Err(CommandError::NotInstalled)
    } else if s.link {
        Ok(seq![Step::RemoveLink])
    } else {
        Ok(seq![])
    }
}

/// The line as read, without one line feed or carriage return and line feed
/// at its end.
pub open spec fn without_line_end(line: Seq<char>) -> Seq<char> {
    if line.len() >= 2 && line[line.len() - 2] == '\r' && line[line.len() - 1] == '\n' {
        line.take(line.len() - 2)
    } else if line.len() >= 1 && line[line.len() - 1] == '\n' {
        line.drop_last()
    } else {
        line
    }
}

/// An answer confirms when it is the letter `y` and nothing else, but for the
/// end of its line.
pub open spec fn confirms(answer: Seq<char>) -> bool {
    without_line_end(answer) == seq!['y']
}

/// What `purge` does once the answer to its question is in: delete the
/// checkout on a confirming answer, else nothing.
pub open spec fn purge_answer_plan(answer: Seq<char>) -> Seq<Step> {
    if confirms(answer) {
        seq![Step::DeleteCheckout]
    } else {
        seq![]
    }
}

/// The positions, in order, of the installed plug-ins among `states`.
pub open spec fn installed_positions(states: Seq<PluginState>) -> Seq<usize>
    decreases states.len(),
{
    if states.len() == 0 {
        seq![]
    } else {
        let rest = installed_positions(states.drop_last());
        if installed(states.last()) {
            rest.push((states.len() - 1) as usize)
        } else {
            rest
        }
    }
}

/// The name of the link that exposes the plug-in `name` in the game's plug-in
/// directory.
pub open spec fn link_name(name: Seq<char>) -> Seq<char> {
    "[ESPIM] "@ + name
}

/// Whether the plug-in whose disk state is `s` is installed.
pub fn is_installed(s: PluginState) -> (r: bool)
    ensures
        r == installed(s),
{
    s.link && s.checkout
}

/// The steps of `install` for the resolved plug-in whose disk state is `s`.
pub fn install_steps(s: PluginState) -> (r: Result<Vec<Step>, CommandError>)
    ensures
        match r {
            Ok(steps) => install_plan(s) == Ok::<Seq<Step>, CommandError>(steps@),
            Err(e) => install_plan(s) == Err::<Seq<Step>, CommandError>(e),
        },
{
    if is_installed(s) {
        return Err(CommandError::AlreadyInstalled);
    }
    let mut steps: Vec<Step> = Vec::new();
    if !s.checkout {
        steps.push(Step::CloneRepository);
    }
    steps.push(Step::CheckoutRevision);
    steps.push(Step::CreateLink);
    proof {
        assert(install_plan(s) is Ok);
        assert(steps@ =~= install_plan(s)->Ok_0);
    }
    Ok(steps)
}

/// The steps of `remove` for a plug-in whose disk state is `s`.
pub fn remove_steps(s: PluginState) -> (r: Result<Vec<Step>, CommandError>)
    ensures
        match r {
            Ok(steps) => remove_plan(s) == Ok::<Seq<Step>, CommandError>(steps@),
            Err(e) => remove_plan(s) == Err::<Seq<Step>, CommandError>(e),
        },
{
    if !is_installed(s) {
        return Err(CommandError::NotInstalled);
    }
    let steps = vec![Step::RemoveLink];
    proof {
        assert(steps@ =~= seq![Step::RemoveLink]);
    }
    Ok(steps)
}

/// The steps of `purge` before the confirmation, for a plug-in whose disk
/// state is `s`.
pub fn purge_steps(s: PluginState) -> (r: Result<Vec<Step>, CommandError>)
    ensures
        match r {
            Ok(steps) => purge_plan(s) == Ok::<Seq<Step>, CommandError>(steps@),
            Err(e) => purge_plan(s) == Err::<Seq<Step>, CommandError>(e),
        },
{
    if !s.checkout {
        return Err(CommandError::NotInstalled);
    }
    let mut steps: Vec<Step> = Vec::new();
    if s.link {
        steps.push(Step::RemoveLink);
    }
    proof {
        assert(steps@ =~= purge_plan(s)->Ok_0);
    }
    Ok(steps)
}

/// Whether the answer to `purge`'s question confirms the deletion.
pub fn is_confirmation(answer: &str) -> (r: bool)
    ensures
        r == confirms(answer@),
{
    let n = answer.unicode_len();
    let end = if n >= 2 && answer.get_char(n - 2) == '\r' && answer.get_char(n - 1) == '\n' {
        n - 2
    } else if n >= 1 && answer.get_char(n - 1) == '\n' {
        n - 1
    } else {
        n
    };
    assert(without_line_end(answer@) =~= answer@.take(end as int));
    let r = end == 1 && answer.get_char(0) == 'y';
    proof {
        if r {
            assert(answer@.take(1) =~= seq!['y']);
        } else if end == 1 {
            assert(answer@.take(1)[0] != seq!['y'][0]);
        }
    }
    r
}

/// The steps of `purge` once the answer to its question is in.
pub fn purge_answer_steps(answer: &str) -> (r: Vec<Step>)
    ensures
        r@ == purge_answer_plan(answer@),
{
    let mut steps: Vec<Step> = Vec::new();
    if is_confirmation(answer) {
        steps.push(Step::DeleteCheckout);
    }
    proof {
        assert(steps@ =~= purge_answer_plan(answer@));
    }
    steps
}

/// The positions of the plug-ins that `upgrade` checks out again: those that
/// are installed, in the order of the index.
pub fn upgrade_targets(states: &Vec<PluginState>) -> (r: Vec<usize>)
    ensures
        r@ == installed_positions(states@),
{
    let mut r: Vec<usize> = Vec::new();
    let mut i: usize = 0;
    while i < states.len()
        invariant
            i <= states@.len(),
            r@ == installed_positions(states@.take(i as int)),
        decreases states@.len() - i,
    {
        proof {
            assert(states@.take(i + 1).drop_last() =~= states@.take(i as int));
        }
        if is_installed(states[i]) {
            r.push(i);
        }
        i = i + 1;
    }
    proof {
        assert(states@.take(states@.len() as int) =~= states@);
    }
    r
}

/// The name of the link for the plug-in `name`.
pub fn install_link_name(name: &str) -> (r: String)
    ensures
        r@ == link_name(name@),
{
    let mut r = String::from_str("[ESPIM] ");
    r.append(name);
    r
}

/// Taking one step after others is taking them all in order.
proof fn lemma_after_steps_push(s: PluginState, steps: Seq<Step>, step: Step)
    ensures
        after_steps(s, steps.push(step)) == after_step(after_steps(s, steps), step),
    decreases steps.len(),
{
    if steps.len() == 0 {
        assert(steps.push(step).drop_first() =~= seq![]);
        assert(steps.push(step)[0] == step);
        assert(after_steps(after_step(s, step), seq![]) == after_step(s, step));
    } else {
        assert(steps.push(step).drop_first() =~= steps.drop_first().push(step));
        assert(steps.push(step)[0] == steps[0]);
        lemma_after_steps_push(after_step(s, steps[0]), steps.drop_first(), step);
    }
}

/// The disk state after two, three or no steps.
proof fn lemma_after_short_plans(s: PluginState, a: Step, b: Step, c: Step)
    ensures
        after_steps(s, seq![]) == s,
        after_steps(s, seq![a]) == after_step(s, a),
        after_steps(s, seq![a, b]) == after_step(after_step(s, a), b),
        after_steps(s, seq![a, b, c]) == after_step(after_step(after_step(s, a), b), c),
{
    lemma_after_steps_push(s, seq![], a);
    assert(seq![a] =~= Seq::<Step>::empty().push(a));
    lemma_after_steps_push(s, seq![a], b);
    assert(seq![a, b] =~= seq![a].push(b));
    lemma_after_steps_push(s, seq![a, b], c);
    assert(seq![a, b, c] =~= seq![a, b].push(c));
}

/// A plug-in is installed exactly when its link and its checkout both exist:
/// removing the link or deleting the checkout leaves it not installed.
pub proof fn lemma_installed_iff_link_and_checkout(s: PluginState)
    ensures
        installed(s) <==> (s.link && s.checkout),
        !installed(after_step(s, Step::RemoveLink)),
        !installed(after_step(s, Step::DeleteCheckout)),
{
}

/// Installing a plug-in that is installed changes nothing and fails with
/// `AlreadyInstalled`; so a second `install` after one that succeeded fails so.
pub proof fn lemma_install_twice(s: PluginState)
    ensures
        installed(s) ==> install_plan(s) == Err::<Seq<Step>, CommandError>(
            CommandError::AlreadyInstalled,
        ),
        install_plan(s) matches Ok(steps) ==> {
            &&& installed(after_steps(s, steps))
            &&& install_plan(after_steps(s, steps)) == Err::<Seq<Step>, CommandError>(
                CommandError::AlreadyInstalled,
            )
        },
{
    lemma_after_short_plans(s, Step::CloneRepository, Step::CheckoutRevision, Step::CreateLink);
    lemma_after_short_plans(s, Step::CheckoutRevision, Step::CreateLink, Step::CreateLink);
}

/// `remove` on an installed plug-in takes away its link and nothing else: the
/// checkout stays.
pub proof fn lemma_remove_keeps_checkout(s: PluginState)
    requires
        installed(s),
    ensures
        remove_plan(s) == Ok::<Seq<Step>, CommandError>(seq![Step::RemoveLink]),
        after_steps(s, seq![Step::RemoveLink]) == (PluginState { link: false, checkout: true }),
{
    lemma_after_short_plans(s, Step::RemoveLink, Step::RemoveLink, Step::RemoveLink);
}

/// After `purge` has run on a plug-in with a checkout, the checkout is gone
/// when the answer confirmed and still there otherwise; the link is gone
/// either way.
pub proof fn lemma_purge_keeps_checkout_unless_confirmed(s: PluginState, answer: Seq<char>)
    requires
        s.checkout,
    ensures
        purge_plan(s) matches Ok(steps) && ({
            let done = after_steps(after_steps(s, steps), purge_answer_plan(answer));
            &&& !done.link
            &&& done.checkout == !confirms(answer)
        }),
{
    lemma_after_short_plans(s, Step::RemoveLink, Step::RemoveLink, Step::RemoveLink);
    let s1 = after_step(s, Step::RemoveLink);
    lemma_after_short_plans(s1, Step::DeleteCheckout, Step::DeleteCheckout, Step::DeleteCheckout);
    lemma_after_short_plans(s, Step::DeleteCheckout, Step::DeleteCheckout, Step::DeleteCheckout);
}

} // verus!

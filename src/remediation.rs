use vstd::prelude::*;

verus! {

/// One configured remediation action.
#[derive(Debug)]
pub struct RemediationStep {
    /// Kind of action; only "command" is acted on.
    pub action: String,
    /// Shell command line for a "command" step.
    pub cmd: String,
}

/// Whether a step's kind is the one that runs a shell command.
pub open spec fn is_command_kind(action: Seq<char>) -> bool {
    action == "command"@
}

/// Command lines of the "command" steps, in configured order; steps of any
/// other kind are skipped.
pub open spec fn commands_of(steps: Seq<RemediationStep>) -> Seq<Seq<char>>
    decreases steps.len(),
{
    if steps.len() == 0 {
        Seq::empty()
    } else {
        let rest = commands_of(steps.drop_last());
        let s = steps.last();
        if is_command_kind(s.action@) {
            rest.push(s.cmd@)
        } else {
            rest
        }
    }
}

/// Selects the shell commands to run for a failed check.
pub fn remediation_commands(steps: &Vec<RemediationStep>) -> (r: Vec<String>)
    ensures
        r.deep_view() == commands_of(steps@),
{
    let kind: String = "command".to_owned();
    let mut out: Vec<String> = Vec::new();
    let mut i: usize = 0;
    while i < steps.len()
        invariant
            0 <= i <= steps.len(),
            kind@ == "command"@,
            out.deep_view() == commands_of(steps@.subrange(0, i as int)),
        decreases steps.len() - i,
    {
        let step = &steps[i];
        proof {
            assert(steps@.subrange(0, i + 1).drop_last() == steps@.subrange(0, i as int));
        }
        if step.action == kind {
            out.push(step.cmd.clone());
            proof {
                assert(out.deep_view() =~= commands_of(steps@.subrange(0, i + 1)));
            }
        }
        i = i + 1;
    }
    proof {
        assert(steps@.subrange(0, steps@.len() as int) == steps@);
    }
    out
}

} // verus!

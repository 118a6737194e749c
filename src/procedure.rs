use vstd::prelude::*;
use crate::pipeline::Condition;

verus! {

/// When a command that exited unsuccessfully is run again.
#[derive(Clone, Debug)]
pub enum AutoRestartPolicy {
    /// Any unsuccessful exit restarts the command.
    Always,
    /// No exit restarts the command.
    Never,
    /// Restart unless the exit code is one of these.
    ExclusionCodes(Vec<i32>),
    /// Restart only if the exit code is one of these.
    InclusionCodes(Vec<i32>),
}

/// Why a pair of code lists does not describe a restart policy.
#[derive(Clone, Copy, Debug, PartialEq, Eq, Structural)]
pub enum RestartPolicyError {
    /// Both an inclusion and an exclusion list were given.
    BothLists,
    /// Neither list was given.
    MissingCondition,
}

pub fn codes_contain(codes: &Vec<i32>, code: i32) -> (r: bool)
    ensures
        r == codes@.contains(code),
{
    let mut i: usize = 0;
    while i < codes.len()
        invariant
            i <= codes@.len(),
            forall|j: int| 0 <= j < i ==> codes@[j] != code,
        decreases codes@.len() - i,
    {
        if codes[i] == code {
            return true;
        }
        i = i + 1;
    }
    false
}

impl AutoRestartPolicy {
    /// Whether an unsuccessful exit with `code` restarts the command.
    pub open spec fn spec_should_restart(&self, code: i32) -> bool {
        match self {
            AutoRestartPolicy::Always => true,
            AutoRestartPolicy::Never => false,
            AutoRestartPolicy::ExclusionCodes(codes) => !codes@.contains(code),
            AutoRestartPolicy::InclusionCodes(codes) => codes@.contains(code),
        }
    }

    pub fn should_restart(&self, code: i32) -> (r: bool)
        ensures
            r == self.spec_should_restart(code),
    {
        match self {
            AutoRestartPolicy::Always => true,
            AutoRestartPolicy::Never => false,
            AutoRestartPolicy::ExclusionCodes(codes) => !codes_contain(codes, code),
            AutoRestartPolicy::InclusionCodes(codes) => codes_contain(codes, code),
        }
    }

    /// The policy written as a boolean: `true` is `Always`, `false` is `Never`.
    pub fn from_flag(flag: bool) -> (r: AutoRestartPolicy)
        ensures
            flag ==> r is Always,
            !flag ==> r is Never,
    {
        if flag {
            AutoRestartPolicy::Always
        } else {
            AutoRestartPolicy::Never
        }
    }

    /// The policy written as an object with an `only` list or a `not` list.
    pub fn from_code_lists(only: Option<Vec<i32>>, not: Option<Vec<i32>>) -> (r: Result<
        AutoRestartPolicy,
        RestartPolicyError,
    >)
        ensures
            (only is Some && not is Some) <==> r == Err::<AutoRestartPolicy, RestartPolicyError>(
                RestartPolicyError::BothLists,
            ),
            (only is None && not is None) <==> r == Err::<AutoRestartPolicy, RestartPolicyError>(
                RestartPolicyError::MissingCondition,
            ),
            only matches Some(codes) ==> not is None ==> (r matches Ok(
                AutoRestartPolicy::InclusionCodes(c),
            ) && c@ == codes@),
            not matches Some(codes) ==> only is None ==> (r matches Ok(
                AutoRestartPolicy::ExclusionCodes(c),
            ) && c@ == codes@),
    {
        match (only, not) {
            (Some(_), Some(_)) => Err(RestartPolicyError::BothLists),
            (Some(codes), None) => Ok(AutoRestartPolicy::InclusionCodes(codes)),
            (None, Some(codes)) => Ok(AutoRestartPolicy::ExclusionCodes(codes)),
            (None, None) => Err(RestartPolicyError::MissingCondition),
        }
    }
}

/// An ordered list of shell commands that share one restart policy.
#[derive(Clone, Debug)]
pub struct Procedure {
    pub name: Option<String>,
    pub commands: Vec<String>,
    pub condition: Condition,
    pub auto_restart: AutoRestartPolicy,
    pub log_template: Option<String>,
    pub persistent: bool,
}

impl Procedure {
    /// The name that identifies the procedure: its own, else the pipeline's.
    pub open spec fn spec_identifier(&self, pipeline_name: Seq<char>) -> Seq<char> {
        match self.name {
            Some(name) => name@,
            None => pipeline_name,
        }
    }

    /// The connection id and log name of the procedure.
    pub fn identifier(&self, pipeline_name: &String) -> (r: String)
        ensures
            r@ == self.spec_identifier(pipeline_name@),
    {
        match &self.name {
            Some(name) => name.clone(),
            None => pipeline_name.clone(),
        }
    }
}

} // verus!

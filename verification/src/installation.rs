//! Checking that the tool can be imported by an interpreter: what to run for
//! the check, and how to read what it printed.

use vstd::prelude::*;
use vstd::string::*;
use crate::environment::{activation_of, Activation, ActivationView, Environment};
use crate::text::{text_views, trim, trimmed};

verus! {

/// The flag that makes the interpreter run a program given on its command
/// line.
pub open spec fn inline_flag() -> Seq<char> {
    "-c"@
}

/// The program that prints the version of the tool.
pub open spec fn version_program() -> Seq<char> {
    "import tedana; print(tedana.__version__)"@
}

/// What stands before the diagnostic output in the report of a failed check.
pub open spec fn failure_prefix() -> Seq<char> {
    "Error: "@
}

/// The short-lived process that checks an installation.
#[derive(Debug)]
pub struct ProbePlan {
    pub program: String,
    pub arguments: Vec<String>,
    /// The override that activates the environment, where one was named.
    pub activation: Option<Activation>,
}

/// What a probe plan holds.
pub struct ProbePlanView {
    pub program: Seq<char>,
    pub arguments: Seq<Seq<char>>,
    pub activation: Option<ActivationView>,
}

impl View for ProbePlan {
    type V = ProbePlanView;

    open spec fn view(&self) -> ProbePlanView {
        ProbePlanView {
            program: self.program@,
            arguments: text_views(self.arguments@),
            activation: match self.activation {
                Some(activation) => Some(activation@),
                None => None,
            },
        }
    }
}

/// What the process of a check left behind.
#[derive(Debug)]
pub struct ProbeOutput {
    pub success: bool,
    pub stdout: String,
    pub stderr: String,
}

/// What a probe output holds.
pub struct ProbeOutputView {
    pub success: bool,
    pub stdout: Seq<char>,
    pub stderr: Seq<char>,
}

impl View for ProbeOutput {
    type V = ProbeOutputView;

    open spec fn view(&self) -> ProbeOutputView {
        ProbeOutputView { success: self.success, stdout: self.stdout@, stderr: self.stderr@ }
    }
}

/// The environment a check is asked to run in, as the contracts see it.
pub open spec fn root_view(environment_path: Option<String>) -> Option<Seq<char>> {
    match environment_path {
        Some(root) => Some(root@),
        None => None,
    }
}

/// The process to run for a check of the interpreter at `python_path`: the
/// interpreter is asked to run the program that prints the version of the
/// tool, inside the environment at `environment_path` where one is given.
pub open spec fn probe_for(
    python_path: Seq<char>,
    environment_path: Option<Seq<char>>,
) -> ProbePlanView {
    ProbePlanView {
        program: python_path,
        arguments: seq![inline_flag(), version_program()],
        activation: match environment_path {
            Some(root) => Some(activation_of(root)),
            None => None,
        },
    }
}

/// Says what to run for a check.
pub fn installation_probe(python_path: &str, environment_path: &Option<String>) -> (plan:
    ProbePlan)
    ensures
        plan@ == probe_for(python_path@, root_view(*environment_path)),
{
    let mut arguments: Vec<String> = Vec::new();
    arguments.push(String::from_str("-c"));
    arguments.push(String::from_str("import tedana; print(tedana.__version__)"));
    let activation = match environment_path {
        Some(root) => Some(Environment::at(root.as_str()).activation),
        None => None,
    };
    proof {
        assert(text_views(arguments@) =~= seq![inline_flag(), version_program()]);
    }
    ProbePlan { program: String::from_str(python_path), arguments, activation }
}

/// The report of a check: the version printed, without the white space
/// around it, where the process succeeded; its diagnostic output behind
/// `Error: ` where it did not.
pub open spec fn installation_report(output: ProbeOutputView) -> Result<Seq<char>, Seq<char>> {
    if output.success {
        Ok(trimmed(output.stdout))
    } else {
        Err(failure_prefix() + output.stderr)
    }
}

/// A report as the contracts see it.
pub open spec fn report_view(report: Result<String, String>) -> Result<Seq<char>, Seq<char>> {
    match report {
        Ok(version) => Ok(version@),
        Err(message) => Err(message@),
    }
}

/// Reads the outcome of a check: the version of the installed tool, or what
/// went wrong.
pub fn check_tedana_installation(output: &ProbeOutput) -> (report: Result<String, String>)
    ensures
        report_view(report) == installation_report(output@),
{
    if output.success {
        Ok(trim(output.stdout.as_str()))
    } else {
        let mut message = String::from_str("Error: ");
        message.append(output.stderr.as_str());
        Err(message)
    }
}

} // verus!

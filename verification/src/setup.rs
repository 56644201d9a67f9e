//! Setting up a Python environment: which steps are taken, and in what
//! order.

use crate::tools::{get_compatible_django_version, major_minor, newest_supporting};
use vstd::prelude::*;
use vstd::string::*;

verus! {

/// What was asked of the environment setup.
#[derive(Debug)]
pub struct SetupEnv {
    python_version: String,
    venv_name: String,
    with_poetry: bool,
    with_docker: bool,
    with_git: bool,
}

/// One step of the environment setup.
#[derive(Debug, PartialEq, Eq)]
pub enum SetupStep {
    /// Make sure that Python is installed.
    CheckPython,
    /// Create the virtual environment.
    CreateVirtualEnv,
    /// Install Django into the virtual environment.
    InstallDependencies,
    /// Install Poetry and initialise the project with it.
    SetupPoetry,
    /// Write the Dockerfile.
    GenerateDockerfile,
    /// Initialise the Git repository.
    InitGit,
    /// Write the ignore file.
    CreateGitignore,
    /// Write the readme, naming the given release of Django.
    CreateReadme(String),
    /// Tell the user that no release of Django fits the Python version.
    ReportNoDjango,
}

/// What a step is, with the release of Django as characters.
pub enum StepKind {
    CheckPython,
    CreateVirtualEnv,
    InstallDependencies,
    SetupPoetry,
    GenerateDockerfile,
    InitGit,
    CreateGitignore,
    CreateReadme(Seq<char>),
    ReportNoDjango,
}

/// What the step `s` is.
pub open spec fn step_kind(s: SetupStep) -> StepKind {
    match s {
        SetupStep::CheckPython => StepKind::CheckPython,
        SetupStep::CreateVirtualEnv => StepKind::CreateVirtualEnv,
        SetupStep::InstallDependencies => StepKind::InstallDependencies,
        SetupStep::SetupPoetry => StepKind::SetupPoetry,
        SetupStep::GenerateDockerfile => StepKind::GenerateDockerfile,
        SetupStep::InitGit => StepKind::InitGit,
        SetupStep::CreateGitignore => StepKind::CreateGitignore,
        SetupStep::CreateReadme(d) => StepKind::CreateReadme(d@),
        SetupStep::ReportNoDjango => StepKind::ReportNoDjango,
    }
}

/// What the steps of `steps` are, in order.
pub open spec fn step_kinds(steps: Seq<SetupStep>) -> Seq<StepKind> {
    Seq::new(steps.len(), |i: int| step_kind(steps[i]))
}

/// The steps of a setup: Python, the virtual environment and its packages
/// always; Poetry, the Dockerfile and Git where they were asked for, Git
/// with its ignore file; and last the readme, or a notice where no release
/// of Django fits the Python version.
pub open spec fn planned_steps(
    python_version: Seq<char>,
    with_poetry: bool,
    with_docker: bool,
    with_git: bool,
) -> Seq<StepKind> {
    seq![StepKind::CheckPython, StepKind::CreateVirtualEnv, StepKind::InstallDependencies] + (
    if with_poetry {
        seq![StepKind::SetupPoetry]
    } else {
        Seq::empty()
    }) + (if with_docker {
        seq![StepKind::GenerateDockerfile]
    } else {
        Seq::empty()
    }) + (if with_git {
        seq![StepKind::InitGit, StepKind::CreateGitignore]
    } else {
        Seq::empty()
    }) + seq![
        match newest_supporting(major_minor(python_version)) {
            Some(d) => StepKind::CreateReadme(d),
            None => StepKind::ReportNoDjango,
        },
    ]
}

impl SetupEnv {
    /// A setup for the given Python version and virtual environment.
    pub fn new(
        python_version: String,
        venv_name: String,
        with_poetry: bool,
        with_docker: bool,
        with_git: bool,
    ) -> (r: Self)
        ensures
            r.python_version() == python_version@,
            r.venv_name() == venv_name@,
            r.with_poetry() == with_poetry,
            r.with_docker() == with_docker,
            r.with_git() == with_git,
    {
        Self { python_version, venv_name, with_poetry, with_docker, with_git }
    }

    /// The Python version to set up for.
    pub closed spec fn python_version(&self) -> Seq<char> {
        self.python_version@
    }

    /// The name of the virtual environment.
    pub closed spec fn venv_name(&self) -> Seq<char> {
        self.venv_name@
    }

    /// Whether Poetry is set up.
    pub closed spec fn with_poetry(&self) -> bool {
        self.with_poetry
    }

    /// Whether a Dockerfile is written.
    pub closed spec fn with_docker(&self) -> bool {
        self.with_docker
    }

    /// Whether a Git repository is initialised.
    pub closed spec fn with_git(&self) -> bool {
        self.with_git
    }

    /// The Python version to set up for.
    pub fn get_python_version(&self) -> (r: &str)
        ensures
            r@ == self.python_version(),
    {
        self.python_version.as_str()
    }

    /// The name of the virtual environment.
    pub fn get_venv_name(&self) -> (r: &str)
        ensures
            r@ == self.venv_name(),
    {
        self.venv_name.as_str()
    }

    /// The steps of this setup, in the order in which they are taken.
    pub fn steps(&self) -> (r: Vec<SetupStep>)
        ensures
            step_kinds(r@) == planned_steps(
                self.python_version(),
                self.with_poetry(),
                self.with_docker(),
                self.with_git(),
            ),
    {
        let mut r: Vec<SetupStep> = Vec::new();
        r.push(SetupStep::CheckPython);
        r.push(SetupStep::CreateVirtualEnv);
        r.push(SetupStep::InstallDependencies);
        if self.with_poetry {
            r.push(SetupStep::SetupPoetry);
        }
        if self.with_docker {
            r.push(SetupStep::GenerateDockerfile);
        }
        if self.with_git {
            r.push(SetupStep::InitGit);
            r.push(SetupStep::CreateGitignore);
        }
        match get_compatible_django_version(self.python_version.as_str()) {
            Some(django) => {
                r.push(SetupStep::CreateReadme(String::from_str(django)));
            },
            None => {
                r.push(SetupStep::ReportNoDjango);
            },
        }
        assert(step_kinds(r@) =~= planned_steps(
            self.python_version(),
            self.with_poetry(),
            self.with_docker(),
            self.with_git(),
        ));
        r
    }
}

} // verus!

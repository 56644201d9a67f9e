//! The choices that describe a project to generate.

use vstd::prelude::*;
use vstd::string::*;

verus! {

/// The kind of project.
#[derive(Debug)]
pub enum ProjectType {
    Rest,
    GraphQL,
    Fullstack,
}

/// The database behind the project.
#[derive(Debug, Clone)]
pub enum DatabaseType {
    Postgres,
    MySQL,
    SQLite,
}

/// How users sign in.
#[derive(Debug)]
pub enum AuthSystem {
    Django,
    JWT,
    OAuth,
}

/// What manages the Python packages.
#[derive(Debug)]
pub enum PackageManager {
    Venv,
    Poetry,
    /// No package manager at all; it is shown as `None`.
    Unmanaged,
}

/// An extra that can be set up with the project.
#[derive(Debug, PartialEq, Eq, Structural)]
pub enum AdditionalOption {
    Git,
    Docker,
    Readme,
}

/// How to reach the database.
#[derive(Debug)]
pub struct DatabaseOptions {
    pub db_type: DatabaseType,
    pub name: String,
    pub user: String,
    pub password: String,
    pub host: String,
    pub port: String,
}

/// Everything that was chosen for one project.
#[derive(Debug)]
pub struct ProjectOptions {
    pub name: String,
    pub project_type: ProjectType,
    pub frontend_framework: Option<String>,
    pub database: DatabaseOptions,
    pub auth_system: AuthSystem,
    pub package_manager: PackageManager,
    pub additional_options: Vec<AdditionalOption>,
}

/// The name under which a project type is shown.
pub open spec fn project_type_name(t: ProjectType) -> Seq<char> {
    match t {
        ProjectType::Rest => "Rest"@,
        ProjectType::GraphQL => "GraphQL"@,
        ProjectType::Fullstack => "Fullstack"@,
    }
}

/// The name under which a database type is shown.
pub open spec fn database_type_name(t: DatabaseType) -> Seq<char> {
    match t {
        DatabaseType::Postgres => "Postgres"@,
        DatabaseType::MySQL => "MySQL"@,
        DatabaseType::SQLite => "SQLite"@,
    }
}

/// The Django database backend for a database type.
pub open spec fn engine_name(t: DatabaseType) -> Seq<char> {
    match t {
        DatabaseType::Postgres => "django.db.backends.postgresql"@,
        DatabaseType::MySQL => "django.db.backends.mysql"@,
        DatabaseType::SQLite => "django.db.backends.sqlite3"@,
    }
}

/// The port on which a database of the given type listens by default.
pub open spec fn default_port_name(t: DatabaseType) -> Seq<char> {
    match t {
        DatabaseType::Postgres => "5432"@,
        DatabaseType::MySQL => "3306"@,
        DatabaseType::SQLite => "N/A"@,
    }
}

/// The name under which an authentication system is shown.
pub open spec fn auth_system_name(a: AuthSystem) -> Seq<char> {
    match a {
        AuthSystem::Django => "Django"@,
        AuthSystem::JWT => "JWT"@,
        AuthSystem::OAuth => "OAuth"@,
    }
}

/// The name under which a package manager is shown.
pub open spec fn package_manager_name(p: PackageManager) -> Seq<char> {
    match p {
        PackageManager::Venv => "Venv"@,
        PackageManager::Poetry => "Poetry"@,
        PackageManager::Unmanaged => "None"@,
    }
}

/// The name under which an additional option is shown.
pub open spec fn additional_option_name(o: AdditionalOption) -> Seq<char> {
    match o {
        AdditionalOption::Git => "Git"@,
        AdditionalOption::Docker => "Docker"@,
        AdditionalOption::Readme => "Readme"@,
    }
}

impl ProjectType {
    /// The name under which this project type is shown.
    pub fn to_string(&self) -> (r: String)
        ensures
            r@ == project_type_name(*self),
    {
        match self {
            ProjectType::Rest => String::from_str("Rest"),
            ProjectType::GraphQL => String::from_str("GraphQL"),
            ProjectType::Fullstack => String::from_str("Fullstack"),
        }
    }

    /// The project type at the given place in the list of choices: `Rest`,
    /// `GraphQL`, `Fullstack`.
    pub fn from_index(index: usize) -> (r: Option<ProjectType>)
        ensures
            index == 0 ==> r == Some(ProjectType::Rest),
            index == 1 ==> r == Some(ProjectType::GraphQL),
            index == 2 ==> r == Some(ProjectType::Fullstack),
            index > 2 ==> r is None,
    {
        if index == 0 {
            Some(ProjectType::Rest)
        } else if index == 1 {
            Some(ProjectType::GraphQL)
        } else if index == 2 {
            Some(ProjectType::Fullstack)
        } else {
            None
        }
    }
}

impl DatabaseType {
    /// The name under which this database type is shown.
    pub fn to_string(&self) -> (r: String)
        ensures
            r@ == database_type_name(*self),
    {
        match self {
            DatabaseType::Postgres => String::from_str("Postgres"),
            DatabaseType::MySQL => String::from_str("MySQL"),
            DatabaseType::SQLite => String::from_str("SQLite"),
        }
    }

    /// The Django database backend for this database type.
    pub fn to_engine_string(&self) -> (r: &str)
        ensures
            r@ == engine_name(*self),
    {
        match self {
            DatabaseType::Postgres => "django.db.backends.postgresql",
            DatabaseType::MySQL => "django.db.backends.mysql",
            DatabaseType::SQLite => "django.db.backends.sqlite3",
        }
    }

    /// The port on which a database of this type listens by default.
    pub fn default_port(&self) -> (r: &str)
        ensures
            r@ == default_port_name(*self),
    {
        match self {
            DatabaseType::Postgres => "5432",
            DatabaseType::MySQL => "3306",
            DatabaseType::SQLite => "N/A",
        }
    }

    /// The database type at the given place in the list of choices:
    /// `SQLite`, `Postgres`, `MySQL`.
    pub fn from_index(index: usize) -> (r: Option<DatabaseType>)
        ensures
            index == 0 ==> r == Some(DatabaseType::SQLite),
            index == 1 ==> r == Some(DatabaseType::Postgres),
            index == 2 ==> r == Some(DatabaseType::MySQL),
            index > 2 ==> r is None,
    {
        if index == 0 {
            Some(DatabaseType::SQLite)
        } else if index == 1 {
            Some(DatabaseType::Postgres)
        } else if index == 2 {
            Some(DatabaseType::MySQL)
        } else {
            None
        }
    }
}

impl AuthSystem {
    /// The name under which this authentication system is shown.
    pub fn to_string(&self) -> (r: String)
        ensures
            r@ == auth_system_name(*self),
    {
        match self {
            AuthSystem::Django => String::from_str("Django"),
            AuthSystem::JWT => String::from_str("JWT"),
            AuthSystem::OAuth => String::from_str("OAuth"),
        }
    }

    /// The authentication system at the given place in the list of
    /// choices: `Django`, `JWT`, `OAuth`.
    pub fn from_index(index: usize) -> (r: Option<AuthSystem>)
        ensures
            index == 0 ==> r == Some(AuthSystem::Django),
            index == 1 ==> r == Some(AuthSystem::JWT),
            index == 2 ==> r == Some(AuthSystem::OAuth),
            index > 2 ==> r is None,
    {
        if index == 0 {
            Some(AuthSystem::Django)
        } else if index == 1 {
            Some(AuthSystem::JWT)
        } else if index == 2 {
            Some(AuthSystem::OAuth)
        } else {
            None
        }
    }
}

impl PackageManager {
    /// The name under which this package manager is shown.
    pub fn to_string(&self) -> (r: String)
        ensures
            r@ == package_manager_name(*self),
    {
        match self {
            PackageManager::Venv => String::from_str("Venv"),
            PackageManager::Poetry => String::from_str("Poetry"),
            PackageManager::Unmanaged => String::from_str("None"),
        }
    }

    /// The package manager at the given place in the list of choices:
    /// `Venv`, `Poetry`, `None`.
    pub fn from_index(index: usize) -> (r: Option<PackageManager>)
        ensures
            index == 0 ==> r == Some(PackageManager::Venv),
            index == 1 ==> r == Some(PackageManager::Poetry),
            index == 2 ==> r == Some(PackageManager::Unmanaged),
            index > 2 ==> r is None,
    {
        if index == 0 {
            Some(PackageManager::Venv)
        } else if index == 1 {
            Some(PackageManager::Poetry)
        } else if index == 2 {
            Some(PackageManager::Unmanaged)
        } else {
            None
        }
    }
}

impl AdditionalOption {
    /// The name under which this option is shown.
    pub fn to_string(&self) -> (r: String)
        ensures
            r@ == additional_option_name(*self),
    {
        match self {
            AdditionalOption::Git => String::from_str("Git"),
            AdditionalOption::Docker => String::from_str("Docker"),
            AdditionalOption::Readme => String::from_str("Readme"),
        }
    }

    /// The option at the given place in the list of choices: `Git`,
    /// `Docker`, `Readme`.
    pub fn from_index(index: usize) -> (r: Option<AdditionalOption>)
        ensures
            index == 0 ==> r == Some(AdditionalOption::Git),
            index == 1 ==> r == Some(AdditionalOption::Docker),
            index == 2 ==> r == Some(AdditionalOption::Readme),
            index > 2 ==> r is None,
    {
        if index == 0 {
            Some(AdditionalOption::Git)
        } else if index == 1 {
            Some(AdditionalOption::Docker)
        } else if index == 2 {
            Some(AdditionalOption::Readme)
        } else {
            None
        }
    }
}

impl ProjectOptions {
    /// Whether the given extra was chosen.
    pub fn has_option(&self, option: AdditionalOption) -> (r: bool)
        ensures
            r == self.additional_options@.contains(option),
    {
        let mut i: usize = 0;
        while i < self.additional_options.len()
            invariant
                i <= self.additional_options.len(),
                forall|j: int| 0 <= j < i ==> self.additional_options@[j] != option,
            decreases self.additional_options.len() - i,
        {
            if self.additional_options[i] == option {
                return true;
            }
            i = i + 1;
        }
        false
    }
}

} // verus!

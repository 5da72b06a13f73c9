//! Core type definitions shared by all technology stacks.

use vstd::prelude::*;
use crate::text::{chars_of, contains, lowercase, str_contains, str_eq, to_lowercase};

verus! {

/// Severity of an issue.
#[derive(Debug, Clone, Copy, PartialEq, Eq, Hash, Structural)]
pub enum IssueLevel {
    Error,
    Warning,
    Info,
    Hint,
}

/// The lower-case name of a level, as reports print it.
pub open spec fn level_name(l: IssueLevel) -> Seq<char> {
    match l {
        IssueLevel::Error => "error"@,
        IssueLevel::Warning => "warning"@,
        IssueLevel::Info => "info"@,
        IssueLevel::Hint => "hint"@,
    }
}

impl IssueLevel {
    /// The lower-case name of the level.
    pub fn as_str(&self) -> (r: &'static str)
        ensures
            r@ == level_name(*self),
    {
        match self {
            IssueLevel::Error => "error",
            IssueLevel::Warning => "warning",
            IssueLevel::Info => "info",
            IssueLevel::Hint => "hint",
        }
    }

    /// The lower-case name of the level, owned.
    pub fn to_string(&self) -> (r: String)
        ensures
            r@ == level_name(*self),
    {
        String::from_str(self.as_str())
    }
}

/// The view of an optional string.
pub open spec fn ostr(o: Option<String>) -> Option<Seq<char>> {
    crate::pattern::opt_view(o)
}

/// Copies an optional string.
pub fn copy_opt(o: &Option<String>) -> (r: Option<String>)
    ensures
        r == *o,
{
    match o {
        Some(s) => Some(s.clone()),
        None => None,
    }
}

/// Where an issue was reported.
#[derive(Debug, Clone)]
pub struct Location {
    pub file_path: String,
    pub line_number: Option<u32>,
    pub column_number: Option<u32>,
}

impl Location {
    /// A location in `file_path`, without line or column.
    pub fn new(file_path: &str) -> (r: Location)
        ensures
            r.file_path@ == file_path@,
            r.line_number is None,
            r.column_number is None,
    {
        Location { file_path: String::from_str(file_path), line_number: None, column_number: None }
    }

    /// The same location with the given line.
    pub fn with_line(self, line: u32) -> (r: Location)
        ensures
            r.file_path == self.file_path,
            r.line_number == Some(line),
            r.column_number == self.column_number,
    {
        Location { line_number: Some(line), ..self }
    }

    /// The same location with the given column.
    pub fn with_column(self, column: u32) -> (r: Location)
        ensures
            r.file_path == self.file_path,
            r.line_number == self.line_number,
            r.column_number == Some(column),
    {
        Location { column_number: Some(column), ..self }
    }

    /// An equal copy of the location.
    pub fn copy(&self) -> (r: Location)
        ensures
            r == *self,
    {
        Location {
            file_path: self.file_path.clone(),
            line_number: self.line_number,
            column_number: self.column_number,
        }
    }
}

/// One problem reported by a build tool.
#[derive(Debug, Clone)]
pub struct Issue {
    pub level: IssueLevel,
    pub code: Option<String>,
    pub message: String,
    pub location: Location,
    pub context: Option<String>,
    /// Package name (monorepo / workspace support).
    pub package: Option<String>,
}

impl Issue {
    /// An issue with the given level, message and location, and no code,
    /// context or package.
    pub fn new(level: IssueLevel, message: &str, location: Location) -> (r: Issue)
        ensures
            r.level == level,
            r.message@ == message@,
            r.location == location,
            r.code is None,
            r.context is None,
            r.package is None,
    {
        Issue { level, code: None, message: String::from_str(message), location, context: None, package: None }
    }

    /// The same issue with the given code.
    pub fn with_code(self, code: &str) -> (r: Issue)
        ensures
            r.code is Some && r.code->0@ == code@,
            r.level == self.level && r.message == self.message && r.location == self.location,
            r.context == self.context && r.package == self.package,
    {
        Issue { code: Some(String::from_str(code)), ..self }
    }

    /// The same issue with the given context.
    pub fn with_context(self, context: &str) -> (r: Issue)
        ensures
            r.context is Some && r.context->0@ == context@,
            r.level == self.level && r.message == self.message && r.location == self.location,
            r.code == self.code && r.package == self.package,
    {
        Issue { context: Some(String::from_str(context)), ..self }
    }

    /// The same issue with the given package.
    pub fn with_package(self, package: &str) -> (r: Issue)
        ensures
            r.package is Some && r.package->0@ == package@,
            r.level == self.level && r.message == self.message && r.location == self.location,
            r.code == self.code && r.context == self.context,
    {
        Issue { package: Some(String::from_str(package)), ..self }
    }

    /// An equal copy of the issue.
    pub fn copy(&self) -> (r: Issue)
        ensures
            r == *self,
    {
        Issue {
            level: self.level,
            code: copy_opt(&self.code),
            message: self.message.clone(),
            location: self.location.copy(),
            context: copy_opt(&self.context),
            package: copy_opt(&self.package),
        }
    }
}

/// Technology stack.
#[derive(Debug, Clone, Copy, PartialEq, Eq, Structural)]
pub enum TechStack {
    Cargo,
    Nextest,
    Maven,
    Gradle,
    Npm,
    Pnpm,
    Yarn,
    Mypy,
    Pytest,
    GoBuild,
    GolangciLint,
    Dotnet,
    Rubocop,
    Rspec,
    Ruff,
    Black,
    CMake,
    Gcc,
    Clang,
    ClangFormat,
    Msvc,
}

/// The canonical name of a technology stack.
pub open spec fn stack_name(t: TechStack) -> Seq<char> {
    match t {
        TechStack::Cargo => "cargo"@,
        TechStack::Nextest => "cargo-nextest"@,
        TechStack::Maven => "maven"@,
        TechStack::Gradle => "gradle"@,
        TechStack::Npm => "npm"@,
        TechStack::Pnpm => "pnpm"@,
        TechStack::Yarn => "yarn"@,
        TechStack::Mypy => "mypy"@,
        TechStack::Pytest => "pytest"@,
        TechStack::GoBuild => "go"@,
        TechStack::GolangciLint => "golangci-lint"@,
        TechStack::Dotnet => "dotnet"@,
        TechStack::Rubocop => "rubocop"@,
        TechStack::Rspec => "rspec"@,
        TechStack::Ruff => "ruff"@,
        TechStack::Black => "black"@,
        TechStack::CMake => "cmake"@,
        TechStack::Gcc => "gcc"@,
        TechStack::Clang => "clang"@,
        TechStack::ClangFormat => "clang-format"@,
        TechStack::Msvc => "msvc"@,
    }
}

/// The technology stack that a lower-case name or alias denotes.
pub open spec fn stack_named(l: Seq<char>) -> Option<TechStack> {
    if l == "cargo"@ || l == "rust"@ { Some(TechStack::Cargo) }
    else if l == "cargo-nextest"@ || l == "nextest"@ { Some(TechStack::Nextest) }
    else if l == "maven"@ || l == "mvn"@ { Some(TechStack::Maven) }
    else if l == "gradle"@ || l == "gradlew"@ { Some(TechStack::Gradle) }
    else if l == "npm"@ || l == "node"@ { Some(TechStack::Npm) }
    else if l == "pnpm"@ { Some(TechStack::Pnpm) }
    else if l == "yarn"@ { Some(TechStack::Yarn) }
    else if l == "mypy"@ { Some(TechStack::Mypy) }
    else if l == "pytest"@ || l == "py.test"@ { Some(TechStack::Pytest) }
    else if l == "go"@ || l == "golang"@ { Some(TechStack::GoBuild) }
    else if l == "golangci-lint"@ { Some(TechStack::GolangciLint) }
    else if l == "dotnet"@ || l == "msbuild"@ || l == "csharp"@ { Some(TechStack::Dotnet) }
    else if l == "rubocop"@ || l == "ruby"@ || l == "rails"@ { Some(TechStack::Rubocop) }
    else if l == "rspec"@ { Some(TechStack::Rspec) }
    else if l == "ruff"@ || l == "python-lint"@ { Some(TechStack::Ruff) }
    else if l == "black"@ { Some(TechStack::Black) }
    else if l == "cmake"@ || l == "cmake-build"@ { Some(TechStack::CMake) }
    else if l == "gcc"@ || l == "g++"@ { Some(TechStack::Gcc) }
    else if l == "clang"@ || l == "clang++"@ { Some(TechStack::Clang) }
    else if l == "clang-format"@ { Some(TechStack::ClangFormat) }
    else if l == "msvc"@ || l == "cl"@ { Some(TechStack::Msvc) }
    else { None }
}

/// The files that show a project of the stack: one of them must be present
/// (none are asked of stacks not listed).
pub open spec fn required_files_of(t: TechStack) -> Seq<Seq<char>> {
    match t {
        TechStack::Cargo => seq!["Cargo.toml"@],
        TechStack::Maven => seq!["pom.xml"@],
        TechStack::Gradle => seq!["build.gradle"@, "build.gradle.kts"@],
        TechStack::Npm | TechStack::Pnpm | TechStack::Yarn => seq!["package.json"@],
        _ => seq![],
    }
}

/// The files that show a project of the stack (see `required_files_of`).
pub fn required_files(t: TechStack) -> (r: Vec<&'static str>)
    ensures
        r@.map_values(|s: &'static str| s@) == required_files_of(t),
{
    let mut v: Vec<&'static str> = Vec::new();
    match t {
        TechStack::Cargo => v.push("Cargo.toml"),
        TechStack::Maven => v.push("pom.xml"),
        TechStack::Gradle => {
            v.push("build.gradle");
            v.push("build.gradle.kts");
        },
        TechStack::Npm | TechStack::Pnpm | TechStack::Yarn => v.push("package.json"),
        _ => {},
    }
    assert(v@.map_values(|s: &'static str| s@) =~= required_files_of(t));
    v
}

/// Whether a project fits the stack, given for each of its required files
/// (in order) whether it is present: when none is required, or one is there.
pub fn project_fits(t: TechStack, present: &Vec<bool>) -> (r: bool)
    requires
        present@.len() == required_files_of(t).len(),
    ensures
        r == (required_files_of(t).len() == 0 || present@.contains(true)),
{
    if present.len() == 0 {
        return true;
    }
    let mut i: usize = 0;
    while i < present.len()
        invariant
            i <= present@.len(),
            forall|j: int| 0 <= j < i ==> !present@[j],
        decreases present@.len() - i,
    {
        if present[i] {
            assert(present@[i as int] == true);
            return true;
        }
        i += 1;
    }
    false
}

/// The canonical name of a stack, lower-cased, names that stack again:
/// parsing `as_str` gives back the stack.
pub proof fn lemma_stack_name_round_trip(t: TechStack)
    ensures
        stack_named(lowercase(stack_name(t))) == Some(t),
{
    reveal_strlit("cargo");
    reveal_strlit("rust");
    reveal_strlit("cargo-nextest");
    reveal_strlit("nextest");
    reveal_strlit("maven");
    reveal_strlit("mvn");
    reveal_strlit("gradle");
    reveal_strlit("gradlew");
    reveal_strlit("npm");
    reveal_strlit("node");
    reveal_strlit("pnpm");
    reveal_strlit("yarn");
    reveal_strlit("mypy");
    reveal_strlit("pytest");
    reveal_strlit("py.test");
    reveal_strlit("go");
    reveal_strlit("golang");
    reveal_strlit("golangci-lint");
    reveal_strlit("dotnet");
    reveal_strlit("msbuild");
    reveal_strlit("csharp");
    reveal_strlit("rubocop");
    reveal_strlit("ruby");
    reveal_strlit("rails");
    reveal_strlit("rspec");
    reveal_strlit("ruff");
    reveal_strlit("python-lint");
    reveal_strlit("black");
    reveal_strlit("cmake");
    reveal_strlit("cmake-build");
    reveal_strlit("gcc");
    reveal_strlit("g++");
    reveal_strlit("clang");
    reveal_strlit("clang++");
    reveal_strlit("clang-format");
    reveal_strlit("msvc");
    reveal_strlit("cl");
    let n = stack_name(t);
    assert forall|i: int| 0 <= i < n.len() implies (#[trigger] n[i]) as u32 <= 0x7f && !('A' <= n[i] && n[i] <= 'Z') by {}
    crate::text::lemma_lowercase_fixed(n);
    match t {
        TechStack::Cargo => { assert(stack_named(n) == Some(TechStack::Cargo)); },
        TechStack::Nextest => { assert(stack_named(n) == Some(TechStack::Nextest)); },
        TechStack::Maven => {
            assert(n[0] != "cargo"@[0]);
            assert(stack_named(n) == Some(TechStack::Maven));
        },
        TechStack::Gradle => { assert(stack_named(n) == Some(TechStack::Gradle)); },
        TechStack::Npm => {
            assert(n[0] != "mvn"@[0]);
            assert(stack_named(n) == Some(TechStack::Npm));
        },
        TechStack::Pnpm => {
            assert(n[0] != "rust"@[0]);
            assert(n[0] != "node"@[0]);
            assert(stack_named(n) == Some(TechStack::Pnpm));
        },
        TechStack::Yarn => {
            assert(n[0] != "rust"@[0]);
            assert(n[0] != "node"@[0]);
            assert(n[0] != "pnpm"@[0]);
            assert(stack_named(n) == Some(TechStack::Yarn));
        },
        TechStack::Mypy => {
            assert(n[0] != "rust"@[0]);
            assert(n[0] != "node"@[0]);
            assert(n[0] != "pnpm"@[0]);
            assert(n[0] != "yarn"@[0]);
            assert(stack_named(n) == Some(TechStack::Mypy));
        },
        TechStack::Pytest => {
            assert(n[0] != "gradle"@[0]);
            assert(stack_named(n) == Some(TechStack::Pytest));
        },
        TechStack::GoBuild => { assert(stack_named(n) == Some(TechStack::GoBuild)); },
        TechStack::GolangciLint => {
            assert(n[0] != "cargo-nextest"@[0]);
            assert(stack_named(n) == Some(TechStack::GolangciLint));
        },
        TechStack::Dotnet => {
            assert(n[0] != "gradle"@[0]);
            assert(n[0] != "pytest"@[0]);
            assert(n[0] != "golang"@[0]);
            assert(stack_named(n) == Some(TechStack::Dotnet));
        },
        TechStack::Rubocop => {
            assert(n[0] != "nextest"@[0]);
            assert(n[0] != "gradlew"@[0]);
            assert(n[0] != "py.test"@[0]);
            assert(n[0] != "msbuild"@[0]);
            assert(stack_named(n) == Some(TechStack::Rubocop));
        },
        TechStack::Rspec => {
            assert(n[0] != "cargo"@[0]);
            assert(n[0] != "maven"@[0]);
            assert(n[1] != "rails"@[1]);
            assert(stack_named(n) == Some(TechStack::Rspec));
        },
        TechStack::Ruff => {
            assert(n[2] != "rust"@[2]);
            assert(n[0] != "node"@[0]);
            assert(n[0] != "pnpm"@[0]);
            assert(n[0] != "yarn"@[0]);
            assert(n[0] != "mypy"@[0]);
            assert(n[2] != "ruby"@[2]);
            assert(stack_named(n) == Some(TechStack::Ruff));
        },
        TechStack::Black => {
            assert(n[0] != "cargo"@[0]);
            assert(n[0] != "maven"@[0]);
            assert(n[0] != "rails"@[0]);
            assert(n[0] != "rspec"@[0]);
            assert(stack_named(n) == Some(TechStack::Black));
        },
        TechStack::CMake => {
            assert(n[1] != "cargo"@[1]);
            assert(n[0] != "maven"@[0]);
            assert(n[0] != "rails"@[0]);
            assert(n[0] != "rspec"@[0]);
            assert(n[0] != "black"@[0]);
            assert(stack_named(n) == Some(TechStack::CMake));
        },
        TechStack::Gcc => {
            assert(n[0] != "mvn"@[0]);
            assert(n[0] != "npm"@[0]);
            assert(stack_named(n) == Some(TechStack::Gcc));
        },
        TechStack::Clang => {
            assert(n[1] != "cargo"@[1]);
            assert(n[0] != "maven"@[0]);
            assert(n[0] != "rails"@[0]);
            assert(n[0] != "rspec"@[0]);
            assert(n[0] != "black"@[0]);
            assert(n[1] != "cmake"@[1]);
            assert(stack_named(n) == Some(TechStack::Clang));
        },
        TechStack::ClangFormat => { assert(stack_named(n) == Some(TechStack::ClangFormat)); },
        TechStack::Msvc => {
            assert(n[0] != "rust"@[0]);
            assert(n[0] != "node"@[0]);
            assert(n[0] != "pnpm"@[0]);
            assert(n[0] != "yarn"@[0]);
            assert(n[1] != "mypy"@[1]);
            assert(n[0] != "ruby"@[0]);
            assert(n[0] != "ruff"@[0]);
            assert(stack_named(n) == Some(TechStack::Msvc));
        },
    }
}

impl TechStack {
    /// The canonical name of the stack.
    pub fn as_str(&self) -> (r: &'static str)
        ensures
            r@ == stack_name(*self),
    {
        match self {
            TechStack::Cargo => "cargo",
            TechStack::Nextest => "cargo-nextest",
            TechStack::Maven => "maven",
            TechStack::Gradle => "gradle",
            TechStack::Npm => "npm",
            TechStack::Pnpm => "pnpm",
            TechStack::Yarn => "yarn",
            TechStack::Mypy => "mypy",
            TechStack::Pytest => "pytest",
            TechStack::GoBuild => "go",
            TechStack::GolangciLint => "golangci-lint",
            TechStack::Dotnet => "dotnet",
            TechStack::Rubocop => "rubocop",
            TechStack::Rspec => "rspec",
            TechStack::Ruff => "ruff",
            TechStack::Black => "black",
            TechStack::CMake => "cmake",
            TechStack::Gcc => "gcc",
            TechStack::Clang => "clang",
            TechStack::ClangFormat => "clang-format",
            TechStack::Msvc => "msvc",
        }
    }

    /// True for the stacks that have a default command and can run from
    /// build options alone (the C++ analyzers).
    pub fn allows_default_command(&self) -> (r: bool)
        ensures
            r == (*self == TechStack::CMake || *self == TechStack::Gcc || *self == TechStack::Clang
                || *self == TechStack::ClangFormat || *self == TechStack::Msvc),
    {
        match self {
            TechStack::CMake | TechStack::Gcc | TechStack::Clang | TechStack::ClangFormat
            | TechStack::Msvc => true,
            _ => false,
        }
    }

    /// Parses a stack name or alias, ignoring case.
    /// Unknown names give `Unknown tech stack: <name>`.
    pub fn parse_name(s: &str) -> (r: Result<TechStack, String>)
        ensures
            match stack_named(lowercase(s@)) {
                Some(t) => r == Ok::<TechStack, String>(t),
                None => r is Err && r->Err_0@ == "Unknown tech stack: "@ + s@,
            },
    {
        let l = to_lowercase(s);
        let l = l.as_str();
        if str_eq(l, "cargo") || str_eq(l, "rust") { Ok(TechStack::Cargo) }
        else if str_eq(l, "cargo-nextest") || str_eq(l, "nextest") { Ok(TechStack::Nextest) }
        else if str_eq(l, "maven") || str_eq(l, "mvn") { Ok(TechStack::Maven) }
        else if str_eq(l, "gradle") || str_eq(l, "gradlew") { Ok(TechStack::Gradle) }
        else if str_eq(l, "npm") || str_eq(l, "node") { Ok(TechStack::Npm) }
        else if str_eq(l, "pnpm") { Ok(TechStack::Pnpm) }
        else if str_eq(l, "yarn") { Ok(TechStack::Yarn) }
        else if str_eq(l, "mypy") { Ok(TechStack::Mypy) }
        else if str_eq(l, "pytest") || str_eq(l, "py.test") { Ok(TechStack::Pytest) }
        else if str_eq(l, "go") || str_eq(l, "golang") { Ok(TechStack::GoBuild) }
        else if str_eq(l, "golangci-lint") { Ok(TechStack::GolangciLint) }
        else if str_eq(l, "dotnet") || str_eq(l, "msbuild") || str_eq(l, "csharp") { Ok(TechStack::Dotnet) }
        else if str_eq(l, "rubocop") || str_eq(l, "ruby") || str_eq(l, "rails") { Ok(TechStack::Rubocop) }
        else if str_eq(l, "rspec") { Ok(TechStack::Rspec) }
        else if str_eq(l, "ruff") || str_eq(l, "python-lint") { Ok(TechStack::Ruff) }
        else if str_eq(l, "black") { Ok(TechStack::Black) }
        else if str_eq(l, "cmake") || str_eq(l, "cmake-build") { Ok(TechStack::CMake) }
        else if str_eq(l, "gcc") || str_eq(l, "g++") { Ok(TechStack::Gcc) }
        else if str_eq(l, "clang") || str_eq(l, "clang++") { Ok(TechStack::Clang) }
        else if str_eq(l, "clang-format") { Ok(TechStack::ClangFormat) }
        else if str_eq(l, "msvc") || str_eq(l, "cl") { Ok(TechStack::Msvc) }
        else {
            let mut msg = String::from_str("Unknown tech stack: ");
            msg.append(s);
            Err(msg)
        }
    }
}

impl std::str::FromStr for TechStack {
    type Err = String;

    fn from_str(s: &str) -> (r: Result<Self, Self::Err>)
        ensures
            match stack_named(lowercase(s@)) {
                Some(t) => r == Ok::<TechStack, String>(t),
                None => r is Err && r->Err_0@ == "Unknown tech stack: "@ + s@,
            },
    {
        TechStack::parse_name(s)
    }
}

/// Command category for grouping and organisation.
#[derive(Debug, Clone, Copy, PartialEq, Eq, Structural)]
pub enum CommandCategory {
    Check,
    Lint,
    Test,
    Audit,
    Build,
    Format,
    Custom,
}

/// The category of a command, from words it contains (case ignored).
pub open spec fn category_of(s: Seq<char>) -> CommandCategory {
    let l = lowercase(s);
    if contains(l, "check"@) || contains(l, "type"@) { CommandCategory::Check }
    else if contains(l, "lint"@) || contains(l, "clippy"@) { CommandCategory::Lint }
    else if contains(l, "test"@) { CommandCategory::Test }
    else if contains(l, "audit"@) { CommandCategory::Audit }
    else if contains(l, "build"@) || contains(l, "compile"@) { CommandCategory::Build }
    else if contains(l, "fmt"@) || contains(l, "format"@) { CommandCategory::Format }
    else { CommandCategory::Custom }
}

/// A subcommand: the full command text after the stack name.
#[derive(Debug, Clone, PartialEq, Eq)]
pub struct SubCommand(pub String);

impl SubCommand {
    /// A subcommand holding `s`.
    pub fn new(s: &str) -> (r: SubCommand)
        ensures
            r.0@ == s@,
    {
        SubCommand(String::from_str(s))
    }

    /// The command text.
    pub fn as_str(&self) -> (r: &str)
        ensures
            r@ == self.0@,
    {
        self.0.as_str()
    }

    /// The category of the command, from the words it contains.
    pub fn category(&self) -> (r: CommandCategory)
        ensures
            r == category_of(self.0@),
    {
        let l = to_lowercase(self.0.as_str());
        let l = l.as_str();
        if str_contains(l, "check") || str_contains(l, "type") {
            CommandCategory::Check
        } else if str_contains(l, "lint") || str_contains(l, "clippy") {
            CommandCategory::Lint
        } else if str_contains(l, "test") {
            CommandCategory::Test
        } else if str_contains(l, "audit") {
            CommandCategory::Audit
        } else if str_contains(l, "build") || str_contains(l, "compile") {
            CommandCategory::Build
        } else if str_contains(l, "fmt") || str_contains(l, "format") {
            CommandCategory::Format
        } else {
            CommandCategory::Custom
        }
    }

    /// True when the category is `Custom`.
    pub fn is_custom(&self) -> (r: bool)
        ensures
            r == (category_of(self.0@) == CommandCategory::Custom),
    {
        let c = self.category();
        c == CommandCategory::Custom
    }

    /// Parses a subcommand: any text that is not blank.
    pub fn parse_text(s: &str) -> (r: Result<SubCommand, String>)
        ensures
            crate::text::trim(s@).len() == 0 ==> r is Err && r->Err_0@ == "Subcommand cannot be empty"@,
            crate::text::trim(s@).len() > 0 ==> r is Ok && r->Ok_0.0@ == s@,
    {
        let t = crate::text::trim_str(s);
        if t.as_str().is_empty() {
            Err(String::from_str("Subcommand cannot be empty"))
        } else {
            Ok(SubCommand(String::from_str(s)))
        }
    }
}

impl std::str::FromStr for SubCommand {
    type Err = String;

    fn from_str(s: &str) -> (r: Result<Self, Self::Err>)
        ensures
            crate::text::trim(s@).len() == 0 ==> r is Err && r->Err_0@ == "Subcommand cannot be empty"@,
            crate::text::trim(s@).len() > 0 ==> r is Ok && r->Ok_0.0@ == s@,
    {
        SubCommand::parse_text(s)
    }
}

/// Verbosity of report output.
#[derive(Debug, Clone, Copy, PartialEq, Eq, Structural)]
pub enum Verbosity {
    /// Summary only.
    Minimal,
    /// Summary and top issues.
    Normal,
    /// Full details, no truncation.
    Verbose,
}

impl Verbosity {
    pub fn is_minimal(&self) -> (r: bool)
        ensures
            r == (*self == Verbosity::Minimal),
    {
        match self {
            Verbosity::Minimal => true,
            _ => false,
        }
    }

    pub fn is_verbose(&self) -> (r: bool)
        ensures
            r == (*self == Verbosity::Verbose),
    {
        match self {
            Verbosity::Verbose => true,
            _ => false,
        }
    }
}

impl Default for Verbosity {
    fn default() -> (r: Verbosity)
        ensures
            r == Verbosity::Normal,
    {
        Verbosity::Normal
    }
}

/// Report output format.
#[derive(Debug, Clone, Copy, PartialEq, Eq, Structural)]
pub enum ReportFormat {
    Markdown,
    Json,
    Html,
    /// Pipe-delimited raw text.
    Raw,
    /// JSON lines.
    RawJson,
}

/// The report format that a lower-case format name denotes.
pub open spec fn format_named(l: Seq<char>) -> Option<ReportFormat> {
    if l == "markdown"@ || l == "md"@ { Some(ReportFormat::Markdown) }
    else if l == "json"@ { Some(ReportFormat::Json) }
    else if l == "html"@ { Some(ReportFormat::Html) }
    else if l == "raw"@ { Some(ReportFormat::Raw) }
    else if l == "raw-json"@ || l == "raw_json"@ { Some(ReportFormat::RawJson) }
    else { None }
}

impl ReportFormat {
    /// The file extension of the format, without the dot.
    pub fn extension(&self) -> (r: &'static str)
        ensures
            r@ == match *self {
                ReportFormat::Markdown => "md"@,
                ReportFormat::Json => "json"@,
                ReportFormat::Html => "html"@,
                ReportFormat::Raw => "txt"@,
                ReportFormat::RawJson => "jsonl"@,
            },
    {
        match self {
            ReportFormat::Markdown => "md",
            ReportFormat::Json => "json",
            ReportFormat::Html => "html",
            ReportFormat::Raw => "txt",
            ReportFormat::RawJson => "jsonl",
        }
    }

    /// True for the two raw formats.
    pub fn is_raw(&self) -> (r: bool)
        ensures
            r == (*self == ReportFormat::Raw || *self == ReportFormat::RawJson),
    {
        match self {
            ReportFormat::Raw | ReportFormat::RawJson => true,
            _ => false,
        }
    }

    /// Parses a format name, ignoring case.
    /// Unknown names give `Unknown report format: <name>`.
    pub fn parse_name(s: &str) -> (r: Result<ReportFormat, String>)
        ensures
            match format_named(lowercase(s@)) {
                Some(f) => r == Ok::<ReportFormat, String>(f),
                None => r is Err && r->Err_0@ == "Unknown report format: "@ + s@,
            },
    {
        let l = to_lowercase(s);
        let l = l.as_str();
        if str_eq(l, "markdown") || str_eq(l, "md") { Ok(ReportFormat::Markdown) }
        else if str_eq(l, "json") { Ok(ReportFormat::Json) }
        else if str_eq(l, "html") { Ok(ReportFormat::Html) }
        else if str_eq(l, "raw") { Ok(ReportFormat::Raw) }
        else if str_eq(l, "raw-json") || str_eq(l, "raw_json") { Ok(ReportFormat::RawJson) }
        else {
            let mut msg = String::from_str("Unknown report format: ");
            msg.append(s);
            Err(msg)
        }
    }
}

impl Default for ReportFormat {
    fn default() -> (r: ReportFormat)
        ensures
            r == ReportFormat::Markdown,
    {
        ReportFormat::Markdown
    }
}

impl std::str::FromStr for ReportFormat {
    type Err = String;

    fn from_str(s: &str) -> (r: Result<Self, Self::Err>)
        ensures
            match format_named(lowercase(s@)) {
                Some(f) => r == Ok::<ReportFormat, String>(f),
                None => r is Err && r->Err_0@ == "Unknown report format: "@ + s@,
            },
    {
        ReportFormat::parse_name(s)
    }
}

} // verus!

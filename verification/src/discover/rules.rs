//! The command rule table used to classify raw shell commands.
//!
//! Each rule maps a command pattern to a technology stack and a subcommand
//! template. Patterns are regular expressions matched without regard to case;
//! the template refers to capture groups as `{1}`, `{2}`, … and to the whole
//! match as `{0}`. Rules are tried in order and the first match wins; the
//! table is the concatenation of the rule sets, specific sets first and the
//! broad fallback set last.

use vstd::prelude::*;
use crate::analysis::types::TechStack;
use crate::text::str_eq;

verus! {

/// A command classification rule.
#[derive(Debug, Clone, Copy)]
pub struct CommandRule {
    /// Regular expression matched against the raw command (case ignored).
    pub pattern: &'static str,
    /// Target technology stack.
    pub tech_stack: TechStack,
    /// Subcommand template with capture references `{0}`, `{1}`, …
    pub subcommand_template: &'static str,
    /// Known command prefixes, for display and suggestions.
    pub prefixes: &'static [&'static str],
    /// Category label.
    pub category: &'static str,
}

/// The mathematical content of a rule.
#[verifier::ext_equal]
pub struct RuleSpec {
    pub pattern: Seq<char>,
    pub tech_stack: TechStack,
    pub template: Seq<char>,
    pub prefixes: Seq<Seq<char>>,
    pub category: Seq<char>,
}

/// The views of a sequence of string slices.
pub open spec fn str_views(s: Seq<&'static str>) -> Seq<Seq<char>> {
    s.map_values(|x: &'static str| x@)
}

impl CommandRule {
    pub open spec fn spec(self) -> RuleSpec {
        RuleSpec {
            pattern: self.pattern@,
            tech_stack: self.tech_stack,
            template: self.subcommand_template@,
            prefixes: str_views(self.prefixes@),
            category: self.category@,
        }
    }
}

/// The specs of a sequence of rules.
pub open spec fn rule_specs(s: Seq<CommandRule>) -> Seq<RuleSpec> {
    s.map_values(|r: CommandRule| r.spec())
}

/// A named group of rules.
#[derive(Debug, Clone, Copy)]
pub struct RuleSet {
    /// Category label shared by the rules of the set.
    pub category: &'static str,
    /// The rules, tried in order.
    pub rules: &'static [CommandRule],
}

impl RuleSet {
    /// A rule set with the given category and rules.
    pub fn new(category: &'static str, rules: &'static [CommandRule]) -> (r: RuleSet)
        ensures
            r.category == category,
            r.rules == rules,
    {
        RuleSet { category, rules }
    }

    /// Number of rules in the set.
    pub fn len(&self) -> (r: usize)
        ensures
            r == self.rules@.len(),
    {
        self.rules.len()
    }

    /// True when the set has no rules.
    pub fn is_empty(&self) -> (r: bool)
        ensures
            r == (self.rules@.len() == 0),
    {
        self.rules.len() == 0
    }

    /// The rules of the set, in order.
    pub fn iter(&self) -> (r: Vec<CommandRule>)
        ensures
            r@ == self.rules@,
    {
        let mut v: Vec<CommandRule> = Vec::new();
        let mut i: usize = 0;
        while i < self.rules.len()
            invariant
                i <= self.rules@.len(),
                v@ == self.rules@.take(i as int),
            decreases self.rules@.len() - i,
        {
            v.push(self.rules[i]);
            assert(self.rules@.take(i + 1) =~= self.rules@.take(i as int).push(self.rules@[i as int]));
            i += 1;
        }
        assert(self.rules@.take(self.rules@.len() as int) =~= self.rules@);
        v
    }
}

/// The Rust rules.
pub open spec fn spec_rust_rules() -> Seq<RuleSpec> {
    seq![
        RuleSpec { pattern: r"^cargo\s+(check|clippy|test|build|fmt)"@, tech_stack: TechStack::Cargo, template: "{1}"@, prefixes: seq!["cargo"@], category: "Rust"@ },
        RuleSpec { pattern: r"^cargo\s+nextest\s+(run|list|archive)\b"@, tech_stack: TechStack::Cargo, template: "nextest {1}"@, prefixes: seq!["cargo"@], category: "Rust"@ },
    ]
}

/// The Rust rules.
pub fn rust_rules() -> (r: &'static [CommandRule])
    ensures
        rule_specs(r@) =~~= spec_rust_rules(),
{
    let a: &'static [CommandRule; 2] = &[
        CommandRule { pattern: r"^cargo\s+(check|clippy|test|build|fmt)", tech_stack: TechStack::Cargo, subcommand_template: "{1}", prefixes: &["cargo"], category: "Rust" },
        CommandRule { pattern: r"^cargo\s+nextest\s+(run|list|archive)\b", tech_stack: TechStack::Cargo, subcommand_template: "nextest {1}", prefixes: &["cargo"], category: "Rust" },
    ];
    proof {
        assert(a@[0].spec() =~~= spec_rust_rules()[0]);
        assert(a@[1].spec() =~~= spec_rust_rules()[1]);
        assert(rule_specs(a@) =~~= spec_rust_rules());
    }
    a
}

/// The Node.js rules.
pub open spec fn spec_node_rules() -> Seq<RuleSpec> {
    seq![
        RuleSpec { pattern: r"^npm\s+(run\s+)?(lint|typecheck|audit|test)"@, tech_stack: TechStack::Npm, template: "run {2}"@, prefixes: seq!["npm"@], category: "Node.js"@ },
        RuleSpec { pattern: r"^pnpm\s+(?:\S+\s+)*(?:run\s+)?(lint|typecheck|audit|test|exec\s+tsc)"@, tech_stack: TechStack::Pnpm, template: "{1}"@, prefixes: seq!["pnpm"@], category: "Node.js"@ },
        RuleSpec { pattern: r"^yarn\s+(run\s+)?(lint|typecheck|audit|test)"@, tech_stack: TechStack::Yarn, template: "run {2}"@, prefixes: seq!["yarn"@], category: "Node.js"@ },
    ]
}

/// The Node.js rules.
pub fn node_rules() -> (r: &'static [CommandRule])
    ensures
        rule_specs(r@) =~~= spec_node_rules(),
{
    let a: &'static [CommandRule; 3] = &[
        CommandRule { pattern: r"^npm\s+(run\s+)?(lint|typecheck|audit|test)", tech_stack: TechStack::Npm, subcommand_template: "run {2}", prefixes: &["npm"], category: "Node.js" },
        CommandRule { pattern: r"^pnpm\s+(?:\S+\s+)*(?:run\s+)?(lint|typecheck|audit|test|exec\s+tsc)", tech_stack: TechStack::Pnpm, subcommand_template: "{1}", prefixes: &["pnpm"], category: "Node.js" },
        CommandRule { pattern: r"^yarn\s+(run\s+)?(lint|typecheck|audit|test)", tech_stack: TechStack::Yarn, subcommand_template: "run {2}", prefixes: &["yarn"], category: "Node.js" },
    ];
    proof {
        assert(a@[0].spec() =~~= spec_node_rules()[0]);
        assert(a@[1].spec() =~~= spec_node_rules()[1]);
        assert(a@[2].spec() =~~= spec_node_rules()[2]);
        assert(rule_specs(a@) =~~= spec_node_rules());
    }
    a
}

/// The Python rules.
pub open spec fn spec_python_rules() -> Seq<RuleSpec> {
    seq![
        RuleSpec { pattern: r"^mypy\b\s*(.*)$"@, tech_stack: TechStack::Mypy, template: "{1}"@, prefixes: seq!["mypy"@], category: "Python"@ },
        RuleSpec { pattern: r"^pytest\b\s*(.*)$"@, tech_stack: TechStack::Pytest, template: "{1}"@, prefixes: seq!["pytest"@], category: "Python"@ },
        RuleSpec { pattern: r"^ruff\s+(check|format)\b"@, tech_stack: TechStack::Ruff, template: "{1}"@, prefixes: seq!["ruff"@], category: "Python"@ },
        RuleSpec { pattern: r"^black\b\s*(.*)$"@, tech_stack: TechStack::Black, template: "{1}"@, prefixes: seq!["black"@], category: "Python"@ },
    ]
}

/// The Python rules.
pub fn python_rules() -> (r: &'static [CommandRule])
    ensures
        rule_specs(r@) =~~= spec_python_rules(),
{
    let a: &'static [CommandRule; 4] = &[
        CommandRule { pattern: r"^mypy\b\s*(.*)$", tech_stack: TechStack::Mypy, subcommand_template: "{1}", prefixes: &["mypy"], category: "Python" },
        CommandRule { pattern: r"^pytest\b\s*(.*)$", tech_stack: TechStack::Pytest, subcommand_template: "{1}", prefixes: &["pytest"], category: "Python" },
        CommandRule { pattern: r"^ruff\s+(check|format)\b", tech_stack: TechStack::Ruff, subcommand_template: "{1}", prefixes: &["ruff"], category: "Python" },
        CommandRule { pattern: r"^black\b\s*(.*)$", tech_stack: TechStack::Black, subcommand_template: "{1}", prefixes: &["black"], category: "Python" },
    ];
    proof {
        assert(a@[0].spec() =~~= spec_python_rules()[0]);
        assert(a@[1].spec() =~~= spec_python_rules()[1]);
        assert(a@[2].spec() =~~= spec_python_rules()[2]);
        assert(a@[3].spec() =~~= spec_python_rules()[3]);
        assert(rule_specs(a@) =~~= spec_python_rules());
    }
    a
}

/// The Go rules.
pub open spec fn spec_go_rules() -> Seq<RuleSpec> {
    seq![
        RuleSpec { pattern: r"^go\s+(build|test|vet|fmt)"@, tech_stack: TechStack::GoBuild, template: "{1}"@, prefixes: seq!["go"@], category: "Go"@ },
        RuleSpec { pattern: r"^gofmt\b"@, tech_stack: TechStack::GoBuild, template: "fmt"@, prefixes: seq!["gofmt"@], category: "Go"@ },
        RuleSpec { pattern: r"^golangci-lint\s+run\b"@, tech_stack: TechStack::GolangciLint, template: "run"@, prefixes: seq!["golangci-lint"@], category: "Go"@ },
    ]
}

/// The Go rules.
pub fn go_rules() -> (r: &'static [CommandRule])
    ensures
        rule_specs(r@) =~~= spec_go_rules(),
{
    let a: &'static [CommandRule; 3] = &[
        CommandRule { pattern: r"^go\s+(build|test|vet|fmt)", tech_stack: TechStack::GoBuild, subcommand_template: "{1}", prefixes: &["go"], category: "Go" },
        CommandRule { pattern: r"^gofmt\b", tech_stack: TechStack::GoBuild, subcommand_template: "fmt", prefixes: &["gofmt"], category: "Go" },
        CommandRule { pattern: r"^golangci-lint\s+run\b", tech_stack: TechStack::GolangciLint, subcommand_template: "run", prefixes: &["golangci-lint"], category: "Go" },
    ];
    proof {
        assert(a@[0].spec() =~~= spec_go_rules()[0]);
        assert(a@[1].spec() =~~= spec_go_rules()[1]);
        assert(a@[2].spec() =~~= spec_go_rules()[2]);
        assert(rule_specs(a@) =~~= spec_go_rules());
    }
    a
}

/// The Java rules.
pub open spec fn spec_java_rules() -> Seq<RuleSpec> {
    seq![
        RuleSpec { pattern: r"^mvn\s+(compile|test|verify|package)"@, tech_stack: TechStack::Maven, template: "{1}"@, prefixes: seq!["mvn"@], category: "Java"@ },
        RuleSpec { pattern: r"^(gradle|gradlew)\s+(compileJava|test|check)"@, tech_stack: TechStack::Gradle, template: "{2}"@, prefixes: seq!["gradle"@, "gradlew"@], category: "Java"@ },
    ]
}

/// The Java rules.
pub fn java_rules() -> (r: &'static [CommandRule])
    ensures
        rule_specs(r@) =~~= spec_java_rules(),
{
    let a: &'static [CommandRule; 2] = &[
        CommandRule { pattern: r"^mvn\s+(compile|test|verify|package)", tech_stack: TechStack::Maven, subcommand_template: "{1}", prefixes: &["mvn"], category: "Java" },
        CommandRule { pattern: r"^(gradle|gradlew)\s+(compileJava|test|check)", tech_stack: TechStack::Gradle, subcommand_template: "{2}", prefixes: &["gradle", "gradlew"], category: "Java" },
    ];
    proof {
        assert(a@[0].spec() =~~= spec_java_rules()[0]);
        assert(a@[1].spec() =~~= spec_java_rules()[1]);
        assert(rule_specs(a@) =~~= spec_java_rules());
    }
    a
}

/// The .NET rules.
pub open spec fn spec_dotnet_rules() -> Seq<RuleSpec> {
    seq![
        RuleSpec { pattern: r"^dotnet\s+(build|test|format)"@, tech_stack: TechStack::Dotnet, template: "{1}"@, prefixes: seq!["dotnet"@], category: ".NET"@ },
    ]
}

/// The .NET rules.
pub fn dotnet_rules() -> (r: &'static [CommandRule])
    ensures
        rule_specs(r@) =~~= spec_dotnet_rules(),
{
    let a: &'static [CommandRule; 1] = &[
        CommandRule { pattern: r"^dotnet\s+(build|test|format)", tech_stack: TechStack::Dotnet, subcommand_template: "{1}", prefixes: &["dotnet"], category: ".NET" },
    ];
    proof {
        assert(a@[0].spec() =~~= spec_dotnet_rules()[0]);
        assert(rule_specs(a@) =~~= spec_dotnet_rules());
    }
    a
}

/// The Ruby rules.
pub open spec fn spec_ruby_rules() -> Seq<RuleSpec> {
    seq![
        RuleSpec { pattern: r"^rubocop\b\s*(.*)$"@, tech_stack: TechStack::Rubocop, template: "{1}"@, prefixes: seq!["rubocop"@], category: "Ruby"@ },
        RuleSpec { pattern: r"^(bundle\s+exec\s+)?rspec\b\s*(.*)$"@, tech_stack: TechStack::Rspec, template: "{2}"@, prefixes: seq!["rspec"@, "bundle"@], category: "Ruby"@ },
    ]
}

/// The Ruby rules.
pub fn ruby_rules() -> (r: &'static [CommandRule])
    ensures
        rule_specs(r@) =~~= spec_ruby_rules(),
{
    let a: &'static [CommandRule; 2] = &[
        CommandRule { pattern: r"^rubocop\b\s*(.*)$", tech_stack: TechStack::Rubocop, subcommand_template: "{1}", prefixes: &["rubocop"], category: "Ruby" },
        CommandRule { pattern: r"^(bundle\s+exec\s+)?rspec\b\s*(.*)$", tech_stack: TechStack::Rspec, subcommand_template: "{2}", prefixes: &["rspec", "bundle"], category: "Ruby" },
    ];
    proof {
        assert(a@[0].spec() =~~= spec_ruby_rules()[0]);
        assert(a@[1].spec() =~~= spec_ruby_rules()[1]);
        assert(rule_specs(a@) =~~= spec_ruby_rules());
    }
    a
}

/// The C++ rules.
pub open spec fn spec_cpp_rules() -> Seq<RuleSpec> {
    seq![
        RuleSpec { pattern: r"^cmake\s+(--build|--configure)"@, tech_stack: TechStack::CMake, template: "{1}"@, prefixes: seq!["cmake"@], category: "C++"@ },
        RuleSpec { pattern: r"^(gcc|g\+\+)\s+.*-c\b"@, tech_stack: TechStack::Gcc, template: "compile"@, prefixes: seq!["gcc"@, "g++"@], category: "C++"@ },
        RuleSpec { pattern: r"^(clang|clang\+\+)\s+.*(-c\b|-fsyntax-only\b)"@, tech_stack: TechStack::Clang, template: "compile"@, prefixes: seq!["clang"@, "clang++"@], category: "C++"@ },
        RuleSpec { pattern: r"^clang-format\b"@, tech_stack: TechStack::ClangFormat, template: "format"@, prefixes: seq!["clang-format"@], category: "C++"@ },
        RuleSpec { pattern: r"^(cl\.exe|msvc)\s+"@, tech_stack: TechStack::Msvc, template: "compile"@, prefixes: seq!["cl"@, "msvc"@], category: "C++"@ },
    ]
}

/// The C++ rules.
pub fn cpp_rules() -> (r: &'static [CommandRule])
    ensures
        rule_specs(r@) =~~= spec_cpp_rules(),
{
    let a: &'static [CommandRule; 5] = &[
        CommandRule { pattern: r"^cmake\s+(--build|--configure)", tech_stack: TechStack::CMake, subcommand_template: "{1}", prefixes: &["cmake"], category: "C++" },
        CommandRule { pattern: r"^(gcc|g\+\+)\s+.*-c\b", tech_stack: TechStack::Gcc, subcommand_template: "compile", prefixes: &["gcc", "g++"], category: "C++" },
        CommandRule { pattern: r"^(clang|clang\+\+)\s+.*(-c\b|-fsyntax-only\b)", tech_stack: TechStack::Clang, subcommand_template: "compile", prefixes: &["clang", "clang++"], category: "C++" },
        CommandRule { pattern: r"^clang-format\b", tech_stack: TechStack::ClangFormat, subcommand_template: "format", prefixes: &["clang-format"], category: "C++" },
        CommandRule { pattern: r"^(cl\.exe|msvc)\s+", tech_stack: TechStack::Msvc, subcommand_template: "compile", prefixes: &["cl", "msvc"], category: "C++" },
    ];
    proof {
        assert(a@[0].spec() =~~= spec_cpp_rules()[0]);
        assert(a@[1].spec() =~~= spec_cpp_rules()[1]);
        assert(a@[2].spec() =~~= spec_cpp_rules()[2]);
        assert(a@[3].spec() =~~= spec_cpp_rules()[3]);
        assert(a@[4].spec() =~~= spec_cpp_rules()[4]);
        assert(rule_specs(a@) =~~= spec_cpp_rules());
    }
    a
}

/// The Fallback rules.
pub open spec fn spec_fallback_rules() -> Seq<RuleSpec> {
    seq![
        RuleSpec { pattern: r"^npm\s+(?:run\s+)?(\S+)"@, tech_stack: TechStack::Npm, template: "run {1}"@, prefixes: seq!["npm"@], category: "Fallback"@ },
        RuleSpec { pattern: r"^dotnet\s+(\S+)"@, tech_stack: TechStack::Dotnet, template: "{1}"@, prefixes: seq!["dotnet"@], category: "Fallback"@ },
    ]
}

/// The Fallback rules.
pub fn fallback_rules() -> (r: &'static [CommandRule])
    ensures
        rule_specs(r@) =~~= spec_fallback_rules(),
{
    let a: &'static [CommandRule; 2] = &[
        CommandRule { pattern: r"^npm\s+(?:run\s+)?(\S+)", tech_stack: TechStack::Npm, subcommand_template: "run {1}", prefixes: &["npm"], category: "Fallback" },
        CommandRule { pattern: r"^dotnet\s+(\S+)", tech_stack: TechStack::Dotnet, subcommand_template: "{1}", prefixes: &["dotnet"], category: "Fallback" },
    ];
    proof {
        assert(a@[0].spec() =~~= spec_fallback_rules()[0]);
        assert(a@[1].spec() =~~= spec_fallback_rules()[1]);
        assert(rule_specs(a@) =~~= spec_fallback_rules());
    }
    a
}


/// All rule sets, by category, in evaluation order.
pub open spec fn spec_rule_sets() -> Seq<(Seq<char>, Seq<RuleSpec>)> {
    seq![
        ("Rust"@, spec_rust_rules()),
        ("Node.js"@, spec_node_rules()),
        ("Python"@, spec_python_rules()),
        ("Go"@, spec_go_rules()),
        ("Java"@, spec_java_rules()),
        (".NET"@, spec_dotnet_rules()),
        ("Ruby"@, spec_ruby_rules()),
        ("C++"@, spec_cpp_rules()),
        ("Fallback"@, spec_fallback_rules())
    ]
}

/// The flat rule table: the rule sets concatenated in order.
pub open spec fn spec_rules() -> Seq<RuleSpec> {
    spec_rust_rules() + spec_node_rules() + spec_python_rules() + spec_go_rules() + spec_java_rules() + spec_dotnet_rules() + spec_ruby_rules() + spec_cpp_rules() + spec_fallback_rules()
}

/// The rules of a sequence of rule sets, concatenated.
pub open spec fn flatten_sets(sets: Seq<(Seq<char>, Seq<RuleSpec>)>) -> Seq<RuleSpec>
    decreases sets.len(),
{
    if sets.len() == 0 {
        seq![]
    } else {
        flatten_sets(sets.drop_last()) + sets.last().1
    }
}

/// The category and rule specs of a rule set.
pub open spec fn set_spec(s: RuleSet) -> (Seq<char>, Seq<RuleSpec>) {
    (s.category@, rule_specs(s.rules@))
}

/// The specs of a sequence of rule sets.
pub open spec fn set_specs(s: Seq<RuleSet>) -> Seq<(Seq<char>, Seq<RuleSpec>)> {
    s.map_values(|x: RuleSet| set_spec(x))
}

/// All rule sets, by category, in evaluation order.
pub fn rule_sets() -> (r: Vec<RuleSet>)
    ensures
        set_specs(r@) =~~= spec_rule_sets(),
{
    let mut v: Vec<RuleSet> = Vec::new();
    v.push(RuleSet::new("Rust", rust_rules()));
    v.push(RuleSet::new("Node.js", node_rules()));
    v.push(RuleSet::new("Python", python_rules()));
    v.push(RuleSet::new("Go", go_rules()));
    v.push(RuleSet::new("Java", java_rules()));
    v.push(RuleSet::new(".NET", dotnet_rules()));
    v.push(RuleSet::new("Ruby", ruby_rules()));
    v.push(RuleSet::new("C++", cpp_rules()));
    v.push(RuleSet::new("Fallback", fallback_rules()));
    v
}

fn append_rules(v: &mut Vec<CommandRule>, s: &'static [CommandRule])
    ensures
        rule_specs(final(v)@) =~~= rule_specs(old(v)@) + rule_specs(s@),
{
    let mut i: usize = 0;
    while i < s.len()
        invariant
            i <= s@.len(),
            rule_specs(v@) =~~= rule_specs(old(v)@) + rule_specs(s@.take(i as int)),
        decreases s@.len() - i,
    {
        let ghost prev = v@;
        v.push(s[i]);
        assert(s@.take(i + 1) =~= s@.take(i as int).push(s@[i as int]));
        assert(rule_specs(v@) =~~= rule_specs(prev).push(s@[i as int].spec()));
        assert(rule_specs(s@.take(i + 1)) =~~= rule_specs(s@.take(i as int)).push(s@[i as int].spec()));
        assert(rule_specs(v@) =~~= rule_specs(old(v)@) + rule_specs(s@.take(i + 1)));
        i += 1;
    }
    assert(s@.take(s@.len() as int) =~= s@);
}

/// The flat rule table, in evaluation order (first match wins).
pub fn rules() -> (r: Vec<CommandRule>)
    ensures
        rule_specs(r@) =~~= spec_rules(),
{
    let mut v: Vec<CommandRule> = Vec::new();
    append_rules(&mut v, rust_rules());
    append_rules(&mut v, node_rules());
    append_rules(&mut v, python_rules());
    append_rules(&mut v, go_rules());
    append_rules(&mut v, java_rules());
    append_rules(&mut v, dotnet_rules());
    append_rules(&mut v, ruby_rules());
    append_rules(&mut v, cpp_rules());
    append_rules(&mut v, fallback_rules());
    v
}

/// The flat table is the rule sets concatenated in order, so the number of
/// rules over all sets equals the size of the flat table.
pub proof fn lemma_rules_are_the_sets()
    ensures
        spec_rules() =~~= flatten_sets(spec_rule_sets()),
        spec_rules().len() == flatten_sets(spec_rule_sets()).len(),
{
    reveal_with_fuel(flatten_sets, 10);
}

/// The rule at a 0-based index of the flat table.
pub fn rule_by_index(idx: usize) -> (r: Option<CommandRule>)
    ensures
        idx < spec_rules().len() ==> r is Some && r->0.spec() =~~= spec_rules()[idx as int],
        idx >= spec_rules().len() ==> r is None,
{
    let t = rules();
    if idx < t.len() {
        assert(rule_specs(t@)[idx as int] == t@[idx as int].spec());
        Some(t[idx])
    } else {
        None
    }
}

/// The rules of `rs` whose prefixes include `p`, in order.
pub open spec fn with_prefix(rs: Seq<RuleSpec>, p: Seq<char>) -> Seq<RuleSpec>
    decreases rs.len(),
{
    if rs.len() == 0 {
        seq![]
    } else if rs.last().prefixes.contains(p) {
        with_prefix(rs.drop_last(), p).push(rs.last())
    } else {
        with_prefix(rs.drop_last(), p)
    }
}

/// The rules of `rs` in category `c`, in order.
pub open spec fn in_category(rs: Seq<RuleSpec>, c: Seq<char>) -> Seq<RuleSpec>
    decreases rs.len(),
{
    if rs.len() == 0 {
        seq![]
    } else if rs.last().category == c {
        in_category(rs.drop_last(), c).push(rs.last())
    } else {
        in_category(rs.drop_last(), c)
    }
}

fn has_prefix(rule: &CommandRule, prefix: &str) -> (b: bool)
    ensures
        b == rule.spec().prefixes.contains(prefix@),
{
    let mut i: usize = 0;
    while i < rule.prefixes.len()
        invariant
            i <= rule.prefixes@.len(),
            forall|j: int| 0 <= j < i ==> (#[trigger] rule.prefixes@[j])@ != prefix@,
        decreases rule.prefixes@.len() - i,
    {
        if str_eq(rule.prefixes[i], prefix) {
            assert(rule.spec().prefixes[i as int] == prefix@);
            return true;
        }
        i += 1;
    }
    assert forall|j: int| 0 <= j < rule.spec().prefixes.len() implies rule.spec().prefixes[j] != prefix@ by {
        assert(rule.spec().prefixes[j] == rule.prefixes@[j]@);
    }
    false
}

/// The rules whose prefixes include `prefix`.
pub fn find_rules_by_prefix(prefix: &str) -> (r: Vec<CommandRule>)
    ensures
        rule_specs(r@) =~~= with_prefix(spec_rules(), prefix@),
{
    let t = rules();
    let mut out: Vec<CommandRule> = Vec::new();
    let mut i: usize = 0;
    while i < t.len()
        invariant
            i <= t@.len(),
            rule_specs(t@) =~~= spec_rules(),
            rule_specs(out@) =~~= with_prefix(rule_specs(t@).take(i as int), prefix@),
        decreases t@.len() - i,
    {
        let ghost ts = rule_specs(t@);
        assert(ts.take(i + 1).drop_last() =~= ts.take(i as int));
        assert(ts.take(i + 1).last() == t@[i as int].spec());
        if has_prefix(&t[i], prefix) {
            out.push(t[i]);
        }
        assert(rule_specs(out@) =~~= with_prefix(ts.take(i + 1), prefix@));
        i += 1;
    }
    assert(rule_specs(t@).take(t@.len() as int) =~= rule_specs(t@));
    out
}

/// The rules in category `category`.
pub fn find_rules_by_category(category: &str) -> (r: Vec<CommandRule>)
    ensures
        rule_specs(r@) =~~= in_category(spec_rules(), category@),
{
    let t = rules();
    let mut out: Vec<CommandRule> = Vec::new();
    let mut i: usize = 0;
    while i < t.len()
        invariant
            i <= t@.len(),
            rule_specs(t@) =~~= spec_rules(),
            rule_specs(out@) =~~= in_category(rule_specs(t@).take(i as int), category@),
        decreases t@.len() - i,
    {
        let ghost ts = rule_specs(t@);
        assert(ts.take(i + 1).drop_last() =~= ts.take(i as int));
        assert(ts.take(i + 1).last() == t@[i as int].spec());
        if str_eq(t[i].category, category) {
            out.push(t[i]);
        }
        assert(rule_specs(out@) =~~= in_category(ts.take(i + 1), category@));
        i += 1;
    }
    assert(rule_specs(t@).take(t@.len() as int) =~= rule_specs(t@));
    out
}

/// Index of the first set of `sets` with category `c`, or `sets.len()`.
pub open spec fn set_index(sets: Seq<(Seq<char>, Seq<RuleSpec>)>, c: Seq<char>) -> nat
    decreases sets.len(),
{
    if sets.len() == 0 {
        0
    } else if sets[0].0 == c {
        0
    } else {
        1 + set_index(sets.drop_first(), c)
    }
}

proof fn lemma_set_index(sets: Seq<(Seq<char>, Seq<RuleSpec>)>, c: Seq<char>, k: int)
    requires
        0 <= k <= sets.len(),
        forall|j: int| 0 <= j < k ==> (#[trigger] sets[j]).0 != c,
        k < sets.len() ==> sets[k].0 == c,
    ensures
        set_index(sets, c) == k,
    decreases k,
{
    if k > 0 {
        assert forall|j: int| 0 <= j < k - 1 implies (#[trigger] sets.drop_first()[j]).0 != c by {
            assert(sets.drop_first()[j] == sets[j + 1]);
        }
        lemma_set_index(sets.drop_first(), c, k - 1);
    }
}

/// The first rule set with the given category.
pub fn rule_set_by_category(category: &str) -> (r: Option<RuleSet>)
    ensures
        set_index(spec_rule_sets(), category@) < spec_rule_sets().len() ==> r is Some
            && set_spec(r->0) =~~= spec_rule_sets()[set_index(spec_rule_sets(), category@) as int],
        set_index(spec_rule_sets(), category@) >= spec_rule_sets().len() ==> r is None,
{
    let sets = rule_sets();
    let mut i: usize = 0;
    while i < sets.len()
        invariant
            i <= sets@.len(),
            set_specs(sets@) =~~= spec_rule_sets(),
            forall|j: int| 0 <= j < i ==> (#[trigger] sets@[j]).category@ != category@,
        decreases sets@.len() - i,
    {
        if str_eq(sets[i].category, category) {
            proof {
                assert forall|j: int| 0 <= j < i implies (#[trigger] spec_rule_sets()[j]).0 != category@ by {
                    assert(spec_rule_sets()[j] == set_spec(sets@[j]));
                }
                assert(spec_rule_sets()[i as int] == set_spec(sets@[i as int]));
                lemma_set_index(spec_rule_sets(), category@, i as int);
            }
            return Some(sets[i]);
        }
        i += 1;
    }
    proof {
        assert forall|j: int| 0 <= j < i implies (#[trigger] spec_rule_sets()[j]).0 != category@ by {
            assert(spec_rule_sets()[j] == set_spec(sets@[j]));
        }
        lemma_set_index(spec_rule_sets(), category@, i as int);
    }
    None
}

proof fn lemma_flatten_prefix(sets: Seq<(Seq<char>, Seq<RuleSpec>)>, k: int)
    requires
        0 <= k <= sets.len(),
    ensures
        flatten_sets(sets.take(k)).len() <= flatten_sets(sets).len(),
    decreases sets.len(),
{
    if k == sets.len() {
        assert(sets.take(k) =~= sets);
    } else {
        assert(sets.drop_last().take(k) =~= sets.take(k));
        lemma_flatten_prefix(sets.drop_last(), k);
    }
}

/// Where the rules of category `c` begin in the flat table: the number of
/// rules of the sets before the first set of that category (0 when no set
/// has it).
pub open spec fn set_start(c: Seq<char>) -> nat {
    let k = set_index(spec_rule_sets(), c);
    if k < spec_rule_sets().len() {
        flatten_sets(spec_rule_sets().take(k as int)).len()
    } else {
        0
    }
}

/// Rule `i` of set `k` stands in the concatenated table at the set's start
/// plus `i`.
pub proof fn lemma_flatten_index(sets: Seq<(Seq<char>, Seq<RuleSpec>)>, k: int, i: int)
    requires
        0 <= k < sets.len(),
        0 <= i < sets[k].1.len(),
    ensures
        flatten_sets(sets.take(k)).len() + i < flatten_sets(sets).len(),
        flatten_sets(sets)[flatten_sets(sets.take(k)).len() + i] == sets[k].1[i],
    decreases sets.len(),
{
    if k == sets.len() - 1 {
        assert(sets.take(k) =~= sets.drop_last());
    } else {
        assert(sets.drop_last().take(k) =~= sets.take(k));
        lemma_flatten_index(sets.drop_last(), k, i);
    }
}

/// Where the rules of a category begin in the flat table (0 when no rule
/// set has that category).
pub fn category_start(category: &str) -> (r: usize)
    ensures
        r == set_start(category@),
{
    let sets = rule_sets();
    let mut n: usize = 0;
    let mut i: usize = 0;
    proof { lemma_rules_are_the_sets(); }
    while i < sets.len()
        invariant
            i <= sets@.len(),
            set_specs(sets@) =~~= spec_rule_sets(),
            n == flatten_sets(spec_rule_sets().take(i as int)).len(),
            flatten_sets(spec_rule_sets()).len() < 100,
            forall|j: int| 0 <= j < i ==> (#[trigger] spec_rule_sets()[j]).0 != category@,
        decreases sets@.len() - i,
    {
        let ghost ss = spec_rule_sets();
        assert(ss[i as int] == set_spec(sets@[i as int]));
        if str_eq(sets[i].category, category) {
            proof { lemma_set_index(ss, category@, i as int); }
            return n;
        }
        assert(ss.take(i + 1).drop_last() =~= ss.take(i as int));
        proof { lemma_flatten_prefix(ss, i + 1); }
        n = n + sets[i].len();
        i += 1;
    }
    proof { lemma_set_index(spec_rule_sets(), category@, i as int); }
    0
}

/// Number of rules over all rule sets.
pub fn total_rule_count() -> (r: usize)
    ensures
        r == flatten_sets(spec_rule_sets()).len(),
{
    let sets = rule_sets();
    let mut n: usize = 0;
    let mut i: usize = 0;
    proof { lemma_rules_are_the_sets(); }
    while i < sets.len()
        invariant
            i <= sets@.len(),
            set_specs(sets@) =~~= spec_rule_sets(),
            n == flatten_sets(spec_rule_sets().take(i as int)).len(),
            flatten_sets(spec_rule_sets()).len() < 100,
        decreases sets@.len() - i,
    {
        let ghost ss = spec_rule_sets();
        assert(ss.take(i + 1).drop_last() =~= ss.take(i as int));
        assert(ss[i as int] == set_spec(sets@[i as int]));
        proof { lemma_flatten_prefix(ss, i + 1); }
        n = n + sets[i].len();
        i += 1;
    }
    assert(spec_rule_sets().take(sets@.len() as int) =~= spec_rule_sets());
    n
}

/// Number of rules in the flat table.
pub fn flat_rule_count() -> (r: usize)
    ensures
        r == spec_rules().len(),
{
    let t = rules();
    t.len()
}

/// The categories of the rule sets, in order.
pub fn all_categories() -> (r: Vec<&'static str>)
    ensures
        r@.len() == spec_rule_sets().len(),
        forall|i: int| 0 <= i < r@.len() ==> (#[trigger] r@[i])@ == spec_rule_sets()[i].0,
{
    let sets = rule_sets();
    let mut out: Vec<&'static str> = Vec::new();
    let mut i: usize = 0;
    while i < sets.len()
        invariant
            i <= sets@.len(),
            set_specs(sets@) =~~= spec_rule_sets(),
            out@.len() == i,
            forall|k: int| 0 <= k < i ==> (#[trigger] out@[k])@ == spec_rule_sets()[k].0,
        decreases sets@.len() - i,
    {
        assert(spec_rule_sets()[i as int] == set_spec(sets@[i as int]));
        out.push(sets[i].category);
        i += 1;
    }
    out
}

} // verus!

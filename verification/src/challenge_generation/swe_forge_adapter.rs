//! Turning SWE-Forge workspaces into challenges: the command line that mines
//! them, and the reading of each mined `workspace.yaml`.

use vstd::prelude::*;
use vstd::string::StringExecFns;
use crate::challenge::{distinct_keys, Challenge, DifficultyLevel, TestCase, TestResult, TestType};
use crate::error::NinjaError;
use crate::clock::{current_rfc3339, rfc3339_reading_text};
use crate::text::{
    decimal, join, join_texts, opt_text, texts_of, u64_to_decimal, append_decimal, concat,
};

verus! {

/// Settings for running the SWE-Forge miner.
#[derive(Debug)]
pub struct SweForgeConfig {
    pub swe_forge_binary: String,
    pub github_token: String,
    pub openrouter_api_key: String,
    pub output_dir: String,
    pub max_tasks: usize,
    pub difficulty: Option<String>,
    pub min_stars: Option<u32>,
    pub languages: Option<Vec<String>>,
}

impl SweForgeConfig {
    /// The default settings, with the GitHub token and the OpenRouter key
    /// taken from the given values (empty when absent).
    pub fn with_credentials(github_token: Option<String>, openrouter_api_key: Option<String>) -> (c:
        Self)
        ensures
            c.swe_forge_binary@ == "swe-forge"@,
            github_token matches Some(t) ==> c.github_token == t,
            github_token is None ==> c.github_token@.len() == 0,
            openrouter_api_key matches Some(k) ==> c.openrouter_api_key == k,
            openrouter_api_key is None ==> c.openrouter_api_key@.len() == 0,
            c.output_dir@ == "./generated-challenges"@,
            c.max_tasks == 5,
            c.difficulty matches Some(d) && d@ == "medium"@,
            c.min_stars == Some(20u32),
            c.languages matches Some(l) && texts_of(l@) == seq!["python"@, "rust"@, "javascript"@],
    {
        let mut languages: Vec<String> = Vec::new();
        languages.push(String::from_str("python"));
        languages.push(String::from_str("rust"));
        languages.push(String::from_str("javascript"));
        assert(texts_of(languages@) =~= seq!["python"@, "rust"@, "javascript"@]);
        SweForgeConfig {
            swe_forge_binary: String::from_str("swe-forge"),
            github_token: match github_token {
                Some(t) => t,
                None => String::new(),
            },
            openrouter_api_key: match openrouter_api_key {
                Some(k) => k,
                None => String::new(),
            },
            output_dir: String::from_str("./generated-challenges"),
            max_tasks: 5,
            difficulty: Some(String::from_str("medium")),
            min_stars: Some(20),
            languages: Some(languages),
        }
    }
}

/// A challenge mined by SWE-Forge, with where its workspace lies.
#[derive(Debug)]
pub struct GeneratedChallenge {
    pub task_id: String,
    pub repository: String,
    pub difficulty: String,
    pub workspace_path: String,
    pub challenge: Challenge,
}

/// Runs SWE-Forge and reads what it mines.
pub struct SweForgeAdapter {
    config: SweForgeConfig,
}

/// The fields of a `workspace.yaml` that a challenge is built from. A text
/// field is `None` when missing or not a string; a list is `None` when
/// missing or not a sequence, and holds `None` for items that are not
/// strings.
#[derive(Debug)]
pub struct WorkspaceFields {
    pub instance_id: Option<String>,
    pub repo: Option<String>,
    pub problem_statement: Option<String>,
    pub fail_to_pass: Option<Vec<Option<String>>>,
    pub pass_to_pass: Option<Vec<Option<String>>>,
}

pub open spec fn opt_texts(v: Seq<Option<String>>) -> Seq<Option<Seq<char>>> {
    v.map_values(|o: Option<String>| opt_text(o))
}

pub open spec fn opt_list(o: Option<Vec<Option<String>>>) -> Option<Seq<Option<Seq<char>>>> {
    match o {
        Some(v) => Some(opt_texts(v@)),
        None => None,
    }
}

/// The fields as plain values.
pub type WorkspaceModel = (
    Option<Seq<char>>,
    Option<Seq<char>>,
    Option<Seq<char>>,
    Option<Seq<Option<Seq<char>>>>,
    Option<Seq<Option<Seq<char>>>>,
);

impl View for WorkspaceFields {
    type V = WorkspaceModel;

    open spec fn view(&self) -> WorkspaceModel {
        (
            opt_text(self.instance_id),
            opt_text(self.repo),
            opt_text(self.problem_statement),
            opt_list(self.fail_to_pass),
            opt_list(self.pass_to_pass),
        )
    }
}

/// What `serde_yaml` reads from a YAML text: the workspace fields, or the
/// text of its parse error.
pub uninterp spec fn yaml_workspace_fields(text: Seq<char>) -> Result<WorkspaceModel, Seq<char>>;

/// A parse outcome as plain values.
pub open spec fn fields_result(r: Result<WorkspaceFields, String>) -> Result<WorkspaceModel, Seq<char>> {
    match r {
        Ok(f) => Ok(f@),
        Err(e) => Err(e@),
    }
}

/// Parses a `workspace.yaml` text and picks the fields a challenge needs.
///
/// Trusted: calls `serde_yaml::from_str` into a `serde_yaml::Value`, then
/// reads `instance_id`, `repo` and `problem_statement` with `as_str` and
/// `fail_to_pass` and `pass_to_pass` with `as_sequence`. The contract names
/// the result, which depends on the text alone; an error carries the text
/// of the `serde_yaml::Error`.
#[verifier::external_body]
fn read_workspace_fields(text: &str) -> (r: Result<WorkspaceFields, String>)
    ensures
        fields_result(r) == yaml_workspace_fields(text@),
{
    let v: serde_yaml::Value = serde_yaml::from_str(text).map_err(|e| e.to_string())?;
    let text_at = |k: &str| v[k].as_str().map(|s| s.to_string());
    let list_at = |k: &str|
        v[k].as_sequence().map(|xs| xs.iter().map(|x| x.as_str().map(|s| s.to_string())).collect());
    Ok(WorkspaceFields {
        instance_id: text_at("instance_id"),
        repo: text_at("repo"),
        problem_statement: text_at("problem_statement"),
        fail_to_pass: list_at("fail_to_pass"),
        pass_to_pass: list_at("pass_to_pass"),
    })
}

/// The test commands of a list, each named `prefix` followed by its
/// position in the list; items that are not strings are skipped but keep
/// their positions counted.
pub open spec fn numbered_commands(l: Seq<Option<Seq<char>>>, prefix: Seq<char>) -> Seq<
    (Seq<char>, Seq<char>),
>
    decreases l.len(),
{
    if l.len() == 0 {
        Seq::empty()
    } else {
        let rest = numbered_commands(l.drop_last(), prefix);
        match l.last() {
            Some(c) => rest.push((prefix + decimal((l.len() - 1) as nat), c)),
            None => rest,
        }
    }
}

/// A test as plain values: name, description, kind and command.
pub type TestModel = (Seq<char>, Seq<char>, TestType, Seq<char>);

pub open spec fn test_model(t: TestCase) -> TestModel {
    (t.name@, t.description@, t.test_type, t.command@)
}

pub open spec fn commands_as_tests(
    cmds: Seq<(Seq<char>, Seq<char>)>,
    description: Seq<char>,
    kind: TestType,
) -> Seq<TestModel> {
    cmds.map_values(|c: (Seq<char>, Seq<char>)| (c.0, description, kind, c.1))
}

pub open spec fn list_tests(
    l: Option<Seq<Option<Seq<char>>>>,
    prefix: Seq<char>,
    description: Seq<char>,
    kind: TestType,
) -> Seq<TestModel> {
    match l {
        Some(items) => commands_as_tests(numbered_commands(items, prefix), description, kind),
        None => Seq::empty(),
    }
}

/// The tests of a workspace: its fail-to-pass tests, then its pass-to-pass
/// tests, or a single fallback test when there are none.
pub open spec fn workspace_tests(w: WorkspaceModel) -> Seq<TestModel> {
    let all = list_tests(
        w.3,
        "fail_to_pass_"@,
        "Fail-to-pass test from SWE-Forge"@,
        TestType::FailToPass,
    ) + list_tests(w.4, "pass_to_pass_"@, "Pass-to-pass test from SWE-Forge"@, TestType::PassToPass);
    if all.len() == 0 {
        seq![
            (
                "basic_test"@,
                "Basic test fallback"@,
                TestType::Validation,
                "python -m pytest -xvs"@,
            ),
        ]
    } else {
        all
    }
}

/// The tests as plain values.
pub open spec fn tests_model(tests: Seq<TestCase>) -> Seq<TestModel> {
    tests.map_values(|t: TestCase| test_model(t))
}

/// Every test expects to pass.
pub open spec fn all_expect_pass(tests: Seq<TestCase>) -> bool {
    forall|i: int| 0 <= i < tests.len() ==> #[trigger] tests[i].expected_result == TestResult::Pass
}

fn append_list_tests(
    tests: &mut Vec<TestCase>,
    list: &Option<Vec<Option<String>>>,
    prefix: &str,
    description: &str,
    kind: TestType,
)
    requires
        all_expect_pass(old(tests)@),
    ensures
        all_expect_pass(final(tests)@),
        tests_model(final(tests)@) == tests_model(old(tests)@) + list_tests(
            opt_list(*list),
            prefix@,
            description@,
            kind,
        ),
{
    let ghost start = tests_model(tests@);
    match list {
        None => {
            assert(tests_model(tests@) =~= start + list_tests(
                opt_list(*list),
                prefix@,
                description@,
                kind,
            ));
        },
        Some(items) => {
            let ghost l = opt_texts(items@);
            let mut i: usize = 0;
            while i < items.len()
                invariant
                    i <= items@.len(),
                    l == opt_texts(items@),
                    all_expect_pass(tests@),
                    tests_model(tests@) == start + commands_as_tests(
                        numbered_commands(l.take(i as int), prefix@),
                        description@,
                        kind,
                    ),
                decreases items@.len() - i,
            {
                let ghost before = tests_model(tests@);
                assert(l.take(i + 1).drop_last() =~= l.take(i as int));
                assert(l.take(i + 1).last() == opt_text(items@[i as int]));
                match &items[i] {
                    Some(cmd) => {
                        let mut name = String::from_str(prefix);
                        append_decimal(&mut name, i as u64);
                        tests.push(
                            TestCase {
                                name,
                                description: String::from_str(description),
                                test_type: kind,
                                command: cmd.clone(),
                                expected_result: TestResult::Pass,
                            },
                        );
                        assert(tests_model(tests@) =~= before.push(
                            (prefix@ + decimal(i as nat), description@, kind, cmd@),
                        ));
                    },
                    None => {},
                }
                i = i + 1;
                assert(tests_model(tests@) =~= start + commands_as_tests(
                    numbered_commands(l.take(i as int), prefix@),
                    description@,
                    kind,
                ));
            }
            assert(l.take(i as int) =~= l);
        },
    }
}

/// The tests of a workspace (see `workspace_tests`); every test expects to
/// pass.
pub fn extract_tests(fields: &WorkspaceFields) -> (tests: Vec<TestCase>)
    ensures
        tests_model(tests@) == workspace_tests(fields@),
        all_expect_pass(tests@),
{
    let mut tests: Vec<TestCase> = Vec::new();
    assert(tests_model(tests@) =~= Seq::<TestModel>::empty());
    append_list_tests(
        &mut tests,
        &fields.fail_to_pass,
        "fail_to_pass_",
        "Fail-to-pass test from SWE-Forge",
        TestType::FailToPass,
    );
    append_list_tests(
        &mut tests,
        &fields.pass_to_pass,
        "pass_to_pass_",
        "Pass-to-pass test from SWE-Forge",
        TestType::PassToPass,
    );
    if tests.len() == 0 {
        tests.push(
            TestCase {
                name: String::from_str("basic_test"),
                description: String::from_str("Basic test fallback"),
                test_type: TestType::Validation,
                command: String::from_str("python -m pytest -xvs"),
                expected_result: TestResult::Pass,
            },
        );
    }
    assert(tests_model(tests@) =~= workspace_tests(fields@));
    tests
}

pub open spec fn text_or(o: Option<Seq<char>>, default: Seq<char>) -> Seq<char> {
    match o {
        Some(s) => s,
        None => default,
    }
}

/// The difficulty level named by a configured difficulty: `easy` and `hard`
/// name theirs, anything else (and nothing, read as `medium`) is medium.
pub open spec fn difficulty_level_of(d: Option<Seq<char>>) -> DifficultyLevel {
    let name = text_or(d, "medium"@);
    if name == "easy"@ {
        DifficultyLevel::Easy
    } else if name == "hard"@ {
        DifficultyLevel::Hard
    } else {
        DifficultyLevel::Medium
    }
}

/// `g` is the challenge built from workspace fields `w` at `path`, for an
/// adapter configured with difficulty `d`; `created_at` is its creation
/// time.
pub open spec fn generated_matches(
    g: GeneratedChallenge,
    d: Option<Seq<char>>,
    w: WorkspaceModel,
    path: Seq<char>,
    created_at: Seq<char>,
) -> bool {
    let task_id = text_or(w.0, "unknown"@);
    let repo = text_or(w.1, "unknown/unknown"@);
    let c = g.challenge;
    &&& g.task_id@ == task_id
    &&& g.repository@ == repo
    &&& g.difficulty@ == text_or(d, "medium"@)
    &&& g.workspace_path@ == path
    &&& c.id@ == task_id
    &&& c.title@ == "SWE Challenge: "@ + task_id
    &&& c.description@ == text_or(w.2, "No description provided"@)
    &&& c.repository matches Some(r) && r@ == repo
    &&& c.language@ == "python"@
    &&& c.difficulty == difficulty_level_of(d)
    &&& tests_model(c.tests@) == workspace_tests(w)
    &&& all_expect_pass(c.tests@)
    &&& texts_of(c.setup_commands@) == seq!["pip install -e ."@]
    &&& c.validation_commands@.len() == 0
    &&& texts_of(c.expected_files@) == seq!["solution.py"@]
    &&& c.metadata@.len() == 2
    &&& c.metadata@[0].0@ == "source"@
    &&& c.metadata@[0].1@ == "swe-forge"@
    &&& c.metadata@[1].0@ == "repository"@
    &&& c.metadata@[1].1@ == repo
    &&& distinct_keys(c.metadata@)
    &&& c.created_at@ == created_at
}

fn text_or_default(o: &Option<String>, default: &str) -> (r: String)
    ensures
        r@ == text_or(opt_text(*o), default@),
{
    match o {
        Some(s) => s.clone(),
        None => String::from_str(default),
    }
}

impl SweForgeAdapter {
    /// The adapter's settings.
    pub closed spec fn config_spec(&self) -> SweForgeConfig {
        self.config
    }

    /// An adapter with the given settings.
    pub fn new(config: SweForgeConfig) -> (a: Self)
        ensures
            a.config_spec() == config,
    {
        SweForgeAdapter { config }
    }

    /// The configured difficulty as a text.
    pub open spec fn difficulty_spec(&self) -> Option<Seq<char>> {
        opt_text(self.config_spec().difficulty)
    }

    /// The difficulty level that mined challenges are given.
    pub fn difficulty_level(&self) -> (d: DifficultyLevel)
        ensures
            d == difficulty_level_of(self.difficulty_spec()),
    {
        let name = text_or_default(&self.config.difficulty, "medium");
        let easy = String::from_str("easy");
        let hard = String::from_str("hard");
        if name == easy {
            DifficultyLevel::Easy
        } else if name == hard {
            DifficultyLevel::Hard
        } else {
            DifficultyLevel::Medium
        }
    }

    /// Builds the challenge for a workspace from its fields.
    pub fn challenge_from_workspace(
        &self,
        fields: &WorkspaceFields,
        workspace_path: String,
        created_at: String,
    ) -> (g: GeneratedChallenge)
        ensures
            generated_matches(g, self.difficulty_spec(), fields@, workspace_path@, created_at@),
    {
        let task_id = text_or_default(&fields.instance_id, "unknown");
        let repository = text_or_default(&fields.repo, "unknown/unknown");
        let description = text_or_default(&fields.problem_statement, "No description provided");
        proof {
            reveal_strlit("source");
            reveal_strlit("repository");
        }
        let mut metadata: Vec<(String, String)> = Vec::new();
        metadata.push((String::from_str("source"), String::from_str("swe-forge")));
        metadata.push((String::from_str("repository"), repository.clone()));
        assert(metadata@[0].0@[0] != metadata@[1].0@[0]);
        assert(distinct_keys(metadata@));
        let mut setup_commands: Vec<String> = Vec::new();
        setup_commands.push(String::from_str("pip install -e ."));
        let mut expected_files: Vec<String> = Vec::new();
        expected_files.push(String::from_str("solution.py"));
        assert(texts_of(setup_commands@) =~= seq!["pip install -e ."@]);
        assert(texts_of(expected_files@) =~= seq!["solution.py"@]);
        let challenge = Challenge {
            id: task_id.clone(),
            title: concat("SWE Challenge: ", task_id.as_str()),
            description,
            repository: Some(repository.clone()),
            language: String::from_str("python"),
            difficulty: self.difficulty_level(),
            tests: extract_tests(fields),
            setup_commands,
            validation_commands: Vec::new(),
            expected_files,
            metadata,
            created_at,
        };
        GeneratedChallenge {
            task_id,
            repository,
            difficulty: text_or_default(&self.config.difficulty, "medium"),
            workspace_path,
            challenge,
        }
    }

    /// Reads the text of a workspace's `workspace.yaml` found at
    /// `workspace_path` and builds its challenge, stamped with the current
    /// time (see `current_rfc3339`); a text that is not YAML gives a
    /// serialization error.
    pub fn parse_workspace_yaml(&self, yaml_content: &str, workspace_path: String) -> (r: Result<
        GeneratedChallenge,
        NinjaError,
    >)
        ensures
            yaml_workspace_fields(yaml_content@) matches Ok(w) ==> (r matches Ok(g)
                && generated_matches(
                g,
                self.difficulty_spec(),
                w,
                workspace_path@,
                g.challenge.created_at@,
            ) && exists|reading: Option<(u64, u32)>| g.challenge.created_at@ == rfc3339_reading_text(reading)),
            yaml_workspace_fields(yaml_content@) matches Err(e) ==> (r matches Err(
                NinjaError::Serialization(m),
            ) && m@ == e),
    {
        match read_workspace_fields(yaml_content) {
            Ok(fields) => {
                let now = current_rfc3339();
                Ok(self.challenge_from_workspace(&fields, workspace_path, now))
            },
            Err(e) => Err(NinjaError::Serialization(e)),
        }
    }

    /// The arguments of the SWE-Forge command that mines one batch.
    pub open spec fn mine_args_spec(&self) -> Seq<Seq<char>> {
        let c = self.config_spec();
        seq![
            "swe"@,
            "mine"@,
            "--output"@,
            c.output_dir@,
            "--max-tasks"@,
            decimal(c.max_tasks as nat),
            "--once"@,
        ] + match c.difficulty {
            Some(d) => seq!["--difficulty"@, d@],
            None => Seq::empty(),
        } + match c.min_stars {
            Some(s) => seq!["--min-stars"@, decimal(s as nat)],
            None => Seq::empty(),
        } + match c.languages {
            Some(l) => seq!["--languages"@, join_texts(texts_of(l@), ","@)],
            None => Seq::empty(),
        }
    }

    /// The program to run for mining: the configured SWE-Forge binary.
    pub fn mine_program(&self) -> (p: String)
        ensures
            p@ == self.config_spec().swe_forge_binary@,
    {
        self.config.swe_forge_binary.clone()
    }

    /// The arguments of the command that mines one batch of challenges.
    pub fn mine_command_args(&self) -> (args: Vec<String>)
        ensures
            texts_of(args@) == self.mine_args_spec(),
    {
        let mut args: Vec<String> = Vec::new();
        args.push(String::from_str("swe"));
        args.push(String::from_str("mine"));
        args.push(String::from_str("--output"));
        args.push(self.config.output_dir.clone());
        args.push(String::from_str("--max-tasks"));
        args.push(u64_to_decimal(self.config.max_tasks as u64));
        args.push(String::from_str("--once"));
        let ghost base = texts_of(args@);
        match &self.config.difficulty {
            Some(d) => {
                args.push(String::from_str("--difficulty"));
                args.push(d.clone());
            },
            None => {},
        }
        let ghost after_difficulty = texts_of(args@);
        match self.config.min_stars {
            Some(s) => {
                args.push(String::from_str("--min-stars"));
                args.push(u64_to_decimal(s as u64));
            },
            None => {},
        }
        let ghost after_stars = texts_of(args@);
        match &self.config.languages {
            Some(l) => {
                args.push(String::from_str("--languages"));
                args.push(join(l, ","));
            },
            None => {},
        }
        assert(texts_of(args@) =~= self.mine_args_spec());
        args
    }

    /// The environment of the mining command: the GitHub token and the
    /// OpenRouter key.
    pub fn mine_command_env(&self) -> (env: Vec<(String, String)>)
        ensures
            env@.len() == 2,
            env@[0].0@ == "GITHUB_TOKEN"@,
            env@[0].1@ == self.config_spec().github_token@,
            env@[1].0@ == "OPENROUTER_API_KEY"@,
            env@[1].1@ == self.config_spec().openrouter_api_key@,
            distinct_keys(env@),
    {
        proof {
            reveal_strlit("GITHUB_TOKEN");
            reveal_strlit("OPENROUTER_API_KEY");
        }
        let mut env: Vec<(String, String)> = Vec::new();
        env.push((String::from_str("GITHUB_TOKEN"), self.config.github_token.clone()));
        env.push((String::from_str("OPENROUTER_API_KEY"), self.config.openrouter_api_key.clone()));
        env
    }

    /// The directory that mined workspaces are written to.
    pub fn output_dir(&self) -> (d: String)
        ensures
            d@ == self.config_spec().output_dir@,
    {
        self.config.output_dir.clone()
    }

    /// The result of a finished mining command: success, or an execution
    /// error carrying its error output.
    pub fn mine_outcome(success: bool, stderr: &str) -> (r: Result<(), NinjaError>)
        ensures
            success ==> r is Ok,
            !success ==> (r matches Err(NinjaError::Execution(m)) && m@ == "SWE-Forge failed: "@
                + stderr@),
    {
        if success {
            Ok(())
        } else {
            Err(NinjaError::Execution(concat("SWE-Forge failed: ", stderr)))
        }
    }

    /// The result of building SWE-Forge from source: success, or an
    /// execution error carrying the build's error output.
    pub fn build_outcome(success: bool, stderr: &str) -> (r: Result<(), NinjaError>)
        ensures
            success ==> r is Ok,
            !success ==> (r matches Err(NinjaError::Execution(m)) && m@
                == "SWE-Forge build failed: "@ + stderr@),
    {
        if success {
            Ok(())
        } else {
            Err(NinjaError::Execution(concat("SWE-Forge build failed: ", stderr)))
        }
    }
}

/// A small challenge in the shape SWE-Forge produces: add two numbers in
/// Python, created at `created_at`.
pub fn create_demo_challenge_at(created_at: String) -> (c: Challenge)
    ensures
        c.created_at == created_at,
        c.id@ == "swe-forge-demo-001"@,
        c.title@ == "Simple Math Function"@,
        c.description@
            == "Create a function that adds two numbers together and returns the result."@,
        c.repository matches Some(r) && r@ == "https://github.com/demo/simple-math"@,
        c.language@ == "python"@,
        c.difficulty == DifficultyLevel::Easy,
        c.tests@.len() == 1,
        c.tests@[0].name@ == "test_addition"@,
        c.tests@[0].description@ == "Test basic addition functionality"@,
        c.tests@[0].test_type == TestType::FailToPass,
        c.tests@[0].command@ == "python -m pytest test_math.py::test_addition -v"@,
        c.tests@[0].expected_result == TestResult::Pass,
        texts_of(c.setup_commands@) == seq!["pip install pytest"@],
        texts_of(c.validation_commands@) == seq![
            "python -c \"import math_utils; print('Module imported successfully')\""@,
        ],
        texts_of(c.expected_files@) == seq!["math_utils.py"@, "test_math.py"@],
        c.metadata@.len() == 2,
        c.metadata@[0].0@ == "generated_by"@,
        c.metadata@[0].1@ == "swe-forge-demo"@,
        c.metadata@[1].0@ == "category"@,
        c.metadata@[1].1@ == "algorithms"@,
        distinct_keys(c.metadata@),
{
    proof {
        reveal_strlit("generated_by");
        reveal_strlit("category");
    }
    let mut metadata: Vec<(String, String)> = Vec::new();
    metadata.push((String::from_str("generated_by"), String::from_str("swe-forge-demo")));
    metadata.push((String::from_str("category"), String::from_str("algorithms")));
    assert(metadata@[0].0@[0] != metadata@[1].0@[0]);
    assert(distinct_keys(metadata@));
    let mut tests: Vec<TestCase> = Vec::new();
    tests.push(
        TestCase {
            name: String::from_str("test_addition"),
            description: String::from_str("Test basic addition functionality"),
            test_type: TestType::FailToPass,
            command: String::from_str("python -m pytest test_math.py::test_addition -v"),
            expected_result: TestResult::Pass,
        },
    );
    let mut setup_commands: Vec<String> = Vec::new();
    setup_commands.push(String::from_str("pip install pytest"));
    let mut validation_commands: Vec<String> = Vec::new();
    validation_commands.push(
        String::from_str("python -c \"import math_utils; print('Module imported successfully')\""),
    );
    let mut expected_files: Vec<String> = Vec::new();
    expected_files.push(String::from_str("math_utils.py"));
    expected_files.push(String::from_str("test_math.py"));
    assert(texts_of(setup_commands@) =~= seq!["pip install pytest"@]);
    assert(texts_of(validation_commands@) =~= seq![
        "python -c \"import math_utils; print('Module imported successfully')\""@,
    ]);
    assert(texts_of(expected_files@) =~= seq!["math_utils.py"@, "test_math.py"@]);
    Challenge {
        id: String::from_str("swe-forge-demo-001"),
        title: String::from_str("Simple Math Function"),
        description: String::from_str(
            "Create a function that adds two numbers together and returns the result.",
        ),
        repository: Some(String::from_str("https://github.com/demo/simple-math")),
        language: String::from_str("python"),
        difficulty: DifficultyLevel::Easy,
        tests,
        setup_commands,
        validation_commands,
        expected_files,
        metadata,
        created_at,
    }
}

/// The demonstration challenge, stamped with the current time (see
/// `current_rfc3339`).
pub fn create_demo_challenge() -> (c: Challenge)
    ensures
        exists|reading: Option<(u64, u32)>| c.created_at@ == rfc3339_reading_text(reading),
        c.id@ == "swe-forge-demo-001"@,
        c.title@ == "Simple Math Function"@,
        c.description@
            == "Create a function that adds two numbers together and returns the result."@,
        c.repository matches Some(r) && r@ == "https://github.com/demo/simple-math"@,
        c.language@ == "python"@,
        c.difficulty == DifficultyLevel::Easy,
        c.tests@.len() == 1,
        c.tests@[0].name@ == "test_addition"@,
        c.tests@[0].description@ == "Test basic addition functionality"@,
        c.tests@[0].test_type == TestType::FailToPass,
        c.tests@[0].command@ == "python -m pytest test_math.py::test_addition -v"@,
        c.tests@[0].expected_result == TestResult::Pass,
        texts_of(c.setup_commands@) == seq!["pip install pytest"@],
        texts_of(c.validation_commands@) == seq![
            "python -c \"import math_utils; print('Module imported successfully')\""@,
        ],
        texts_of(c.expected_files@) == seq!["math_utils.py"@, "test_math.py"@],
        c.metadata@.len() == 2,
        c.metadata@[0].0@ == "generated_by"@,
        c.metadata@[0].1@ == "swe-forge-demo"@,
        c.metadata@[1].0@ == "category"@,
        c.metadata@[1].1@ == "algorithms"@,
        distinct_keys(c.metadata@),
{
    create_demo_challenge_at(current_rfc3339())
}

} // verus!

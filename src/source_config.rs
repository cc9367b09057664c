//! The typed configuration record of a module, and its decoding from the
//! abstract value of the module's exported `config` object.

use vstd::prelude::*;
use vstd::string::*;
use crate::js_value::{explain, render, str_of, ConstantValue, JsValue, ObjectPart};

verus! {

/// The execution environment that a module's compiled output targets.
#[derive(Clone, Copy, Debug, PartialEq, Eq, Structural)]
pub enum NextRuntime {
    NodeJs,
    Edge,
}

impl Default for NextRuntime {
    fn default() -> (r: NextRuntime)
        ensures
            r == NextRuntime::NodeJs,
    {
        NextRuntime::NodeJs
    }
}

/// Build-time options that a module declares in its `config` export.
#[derive(Clone, Debug, PartialEq, Eq)]
pub struct NextSourceConfig {
    pub runtime: NextRuntime,
    /// Middleware router matchers
    pub matcher: Option<Vec<String>>,
}

/// The record as mathematical values.
pub struct SourceConfigView {
    pub runtime: NextRuntime,
    pub matcher: Option<Seq<Seq<char>>>,
}

pub open spec fn strings_view(s: Seq<String>) -> Seq<Seq<char>> {
    s.map_values(|x: String| x@)
}

impl View for NextSourceConfig {
    type V = SourceConfigView;

    open spec fn view(&self) -> SourceConfigView {
        SourceConfigView {
            runtime: self.runtime,
            matcher: match self.matcher {
                Some(v) => Some(strings_view(v@)),
                None => None,
            },
        }
    }
}

pub open spec fn default_view() -> SourceConfigView {
    SourceConfigView { runtime: NextRuntime::NodeJs, matcher: None }
}

impl Default for NextSourceConfig {
    fn default() -> (r: NextSourceConfig)
        ensures
            r@ == default_view(),
    {
        NextSourceConfig { runtime: NextRuntime::NodeJs, matcher: None }
    }
}

/// How severe a reported issue is.
#[derive(Clone, Copy, Debug, PartialEq, Eq, Structural)]
pub enum IssueSeverity {
    Error,
    Warning,
}

/// What was wrong with the `config` export.
#[derive(Clone, Copy, Debug, PartialEq, Eq, Structural)]
pub enum ConfigProblem {
    MissingInitializer,
    NotAnObject,
    Spread,
    NonConstantKey,
    RuntimeNotConstant,
    RuntimeUnsupported,
    MatcherShape,
}

pub open spec fn message_of(p: ConfigProblem) -> Seq<char> {
    match p {
        ConfigProblem::MissingInitializer => "The exported config object must contain an variable initializer."@,
        ConfigProblem::NotAnObject => "The exported config object must be a valid object literal."@,
        ConfigProblem::Spread => "Spread properties are not supported in the config export."@,
        ConfigProblem::NonConstantKey => "The exported config object must not contain non-constant strings."@,
        ConfigProblem::RuntimeNotConstant => "The runtime property must be a constant string."@,
        ConfigProblem::RuntimeUnsupported => "The runtime property must be either \"nodejs\" or \"edge\"."@,
        ConfigProblem::MatcherShape => "The matcher property must be a string or array of strings"@,
    }
}

impl ConfigProblem {
    pub fn message(&self) -> (r: &'static str)
        ensures
            r@ == message_of(*self),
    {
        match self {
            ConfigProblem::MissingInitializer => "The exported config object must contain an variable initializer.",
            ConfigProblem::NotAnObject => "The exported config object must be a valid object literal.",
            ConfigProblem::Spread => "Spread properties are not supported in the config export.",
            ConfigProblem::NonConstantKey => "The exported config object must not contain non-constant strings.",
            ConfigProblem::RuntimeNotConstant => "The runtime property must be a constant string.",
            ConfigProblem::RuntimeUnsupported => "The runtime property must be either \"nodejs\" or \"edge\".",
            ConfigProblem::MatcherShape => "The matcher property must be a string or array of strings",
        }
    }
}

/// Depth to which an offending value is shown in an issue.
pub const EXPLAIN_DEPTH: usize = 2;

/// Detail text of an issue about value `v`.
pub open spec fn invalid_detail(p: ConfigProblem, v: JsValue) -> Seq<char> {
    message_of(p) + " Got "@ + render(v, EXPLAIN_DEPTH as nat) + "."@
}

/// A problem found while reading the `config` export of a source file.
#[derive(Clone, Debug, PartialEq, Eq)]
pub struct NextSourceConfigParsingIssue {
    /// The source file.
    pub ident: String,
    pub detail: String,
}

pub struct IssueView {
    pub ident: Seq<char>,
    pub detail: Seq<char>,
}

impl View for NextSourceConfigParsingIssue {
    type V = IssueView;

    open spec fn view(&self) -> IssueView {
        IssueView { ident: self.ident@, detail: self.detail@ }
    }
}

pub open spec fn issue_views(s: Seq<NextSourceConfigParsingIssue>) -> Seq<IssueView> {
    s.map_values(|i: NextSourceConfigParsingIssue| i@)
}

/// One issue of source `ident` per detail text, in order.
pub open spec fn issues_for(ident: Seq<char>, details: Seq<Seq<char>>) -> Seq<IssueView> {
    details.map_values(|d: Seq<char>| IssueView { ident, detail: d })
}

pub open spec fn issue_title() -> Seq<char> {
    "Unable to parse config export in source file"@
}

pub open spec fn issue_description() -> Seq<char> {
    "The exported configuration object in a source file need to have a very specific format from which some properties can be statically parsed at compiled-time."@
}

impl NextSourceConfigParsingIssue {
    pub fn severity(&self) -> (r: IssueSeverity)
        ensures
            r == IssueSeverity::Warning,
    {
        IssueSeverity::Warning
    }

    pub fn title(&self) -> (r: String)
        ensures
            r@ == issue_title(),
    {
        String::from_str("Unable to parse config export in source file")
    }

    pub fn category(&self) -> (r: String)
        ensures
            r@ == "parsing"@,
    {
        String::from_str("parsing")
    }

    /// The source file the issue is about.
    pub fn context(&self) -> (r: String)
        ensures
            r@ == self.ident@,
    {
        self.ident.clone()
    }

    pub fn description(&self) -> (r: String)
        ensures
            r@ == issue_description(),
    {
        String::from_str(
            "The exported configuration object in a source file need to have a very specific format from which some properties can be statically parsed at compiled-time.",
        )
    }

    pub fn detail(&self) -> (r: String)
        ensures
            r@ == self.detail@,
    {
        self.detail.clone()
    }
}

/// The runtime that a `runtime` string selects, if it names one.
pub open spec fn runtime_named(s: Seq<char>) -> Option<NextRuntime> {
    if s == "edge"@ || s == "experimental-edge"@ {
        Some(NextRuntime::Edge)
    } else if s == "nodejs"@ {
        Some(NextRuntime::NodeJs)
    } else {
        None
    }
}

/// The constant strings among `items`, in order.
pub open spec fn string_items(items: Seq<JsValue>) -> Seq<Seq<char>>
    decreases items.len(),
{
    if items.len() == 0 {
        Seq::empty()
    } else {
        let rest = string_items(items.drop_last());
        match str_of(items.last()) {
            Some(s) => rest.push(s),
            None => rest,
        }
    }
}

/// The matcher list that a `matcher` value gives, if it has a valid shape.
pub open spec fn matcher_of(v: JsValue) -> Option<Seq<Seq<char>>> {
    match v {
        JsValue::Constant(ConstantValue::Str(s)) => Some(seq![s@]),
        JsValue::Array(items) => Some(string_items(items@)),
        _ => None,
    }
}

/// The record after one part of the object has been read.
pub open spec fn apply_part(c: SourceConfigView, p: ObjectPart) -> SourceConfigView {
    match p {
        ObjectPart::Spread(_) => c,
        ObjectPart::KeyValue(k, v) => match str_of(k) {
            Some(key) => if key == "runtime"@ {
                match str_of(v) {
                    Some(s) => match runtime_named(s) {
                        Some(r) => SourceConfigView { runtime: r, matcher: c.matcher },
                        None => c,
                    },
                    None => c,
                }
            } else if key == "matcher"@ {
                match matcher_of(v) {
                    Some(m) => SourceConfigView { runtime: c.runtime, matcher: Some(m) },
                    None => c,
                }
            } else {
                c
            },
            None => c,
        },
    }
}

/// The record after all `parts` have been read in order, from the default.
pub open spec fn apply_parts(parts: Seq<ObjectPart>) -> SourceConfigView
    decreases parts.len(),
{
    if parts.len() == 0 {
        default_view()
    } else {
        apply_part(apply_parts(parts.drop_last()), parts.last())
    }
}

/// The record that a `config` value decodes to.
pub open spec fn decode(v: JsValue) -> SourceConfigView {
    match v {
        JsValue::Object(parts) => apply_parts(parts@),
        _ => default_view(),
    }
}

/// One issue text, naming the whole array `whole`, per item of `items` that
/// is not a constant string.
pub open spec fn array_issues(items: Seq<JsValue>, whole: JsValue) -> Seq<Seq<char>>
    decreases items.len(),
{
    if items.len() == 0 {
        Seq::empty()
    } else {
        let rest = array_issues(items.drop_last(), whole);
        if str_of(items.last()).is_some() {
            rest
        } else {
            rest.push(invalid_detail(ConfigProblem::MatcherShape, whole))
        }
    }
}

/// Issue texts for one part of the object `obj`.
pub open spec fn part_issues(p: ObjectPart, obj: JsValue) -> Seq<Seq<char>> {
    match p {
        ObjectPart::Spread(_) => seq![invalid_detail(ConfigProblem::Spread, obj)],
        ObjectPart::KeyValue(k, v) => match str_of(k) {
            None => seq![invalid_detail(ConfigProblem::NonConstantKey, k)],
            Some(key) => if key == "runtime"@ {
                match str_of(v) {
                    Some(s) => if runtime_named(s).is_some() {
                        Seq::empty()
                    } else {
                        seq![invalid_detail(ConfigProblem::RuntimeUnsupported, v)]
                    },
                    None => seq![invalid_detail(ConfigProblem::RuntimeNotConstant, v)],
                }
            } else if key == "matcher"@ {
                match v {
                    JsValue::Array(items) => array_issues(items@, v),
                    _ => if str_of(v).is_some() {
                        Seq::empty()
                    } else {
                        seq![invalid_detail(ConfigProblem::MatcherShape, v)]
                    },
                }
            } else {
                Seq::empty()
            },
        },
    }
}

/// Issue texts for all `parts` of the object `obj`, in order.
pub open spec fn parts_issues(parts: Seq<ObjectPart>, obj: JsValue) -> Seq<Seq<char>>
    decreases parts.len(),
{
    if parts.len() == 0 {
        Seq::empty()
    } else {
        parts_issues(parts.drop_last(), obj) + part_issues(parts.last(), obj)
    }
}

/// Issue texts that decoding a `config` value reports, in order.
pub open spec fn decode_issues(v: JsValue) -> Seq<Seq<char>> {
    match v {
        JsValue::Object(parts) => parts_issues(parts@, v),
        _ => seq![invalid_detail(ConfigProblem::NotAnObject, v)],
    }
}

proof fn lemma_issues_for_append(ident: Seq<char>, a: Seq<Seq<char>>, b: Seq<Seq<char>>)
    ensures
        issues_for(ident, a + b) == issues_for(ident, a) + issues_for(ident, b),
{
    assert(issues_for(ident, a + b) =~= issues_for(ident, a) + issues_for(ident, b));
}

proof fn lemma_no_new_issues(ident: Seq<char>, issues: Seq<NextSourceConfigParsingIssue>)
    ensures
        issue_views(issues) == issue_views(issues) + issues_for(ident, Seq::empty()),
{
    assert(issue_views(issues) =~= issue_views(issues) + issues_for(ident, Seq::empty()));
}

/// Appends to `issues` one issue of source `ident` about value `v`.
fn report(
    issues: &mut Vec<NextSourceConfigParsingIssue>,
    ident: &String,
    problem: ConfigProblem,
    v: &JsValue,
)
    ensures
        issue_views(final(issues)@) == issue_views(old(issues)@) + issues_for(
            ident@,
            seq![invalid_detail(problem, *v)],
        ),
{
    let shown = explain(v, EXPLAIN_DEPTH);
    let detail = String::from_str(problem.message()).concat(" Got ").concat(shown.as_str()).concat(
        ".",
    );
    let issue = NextSourceConfigParsingIssue { ident: ident.clone(), detail };
    let ghost before = issues@;
    issues.push(issue);
    assert(issue_views(issues@) =~= issue_views(before) + issues_for(
        ident@,
        seq![invalid_detail(problem, *v)],
    ));
}

/// Reads a `matcher` array: keeps its constant strings, reports each other item.
fn read_matcher_items(
    items: &Vec<JsValue>,
    whole: &JsValue,
    ident: &String,
    issues: &mut Vec<NextSourceConfigParsingIssue>,
) -> (r: Vec<String>)
    ensures
        strings_view(r@) == string_items(items@),
        issue_views(final(issues)@) == issue_views(old(issues)@) + issues_for(
            ident@,
            array_issues(items@, *whole),
        ),
{
    let mut matchers: Vec<String> = Vec::new();
    let mut i: usize = 0;
    while i < items.len()
        invariant
            i <= items@.len(),
            strings_view(matchers@) == string_items(items@.subrange(0, i as int)),
            issue_views(issues@) == issue_views(old(issues)@) + issues_for(
                ident@,
                array_issues(items@.subrange(0, i as int), *whole),
            ),
        decreases items@.len() - i,
    {
        let ghost prefix = items@.subrange(0, i + 1);
        assert(prefix.drop_last() =~= items@.subrange(0, i as int));
        let ghost prev = array_issues(items@.subrange(0, i as int), *whole);
        match items[i].as_str() {
            Some(s) => {
                let ghost before = matchers@;
                matchers.push(s.clone());
                assert(strings_view(matchers@) =~= strings_view(before).push(s@));
            },
            None => {
                report(issues, ident, ConfigProblem::MatcherShape, whole);
                proof {
                    lemma_issues_for_append(
                        ident@,
                        prev,
                        seq![invalid_detail(ConfigProblem::MatcherShape, *whole)],
                    );
                    assert(prev.push(invalid_detail(ConfigProblem::MatcherShape, *whole)) =~= prev
                        + seq![invalid_detail(ConfigProblem::MatcherShape, *whole)]);
                }
            },
        }
        i = i + 1;
    }
    assert(items@.subrange(0, items@.len() as int) =~= items@);
    matchers
}

/// Reads one part of the object `obj` into `config`.
fn read_part(
    config: &mut NextSourceConfig,
    part: &ObjectPart,
    obj: &JsValue,
    ident: &String,
    issues: &mut Vec<NextSourceConfigParsingIssue>,
)
    ensures
        final(config)@ == apply_part(old(config)@, *part),
        issue_views(final(issues)@) == issue_views(old(issues)@) + issues_for(
            ident@,
            part_issues(*part, *obj),
        ),
{
    match part {
        ObjectPart::Spread(_) => {
            report(issues, ident, ConfigProblem::Spread, obj);
        },
        ObjectPart::KeyValue(key, value) => {
            match key.as_str() {
                None => {
                    report(issues, ident, ConfigProblem::NonConstantKey, key);
                },
                Some(key) => {
                    if *key == String::from_str("runtime") {
                        match value.as_str() {
                            Some(name) => {
                                proof {
                                    lemma_no_new_issues(ident@, issues@);
                                }
                                if *name == String::from_str("edge") || *name == String::from_str(
                                    "experimental-edge",
                                ) {
                                    config.runtime = NextRuntime::Edge;
                                } else if *name == String::from_str("nodejs") {
                                    config.runtime = NextRuntime::NodeJs;
                                } else {
                                    report(issues, ident, ConfigProblem::RuntimeUnsupported, value);
                                }
                            },
                            None => {
                                report(issues, ident, ConfigProblem::RuntimeNotConstant, value);
                            },
                        }
                    } else if *key == String::from_str("matcher") {
                        match value {
                            JsValue::Array(items) => {
                                let m = read_matcher_items(items, value, ident, issues);
                                config.matcher = Some(m);
                            },
                            _ => {
                                match value.as_str() {
                                    Some(s) => {
                                        let mut m: Vec<String> = Vec::new();
                                        m.push(s.clone());
                                        assert(strings_view(m@) =~= seq![s@]);
                                        config.matcher = Some(m);
                                        proof {
                                            lemma_no_new_issues(ident@, issues@);
                                        }
                                    },
                                    None => {
                                        report(issues, ident, ConfigProblem::MatcherShape, value);
                                    },
                                }
                            },
                        }
                    } else {
                        proof {
                            lemma_no_new_issues(ident@, issues@);
                        }
                    }
                },
            }
        },
    }
}

/// Decodes the abstract value of a `config` export into a record, reading
/// every part of the object in order and appending one issue of source
/// `ident` to `issues` for each part it cannot use; no part stops the others.
pub fn parse_config_from_js_value(
    ident: &String,
    value: &JsValue,
    issues: &mut Vec<NextSourceConfigParsingIssue>,
) -> (config: NextSourceConfig)
    ensures
        config@ == decode(*value),
        issue_views(final(issues)@) == issue_views(old(issues)@) + issues_for(
            ident@,
            decode_issues(*value),
        ),
{
    let mut config = NextSourceConfig::default();
    match value {
        JsValue::Object(parts) => {
            let mut i: usize = 0;
            while i < parts.len()
                invariant
                    i <= parts@.len(),
                    config@ == apply_parts(parts@.subrange(0, i as int)),
                    issue_views(issues@) == issue_views(old(issues)@) + issues_for(
                        ident@,
                        parts_issues(parts@.subrange(0, i as int), *value),
                    ),
                decreases parts@.len() - i,
            {
                let ghost prefix = parts@.subrange(0, i + 1);
                assert(prefix.drop_last() =~= parts@.subrange(0, i as int));
                proof {
                    lemma_issues_for_append(
                        ident@,
                        parts_issues(parts@.subrange(0, i as int), *value),
                        part_issues(parts@[i as int], *value),
                    );
                }
                read_part(&mut config, &parts[i], value, ident, issues);
                i = i + 1;
            }
            assert(parts@.subrange(0, parts@.len() as int) =~= parts@);
        },
        _ => {
            report(issues, ident, ConfigProblem::NotAnObject, value);
        },
    }
    config
}

/// One declarator of an exported variable declaration: its name when the
/// binding is a plain identifier, and the abstract value of its initializer.
#[derive(Debug, PartialEq, Eq)]
pub struct VarDeclarator {
    pub name: Option<String>,
    pub init: Option<JsValue>,
}

/// A top-level item of a parsed module.
#[derive(Debug, PartialEq, Eq)]
pub enum ModuleItem {
    /// `export var|let|const ...` with its declarators in source order.
    ExportVar(Vec<VarDeclarator>),
    /// Anything else.
    Other,
}

/// Where the search for the `config` export stands: still searching, or
/// found its value; either way with the number of `config` declarators
/// without initializer met before.
pub enum Located {
    Searching(nat),
    Found(JsValue, nat),
}

pub open spec fn is_config_decl(d: VarDeclarator) -> bool {
    match d.name {
        Some(n) => n@ == "config"@,
        None => false,
    }
}

pub open spec fn locate_step(s: Located, d: VarDeclarator) -> Located {
    match s {
        Located::Found(_, _) => s,
        Located::Searching(n) => if is_config_decl(d) {
            match d.init {
                Some(v) => Located::Found(v, n),
                None => Located::Searching(n + 1),
            }
        } else {
            s
        },
    }
}

/// The search over declarators in source order: the first `config` with an
/// initializer wins, later ones are not looked at.
pub open spec fn locate(ds: Seq<VarDeclarator>) -> Located
    decreases ds.len(),
{
    if ds.len() == 0 {
        Located::Searching(0)
    } else {
        locate_step(locate(ds.drop_last()), ds.last())
    }
}

pub open spec fn decls_of(item: ModuleItem) -> Seq<VarDeclarator> {
    match item {
        ModuleItem::ExportVar(ds) => ds@,
        ModuleItem::Other => Seq::empty(),
    }
}

/// All exported variable declarators of a module, in source order.
pub open spec fn exported_decls(items: Seq<ModuleItem>) -> Seq<VarDeclarator>
    decreases items.len(),
{
    if items.len() == 0 {
        Seq::empty()
    } else {
        exported_decls(items.drop_last()) + decls_of(items.last())
    }
}

pub open spec fn missing_init_issues(n: nat) -> Seq<Seq<char>> {
    Seq::new(n, |i: int| message_of(ConfigProblem::MissingInitializer))
}

/// The record that a module's `config` export gives.
pub open spec fn source_config(items: Seq<ModuleItem>) -> SourceConfigView {
    match locate(exported_decls(items)) {
        Located::Found(v, _) => decode(v),
        Located::Searching(_) => default_view(),
    }
}

/// Issue texts that reading a module's `config` export reports, in order.
pub open spec fn source_issues(items: Seq<ModuleItem>) -> Seq<Seq<char>> {
    match locate(exported_decls(items)) {
        Located::Found(v, n) => missing_init_issues(n) + decode_issues(v),
        Located::Searching(n) => missing_init_issues(n),
    }
}

spec fn search_state(
    found: Option<&JsValue>,
    s: Located,
    ident: Seq<char>,
    before: Seq<IssueView>,
    after: Seq<IssueView>,
) -> bool {
    match s {
        Located::Searching(n) => found.is_none() && after == before + issues_for(
            ident,
            missing_init_issues(n),
        ),
        Located::Found(v, n) => found.is_some() && *found.unwrap() == v && after == before
            + issues_for(ident, missing_init_issues(n)),
    }
}

/// Finds the first exported `config` variable with an initializer and decodes
/// its value; each earlier `config` declarator without initializer adds an
/// issue of source `ident` to `issues`. Without one, the record is the default.
pub fn parse_config_from_source(
    ident: &String,
    items: &Vec<ModuleItem>,
    issues: &mut Vec<NextSourceConfigParsingIssue>,
) -> (config: NextSourceConfig)
    ensures
        config@ == source_config(items@),
        issue_views(final(issues)@) == issue_views(old(issues)@) + issues_for(
            ident@,
            source_issues(items@),
        ),
{
    let mut found: Option<&JsValue> = None;
    let mut i: usize = 0;
    while i < items.len()
        invariant
            i <= items@.len(),
            search_state(
                found,
                locate(exported_decls(items@.subrange(0, i as int))),
                ident@,
                issue_views(old(issues)@),
                issue_views(issues@),
            ),
        decreases items@.len() - i,
    {
        let ghost seen = exported_decls(items@.subrange(0, i as int));
        let ghost next = items@.subrange(0, i + 1);
        assert(next.drop_last() =~= items@.subrange(0, i as int));
        match &items[i] {
            ModuleItem::ExportVar(decls) => {
                let mut j: usize = 0;
                while j < decls.len()
                    invariant
                        j <= decls@.len(),
                        decls_of(items@[i as int]) == decls@,
                        search_state(
                            found,
                            locate(seen + decls@.subrange(0, j as int)),
                            ident@,
                            issue_views(old(issues)@),
                            issue_views(issues@),
                        ),
                    decreases decls@.len() - j,
                {
                    let ghost upto = seen + decls@.subrange(0, j + 1);
                    assert(upto.drop_last() =~= seen + decls@.subrange(0, j as int));
                    assert(upto.last() == decls@[j as int]);
                    let d = &decls[j];
                    if found.is_none() {
                        let is_config = match &d.name {
                            Some(n) => *n == String::from_str("config"),
                            None => false,
                        };
                        if is_config {
                            match &d.init {
                                Some(v) => {
                                    found = Some(v);
                                },
                                None => {
                                    let ghost before = issues@;
                                    let ghost n = match locate(
                                        seen + decls@.subrange(0, j as int),
                                    ) {
                                        Located::Searching(n) => n,
                                        Located::Found(_, n) => n,
                                    };
                                    let issue = NextSourceConfigParsingIssue {
                                        ident: ident.clone(),
                                        detail: String::from_str(
                                            ConfigProblem::MissingInitializer.message(),
                                        ),
                                    };
                                    issues.push(issue);
                                    assert(missing_init_issues(n + 1) =~= missing_init_issues(
                                        n,
                                    ).push(message_of(ConfigProblem::MissingInitializer)));
                                    assert(issue_views(issues@) =~= issue_views(before).push(
                                        IssueView {
                                            ident: ident@,
                                            detail: message_of(ConfigProblem::MissingInitializer),
                                        },
                                    ));
                                    assert(issues_for(ident@, missing_init_issues(n + 1))
                                        =~= issues_for(ident@, missing_init_issues(n)).push(
                                        IssueView {
                                            ident: ident@,
                                            detail: message_of(ConfigProblem::MissingInitializer),
                                        },
                                    ));
                                },
                            }
                        }
                    }
                    j = j + 1;
                }
                assert(decls@.subrange(0, decls@.len() as int) =~= decls@);
            },
            ModuleItem::Other => {
                assert(seen + decls_of(items@[i as int]) =~= seen);
            },
        }
        i = i + 1;
    }
    assert(items@.subrange(0, items@.len() as int) =~= items@);
    match found {
        Some(v) => {
            let ghost mid = issues@;
            let config = parse_config_from_js_value(ident, v, issues);
            proof {
                let n = match locate(exported_decls(items@)) {
                    Located::Searching(n) => n,
                    Located::Found(_, n) => n,
                };
                lemma_issues_for_append(ident@, missing_init_issues(n), decode_issues(*v));
            }
            config
        },
        None => NextSourceConfig::default(),
    }
}

/// Reading a module's `config` export depends on its items alone: equal
/// items give the equal record and the equal issue texts, in the same order.
pub proof fn lemma_source_config_deterministic(a: Seq<ModuleItem>, b: Seq<ModuleItem>)
    requires
        a == b,
    ensures
        source_config(a) == source_config(b),
        source_issues(a) == source_issues(b),
{
}

/// Reading an unchanged module again, into a fresh issue list, gives the
/// same record and the same issues as the run before: nothing carries over
/// from one run to the next.
pub proof fn lemma_rerun_reproduces_output(
    ident: Seq<char>,
    items: Seq<ModuleItem>,
    first: Seq<IssueView>,
    second: Seq<IssueView>,
)
    requires
        first == Seq::<IssueView>::empty() + issues_for(ident, source_issues(items)),
        second == Seq::<IssueView>::empty() + issues_for(ident, source_issues(items)),
    ensures
        first == second,
        first == issues_for(ident, source_issues(items)),
{
    assert(first =~= issues_for(ident, source_issues(items)));
}

/// A spread part changes nothing in the record and adds exactly one issue;
/// the parts after it are still read.
pub proof fn lemma_spread_is_skipped(parts: Seq<ObjectPart>, spread: JsValue, obj: JsValue)
    ensures
        apply_parts(parts.push(ObjectPart::Spread(spread))) == apply_parts(parts),
        parts_issues(parts.push(ObjectPart::Spread(spread)), obj) == parts_issues(parts, obj).push(
            invalid_detail(ConfigProblem::Spread, obj),
        ),
{
    let p = parts.push(ObjectPart::Spread(spread));
    assert(p.drop_last() =~= parts);
    assert(parts_issues(parts, obj) + seq![invalid_detail(ConfigProblem::Spread, obj)]
        =~= parts_issues(parts, obj).push(invalid_detail(ConfigProblem::Spread, obj)));
}

/// A part whose key is a constant string other than `runtime` and `matcher`
/// changes nothing and reports nothing.
pub proof fn lemma_other_keys_ignored(
    parts: Seq<ObjectPart>,
    key: JsValue,
    value: JsValue,
    obj: JsValue,
)
    requires
        str_of(key) is Some,
        str_of(key)->0 != "runtime"@,
        str_of(key)->0 != "matcher"@,
    ensures
        apply_parts(parts.push(ObjectPart::KeyValue(key, value))) == apply_parts(parts),
        parts_issues(parts.push(ObjectPart::KeyValue(key, value)), obj) == parts_issues(parts, obj),
{
    let p = parts.push(ObjectPart::KeyValue(key, value));
    assert(p.drop_last() =~= parts);
    assert(parts_issues(parts, obj) + Seq::empty() =~= parts_issues(parts, obj));
}

/// Every part of the object gets read: the issues of an object are those of
/// its first parts followed by those of its last part, and the record is
/// the last part applied to the record of the first ones.
pub proof fn lemma_parts_accumulate(parts: Seq<ObjectPart>, last: ObjectPart, obj: JsValue)
    ensures
        apply_parts(parts.push(last)) == apply_part(apply_parts(parts), last),
        parts_issues(parts.push(last), obj) == parts_issues(parts, obj) + part_issues(last, obj),
{
    assert(parts.push(last).drop_last() =~= parts);
}

} // verus!

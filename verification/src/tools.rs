//! The tools that the MCP server offers: the arguments each takes, the
//! command it runs, and the answer it gives for the command's outcome.
use vstd::prelude::*;

verus! {

/// A command of the component command handler, as a tool runs it.
#[derive(Debug)]
pub enum ToolCommand {
    /// Create a new component from `template` under `package_name`, where
    /// the name given is a package name.
    New { template: String, package_name: Option<String> },
    /// Update the existing component from `template` under `package_name`,
    /// where the name given is a package name.
    Update { template: String, package_name: Option<String> },
    /// Build the named components.
    Build { component_names: Vec<String> },
    /// List the templates that match `filter`.
    Templates { filter: Option<String> },
    /// Deploy the named components.
    Deploy { component_names: Vec<String> },
    /// List components, or the one named.
    List { component_name: Option<String> },
}

impl ToolCommand {
    /// Whether the answer to a successful run carries the lines that the
    /// command logged. Deployment answers with no content.
    pub fn reports_log(&self) -> (r: bool)
        ensures
            r == !(*self is Deploy),
    {
        match self {
            ToolCommand::Deploy { .. } => false,
            _ => true,
        }
    }
}

/// Whether `s` is a package name: two non-empty parts joined by a single colon.
pub open spec fn is_package_name(s: Seq<char>) -> bool {
    exists|i: int|
        0 < i < s.len() - 1 && s[i] == ':' && (forall|j: int| 0 <= j < s.len() && j != i ==> s[j] != ':')
}

/// The package name that `s` spells, if it spells one.
/// Calls `golem_templates::model::PackageName::from_string`, which splits the
/// text at colons and accepts exactly two non-empty parts, and prints the
/// result back with `to_string_with_colon`, which joins them with a colon:
/// the text given.
#[verifier::external_body]
pub fn checked_package_name(s: &str) -> (r: Option<String>)
    ensures
        r is Some <==> is_package_name(s@),
        r matches Some(t) ==> t@ == s@,
{
    golem_templates::model::PackageName::from_string(s).map(|p| p.to_string_with_colon())
}

/// The answer of a tool that ran its command.
#[derive(Debug)]
pub struct ToolResult {
    /// The text items of the answer.
    pub content: Vec<String>,
    pub is_error: Option<bool>,
}

/// The answer of a tool whose context or command failed.
#[derive(Debug)]
pub struct ToolError {
    pub message: String,
}

/// The answer to a tool call, given the outcome of creating the context
/// the command runs in, the outcome of the command, and the lines the
/// command logged. A failed context is answered with its error. Listing
/// templates is then answered with the logged lines whatever the listing
/// did; any other command is answered with its error where it failed, and
/// otherwise with the logged lines (none for a deployment).
pub fn tool_reply(
    command: &ToolCommand,
    context: Result<(), String>,
    outcome: Result<(), String>,
    log_lines: Vec<String>,
) -> (r: Result<ToolResult, ToolError>)
    ensures
        match context {
            Err(m) => r matches Err(e) && e.message == m,
            Ok(_) => if command is Templates {
                r matches Ok(t) && t.is_error is None && t.content@ == log_lines@
            } else {
                match outcome {
                    Err(m) => r matches Err(e) && e.message == m,
                    Ok(_) => r matches Ok(t) && t.is_error is None && t.content@ == (if command is Deploy {
                        Seq::empty()
                    } else {
                        log_lines@
                    }),
                }
            },
        },
{
    if let Err(m) = context {
        return Err(ToolError { message: m });
    }
    if let ToolCommand::Templates { .. } = command {
        return Ok(ToolResult { content: log_lines, is_error: None });
    }
    match outcome {
        Err(m) => Err(ToolError { message: m }),
        Ok(_) => {
            let content = if command.reports_log() { log_lines } else { Vec::new() };
            Ok(ToolResult { content, is_error: None })
        },
    }
}

/// Whether the lines that the command logged are taken for the answer:
/// after any run of the template listing, and after a successful run of a
/// command that reports them; never where the context was not created.
pub fn takes_log_lines(command: &ToolCommand, context_created: bool, succeeded: bool) -> (r: bool)
    ensures
        r == (context_created && (command is Templates || (succeeded && !(command is Deploy)))),
{
    if !context_created {
        return false;
    }
    match command {
        ToolCommand::Templates { .. } => true,
        _ => succeeded && command.reports_log(),
    }
}

/// `package_name` is the package name that `given` spells, or none where it spells none.
pub open spec fn package_name_matches(package_name: Option<String>, given: Seq<char>) -> bool {
    &&& (package_name is Some <==> is_package_name(given))
    &&& (package_name matches Some(p) ==> p@ == given)
}

/// A copy of `v`.
fn copy_strings(v: &Vec<String>) -> (r: Vec<String>)
    ensures
        r@ == v@,
{
    let mut r: Vec<String> = Vec::new();
    let mut i: usize = 0;
    while i < v.len()
        invariant
            i <= v@.len(),
            r@ == v@.subrange(0, i as int),
        decreases v@.len() - i,
    {
        r.push(v[i].clone());
        i = i + 1;
        assert(r@ =~= v@.subrange(0, i as int));
    }
    r
}

/// A copy of `o`.
fn copy_option(o: &Option<String>) -> (r: Option<String>)
    ensures
        r == *o,
{
    match o {
        Some(s) => Some(s.clone()),
        None => None,
    }
}

/// Create a new component with a template name and a component package name.
pub struct CreateNewComponentTool {
    template: String,
    component_package_name: String,
}

impl CreateNewComponentTool {
    pub closed spec fn template_spec(&self) -> String {
        self.template
    }

    pub closed spec fn package_spec(&self) -> String {
        self.component_package_name
    }

    pub fn new(template: String, component_package_name: String) -> (t: Self)
        ensures
            t.template_spec() == template,
            t.package_spec() == component_package_name,
    {
        CreateNewComponentTool { template, component_package_name }
    }

    pub fn template(&self) -> (r: &String)
        ensures
            *r == self.template_spec(),
    {
        &self.template
    }

    pub fn component_package_name(&self) -> (r: &String)
        ensures
            *r == self.package_spec(),
    {
        &self.component_package_name
    }

    /// Creates a new component from the template under the package name.
    pub fn command(&self) -> (c: ToolCommand)
        ensures
            c matches ToolCommand::New { template, package_name } && template == self.template_spec()
                && package_name_matches(package_name, self.package_spec()@),
    {
        ToolCommand::New {
            template: self.template.clone(),
            package_name: checked_package_name(self.component_package_name.as_str()),
        }
    }
}

/// Update a component with a full template name and a full component package name.
pub struct UpdateComponentTool {
    template: String,
    component_package_name: String,
}

impl UpdateComponentTool {
    pub closed spec fn template_spec(&self) -> String {
        self.template
    }

    pub closed spec fn package_spec(&self) -> String {
        self.component_package_name
    }

    pub fn new(template: String, component_package_name: String) -> (t: Self)
        ensures
            t.template_spec() == template,
            t.package_spec() == component_package_name,
    {
        UpdateComponentTool { template, component_package_name }
    }

    pub fn template(&self) -> (r: &String)
        ensures
            *r == self.template_spec(),
    {
        &self.template
    }

    pub fn component_package_name(&self) -> (r: &String)
        ensures
            *r == self.package_spec(),
    {
        &self.component_package_name
    }

    /// Updates the component under the package name from the template.
    pub fn command(&self) -> (c: ToolCommand)
        ensures
            c matches ToolCommand::Update { template, package_name } && template == self.template_spec()
                && package_name_matches(package_name, self.package_spec()@),
    {
        ToolCommand::Update {
            template: self.template.clone(),
            package_name: checked_package_name(self.component_package_name.as_str()),
        }
    }
}

/// Build components with their full names.
pub struct BuildComponentTool {
    component_names: Vec<String>,
}

impl BuildComponentTool {
    pub closed spec fn names_spec(&self) -> Seq<String> {
        self.component_names@
    }

    pub fn new(component_names: Vec<String>) -> (t: Self)
        ensures
            t.names_spec() == component_names@,
    {
        BuildComponentTool { component_names }
    }

    pub fn component_names(&self) -> (r: &Vec<String>)
        ensures
            r@ == self.names_spec(),
    {
        &self.component_names
    }

    /// Builds the named components, with default build arguments.
    pub fn command(&self) -> (c: ToolCommand)
        ensures
            c matches ToolCommand::Build { component_names } && component_names@ == self.names_spec(),
    {
        ToolCommand::Build { component_names: copy_strings(&self.component_names) }
    }
}

/// List the templates whose name or description holds a filter string.
pub struct FilterTemplatesComponentTool {
    filter: Option<String>,
}

impl FilterTemplatesComponentTool {
    pub closed spec fn filter_spec(&self) -> Option<String> {
        self.filter
    }

    pub fn new(filter: Option<String>) -> (t: Self)
        ensures
            t.filter_spec() == filter,
    {
        FilterTemplatesComponentTool { filter }
    }

    pub fn filter(&self) -> (r: &Option<String>)
        ensures
            *r == self.filter_spec(),
    {
        &self.filter
    }

    /// Lists the templates that match the filter.
    pub fn command(&self) -> (c: ToolCommand)
        ensures
            c == (ToolCommand::Templates { filter: self.filter_spec() }),
    {
        ToolCommand::Templates { filter: copy_option(&self.filter) }
    }
}

/// Deploy components with their full names.
pub struct DeployComponentTool {
    component_names: Vec<String>,
}

impl DeployComponentTool {
    pub closed spec fn names_spec(&self) -> Seq<String> {
        self.component_names@
    }

    pub fn new(component_names: Vec<String>) -> (t: Self)
        ensures
            t.names_spec() == component_names@,
    {
        DeployComponentTool { component_names }
    }

    pub fn component_names(&self) -> (r: &Vec<String>)
        ensures
            r@ == self.names_spec(),
    {
        &self.component_names
    }

    /// Deploys the named components, with default build and update arguments.
    pub fn command(&self) -> (c: ToolCommand)
        ensures
            c matches ToolCommand::Deploy { component_names } && component_names@ == self.names_spec(),
    {
        ToolCommand::Deploy { component_names: copy_strings(&self.component_names) }
    }
}

/// List components, or the one with the given full name.
pub struct ListComponentTool {
    component_name: Option<String>,
}

impl ListComponentTool {
    pub closed spec fn name_spec(&self) -> Option<String> {
        self.component_name
    }

    pub fn new(component_name: Option<String>) -> (t: Self)
        ensures
            t.name_spec() == component_name,
    {
        ListComponentTool { component_name }
    }

    pub fn component_name(&self) -> (r: &Option<String>)
        ensures
            *r == self.name_spec(),
    {
        &self.component_name
    }

    /// Lists the components, or the one named.
    pub fn command(&self) -> (c: ToolCommand)
        ensures
            c == (ToolCommand::List { component_name: self.name_spec() }),
    {
        ToolCommand::List { component_name: copy_option(&self.component_name) }
    }
}

} // verus!

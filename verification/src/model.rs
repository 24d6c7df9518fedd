//! The typed model of a configuration document.
//!
//! The types here are plain data with public fields. Each has a mathematical
//! model, its `deep_view`, in which a text is the sequence of its characters,
//! a list a sequence, and a map from names a mapping. The contracts of the
//! library are stated over these models. A default value holds nothing; a
//! clone holds what the value holds that it was made from.

use crate::merge::Rule;
use crate::string_map::StringMap;
use crate::string_set::StringSet;
use vstd::prelude::*;

verus! {

/// The status that a redirect has when the document gives none.
pub fn default_status() -> (status: u32)
    ensures
        status == 301,
{
    301
}

/// A whole configuration document.
#[derive(Debug, PartialEq)]
pub struct Config {
    /// The global build settings.
    pub build: Option<Build>,
    /// The overrides of each named context; a branch name is a context name.
    pub context: Option<StringMap<Context>>,
    /// The edge handlers and the paths that they are mounted under.
    pub edge_handlers: Vec<EdgeHandler>,
    /// The global settings of the functions.
    pub functions: Option<Functions>,
    /// The global header rules, first in precedence first.
    pub headers: Option<Vec<Header>>,
    /// The global redirect rules, first in precedence first.
    pub redirects: Option<Vec<Redirect>>,
    /// What turns the repository into a template.
    pub template: Option<Template>,
}

/// What a `Config` holds.
pub struct ConfigModel {
    pub build: Option<BuildModel>,
    pub context: Option<Map<Seq<char>, ContextModel>>,
    pub edge_handlers: Seq<EdgeHandlerModel>,
    pub functions: Option<FunctionsModel>,
    pub headers: Option<Seq<HeaderModel>>,
    pub redirects: Option<Seq<RedirectModel>>,
    pub template: Option<TemplateModel>,
}

impl DeepView for Config {
    type V = ConfigModel;

    open spec fn deep_view(&self) -> ConfigModel {
        ConfigModel {
            build: self.build.deep_view(),
            context: self.context.deep_view(),
            edge_handlers: self.edge_handlers.deep_view(),
            functions: self.functions.deep_view(),
            headers: self.headers.deep_view(),
            redirects: self.redirects.deep_view(),
            template: self.template.deep_view(),
        }
    }
}

impl Default for Config {
    /// A document that holds nothing.
    fn default() -> (config: Config)
        ensures
            config.deep_view() == (ConfigModel {
                build: None,
                context: None,
                edge_handlers: Seq::empty(),
                functions: None,
                headers: None,
                redirects: None,
                template: None,
            }),
    {
        let config = Config {
            build: None,
            context: None,
            edge_handlers: Vec::new(),
            functions: None,
            headers: None,
            redirects: None,
            template: None,
        };
        assert(config.edge_handlers.deep_view() =~= Seq::empty());
        config
    }
}

impl Clone for Config {
    fn clone(&self) -> (copy: Config)
        ensures
            copy.deep_view() == self.deep_view(),
    {
        let copy = Config {
            build: self.build.clone(),
            context: self.context.clone(),
            edge_handlers: self.edge_handlers.clone(),
            functions: self.functions.clone(),
            headers: self.headers.clone(),
            redirects: self.redirects.clone(),
            template: self.template.clone(),
        };
        assert(copy.context.deep_view() =~= self.context.deep_view());
        assert(copy.edge_handlers.deep_view() =~= self.edge_handlers.deep_view());
        assert(copy.headers.deep_view() =~= self.headers.deep_view());
        assert(copy.redirects.deep_view() =~= self.redirects.deep_view());
        copy
    }
}

/// Build settings.
#[derive(Debug, PartialEq)]
pub struct Build {
    pub base: Option<String>,
    pub command: Option<String>,
    pub functions: Option<String>,
    /// The environment variables of the build.
    pub environment: Option<StringMap<String>>,
    pub edge_handlers: Option<String>,
    pub publish: Option<String>,
}

/// What a `Build` holds.
pub struct BuildModel {
    pub base: Option<Seq<char>>,
    pub command: Option<Seq<char>>,
    pub functions: Option<Seq<char>>,
    pub environment: Option<Map<Seq<char>, Seq<char>>>,
    pub edge_handlers: Option<Seq<char>>,
    pub publish: Option<Seq<char>>,
}

impl DeepView for Build {
    type V = BuildModel;

    open spec fn deep_view(&self) -> BuildModel {
        BuildModel {
            base: self.base.deep_view(),
            command: self.command.deep_view(),
            functions: self.functions.deep_view(),
            environment: self.environment.deep_view(),
            edge_handlers: self.edge_handlers.deep_view(),
            publish: self.publish.deep_view(),
        }
    }
}

impl Default for Build {
    /// Build settings that hold nothing.
    fn default() -> (build: Build)
        ensures
            build.deep_view() == (BuildModel {
                base: None,
                command: None,
                functions: None,
                environment: None,
                edge_handlers: None,
                publish: None,
            }),
    {
        Build {
            base: None,
            command: None,
            functions: None,
            environment: None,
            edge_handlers: None,
            publish: None,
        }
    }
}

impl Clone for Build {
    fn clone(&self) -> (copy: Build)
        ensures
            copy.deep_view() == self.deep_view(),
    {
        let copy = Build {
            base: self.base.clone(),
            command: self.command.clone(),
            functions: self.functions.clone(),
            environment: self.environment.clone(),
            edge_handlers: self.edge_handlers.clone(),
            publish: self.publish.clone(),
        };
        assert(copy.environment.deep_view() =~= self.environment.deep_view());
        copy
    }
}

/// What one context overrides: build settings, and rules that replace or
/// precede the global ones.
#[derive(Debug, PartialEq)]
pub struct Context {
    /// The build settings of the context.
    pub build: Build,
    /// The settings of the functions in the context.
    pub functions: Option<ContextFunctions>,
    /// The redirect rules of the context.
    pub redirects: Option<Vec<Redirect>>,
    /// The header rules of the context.
    pub headers: Option<Vec<Header>>,
}

/// What a `Context` holds.
pub struct ContextModel {
    pub build: BuildModel,
    pub functions: Option<ContextFunctionsModel>,
    pub redirects: Option<Seq<RedirectModel>>,
    pub headers: Option<Seq<HeaderModel>>,
}

impl DeepView for Context {
    type V = ContextModel;

    open spec fn deep_view(&self) -> ContextModel {
        ContextModel {
            build: self.build.deep_view(),
            functions: self.functions.deep_view(),
            redirects: self.redirects.deep_view(),
            headers: self.headers.deep_view(),
        }
    }
}

impl Default for Context {
    /// A context that overrides nothing.
    fn default() -> (context: Context)
        ensures
            context.deep_view() == (ContextModel {
                build: BuildModel {
                    base: None,
                    command: None,
                    functions: None,
                    environment: None,
                    edge_handlers: None,
                    publish: None,
                },
                functions: None,
                redirects: None,
                headers: None,
            }),
    {
        Context { build: Build::default(), functions: None, redirects: None, headers: None }
    }
}

impl Clone for Context {
    fn clone(&self) -> (copy: Context)
        ensures
            copy.deep_view() == self.deep_view(),
    {
        let copy = Context {
            build: self.build.clone(),
            functions: self.functions.clone(),
            redirects: self.redirects.clone(),
            headers: self.headers.clone(),
        };
        assert(copy.redirects.deep_view() =~= self.redirects.deep_view());
        assert(copy.headers.deep_view() =~= self.headers.deep_view());
        copy
    }
}

/// Settings of the functions.
#[derive(Debug, PartialEq)]
pub struct Functions {
    pub directory: Option<String>,
    pub external_node_modules: Vec<String>,
    pub ignored_node_modules: Vec<String>,
    pub included_files: Vec<String>,
    pub node_bundler: Option<Bundler>,
}

/// What `Functions` hold.
pub struct FunctionsModel {
    pub directory: Option<Seq<char>>,
    pub external_node_modules: Seq<Seq<char>>,
    pub ignored_node_modules: Seq<Seq<char>>,
    pub included_files: Seq<Seq<char>>,
    pub node_bundler: Option<Bundler>,
}

impl DeepView for Functions {
    type V = FunctionsModel;

    open spec fn deep_view(&self) -> FunctionsModel {
        FunctionsModel {
            directory: self.directory.deep_view(),
            external_node_modules: self.external_node_modules.deep_view(),
            ignored_node_modules: self.ignored_node_modules.deep_view(),
            included_files: self.included_files.deep_view(),
            node_bundler: self.node_bundler,
        }
    }
}

impl Default for Functions {
    /// Settings that hold nothing.
    fn default() -> (functions: Functions)
        ensures
            functions.deep_view() == (FunctionsModel {
                directory: None,
                external_node_modules: Seq::empty(),
                ignored_node_modules: Seq::empty(),
                included_files: Seq::empty(),
                node_bundler: None,
            }),
    {
        let functions = Functions {
            directory: None,
            external_node_modules: Vec::new(),
            ignored_node_modules: Vec::new(),
            included_files: Vec::new(),
            node_bundler: None,
        };
        assert(functions.external_node_modules.deep_view() =~= Seq::empty());
        assert(functions.ignored_node_modules.deep_view() =~= Seq::empty());
        assert(functions.included_files.deep_view() =~= Seq::empty());
        functions
    }
}

impl Clone for Functions {
    fn clone(&self) -> (copy: Functions)
        ensures
            copy.deep_view() == self.deep_view(),
    {
        let copy = Functions {
            directory: self.directory.clone(),
            external_node_modules: self.external_node_modules.clone(),
            ignored_node_modules: self.ignored_node_modules.clone(),
            included_files: self.included_files.clone(),
            node_bundler: self.node_bundler,
        };
        assert(copy.external_node_modules.deep_view() =~= self.external_node_modules.deep_view());
        assert(copy.ignored_node_modules.deep_view() =~= self.ignored_node_modules.deep_view());
        assert(copy.included_files.deep_view() =~= self.included_files.deep_view());
        copy
    }
}

/// Settings of the functions within a context, where the directory cannot
/// be set.
#[derive(Debug, PartialEq)]
pub struct ContextFunctions {
    pub external_node_modules: Vec<String>,
    pub ignored_node_modules: Vec<String>,
    pub included_files: Vec<String>,
    pub node_bundler: Option<Bundler>,
}

/// What `ContextFunctions` hold.
pub struct ContextFunctionsModel {
    pub external_node_modules: Seq<Seq<char>>,
    pub ignored_node_modules: Seq<Seq<char>>,
    pub included_files: Seq<Seq<char>>,
    pub node_bundler: Option<Bundler>,
}

impl DeepView for ContextFunctions {
    type V = ContextFunctionsModel;

    open spec fn deep_view(&self) -> ContextFunctionsModel {
        ContextFunctionsModel {
            external_node_modules: self.external_node_modules.deep_view(),
            ignored_node_modules: self.ignored_node_modules.deep_view(),
            included_files: self.included_files.deep_view(),
            node_bundler: self.node_bundler,
        }
    }
}

impl Default for ContextFunctions {
    /// Settings that hold nothing.
    fn default() -> (functions: ContextFunctions)
        ensures
            functions.deep_view() == (ContextFunctionsModel {
                external_node_modules: Seq::empty(),
                ignored_node_modules: Seq::empty(),
                included_files: Seq::empty(),
                node_bundler: None,
            }),
    {
        let functions = ContextFunctions {
            external_node_modules: Vec::new(),
            ignored_node_modules: Vec::new(),
            included_files: Vec::new(),
            node_bundler: None,
        };
        assert(functions.external_node_modules.deep_view() =~= Seq::empty());
        assert(functions.ignored_node_modules.deep_view() =~= Seq::empty());
        assert(functions.included_files.deep_view() =~= Seq::empty());
        functions
    }
}

impl Clone for ContextFunctions {
    fn clone(&self) -> (copy: ContextFunctions)
        ensures
            copy.deep_view() == self.deep_view(),
    {
        let copy = ContextFunctions {
            external_node_modules: self.external_node_modules.clone(),
            ignored_node_modules: self.ignored_node_modules.clone(),
            included_files: self.included_files.clone(),
            node_bundler: self.node_bundler,
        };
        assert(copy.external_node_modules.deep_view() =~= self.external_node_modules.deep_view());
        assert(copy.ignored_node_modules.deep_view() =~= self.ignored_node_modules.deep_view());
        assert(copy.included_files.deep_view() =~= self.included_files.deep_view());
        copy
    }
}

/// The bundler that builds the functions.
#[derive(Clone, Copy, Debug, Eq, Hash, PartialEq)]
pub enum Bundler {
    Esbuild,
    Nft,
    Zisi,
}

/// A redirect rule. Its merge key is `from`.
#[derive(Debug, PartialEq)]
pub struct Redirect {
    /// The source path pattern.
    pub from: String,
    /// The destination.
    pub to: Option<String>,
    pub status: u32,
    pub force: bool,
    /// Headers to attach.
    pub headers: Option<StringMap<String>>,
    /// Query parameters to match.
    pub query: Option<StringMap<String>>,
    /// Conditions to match, each a set of accepted values.
    pub conditions: Option<StringMap<StringSet>>,
    pub signed: Option<String>,
    pub edge_handler: Option<String>,
}

/// What a `Redirect` holds.
pub struct RedirectModel {
    pub from: Seq<char>,
    pub to: Option<Seq<char>>,
    pub status: u32,
    pub force: bool,
    pub headers: Option<Map<Seq<char>, Seq<char>>>,
    pub query: Option<Map<Seq<char>, Seq<char>>>,
    pub conditions: Option<Map<Seq<char>, Set<Seq<char>>>>,
    pub signed: Option<Seq<char>>,
    pub edge_handler: Option<Seq<char>>,
}

impl DeepView for Redirect {
    type V = RedirectModel;

    open spec fn deep_view(&self) -> RedirectModel {
        RedirectModel {
            from: self.from@,
            to: self.to.deep_view(),
            status: self.status,
            force: self.force,
            headers: self.headers.deep_view(),
            query: self.query.deep_view(),
            conditions: self.conditions.deep_view(),
            signed: self.signed.deep_view(),
            edge_handler: self.edge_handler.deep_view(),
        }
    }
}

impl Default for Redirect {
    /// A redirect with an empty source, no destination, the default status
    /// and nothing else set.
    fn default() -> (redirect: Redirect)
        ensures
            redirect.deep_view() == (RedirectModel {
                from: Seq::empty(),
                to: None,
                status: 301,
                force: false,
                headers: None,
                query: None,
                conditions: None,
                signed: None,
                edge_handler: None,
            }),
    {
        Redirect {
            from: String::new(),
            to: None,
            status: default_status(),
            force: false,
            signed: None,
            conditions: None,
            query: None,
            headers: None,
            edge_handler: None,
        }
    }
}

impl Clone for Redirect {
    fn clone(&self) -> (copy: Redirect)
        ensures
            copy.deep_view() == self.deep_view(),
    {
        let copy = Redirect {
            from: self.from.clone(),
            to: self.to.clone(),
            status: self.status,
            force: self.force,
            headers: self.headers.clone(),
            query: self.query.clone(),
            conditions: self.conditions.clone(),
            signed: self.signed.clone(),
            edge_handler: self.edge_handler.clone(),
        };
        assert(copy.headers.deep_view() =~= self.headers.deep_view());
        assert(copy.query.deep_view() =~= self.query.deep_view());
        assert(copy.conditions.deep_view() =~= self.conditions.deep_view());
        copy
    }
}

impl Rule for Redirect {
    open spec fn key(model: RedirectModel) -> Seq<char> {
        model.from
    }

    fn merge_key(&self) -> (key: &str) {
        self.from.as_str()
    }

    fn duplicate(&self) -> (copy: Redirect) {
        self.clone()
    }
}

/// A header rule: the response headers of the paths that `path` matches.
/// Its merge key is `path`.
#[derive(Debug, PartialEq)]
pub struct Header {
    /// The path pattern.
    pub path: String,
    /// The values of each header by its name.
    pub headers: StringMap<HeaderValues>,
}

/// What a `Header` holds.
pub struct HeaderModel {
    pub path: Seq<char>,
    pub headers: Map<Seq<char>, Seq<Seq<char>>>,
}

impl DeepView for Header {
    type V = HeaderModel;

    open spec fn deep_view(&self) -> HeaderModel {
        HeaderModel { path: self.path@, headers: self.headers.deep_view() }
    }
}

impl Default for Header {
    /// A rule with an empty path and no headers.
    fn default() -> (header: Header)
        ensures
            header.deep_view() == (HeaderModel { path: Seq::empty(), headers: Map::empty() }),
    {
        let header = Header { path: String::new(), headers: StringMap::new() };
        assert(header.headers.deep_view() =~= Map::empty());
        header
    }
}

impl Clone for Header {
    fn clone(&self) -> (copy: Header)
        ensures
            copy.deep_view() == self.deep_view(),
    {
        let copy = Header { path: self.path.clone(), headers: self.headers.clone() };
        assert(copy.headers.deep_view() =~= self.headers.deep_view());
        copy
    }
}

impl Rule for Header {
    open spec fn key(model: HeaderModel) -> Seq<char> {
        model.path
    }

    fn merge_key(&self) -> (key: &str) {
        self.path.as_str()
    }

    fn duplicate(&self) -> (copy: Header) {
        self.clone()
    }
}

/// The values of one response header.
#[derive(Debug, PartialEq)]
pub struct HeaderValues {
    pub values: Vec<String>,
}

impl DeepView for HeaderValues {
    type V = Seq<Seq<char>>;

    /// The values, in order.
    open spec fn deep_view(&self) -> Seq<Seq<char>> {
        self.values.deep_view()
    }
}

impl Default for HeaderValues {
    /// No values.
    fn default() -> (values: HeaderValues)
        ensures
            values.deep_view() == Seq::<Seq<char>>::empty(),
    {
        let values = HeaderValues { values: Vec::new() };
        assert(values.deep_view() =~= Seq::<Seq<char>>::empty());
        values
    }
}

impl Clone for HeaderValues {
    fn clone(&self) -> (copy: HeaderValues)
        ensures
            copy.deep_view() == self.deep_view(),
    {
        let copy = HeaderValues { values: self.values.clone() };
        assert(copy.deep_view() =~= self.deep_view());
        copy
    }
}

/// What turns a repository into a template.
#[derive(Debug, PartialEq)]
pub struct Template {
    /// The incoming hooks.
    pub hooks: Option<Vec<String>>,
    /// The environment variables that the template asks for.
    pub environment: Option<StringMap<String>>,
}

/// What a `Template` holds.
pub struct TemplateModel {
    pub hooks: Option<Seq<Seq<char>>>,
    pub environment: Option<Map<Seq<char>, Seq<char>>>,
}

impl DeepView for Template {
    type V = TemplateModel;

    open spec fn deep_view(&self) -> TemplateModel {
        TemplateModel {
            hooks: self.hooks.deep_view(),
            environment: self.environment.deep_view(),
        }
    }
}

impl Default for Template {
    /// A template that holds nothing.
    fn default() -> (template: Template)
        ensures
            template.deep_view() == (TemplateModel { hooks: None, environment: None }),
    {
        Template { hooks: None, environment: None }
    }
}

impl Clone for Template {
    fn clone(&self) -> (copy: Template)
        ensures
            copy.deep_view() == self.deep_view(),
    {
        let copy = Template { hooks: self.hooks.clone(), environment: self.environment.clone() };
        assert(copy.hooks.deep_view() =~= self.hooks.deep_view());
        assert(copy.environment.deep_view() =~= self.environment.deep_view());
        copy
    }
}

/// The mount of an edge handler under a path.
#[derive(Debug, PartialEq)]
pub struct EdgeHandler {
    /// The name of the edge handler to run.
    pub handler: String,
    /// The path that it is mounted under. Of several that match, the first
    /// from the top is taken.
    pub path: String,
}

/// What an `EdgeHandler` holds.
pub struct EdgeHandlerModel {
    pub handler: Seq<char>,
    pub path: Seq<char>,
}

impl DeepView for EdgeHandler {
    type V = EdgeHandlerModel;

    open spec fn deep_view(&self) -> EdgeHandlerModel {
        EdgeHandlerModel { handler: self.handler@, path: self.path@ }
    }
}

impl Default for EdgeHandler {
    /// A mount with an empty name and an empty path.
    fn default() -> (mount: EdgeHandler)
        ensures
            mount.deep_view() == (EdgeHandlerModel { handler: Seq::empty(), path: Seq::empty() }),
    {
        EdgeHandler { handler: String::new(), path: String::new() }
    }
}

impl Clone for EdgeHandler {
    fn clone(&self) -> (copy: EdgeHandler)
        ensures
            copy.deep_view() == self.deep_view(),
    {
        EdgeHandler { handler: self.handler.clone(), path: self.path.clone() }
    }
}

} // verus!

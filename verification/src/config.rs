//! Site configuration: the directory layout and serving options. Loading
//! and defaulting the configuration file is an outside concern; this module
//! holds the resolved shape and the path-joining policy.

use vstd::prelude::*;
use vstd::string::StringExecFns;

use crate::textops::concat3;

verus! {

/// The template language a site renders with.
#[derive(Debug, Clone, PartialEq, Eq, Structural)]
pub enum TemplateLang {
    Liquid,
}

/// Image-processing options.
#[derive(Debug, Clone)]
pub struct ImageConfig {
    pub quality: u8,
}

impl Default for ImageConfig {
    fn default() -> (r: Self)
        ensures
            r.quality == 83,
    {
        ImageConfig { quality: 83 }
    }
}

/// Options of the dev server: what the watcher ignores, and where to bind.
#[derive(Debug, Clone)]
pub struct ServeConfig {
    pub watch_excludes: Vec<String>,
    pub address: String,
    pub npm_build: bool,
}

impl Default for ServeConfig {
    fn default() -> (r: Self)
        ensures
            r.watch_excludes@.len() == 3,
            r.watch_excludes@[0]@ == ".git"@,
            r.watch_excludes@[1]@ == "node_modules"@,
            r.watch_excludes@[2]@ == "site"@,
            r.address@ == "localhost:8080"@,
            r.npm_build == false,
    {
        let mut watch_excludes: Vec<String> = Vec::new();
        watch_excludes.push(String::from_str(".git"));
        watch_excludes.push(String::from_str("node_modules"));
        watch_excludes.push(String::from_str("site"));
        ServeConfig { watch_excludes, address: String::from_str("localhost:8080"), npm_build: false }
    }
}

/// The resolved site configuration. The directory fields hold absolute
/// paths once `resolve` has joined them onto the base directory.
#[derive(Debug, Clone)]
pub struct WeaverConfig {
    pub version: String,
    pub base_dir: String,
    pub content_dir: String,
    pub base_url: String,
    pub partials_dir: String,
    pub public_dir: String,
    pub template_dir: String,
    pub build_dir: String,
    pub templating_language: TemplateLang,
    pub image_config: ImageConfig,
    pub serve_config: ServeConfig,
    pub syntax_theme: String,
}

impl WeaverConfig {
    /// The defaults used when no configuration file is given, rooted at
    /// `base_dir` (directory fields still relative; see `resolve`).
    pub fn defaults_at(base_dir: String) -> (r: Self)
        ensures
            r.version@ == "1"@,
            r.base_dir == base_dir,
            r.content_dir@ == "content"@,
            r.base_url@ == "localhost:8080"@,
            r.partials_dir@ == "partials"@,
            r.public_dir@ == "public"@,
            r.template_dir@ == "templates"@,
            r.build_dir@ == "site"@,
            r.templating_language is Liquid,
            r.image_config.quality == 83,
            r.syntax_theme@ == "base16-ocean.dark"@,
    {
        WeaverConfig {
            version: String::from_str("1"),
            base_dir,
            content_dir: String::from_str("content"),
            base_url: String::from_str("localhost:8080"),
            partials_dir: String::from_str("partials"),
            public_dir: String::from_str("public"),
            template_dir: String::from_str("templates"),
            build_dir: String::from_str("site"),
            templating_language: TemplateLang::Liquid,
            image_config: Default::default(),
            serve_config: Default::default(),
            syntax_theme: String::from_str("base16-ocean.dark"),
        }
    }

    /// Root every directory of a user-supplied configuration under
    /// `base_dir`: `dir` becomes `{base_dir}/{dir}`.
    pub fn resolve(base_dir: &str, user: WeaverConfig) -> (r: Self)
        ensures
            r.base_dir@ == base_dir@,
            r.content_dir@ == base_dir@ + "/"@ + user.content_dir@,
            r.partials_dir@ == base_dir@ + "/"@ + user.partials_dir@,
            r.public_dir@ == base_dir@ + "/"@ + user.public_dir@,
            r.build_dir@ == base_dir@ + "/"@ + user.build_dir@,
            r.template_dir@ == base_dir@ + "/"@ + user.template_dir@,
            r.version == user.version,
            r.base_url == user.base_url,
            r.templating_language == user.templating_language,
            r.image_config == user.image_config,
            r.serve_config == user.serve_config,
            r.syntax_theme == user.syntax_theme,
    {
        WeaverConfig {
            version: user.version,
            base_dir: String::from_str(base_dir),
            content_dir: concat3(base_dir, "/", user.content_dir.as_str()),
            base_url: user.base_url,
            partials_dir: concat3(base_dir, "/", user.partials_dir.as_str()),
            public_dir: concat3(base_dir, "/", user.public_dir.as_str()),
            template_dir: concat3(base_dir, "/", user.template_dir.as_str()),
            build_dir: concat3(base_dir, "/", user.build_dir.as_str()),
            templating_language: user.templating_language,
            image_config: user.image_config,
            serve_config: user.serve_config,
            syntax_theme: user.syntax_theme,
        }
    }
}

} // verus!

//! The project-wide configuration and the render context of the site
//! index.

use vstd::prelude::*;

use crate::context::{ContextValue, ContextValueView, RenderContext};
use crate::droplet::{Droplet, DropletView};
use crate::errors::Errors;

verus! {

/// Options for extra per-author and per-tag index pages.  The
/// configuration declares them; the core pipeline does not use them.
pub struct SpindriftBuildOptions {
    /// Whether a separate index should be made for each author.
    pub build_posts_by_author: bool,
    /// Whether a separate index should be made for each tag.
    pub build_posts_by_tag: bool,
}

impl SpindriftBuildOptions {
    /// The per-author default when the configuration is silent.
    pub fn default_posts_by_author() -> (r: bool)
        ensures
            r == false,
    {
        false
    }

    /// The per-tag default when the configuration is silent.
    pub fn default_posts_by_tag() -> (r: bool)
        ensures
            r == true,
    {
        true
    }
}

impl Default for SpindriftBuildOptions {
    /// Authors get no extra index by default; tags do.
    fn default() -> (r: Self)
        ensures
            r.build_posts_by_author == false,
            r.build_posts_by_tag == true,
    {
        SpindriftBuildOptions { build_posts_by_author: false, build_posts_by_tag: true }
    }
}

/// The project configuration.
pub struct SpindriftConfig {
    /// The project-wide author.  Declared, but the pipeline does not
    /// apply it to posts that lack one.
    pub author: Option<String>,
    /// The copyright holder of the content.
    pub copyright: Option<String>,
    /// The description of the site.
    pub description: Option<String>,
    /// The name of the site, shown on the index page.
    pub project_name: String,
    /// The base url of the site.
    pub base_path: String,
    /// Options for extra index pages.
    pub build_options: SpindriftBuildOptions,
}

/// The mathematical value of a `SpindriftConfig`.
pub struct SpindriftConfigView {
    pub author: Option<Seq<char>>,
    pub copyright: Option<Seq<char>>,
    pub description: Option<Seq<char>>,
    pub project_name: Seq<char>,
    pub base_path: Seq<char>,
    pub build_posts_by_author: bool,
    pub build_posts_by_tag: bool,
}

impl View for SpindriftConfig {
    type V = SpindriftConfigView;

    open spec fn view(&self) -> SpindriftConfigView {
        SpindriftConfigView {
            author: match self.author {
                Some(a) => Some(a@),
                None => None,
            },
            copyright: match self.copyright {
                Some(c) => Some(c@),
                None => None,
            },
            description: match self.description {
                Some(d) => Some(d@),
                None => None,
            },
            project_name: self.project_name@,
            base_path: self.base_path@,
            build_posts_by_author: self.build_options.build_posts_by_author,
            build_posts_by_tag: self.build_options.build_posts_by_tag,
        }
    }
}

/// The loaded project: its configuration.
pub struct Spindrift {
    pub config: SpindriftConfig,
}

impl View for Spindrift {
    type V = SpindriftConfigView;

    open spec fn view(&self) -> SpindriftConfigView {
        self.config@
    }
}

impl Spindrift {
    /// Wraps a loaded configuration; never fails.
    pub fn new(config: SpindriftConfig) -> (r: Result<Spindrift, Errors>)
        ensures
            r is Ok,
            r->Ok_0@ == config@,
    {
        Ok(Spindrift { config })
    }

    /// The render context entries of the site index: the rendered
    /// posts first, then the optional description and author, then
    /// the project name and base path.
    pub open spec fn spec_context(self, droplets: Seq<DropletView>) -> Seq<
        (Seq<char>, ContextValueView),
    > {
        seq![("droplets"@, ContextValueView::Posts(droplets))] + (match self.config.description {
            Some(d) => seq![("description"@, ContextValueView::Text(d@))],
            None => Seq::empty(),
        }) + (match self.config.author {
            Some(a) => seq![("author"@, ContextValueView::Text(a@))],
            None => Seq::empty(),
        }) + seq![
            ("project_name"@, ContextValueView::Text(self.config.project_name@)),
            ("base_path"@, ContextValueView::Text(self.config.base_path@)),
        ]
    }

    /// Builds the render context for the site index from the rendered
    /// posts.
    pub fn as_context(&self, droplets: Vec<Droplet>) -> (r: RenderContext)
        ensures
            r@ == self.spec_context(droplets@.map(|i: int, d: Droplet| d@)),
    {
        let ghost dv = droplets@.map(|i: int, d: Droplet| d@);
        let mut ctx = RenderContext::new();
        ctx.insert(String::from_str("droplets"), ContextValue::Posts(droplets));
        match &self.config.description {
            Some(d) => {
                ctx.insert(String::from_str("description"), ContextValue::Text(d.clone()));
            },
            None => {},
        }
        match &self.config.author {
            Some(a) => {
                ctx.insert(String::from_str("author"), ContextValue::Text(a.clone()));
            },
            None => {},
        }
        ctx.insert(String::from_str("project_name"), ContextValue::Text(
            self.config.project_name.clone(),
        ));
        ctx.insert(String::from_str("base_path"), ContextValue::Text(
            self.config.base_path.clone(),
        ));
        proof {
            assert(ctx@ =~= self.spec_context(dv));
        }
        ctx
    }
}

} // verus!

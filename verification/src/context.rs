//! The render context: the key-value data handed to the template
//! collaborator for one render operation.

use vstd::prelude::*;

use crate::droplet::{Droplet, DropletMeta, DropletMetaView, DropletView};

verus! {

/// One value of a render context.
pub enum ContextValue {
    /// A plain text field.
    Text(String),
    /// A post's metadata, handed to the template whole.
    Meta(DropletMeta),
    /// The list of rendered posts, for the site index.
    Posts(Vec<Droplet>),
}

/// The mathematical value of a `ContextValue`.
pub enum ContextValueView {
    Text(Seq<char>),
    Meta(DropletMetaView),
    Posts(Seq<DropletView>),
}

impl View for ContextValue {
    type V = ContextValueView;

    open spec fn view(&self) -> ContextValueView {
        match self {
            ContextValue::Text(s) => ContextValueView::Text(s@),
            ContextValue::Meta(m) => ContextValueView::Meta(m@),
            ContextValue::Posts(v) => ContextValueView::Posts(
                v@.map(|i: int, d: Droplet| d@),
            ),
        }
    }
}

/// One key-value entry of a render context.
pub struct ContextEntry {
    pub key: String,
    pub value: ContextValue,
}

impl View for ContextEntry {
    type V = (Seq<char>, ContextValueView);

    open spec fn view(&self) -> (Seq<char>, ContextValueView) {
        (self.key@, self.value@)
    }
}

/// The data for one render: a list of entries whose keys are distinct
/// by construction; their order carries no meaning for the template.
pub struct RenderContext {
    pub entries: Vec<ContextEntry>,
}

impl View for RenderContext {
    type V = Seq<(Seq<char>, ContextValueView)>;

    open spec fn view(&self) -> Seq<(Seq<char>, ContextValueView)> {
        self.entries@.map(|i: int, e: ContextEntry| e@)
    }
}

impl RenderContext {
    /// Whether some entry carries this key.
    pub open spec fn spec_has_key(self, k: Seq<char>) -> bool {
        exists|i: int| 0 <= i < self@.len() && #[trigger] self@[i].0 == k
    }

    /// An empty context.
    pub fn new() -> (r: RenderContext)
        ensures
            r@ == Seq::<(Seq<char>, ContextValueView)>::empty(),
    {
        let r = RenderContext { entries: Vec::new() };
        proof {
            assert(r@ =~= Seq::<(Seq<char>, ContextValueView)>::empty());
        }
        r
    }

    /// Appends one entry at the end.
    pub fn insert(&mut self, key: String, value: ContextValue)
        ensures
            final(self)@ == old(self)@ + seq![(key@, value@)],
    {
        let ghost k: Seq<char> = key@;
        let ghost v: ContextValueView = value@;
        self.entries.push(ContextEntry { key, value });
        proof {
            assert(self@ =~= old(self)@ + seq![(k, v)]);
        }
    }
}

} // verus!

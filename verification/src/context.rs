//! What a command runs with.

use vstd::prelude::*;
use crate::config::ForgeConfig;
use crate::json::{Json, JsonView, ObjectBuilder};

verus! {

/// How results are shown.
#[derive(Clone, Copy, Debug, PartialEq, Eq, Structural)]
pub enum OutputFormat {
    /// Lines of text.
    Text,
    /// One JSON document.
    Json,
}

/// What a command runs with.
#[derive(Debug)]
pub struct ForgeContext<'a> {
    /// The configuration.
    pub config: &'a ForgeConfig,
    /// Directory of the configuration file.
    pub config_dir: String,
    /// Directory of the persisted state.
    pub state_dir: String,
    /// How results are shown.
    pub format: OutputFormat,
    /// Whether to show what would happen without making changes.
    pub dry_run: bool,
}

/// What a command shows.
#[derive(Debug)]
pub enum Shown {
    /// Lines of text.
    Lines(Vec<String>),
    /// A JSON document.
    Document(Json),
}

/// What a command shows, as contracts speak of it.
pub enum ShownView {
    /// Lines of text.
    Lines(Seq<Seq<char>>),
    /// A JSON document.
    Document(JsonView),
}

impl Shown {
    pub open spec fn view(&self) -> ShownView {
        match self {
            Shown::Lines(lines) => ShownView::Lines(crate::text::texts(lines@)),
            Shown::Document(value) => ShownView::Document(value@),
        }
    }
}

/// The document that reports a success with its data.
pub open spec fn success_document(data: JsonView) -> JsonView {
    JsonView::Object(seq![("data"@, data), ("ok"@, JsonView::Bool(true))])
}

/// Wraps the data of a success.
pub fn success(data: Json) -> (r: Json)
    ensures
        r@ == success_document(data@),
{
    let mut object = ObjectBuilder::new();
    object.put("data", data);
    object.put("ok", Json::Bool(true));
    assert(object@ =~= success_document(data@)->Object_0);
    object.finish()
}

} // verus!
